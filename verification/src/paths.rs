//! Paths as byte strings: components separated by `/`, the extension of a
//! file name set off by its last `.`.
//!
//! A path is read as its components. Separators at its end name nothing,
//! nor does a `.` behind a separator; `..` is a component, but no file
//! name.

use vstd::prelude::*;

verus! {

/// The byte that separates the components of a path.
pub const SEPARATOR: u8 = 0x2f;

/// The byte that sets a file name's extension off from its stem.
pub const DOT: u8 = 0x2e;

/// The position just behind the last occurrence of `byte` in `s`, and 0 where
/// `s` holds none.
pub open spec fn after_last(s: Seq<u8>, byte: u8) -> int
    decreases s.len(),
{
    if s.len() == 0 {
        0
    } else if s.last() == byte {
        s.len() as int
    } else {
        after_last(s.drop_last(), byte)
    }
}

/// `path` without what stands behind its last component and names
/// nothing: separators at the end, and a `.` that follows a separator.
pub open spec fn trimmed(path: Seq<u8>) -> Seq<u8>
    decreases path.len(),
{
    if path.len() == 0 {
        path
    } else if path.last() == SEPARATOR {
        trimmed(path.drop_last())
    } else if path.last() == DOT && path.len() >= 2 && path[path.len() - 2] == SEPARATOR {
        trimmed(path.drop_last())
    } else {
        path
    }
}

/// The last component of `path`: what follows the last separator of the
/// trimmed path. It is empty where the path is empty or names the root
/// only.
pub open spec fn last_component(path: Seq<u8>) -> Seq<u8> {
    trimmed(path).skip(after_last(trimmed(path), SEPARATOR))
}

/// Whether a component is the name of an entry: it is not empty, and it is
/// neither `.` nor `..`.
pub open spec fn is_name(component: Seq<u8>) -> bool {
    component.len() > 0 && component != seq![DOT] && component != seq![DOT, DOT]
}

/// The file name of `path`: its last component, where that is a name. A
/// path that ends in `..`, the root, and the empty path have none.
pub open spec fn file_name_of(path: Seq<u8>) -> Option<Seq<u8>> {
    if is_name(last_component(path)) {
        Some(last_component(path))
    } else {
        None
    }
}

/// Whether the file name `name` carries an extension: it holds a `.` that is
/// not its first byte.
pub open spec fn name_has_extension(name: Seq<u8>) -> bool {
    after_last(name, DOT) > 1
}

/// The extension of `path`: what follows the last `.` of its file name.
/// There is none where the path has no file name, where the name holds no
/// `.`, or only the one it begins with.
pub open spec fn extension_of(path: Seq<u8>) -> Option<Seq<u8>> {
    match file_name_of(path) {
        Some(name) => if name_has_extension(name) {
            Some(name.skip(after_last(name, DOT)))
        } else {
            None
        },
        None => None,
    }
}

/// The file name of `path` without its extension and the `.` before it; the
/// whole file name where it has no extension.
pub open spec fn file_stem_of(path: Seq<u8>) -> Option<Seq<u8>> {
    match file_name_of(path) {
        Some(name) => if name_has_extension(name) {
            Some(name.take(after_last(name, DOT) - 1))
        } else {
            Some(name)
        },
        None => None,
    }
}

/// The path without its last component: trimmed again, but never shorter
/// than the root. The empty path and the root have no parent; a path of one
/// component has the empty path for its parent.
pub open spec fn parent_of(path: Seq<u8>) -> Option<Seq<u8>> {
    let whole = trimmed(path);
    let k = after_last(whole, SEPARATOR);
    if whole.len() == 0 {
        None
    } else if k > 0 && trimmed(whole.take(k)).len() == 0 {
        Some(seq![SEPARATOR])
    } else {
        Some(trimmed(whole.take(k)))
    }
}

/// Whether `path` begins at the root.
pub open spec fn is_absolute(path: Seq<u8>) -> bool {
    path.len() > 0 && path[0] == SEPARATOR
}

/// `rest` appended to `base` as further components: joined by one separator,
/// unless `base` is empty or already ends in one. A `rest` that begins at
/// the root stands for itself.
pub open spec fn joined(base: Seq<u8>, rest: Seq<u8>) -> Seq<u8> {
    if is_absolute(rest) {
        rest
    } else if base.len() == 0 || base.last() == SEPARATOR {
        base + rest
    } else {
        base + seq![SEPARATOR] + rest
    }
}

/// The bytes of an ASCII text.
pub open spec fn ascii(text: Seq<char>) -> Seq<u8> {
    Seq::new(text.len(), |i: int| text[i] as u8)
}

/// `after_last` marks the last occurrence: it lies within `s`, the byte
/// before it is `byte` unless it is 0, and no `byte` follows it.
pub proof fn lemma_after_last(s: Seq<u8>, byte: u8)
    ensures
        0 <= after_last(s, byte) <= s.len(),
        after_last(s, byte) > 0 ==> s[after_last(s, byte) - 1] == byte,
        forall|j: int| after_last(s, byte) <= j < s.len() ==> s[j] != byte,
    decreases s.len(),
{
    if s.len() > 0 && s.last() != byte {
        let front = s.drop_last();
        lemma_after_last(front, byte);
        assert forall|j: int| after_last(s, byte) <= j < s.len() implies s[j] != byte by {
            if j < front.len() {
                assert(front[j] == s[j]);
            }
        }
    }
}

/// A position behind which no `byte` follows, and which is 0 or stands just
/// behind a `byte`, is the one that `after_last` gives.
pub proof fn lemma_after_last_unique(s: Seq<u8>, byte: u8, k: int)
    requires
        0 <= k <= s.len(),
        k > 0 ==> s[k - 1] == byte,
        forall|j: int| k <= j < s.len() ==> s[j] != byte,
    ensures
        after_last(s, byte) == k,
    decreases s.len(),
{
    if s.len() > 0 && s.last() != byte {
        let front = s.drop_last();
        assert forall|j: int| k <= j < front.len() implies front[j] != byte by {
            assert(front[j] == s[j]);
        }
        lemma_after_last_unique(front, byte, k);
    }
}

/// What stands between `base` and what is appended to it: one separator,
/// or nothing where `base` is empty or ends in a separator.
pub open spec fn joint(base: Seq<u8>) -> Seq<u8> {
    if base.len() == 0 || base.last() == SEPARATOR {
        Seq::empty()
    } else {
        seq![SEPARATOR]
    }
}

/// Whether `file` is an entry of the directory `dir`: the directory's path
/// with one name appended.
pub open spec fn lies_in(dir: Seq<u8>, file: Seq<u8>) -> bool {
    let front = dir + joint(dir);
    &&& file.len() > front.len()
    &&& file.take(front.len() as int) == front
    &&& is_name(file.skip(front.len() as int))
    &&& !file.skip(front.len() as int).contains(SEPARATOR)
}

/// The entries of a directory are the paths that come of appending a name
/// to it.
pub proof fn lemma_lies_in(dir: Seq<u8>, file: Seq<u8>)
    ensures
        lies_in(dir, file) <==> exists|name: Seq<u8>|
            is_name(name) && !name.contains(SEPARATOR) && file == #[trigger] joined(dir, name),
{
    let front = dir + joint(dir);
    if lies_in(dir, file) {
        let name = file.skip(front.len() as int);
        assert(!is_absolute(name)) by {
            assert(name.contains(name[0]));
        }
        assert(file =~= front + name);
        assert(joined(dir, name) =~= front + name);
    }
    if exists|name: Seq<u8>|
        is_name(name) && !name.contains(SEPARATOR) && file == #[trigger] joined(dir, name) {
        let name = choose|name: Seq<u8>|
            is_name(name) && !name.contains(SEPARATOR) && file == #[trigger] joined(dir, name);
        assert(!is_absolute(name)) by {
            assert(name.contains(name[0]));
        }
        assert(file =~= front + name);
        assert(file.take(front.len() as int) =~= front);
        assert(file.skip(front.len() as int) =~= name);
    }
}

/// Joining keeps both parts apart: under one base, different names give
/// different paths.
pub proof fn lemma_joined_is_injective(base: Seq<u8>, a: Seq<u8>, b: Seq<u8>)
    requires
        !is_absolute(a),
        !is_absolute(b),
        joined(base, a) == joined(base, b),
    ensures
        a == b,
{
    let front = base + joint(base);
    assert(joined(base, a) =~= front + a);
    assert(joined(base, b) =~= front + b);
    assert(a.len() == b.len());
    assert forall|i: int| 0 <= i < a.len() implies a[i] == b[i] by {
        assert((front + a)[front.len() + i] == a[i]);
        assert((front + b)[front.len() + i] == b[i]);
    }
    assert(a =~= b);
}

/// Trimming takes bytes off the end only, and what it leaves is trimmed:
/// it does not end in a separator, nor in a `.` that follows one.
pub proof fn lemma_trimmed(path: Seq<u8>)
    ensures
        trimmed(path).len() <= path.len(),
        trimmed(path) == path.take(trimmed(path).len() as int),
        trimmed(trimmed(path)) == trimmed(path),
        trimmed(path).len() > 0 ==> trimmed(path).last() != SEPARATOR,
    decreases path.len(),
{
    if path.len() == 0 {
        assert(path.take(0) =~= path);
    } else if path.last() == SEPARATOR || (path.last() == DOT && path.len() >= 2 && path[path.len()
        - 2] == SEPARATOR) {
        let front = path.drop_last();
        lemma_trimmed(front);
        assert(front.take(trimmed(front).len() as int) =~= path.take(trimmed(front).len() as int));
    } else {
        assert(path.take(path.len() as int) =~= path);
    }
}

/// Whether `dir` is written as the parent of a path is written: it is the
/// root, or it is trimmed.
pub open spec fn is_plain_directory(dir: Seq<u8>) -> bool {
    dir == seq![SEPARATOR] || trimmed(dir) == dir
}

/// A name appended to a directory is the file name of the path that comes
/// of it, and the directory is that path's parent.
pub proof fn lemma_parts_of_joined(base: Seq<u8>, name: Seq<u8>)
    requires
        is_name(name),
        !name.contains(SEPARATOR),
    ensures
        trimmed(joined(base, name)) == joined(base, name),
        file_name_of(joined(base, name)) == Some(name),
        is_plain_directory(base) ==> parent_of(joined(base, name)) == Some(base),
{
    let front = base + joint(base);
    let path = joined(base, name);
    assert(!is_absolute(name)) by {
        assert(name.contains(name[0]));
    }
    assert(path =~= front + name);
    assert forall|j: int| front.len() <= j < path.len() implies path[j] != SEPARATOR by {
        assert(path[j] == name[j - front.len()]);
        assert(name.contains(name[j - front.len()]));
    }
    assert(path.last() == name.last());
    if path.last() == DOT && path.len() >= 2 && path[path.len() - 2] == SEPARATOR {
        if name.len() >= 2 {
            assert(path[path.len() - 2] == name[name.len() - 2]);
        } else {
            assert(name =~= seq![DOT]);
        }
    }
    assert(trimmed(path) == path);
    lemma_after_last_unique(path, SEPARATOR, front.len() as int);
    assert(last_component(path) =~= name);
    if is_plain_directory(base) {
        assert(path.take(front.len() as int) =~= front);
        if base.len() == 0 {
            assert(front =~= base);
        } else if base == seq![SEPARATOR] {
            assert(front =~= base);
            assert(front.drop_last().len() == 0);
            assert(trimmed(front.drop_last()).len() == 0);
        } else {
            lemma_trimmed(base);
            assert(front =~= base + seq![SEPARATOR]);
            assert(front.drop_last() =~= base);
        }
    }
}

/// A file name with an extension is its stem, a dot and the extension.
pub proof fn lemma_name_of_parts(path: Seq<u8>)
    requires
        extension_of(path) is Some,
    ensures
        file_name_of(path) == Some(file_stem_of(path)->0 + seq![DOT] + extension_of(path)->0),
        file_stem_of(path) is Some,
        !(extension_of(path)->0).contains(DOT),
{
    let name = file_name_of(path)->0;
    let k = after_last(name, DOT);
    lemma_after_last(name, DOT);
    assert(name =~= name.take(k - 1) + seq![DOT] + name.skip(k));
    let ext = name.skip(k);
    assert forall|j: int| 0 <= j < ext.len() implies ext[j] != DOT by {
        assert(ext[j] == name[k + j]);
    }
}

/// A file name put together from a stem and an extension comes apart into
/// the two again, unless the two make up `..`.
pub proof fn lemma_parts_of_name(stem: Seq<u8>, ext: Seq<u8>)
    requires
        stem.len() > 0,
        !stem.contains(SEPARATOR),
        !ext.contains(SEPARATOR),
        !ext.contains(DOT),
        stem != seq![DOT] || ext.len() > 0,
    ensures
        is_name(stem + seq![DOT] + ext),
        !(stem + seq![DOT] + ext).contains(SEPARATOR),
        extension_of(stem + seq![DOT] + ext) == Some(ext),
        file_stem_of(stem + seq![DOT] + ext) == Some(stem),
{
    let name = stem + seq![DOT] + ext;
    assert forall|j: int| 0 <= j < name.len() implies name[j] != SEPARATOR by {
        if j < stem.len() {
            assert(stem.contains(stem[j]));
        } else if j > stem.len() {
            assert(ext.contains(ext[j - stem.len() - 1]));
        }
    }
    assert(name.len() >= 2);
    if name == seq![DOT, DOT] {
        assert(stem.len() == 1 && ext.len() == 0);
        assert(stem[0] == name[0]);
        assert(stem =~= seq![DOT]);
    }
    assert(is_name(name));
    lemma_parts_of_joined(Seq::empty(), name);
    assert(joined(Seq::empty(), name) =~= name);
    assert forall|j: int| stem.len() + 1 <= j < name.len() implies name[j] != DOT by {
        assert(ext.contains(ext[j - stem.len() - 1]));
    }
    lemma_after_last_unique(name, DOT, (stem.len() + 1) as int);
    assert(name.skip((stem.len() + 1) as int) =~= ext);
    assert(name.take(stem.len() as int) =~= stem);
}

/// The position just behind the last `byte` in `s`.
pub fn last_position(s: &[u8], byte: u8) -> (k: usize)
    ensures
        k as int == after_last(s@, byte),
        k <= s.len(),
{
    let mut i: usize = s.len();
    while i > 0
        invariant
            i <= s.len(),
            forall|j: int| i <= j < s@.len() ==> s@[j] != byte,
        decreases i,
    {
        if s[i - 1] == byte {
            proof {
                lemma_after_last_unique(s@, byte, i as int);
            }
            return i;
        }
        i -= 1;
    }
    proof {
        lemma_after_last_unique(s@, byte, 0);
    }
    0
}

/// The length of `path` without what stands behind its last component
/// and names nothing.
pub fn trimmed_length(path: &[u8]) -> (n: usize)
    ensures
        n <= path.len(),
        path@.take(n as int) == trimmed(path@),
{
    let mut n: usize = path.len();
    assert(path@.take(n as int) =~= path@);
    while n > 0 && (path[n - 1] == SEPARATOR || (path[n - 1] == DOT && n >= 2 && path[n - 2]
        == SEPARATOR))
        invariant
            n <= path.len(),
            trimmed(path@) == trimmed(path@.take(n as int)),
        decreases n,
    {
        assert(path@.take(n as int).drop_last() =~= path@.take(n - 1));
        n -= 1;
    }
    n
}

/// The last component of `path`.
fn last_component_of(path: &[u8]) -> (component: &[u8])
    ensures
        component@ == last_component(path@),
{
    let n: usize = trimmed_length(path);
    let whole = vstd::slice::slice_subrange(path, 0, n);
    let k: usize = last_position(whole, SEPARATOR);
    vstd::slice::slice_subrange(whole, k, n)
}

/// Whether a component is the name of an entry.
pub fn names_an_entry(component: &[u8]) -> (named: bool)
    ensures
        named == is_name(component@),
{
    if component.len() == 0 {
        false
    } else if component.len() == 1 && component[0] == DOT {
        assert(component@ =~= seq![DOT]);
        false
    } else if component.len() == 2 && component[0] == DOT && component[1] == DOT {
        assert(component@ =~= seq![DOT, DOT]);
        false
    } else {
        assert(component@ != seq![DOT]) by {
            if component@ == seq![DOT] {
                assert(seq![DOT].len() == 1 && seq![DOT][0] == DOT);
            }
        }
        assert(component@ != seq![DOT, DOT]) by {
            if component@ == seq![DOT, DOT] {
                assert(seq![DOT, DOT].len() == 2 && seq![DOT, DOT][0] == DOT && seq![DOT, DOT][1]
                    == DOT);
            }
        }
        true
    }
}

/// The file name of `path`, if it has one.
pub fn file_name(path: &[u8]) -> (name: Option<&[u8]>)
    ensures
        name is Some == file_name_of(path@) is Some,
        name is Some ==> name->0@ == file_name_of(path@)->0,
{
    let component = last_component_of(path);
    if names_an_entry(component) {
        Some(component)
    } else {
        None
    }
}

/// The extension of `path`, if it has one. It holds no `.`.
pub fn extension(path: &[u8]) -> (ext: Option<&[u8]>)
    ensures
        ext is Some == extension_of(path@) is Some,
        ext is Some ==> ext->0@ == extension_of(path@)->0,
        ext is Some ==> !ext->0@.contains(DOT),
{
    proof {
        if extension_of(path@) is Some {
            lemma_name_of_parts(path@);
        }
    }
    match file_name(path) {
        Some(name) => {
            let k: usize = last_position(name, DOT);
            if k > 1 {
                Some(vstd::slice::slice_subrange(name, k, name.len()))
            } else {
                None
            }
        },
        None => None,
    }
}

/// The file name of `path` without its extension, if the path has a file
/// name.
pub fn file_stem(path: &[u8]) -> (stem: Option<&[u8]>)
    ensures
        stem is Some == file_stem_of(path@) is Some,
        stem is Some ==> stem->0@ == file_stem_of(path@)->0,
{
    match file_name(path) {
        Some(name) => {
            let k: usize = last_position(name, DOT);
            if k > 1 {
                Some(vstd::slice::slice_subrange(name, 0, k - 1))
            } else {
                Some(name)
            }
        },
        None => None,
    }
}

/// The path without its last component, if it has one.
pub fn parent(path: &[u8]) -> (dir: Option<Vec<u8>>)
    ensures
        dir is Some == parent_of(path@) is Some,
        dir is Some ==> dir->0@ == parent_of(path@)->0,
{
    let n: usize = trimmed_length(path);
    if n == 0 {
        return None;
    }
    let whole = vstd::slice::slice_subrange(path, 0, n);
    let k: usize = last_position(whole, SEPARATOR);
    let before = vstd::slice::slice_subrange(whole, 0, k);
    let m: usize = trimmed_length(before);
    if k > 0 && m == 0 {
        let mut root: Vec<u8> = Vec::new();
        root.push(SEPARATOR);
        assert(root@ =~= seq![SEPARATOR]);
        Some(root)
    } else {
        Some(vstd::slice::slice_to_vec(vstd::slice::slice_subrange(before, 0, m)))
    }
}

/// Appends the bytes of `tail` to `out`.
pub fn append_bytes(out: &mut Vec<u8>, tail: &[u8])
    ensures
        final(out)@ == old(out)@ + tail@,
{
    let ghost before = out@;
    let mut i: usize = 0;
    while i < tail.len()
        invariant
            i <= tail.len(),
            out@ == before + tail@.take(i as int),
        decreases tail.len() - i,
    {
        out.push(tail[i]);
        assert(tail@.take(i + 1) =~= tail@.take(i as int).push(tail@[i as int]));
        assert(out@ =~= before + tail@.take(i + 1));
        i += 1;
    }
    assert(tail@.take(i as int) =~= tail@);
}

/// `rest` appended to `base` as further components.
pub fn join(base: &[u8], rest: &[u8]) -> (path: Vec<u8>)
    ensures
        path@ == joined(base@, rest@),
{
    if rest.len() > 0 && rest[0] == SEPARATOR {
        return vstd::slice::slice_to_vec(rest);
    }
    let mut path: Vec<u8> = Vec::new();
    append_bytes(&mut path, base);
    assert(path@ =~= base@);
    if base.len() > 0 && base[base.len() - 1] != SEPARATOR {
        path.push(SEPARATOR);
        assert(path@ =~= base@ + seq![SEPARATOR]);
    }
    append_bytes(&mut path, rest);
    path
}

/// Whether `file` is an entry of the directory `dir`.
pub fn is_entry_of(dir: &[u8], file: &[u8]) -> (inside: bool)
    ensures
        inside == lies_in(dir@, file@),
{
    let front = join(dir, vstd::slice::slice_subrange(dir, 0, 0));
    assert(front@ =~= dir@ + joint(dir@));
    if file.len() <= front.len() {
        return false;
    }
    if !same_bytes(vstd::slice::slice_subrange(file, 0, front.len()), front.as_slice()) {
        return false;
    }
    let name = vstd::slice::slice_subrange(file, front.len(), file.len());
    if !names_an_entry(name) {
        return false;
    }
    let mut k: usize = 0;
    while k < name.len()
        invariant
            k <= name.len(),
            front@ == dir@ + joint(dir@),
            file.len() > front.len(),
            file@.take(front@.len() as int) == front@,
            name@ == file@.skip(front@.len() as int),
            is_name(name@),
            forall|c: int| 0 <= c < k ==> name@[c] != SEPARATOR,
        decreases name.len() - k,
    {
        if name[k] == SEPARATOR {
            assert(name@.contains(name@[k as int]));
            return false;
        }
        k += 1;
    }
    true
}

/// Whether two byte strings hold the same bytes.
pub fn same_bytes(a: &[u8], b: &[u8]) -> (same: bool)
    ensures
        same == (a@ == b@),
{
    if a.len() != b.len() {
        return false;
    }
    let mut i: usize = 0;
    while i < a.len()
        invariant
            i <= a.len(),
            a.len() == b.len(),
            forall|j: int| 0 <= j < i ==> a@[j] == b@[j],
        decreases a.len() - i,
    {
        if a[i] != b[i] {
            return false;
        }
        i += 1;
    }
    assert(a@ =~= b@);
    true
}

/// The bytes of an ASCII text.
pub fn ascii_bytes(text: &str) -> (bytes: &[u8])
    requires
        text.is_ascii(),
    ensures
        bytes@ == ascii(text@),
{
    broadcast use vstd::string::is_ascii_spec_bytes;

    text.as_bytes()
}

} // verus!
