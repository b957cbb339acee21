//! What is checked before any mod is touched: that the game is where the
//! registry says, and that the files which modding needs are in place.

use vstd::prelude::*;
use crate::classifier::{walk_views, WalkItem, WalkItemView};
use crate::paths::{
    append_bytes, ascii, ascii_bytes, file_name, file_name_of, join, joined,
    lemma_parts_of_joined, same_bytes, SEPARATOR,
};
use crate::records::path_views;

verus! {

/// The name of the game's executable.
pub open spec fn game_executable() -> Seq<u8> {
    ascii("NieRAutomata.exe"@)
}

/// The names of the files that the game's directory has to hold before it
/// can be modded, in the order in which they are looked for.
pub open spec fn required_names() -> Seq<Seq<u8>> {
    seq![ascii("NieRAutomata.exe"@), ascii("d3d11.dll"@)]
}

/// Whether one of the entries that were read goes by `name`.
pub open spec fn lists(items: Seq<WalkItemView>, name: Seq<u8>) -> bool {
    exists|i: int|
        0 <= i < items.len() && (#[trigger] items[i]) is Entry && file_name_of(items[i]->path)
            == Some(name)
}

/// Those of `names`, in their order and as paths below `dir`, that none of
/// the entries goes by.
pub open spec fn missing_among(dir: Seq<u8>, names: Seq<Seq<u8>>, items: Seq<WalkItemView>) -> Seq<
    Seq<u8>,
>
    decreases names.len(),
{
    if names.len() == 0 {
        Seq::empty()
    } else {
        let before = missing_among(dir, names.drop_last(), items);
        if lists(items, names.last()) {
            before
        } else {
            before.push(joined(dir, names.last()))
        }
    }
}

/// Nothing is missing exactly where every required file is listed, and a
/// file that is listed is never named as missing.
pub proof fn lemma_missing_files(dir: Seq<u8>, items: Seq<WalkItemView>)
    ensures
        missing_among(dir, required_names(), items).len() == 0 <==> lists(
            items,
            ascii("NieRAutomata.exe"@),
        ) && lists(items, ascii("d3d11.dll"@)),
        missing_among(dir, required_names(), items) == (if lists(
            items,
            ascii("NieRAutomata.exe"@),
        ) {
            Seq::<Seq<u8>>::empty()
        } else {
            seq![joined(dir, ascii("NieRAutomata.exe"@))]
        }) + (if lists(items, ascii("d3d11.dll"@)) {
            Seq::<Seq<u8>>::empty()
        } else {
            seq![joined(dir, ascii("d3d11.dll"@))]
        }),
{
    let names = required_names();
    let first = names.drop_last();
    assert(first.len() == 1);
    assert(first.last() == ascii("NieRAutomata.exe"@));
    assert(first.drop_last().len() == 0);
    assert(missing_among(dir, first.drop_last(), items) =~= Seq::<Seq<u8>>::empty());
    assert(missing_among(dir, first, items) =~= (if lists(items, ascii("NieRAutomata.exe"@)) {
        Seq::<Seq<u8>>::empty()
    } else {
        seq![joined(dir, ascii("NieRAutomata.exe"@))]
    }));
    let both = missing_among(dir, names, items);
    assert(names.last() == ascii("d3d11.dll"@));
    assert(both =~= (if lists(items, ascii("NieRAutomata.exe"@)) {
        Seq::<Seq<u8>>::empty()
    } else {
        seq![joined(dir, ascii("NieRAutomata.exe"@))]
    }) + (if lists(items, ascii("d3d11.dll"@)) {
        Seq::<Seq<u8>>::empty()
    } else {
        seq![joined(dir, ascii("d3d11.dll"@))]
    }));
}

/// Whether one of the entries that were read goes by `name`.
pub fn is_listed(items: &[WalkItem], name: &[u8]) -> (found: bool)
    ensures
        found == lists(walk_views(items@), name@),
{
    let ghost views = walk_views(items@);
    let mut i: usize = 0;
    while i < items.len()
        invariant
            i <= items.len(),
            views == walk_views(items@),
            forall|j: int|
                0 <= j < i ==> !((#[trigger] views[j]) is Entry && file_name_of(views[j]->path)
                    == Some(name@)),
        decreases items.len() - i,
    {
        assert(views[i as int] == items@[i as int]@);
        match &items[i] {
            WalkItem::Entry { path, .. } => {
                if let Some(found) = file_name(path.as_slice()) {
                    if same_bytes(found, name) {
                        return true;
                    }
                }
            },
            WalkItem::Unreadable(_) => {},
        }
        i += 1;
    }
    false
}

/// The files that modding needs, as paths below `dir`.
pub open spec fn required_below(dir: Seq<u8>) -> Seq<Seq<u8>> {
    required_names().map_values(|name: Seq<u8>| joined(dir, name))
}

/// A required file that is entered under its path below the game's
/// directory is listed under its name, and so is not missing.
pub proof fn lemma_required_file_is_listed(dir: Seq<u8>, items: Seq<WalkItemView>, i: int, k: int)
    requires
        0 <= i < required_names().len(),
        0 <= k < items.len(),
        items[k] is Entry,
        items[k]->path == required_below(dir)[i],
    ensures
        lists(items, required_names()[i]),
{
    reveal_strlit("NieRAutomata.exe");
    reveal_strlit("d3d11.dll");
    let name = required_names()[i];
    assert(name.len() > 2);
    assert forall|j: int| 0 <= j < name.len() implies name[j] != SEPARATOR by {}
    lemma_parts_of_joined(dir, name);
}

/// The files that modding needs, as paths below `game_path`, in the order
/// in which they are looked for.
pub fn required_modding_files(game_path: &[u8]) -> (files: Vec<Vec<u8>>)
    ensures
        path_views(files@) == required_below(game_path@),
{
    proof {
        reveal_strlit("NieRAutomata.exe");
        reveal_strlit("d3d11.dll");
    }
    let mut files: Vec<Vec<u8>> = Vec::new();
    files.push(join(game_path, ascii_bytes("NieRAutomata.exe")));
    files.push(join(game_path, ascii_bytes("d3d11.dll")));
    assert(path_views(files@) =~= required_below(game_path@));
    files
}

/// Whether the directory whose entries are `items` is the game's: it holds
/// the game's executable. Entries that could not be read are passed over.
pub fn check_path(items: &[WalkItem]) -> (is_gamepath: bool)
    ensures
        is_gamepath == lists(walk_views(items@), game_executable()),
{
    proof {
        reveal_strlit("NieRAutomata.exe");
    }
    is_listed(items, ascii_bytes("NieRAutomata.exe"))
}

/// The files that modding needs and that the game's directory lacks, as
/// paths below `game_path`. `items` are the entries of that directory.
pub fn check_for_required_modding_files(game_path: &[u8], items: &[WalkItem]) -> (missing_files:
    Vec<Vec<u8>>)
    ensures
        path_views(missing_files@) == missing_among(
            game_path@,
            required_names(),
            walk_views(items@),
        ),
{
    proof {
        reveal_strlit("NieRAutomata.exe");
        reveal_strlit("d3d11.dll");
    }
    let required_files: [&[u8]; 2] = [ascii_bytes("NieRAutomata.exe"), ascii_bytes("d3d11.dll")];
    let ghost names = required_names();
    let ghost views = walk_views(items@);
    assert(names.len() == 2);
    assert(names[0] == required_files@[0]@ && names[1] == required_files@[1]@);
    let mut missing_files: Vec<Vec<u8>> = Vec::new();
    let mut i: usize = 0;
    assert(names.take(0) =~= Seq::empty());
    assert(path_views(missing_files@) =~= Seq::empty());
    while i < 2
        invariant
            i <= 2,
            names == required_names(),
            views == walk_views(items@),
            names.len() == 2,
            names[0] == required_files@[0]@ && names[1] == required_files@[1]@,
            path_views(missing_files@) == missing_among(game_path@, names.take(i as int), views),
        decreases 2 - i,
    {
        let ghost before = path_views(missing_files@);
        assert(names.take(i + 1).drop_last() =~= names.take(i as int));
        assert(names.take(i + 1).last() == names[i as int]);
        let file: &[u8] = required_files[i];
        if !is_listed(items, file) {
            let path = join(game_path, file);
            missing_files.push(path);
            assert(path_views(missing_files@) =~= before.push(joined(game_path@, file@)));
        }
        i += 1;
    }
    assert(names.take(2) =~= names);
    missing_files
}

/// Where the script that installs the files which modding needs is kept,
/// under the home directory `home`.
pub open spec fn prerequisites_script_of(home: Seq<u8>) -> Seq<u8> {
    home + ascii("/.local/share/ATA/install-prerequisites.sh"@)
}

/// Where the script that installs the files which modding needs is kept,
/// under the home directory `home`.
pub fn prerequisites_script(home: &[u8]) -> (path: Vec<u8>)
    ensures
        path@ == prerequisites_script_of(home@),
{
    proof {
        reveal_strlit("/.local/share/ATA/install-prerequisites.sh");
    }
    let mut path = vstd::slice::slice_to_vec(home);
    append_bytes(&mut path, ascii_bytes("/.local/share/ATA/install-prerequisites.sh"));
    path
}

} // verus!
