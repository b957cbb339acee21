use ata::paths::{
    append_bytes, ascii_bytes, extension, file_name, file_stem, is_entry_of, join, last_position,
    names_an_entry, parent, same_bytes, trimmed_length, DOT, SEPARATOR,
};
use ata::text::same_text;

#[test]
fn separator_and_dot() {
    assert_eq!(SEPARATOR, b'/');
    assert_eq!(DOT, b'.');
}

#[test]
fn last_position_is_behind_the_last_occurrence() {
    assert_eq!(last_position(b"a/b/c", b'/'), 4);
    assert_eq!(last_position(b"abc", b'/'), 0);
    assert_eq!(last_position(b"", b'/'), 0);
    assert_eq!(last_position(b"/", b'/'), 1);
    assert_eq!(last_position(b"abc/", b'/'), 4);
}

#[test]
fn file_name_is_the_last_component() {
    assert_eq!(file_name(b"/tmp/unpacked/costume/pl.dtt"), Some(&b"pl.dtt"[..]));
    assert_eq!(file_name(b"pl.dtt"), Some(&b"pl.dtt"[..]));
    assert_eq!(file_name(b"/tmp/unpacked/"), Some(&b"unpacked"[..]));
    assert_eq!(file_name(b"/tmp/unpacked//"), Some(&b"unpacked"[..]));
    assert_eq!(file_name(b"foo.txt/."), Some(&b"foo.txt"[..]));
    assert_eq!(file_name(b"foo.txt/.//"), Some(&b"foo.txt"[..]));
    assert_eq!(file_name(b"..."), Some(&b"..."[..]));
}

#[test]
fn some_paths_have_no_file_name() {
    assert_eq!(file_name(b""), None);
    assert_eq!(file_name(b"/"), None);
    assert_eq!(file_name(b"//"), None);
    assert_eq!(file_name(b"."), None);
    assert_eq!(file_name(b"./"), None);
    assert_eq!(file_name(b"/."), None);
    assert_eq!(file_name(b".."), None);
    assert_eq!(file_name(b"m/.."), None);
    assert_eq!(file_name(b"foo.txt/.."), None);
    assert_eq!(file_name(b"m/../"), None);
}

#[test]
fn names_are_neither_empty_nor_dots() {
    assert!(names_an_entry(b"a"));
    assert!(names_an_entry(b"..."));
    assert!(names_an_entry(b".a"));
    assert!(names_an_entry(b"a."));
    assert!(!names_an_entry(b""));
    assert!(!names_an_entry(b"."));
    assert!(!names_an_entry(b".."));
}

#[test]
fn trimming_takes_off_what_names_nothing() {
    assert_eq!(trimmed_length(b"a/b"), 3);
    assert_eq!(trimmed_length(b"a/b/"), 3);
    assert_eq!(trimmed_length(b"a/b/./"), 3);
    assert_eq!(trimmed_length(b"a/b//.//."), 3);
    assert_eq!(trimmed_length(b"a/.."), 4);
    assert_eq!(trimmed_length(b"a/b."), 4);
    assert_eq!(trimmed_length(b"."), 1);
    assert_eq!(trimmed_length(b"/."), 0);
    assert_eq!(trimmed_length(b"///"), 0);
    assert_eq!(trimmed_length(b""), 0);
}

#[test]
fn extension_follows_the_last_dot_of_the_name() {
    assert_eq!(extension(b"/tmp/skin.dss"), Some(&b"dss"[..]));
    assert_eq!(extension(b"a.b.c"), Some(&b"c"[..]));
    assert_eq!(extension(b"name."), Some(&b""[..]));
    assert_eq!(extension(b"/tmp.d/skin"), None);
    assert_eq!(extension(b".bashrc"), None);
    assert_eq!(extension(b".bashrc.bak"), Some(&b"bak"[..]));
    assert_eq!(extension(b""), None);
    assert_eq!(extension(b"m/skin.dss/"), Some(&b"dss"[..]));
    assert_eq!(extension(b"m/skin.dss/."), Some(&b"dss"[..]));
    assert_eq!(extension(b".."), None);
    assert_eq!(extension(b"m/.."), None);
    assert_eq!(extension(b"..."), Some(&b""[..]));
    assert_eq!(extension(b"..a"), Some(&b"a"[..]));
}

#[test]
fn file_stem_is_the_name_without_extension() {
    assert_eq!(file_stem(b"/tmp/costume/pl.dtt"), Some(&b"pl"[..]));
    assert_eq!(file_stem(b"a.b.c"), Some(&b"a.b"[..]));
    assert_eq!(file_stem(b"README"), Some(&b"README"[..]));
    assert_eq!(file_stem(b".bashrc"), Some(&b".bashrc"[..]));
    assert_eq!(file_stem(b"name."), Some(&b"name"[..]));
    assert_eq!(file_stem(b"m/pl.dtt/"), Some(&b"pl"[..]));
    assert_eq!(file_stem(b".."), None);
    assert_eq!(file_stem(b"/"), None);
    assert_eq!(file_stem(b""), None);
}

#[test]
fn parent_is_the_path_without_its_last_component() {
    assert_eq!(parent(b"/tmp/unpacked/costume/pl.dtt"), Some(b"/tmp/unpacked/costume".to_vec()));
    assert_eq!(parent(b"costume/pl.dtt"), Some(b"costume".to_vec()));
    assert_eq!(parent(b"costume//pl.dtt/"), Some(b"costume".to_vec()));
    assert_eq!(parent(b"costume/./pl.dtt"), Some(b"costume".to_vec()));
    assert_eq!(parent(b"/pl.dtt"), Some(b"/".to_vec()));
    assert_eq!(parent(b"//pl.dtt"), Some(b"/".to_vec()));
    assert_eq!(parent(b"pl.dtt"), Some(b"".to_vec()));
    assert_eq!(parent(b"./pl.dtt"), Some(b".".to_vec()));
    assert_eq!(parent(b"a/.."), Some(b"a".to_vec()));
    assert_eq!(parent(b"a/../b"), Some(b"a/..".to_vec()));
    assert_eq!(parent(b"."), Some(b"".to_vec()));
    assert_eq!(parent(b""), None);
    assert_eq!(parent(b"/"), None);
    assert_eq!(parent(b"/."), None);
}

#[test]
fn path_parts_are_those_of_the_standard_library() {
    let corpus = [
        "", "/", "//", ".", "..", "...", "./", "../", "/.", "/..", "./.", "a", "a/", "a//", "a/.",
        "a/./", "a/..", "a/../", "a/b", "a//b", "a/./b", "a/../b", "/a", "//a", "/./a", "./a",
        ".//a", "../a", "a.b", "a.b.c", ".a", ".a.b", "a.", "a..", "..a", "a/.b", "a/b.", "m/skin.dss/",
        "m/skin.dss/.", "m/skin.dss/./", "m/skin.dss//", "foo.txt/.//", "/tmp/unpacked/costume/pl.dtt",
        "/tmp/x.d/y", "/tmp/x.d/.y.z", "a/b/c/../..", "sk\u{ef}n.dss", "d\u{ef}r.x/n\u{ef}me.\u{e9}xt",
    ];
    for text in corpus {
        let path = std::path::Path::new(text);
        let bytes = text.as_bytes();
        let name = path.file_name().map(|part| part.to_str().unwrap().as_bytes());
        let ext = path.extension().map(|part| part.to_str().unwrap().as_bytes());
        let stem = path.file_stem().map(|part| part.to_str().unwrap().as_bytes());
        assert_eq!(file_name(bytes), name, "file name of {:?}", text);
        assert_eq!(extension(bytes), ext, "extension of {:?}", text);
        assert_eq!(file_stem(bytes), stem, "file stem of {:?}", text);
        assert_eq!(
            parent(bytes),
            path.parent().map(|dir| dir.to_str().unwrap().as_bytes().to_vec()),
            "parent of {:?}",
            text
        );
    }
}

#[test]
fn join_puts_one_separator_between() {
    assert_eq!(join(b"/game", b"data/pl"), b"/game/data/pl".to_vec());
    assert_eq!(join(b"/game/", b"data/pl"), b"/game/data/pl".to_vec());
    assert_eq!(join(b"", b"data/pl"), b"data/pl".to_vec());
    assert_eq!(join(b"/", b"data"), b"/data".to_vec());
    assert_eq!(join(b"/game", b""), b"/game/".to_vec());
    assert_eq!(join(b"/game", b"/elsewhere/presets"), b"/elsewhere/presets".to_vec());
    assert_eq!(join(b"", b"/"), b"/".to_vec());
    assert_eq!(join(b"", b""), b"".to_vec());
}

#[test]
fn join_is_that_of_the_standard_library() {
    let parts = ["", "/", "a", "a/", "a//", "/a", "/a/", ".", "..", "a/b", "/a/b", "data/pl", "/SK_Res"];
    for base in parts {
        for rest in parts {
            let expected = std::path::Path::new(base).join(rest);
            assert_eq!(
                join(base.as_bytes(), rest.as_bytes()),
                expected.to_str().unwrap().as_bytes().to_vec(),
                "{:?} joined with {:?}",
                base,
                rest
            );
        }
    }
}

#[test]
fn joined_name_comes_apart_again() {
    let path = join(b"/game/data/pl", b"pl0000.dtt");
    assert_eq!(file_name(&path), Some(&b"pl0000.dtt"[..]));
    assert_eq!(parent(&path), Some(b"/game/data/pl".to_vec()));
    assert_eq!(extension(&path), Some(&b"dtt"[..]));
    assert_eq!(file_stem(&path), Some(&b"pl0000"[..]));
}

#[test]
fn append_bytes_appends() {
    let mut out = b"abc".to_vec();
    append_bytes(&mut out, b"def");
    assert_eq!(out, b"abcdef".to_vec());
    append_bytes(&mut out, b"");
    assert_eq!(out, b"abcdef".to_vec());
}

#[test]
fn same_bytes_compares_contents() {
    assert!(same_bytes(b"abc", b"abc"));
    assert!(same_bytes(b"", b""));
    assert!(!same_bytes(b"abc", b"abd"));
    assert!(!same_bytes(b"abc", b"ab"));
    assert!(!same_bytes(b"ab", b"abc"));
}

#[test]
fn ascii_bytes_are_the_characters() {
    assert_eq!(ascii_bytes("data/pl"), b"data/pl");
    assert_eq!(ascii_bytes(""), b"");
}

#[test]
fn same_text_compares_texts() {
    assert!(same_text("Textures", "Textures"));
    assert!(!same_text("Textures", "textures"));
    assert!(!same_text("na\u{ef}ve", "naive"));
    assert!(same_text("na\u{ef}ve", "na\u{ef}ve"));
    assert!(same_text("", ""));
}

#[test]
fn name_is_stem_dot_extension() {
    for path in [&b"/tmp/costume/pl.dtt"[..], b"a.b.c", b"name.", b".bashrc.bak", b"dir.d/x.y"] {
        let mut name = file_stem(path).unwrap().to_vec();
        name.push(DOT);
        name.extend_from_slice(extension(path).unwrap());
        assert_eq!(name, file_name(path).unwrap().to_vec());
    }
}

#[test]
fn parent_and_name_make_the_path() {
    for path in [&b"/tmp/unpacked/costume/pl.dtt"[..], b"costume/pl.dtt", b"/pl.dtt", b"pl.dtt"] {
        assert_eq!(join(&parent(path).unwrap(), file_name(path).unwrap()), path.to_vec());
    }
}

#[test]
fn entries_lie_in_their_directory() {
    assert!(is_entry_of(b"/game/data/pl", b"/game/data/pl/pl.dtt"));
    assert!(is_entry_of(b"/game/data/pl/", b"/game/data/pl/pl.dtt"));
    assert!(is_entry_of(b"", b"pl.dtt"));
    assert!(is_entry_of(b"/", b"/pl.dtt"));
    assert!(!is_entry_of(b"/game/data/pl", b"/game/data/pl"));
    assert!(!is_entry_of(b"/game/data/pl", b"/game/data/pl/"));
    assert!(!is_entry_of(b"/game/data/pl", b"/game/data/pl/sub/pl.dtt"));
    assert!(!is_entry_of(b"/game/data/pl", b"/game/data/pl/.."));
    assert!(!is_entry_of(b"/game/data/pl", b"/game/data/pl/."));
    assert!(!is_entry_of(b"/game/data/pl", b"/game/data/plpl.dtt"));
    assert!(!is_entry_of(b"/game/data/pl", b"/game/data/wp/pl.dtt"));
    assert!(!is_entry_of(b"/game/data/pl", b"pl.dtt"));
    assert!(is_entry_of(b"/game/data/pl", &join(b"/game/data/pl", b"pl.dtt")));
}
