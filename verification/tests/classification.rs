use ata::classifier::{
    check_mod_type, classify_game_file, get_file_extension, name_is_readable,
    ClassificationRules, ExtensionError, Inspection, WalkItem,
};
use ata::errors::InstallationError;
use ata::records::ModType;

fn bytes(text: &str) -> Vec<u8> {
    text.as_bytes().to_vec()
}

fn file(path: &str) -> WalkItem {
    WalkItem::Entry { path: bytes(path), is_file: true }
}

fn directory(path: &str) -> WalkItem {
    WalkItem::Entry { path: bytes(path), is_file: false }
}

#[test]
fn texture_files_are_textures() {
    assert_eq!(classify_game_file(b"skin.dss"), Some(ModType::Textures));
    assert_eq!(classify_game_file(b"/tmp/unpacked/deep/er/skin.dss"), Some(ModType::Textures));
}

#[test]
fn movie_files_are_cutscene_replacements() {
    assert_eq!(classify_game_file(b"intro.usm"), Some(ModType::CutsceneReplacements));
}

#[test]
fn model_files_go_by_their_stem() {
    assert_eq!(classify_game_file(b"pl.dtt"), Some(ModType::PlayerModels));
    assert_eq!(classify_game_file(b"pl.dat"), Some(ModType::PlayerModels));
    assert_eq!(classify_game_file(b"wp.dtt"), Some(ModType::WeaponModels));
    assert_eq!(classify_game_file(b"wp.dat"), Some(ModType::WeaponModels));
    assert_eq!(classify_game_file(b"bg.dtt"), Some(ModType::WorldModels));
    assert_eq!(classify_game_file(b"bg.dat"), Some(ModType::WorldModels));
}

#[test]
fn model_files_of_another_stem_are_nothing() {
    assert_eq!(classify_game_file(b"pl0000.dtt"), None);
    assert_eq!(classify_game_file(b"em.dat"), None);
    assert_eq!(classify_game_file(b"p.dtt"), None);
    assert_eq!(classify_game_file(b".dtt"), None);
    assert_eq!(classify_game_file(b"pl.old.dtt"), None);
}

#[test]
fn the_stem_is_taken_from_the_file_not_the_directory() {
    assert_eq!(classify_game_file(b"pl/other.dtt"), None);
    assert_eq!(classify_game_file(b"wp/pl.dat"), Some(ModType::PlayerModels));
}

#[test]
fn case_matters() {
    assert_eq!(classify_game_file(b"skin.DSS"), None);
    assert_eq!(classify_game_file(b"skin.Dss"), None);
    assert_eq!(classify_game_file(b"PL.dtt"), None);
    assert_eq!(classify_game_file(b"pl.DAT"), None);
    assert_eq!(classify_game_file(b"intro.USM"), None);
}

#[test]
fn other_files_are_nothing() {
    assert_eq!(classify_game_file(b"readme.txt"), None);
    assert_eq!(classify_game_file(b"dss"), None);
    assert_eq!(classify_game_file(b"archive.dss.bak"), None);
    assert_eq!(classify_game_file(b"notes.dssx"), None);
    assert_eq!(classify_game_file(b""), None);
    assert_eq!(classify_game_file(b"dir.dss/readme"), None);
    assert_eq!(classify_game_file(b".."), None);
    assert_eq!(classify_game_file(b"skin.dss/.."), None);
    assert_eq!(classify_game_file(b"skin.dss/"), Some(ModType::Textures));
    assert_eq!(classify_game_file(b"costume/pl.dtt/."), Some(ModType::PlayerModels));
}

#[test]
fn extension_is_read_as_text() {
    assert_eq!(get_file_extension(b"/a/b/skin.dss"), Ok("dss"));
    assert_eq!(get_file_extension(b"archive.tar.gz"), Ok("gz"));
    assert_eq!(get_file_extension("caf\u{e9}.\u{e9}t\u{e9}".as_bytes()), Ok("\u{e9}t\u{e9}"));
    assert_eq!(get_file_extension(b"trailing."), Ok(""));
    assert_eq!(get_file_extension(b"m/skin.dss/"), Ok("dss"));
    assert_eq!(get_file_extension(b"m/skin.dss/."), Ok("dss"));
    assert_eq!(get_file_extension(b"..."), Ok(""));
}

#[test]
fn extension_can_be_missing() {
    assert_eq!(get_file_extension(b"/a/b/README"), Err(ExtensionError::Missing));
    assert_eq!(get_file_extension(b".hidden"), Err(ExtensionError::Missing));
    assert_eq!(get_file_extension(b"dir.d/file"), Err(ExtensionError::Missing));
    assert_eq!(get_file_extension(b""), Err(ExtensionError::Missing));
    assert_eq!(get_file_extension(b".."), Err(ExtensionError::Missing));
    assert_eq!(get_file_extension(b"m/.."), Err(ExtensionError::Missing));
    assert_eq!(get_file_extension(b"m/skin.dss/.."), Err(ExtensionError::Missing));
    assert_eq!(get_file_extension(b"/"), Err(ExtensionError::Missing));
}

#[test]
fn extension_is_that_of_the_standard_library() {
    let corpus = [
        "", "/", ".", "..", "...", "m/..", "m/skin.dss/", "m/skin.dss/.", "m/skin.dss", "m/README",
        "m/.hidden", "m/.hidden.dss", "a.b.c", "a.", "..a", "m.d/x", "/tmp/unpacked/costume/pl.dtt",
    ];
    for text in corpus {
        let expected = std::path::Path::new(text).extension().map(|ext| ext.to_str().unwrap());
        assert_eq!(get_file_extension(text.as_bytes()).ok(), expected, "extension of {:?}", text);
    }
}

#[test]
fn extension_that_is_not_text_is_told_apart() {
    assert_eq!(get_file_extension(b"skin.d\xffs"), Err(ExtensionError::NotText));
    assert_eq!(get_file_extension(b"skin.\xc3"), Err(ExtensionError::NotText));
}

#[test]
fn inspection_says_why_a_file_is_passed_over() {
    let rules = ClassificationRules::standard();
    assert_eq!(rules.inspect_file(b"skin.dss"), Inspection::Recognized(ModType::Textures));
    assert_eq!(rules.inspect_file(b"readme.txt"), Inspection::Unrecognized);
    assert_eq!(rules.inspect_file(b"em0000.dtt"), Inspection::Unrecognized);
    assert_eq!(rules.inspect_file(b"LICENSE"), Inspection::NoExtension);
    assert_eq!(rules.inspect_file(b"skin.\xff\xfe"), Inspection::ExtensionNotText);
    assert_eq!(rules.inspect_file(b"p\xffl.dtt"), Inspection::NameNotText);
    assert_eq!(rules.inspect_file(b"p\xffl.dat"), Inspection::NameNotText);
    assert_eq!(rules.inspect_file(b"p\xffl.dss"), Inspection::NameNotText);
    assert_eq!(rules.inspect_file(b"p\xffl.txt"), Inspection::NameNotText);
    assert_eq!(rules.inspect_file(b"d\xffr/pl.dss"), Inspection::Recognized(ModType::Textures));
}

#[test]
fn file_with_unreadable_name_is_passed_over() {
    assert_eq!(classify_game_file(b"sk\xffn.dss"), None);
    assert_eq!(classify_game_file(b"\xc3\x28.usm"), None);
    assert_eq!(classify_game_file(b"skin.ds\xff"), None);
    assert!(!name_is_readable(b"sk\xffn.dss"));
    assert!(!name_is_readable(b"README"));
    assert!(name_is_readable(b"\xff/skin.dss"));
    assert!(name_is_readable("sk\u{ef}n.dss".as_bytes()));
    let items = vec![file("/tmp/unpacked/sk\u{ef}n.dss")];
    assert_eq!(
        check_mod_type(&items),
        Ok(Some((ModType::Textures, bytes("/tmp/unpacked/sk\u{ef}n.dss"))))
    );
    let items = vec![
        WalkItem::Entry { path: b"/tmp/unpacked/sk\xffn.dss".to_vec(), is_file: true },
        file("/tmp/unpacked/bg.dat"),
    ];
    assert_eq!(
        check_mod_type(&items),
        Ok(Some((ModType::WorldModels, bytes("/tmp/unpacked/bg.dat"))))
    );
}

#[test]
fn empty_directory_is_no_mod() {
    assert_eq!(check_mod_type(&[]), Ok(None));
    assert_eq!(check_mod_type(&[directory("/tmp/unpacked")]), Ok(None));
}

#[test]
fn unrecognized_files_are_no_mod() {
    let items = vec![
        directory("/tmp/unpacked"),
        file("/tmp/unpacked/readme.txt"),
        directory("/tmp/unpacked/docs"),
        file("/tmp/unpacked/docs/LICENSE"),
        file("/tmp/unpacked/docs/em0000.dtt"),
        file("/tmp/unpacked/docs/bad.\u{0}\u{1}"),
    ];
    assert_eq!(check_mod_type(&items), Ok(None));
}

#[test]
fn directories_are_never_evidence() {
    let items = vec![directory("/tmp/unpacked"), directory("/tmp/unpacked/skin.dss")];
    assert_eq!(check_mod_type(&items), Ok(None));
    let items = vec![
        directory("/tmp/unpacked/pl.dtt"),
        file("/tmp/unpacked/pl.dtt/intro.usm"),
    ];
    assert_eq!(
        check_mod_type(&items),
        Ok(Some((ModType::CutsceneReplacements, bytes("/tmp/unpacked/pl.dtt/intro.usm"))))
    );
}

#[test]
fn first_match_wins() {
    let items = vec![
        directory("/tmp/unpacked"),
        file("/tmp/unpacked/readme.txt"),
        file("/tmp/unpacked/wp.dat"),
        file("/tmp/unpacked/skin.dss"),
        file("/tmp/unpacked/pl.dtt"),
    ];
    assert_eq!(
        check_mod_type(&items),
        Ok(Some((ModType::WeaponModels, bytes("/tmp/unpacked/wp.dat"))))
    );
}

#[test]
fn the_order_of_the_walk_decides() {
    let items = vec![
        file("/tmp/unpacked/skin.dss"),
        file("/tmp/unpacked/wp.dat"),
        file("/tmp/unpacked/readme.txt"),
    ];
    assert_eq!(
        check_mod_type(&items),
        Ok(Some((ModType::Textures, bytes("/tmp/unpacked/skin.dss"))))
    );
    let turned: Vec<WalkItem> = items.iter().rev().cloned().collect();
    assert_eq!(
        check_mod_type(&turned),
        Ok(Some((ModType::WeaponModels, bytes("/tmp/unpacked/wp.dat"))))
    );
}

#[test]
fn what_follows_the_match_is_not_read() {
    let items = vec![
        file("/tmp/unpacked/intro.usm"),
        WalkItem::Unreadable(String::from("permission denied")),
    ];
    assert_eq!(
        check_mod_type(&items),
        Ok(Some((ModType::CutsceneReplacements, bytes("/tmp/unpacked/intro.usm"))))
    );
}

#[test]
fn unreadable_entry_before_a_match_ends_the_walk() {
    let items = vec![
        file("/tmp/unpacked/readme.txt"),
        WalkItem::Unreadable(String::from("permission denied")),
        file("/tmp/unpacked/intro.usm"),
    ];
    assert_eq!(
        check_mod_type(&items),
        Err(InstallationError::FileAccessingError(String::from("permission denied")))
    );
}

#[test]
fn standard_rules_know_no_preset() {
    let rules = ClassificationRules::standard();
    assert_eq!(rules.classify(b"/tmp/unpacked/ReShade.ini"), None);
    assert!(!rules.is_manifest(b"/tmp/unpacked/ReShade.ini"));
    assert!(!rules.is_manifest(b".."));
    assert!(!rules.is_manifest(b""));
    assert_eq!(rules.check_mod_type(&[file("/tmp/unpacked/ReShade.ini")]), Ok(None));
}

#[test]
fn preset_is_known_by_its_manifest() {
    let rules = ClassificationRules::with_preset_manifest(bytes("ReShade.ini"));
    assert!(rules.is_manifest(b"/tmp/unpacked/ReShade.ini"));
    assert!(!rules.is_manifest(b"/tmp/unpacked/reshade.ini"));
    assert!(rules.is_manifest(b"/tmp/unpacked/ReShade.ini/"));
    assert!(!rules.is_manifest(b"/tmp/unpacked/ReShade.ini/.."));
    assert_eq!(rules.classify(b"/tmp/unpacked/ReShade.ini"), Some(ModType::ReshadePreset));
    assert_eq!(
        rules.inspect_file(b"/tmp/unpacked/ReShade.ini"),
        Inspection::Recognized(ModType::ReshadePreset)
    );
    let items = vec![
        file("/tmp/unpacked/readme.txt"),
        file("/tmp/unpacked/ReShade.ini"),
        file("/tmp/unpacked/skin.dss"),
    ];
    assert_eq!(
        rules.check_mod_type(&items),
        Ok(Some((ModType::ReshadePreset, bytes("/tmp/unpacked/ReShade.ini"))))
    );
}

#[test]
fn game_files_come_before_the_manifest() {
    let rules = ClassificationRules::with_preset_manifest(bytes("preset.dss"));
    assert_eq!(rules.classify(b"preset.dss"), Some(ModType::Textures));
    assert_eq!(rules.classify(b"pl.dtt"), Some(ModType::PlayerModels));
}

#[test]
fn walk_stops_at_evidence_and_at_what_cannot_be_read() {
    let rules = ClassificationRules::standard();
    assert!(rules.stops_at(&file("/tmp/unpacked/skin.dss")));
    assert!(rules.stops_at(&WalkItem::Unreadable(String::from("permission denied"))));
    assert!(!rules.stops_at(&file("/tmp/unpacked/readme.txt")));
    assert!(!rules.stops_at(&directory("/tmp/unpacked/skin.dss")));
    assert!(!rules.stops_at(&file("/tmp/unpacked/ReShade.ini")));
    let rules = ClassificationRules::with_preset_manifest(bytes("ReShade.ini"));
    assert!(rules.stops_at(&file("/tmp/unpacked/ReShade.ini")));
}
