use ata::errors::InstallationError;
use ata::records::ModType;
use ata::router::{
    can_install, check_listing, destination, has_file, install_cutscene_replacements,
    install_player_model, install_reshade_preset, install_texture, install_weapon_model,
    install_world_model, plan_copies, Action, CopyStep, Installer, Routing, SourceEntry,
    StepOutcome,
};

fn bytes(text: &str) -> Vec<u8> {
    text.as_bytes().to_vec()
}

fn file(name: &str) -> SourceEntry {
    SourceEntry { name: bytes(name), is_file: true }
}

fn directory(name: &str) -> SourceEntry {
    SourceEntry { name: bytes(name), is_file: false }
}

fn copy(from: &str, to: &str) -> Action {
    Action::CopyFile(CopyStep { from: bytes(from), to: bytes(to) })
}

fn pending(routing: Routing) -> Installer {
    match routing {
        Routing::Pending(installer) => installer,
        other => panic!("the installation ended early: {:?}", other),
    }
}

#[test]
fn each_category_has_its_destination() {
    assert_eq!(
        destination(b"/game", ModType::Textures),
        Some(bytes("/game/SK_Res/inject/textures"))
    );
    assert_eq!(destination(b"/game", ModType::PlayerModels), Some(bytes("/game/data/pl")));
    assert_eq!(destination(b"/game", ModType::WeaponModels), Some(bytes("/game/data/wp")));
    assert_eq!(destination(b"/game", ModType::WorldModels), Some(bytes("/game/data/bg")));
    assert_eq!(
        destination(b"/game", ModType::CutsceneReplacements),
        Some(bytes("/game/data/movie"))
    );
    assert_eq!(destination(b"/game", ModType::ReshadePreset), None);
    assert_eq!(destination(b"/game/", ModType::PlayerModels), Some(bytes("/game/data/pl")));
}

#[test]
fn listing_has_names_of_one_component_each_once() {
    assert!(check_listing(&[]));
    assert!(check_listing(&[file("a.dss"), file("b.dss"), directory("extras")]));
    assert!(!check_listing(&[file("a.dss"), file("a.dss")]));
    assert!(!check_listing(&[file("a.dss"), directory("a.dss")]));
    assert!(!check_listing(&[file("a.dss"), file("")]));
    assert!(!check_listing(&[file("sub/a.dss")]));
    assert!(!check_listing(&[file("a.dss"), directory(".")]));
    assert!(!check_listing(&[directory(".."), file("a.dss")]));
    assert!(check_listing(&[file("..."), file(".a")]));
}

#[test]
fn listing_may_hold_no_file() {
    assert!(!has_file(&[]));
    assert!(!has_file(&[directory("extras")]));
    assert!(has_file(&[directory("extras"), file("a.dss")]));
}

#[test]
fn installation_asks_for_a_name_a_listing_and_a_file() {
    let entries = vec![file("a.dss"), directory("extras")];
    assert!(can_install(ModType::Textures, "skin", &entries));
    assert!(!can_install(ModType::Textures, "", &entries));
    assert!(!can_install(ModType::Textures, "skin", &[directory("extras")]));
    assert!(!can_install(ModType::Textures, "skin", &[]));
    assert!(!can_install(ModType::Textures, "skin", &[file("a.dss"), file("a.dss")]));
    assert!(can_install(ModType::ReshadePreset, "preset", &[]));
    assert!(!can_install(ModType::ReshadePreset, "", &[]));
    assert!(can_install(ModType::PlayerModels, "\n", &entries));
}

#[test]
fn plan_copies_the_files_in_their_order() {
    let entries = vec![file("b.dss"), directory("extras"), file("a.dss")];
    let steps = plan_copies(b"/tmp/unpacked", &entries, b"/game/SK_Res/inject/textures");
    assert_eq!(
        steps,
        vec![
            CopyStep {
                from: bytes("/tmp/unpacked/b.dss"),
                to: bytes("/game/SK_Res/inject/textures/b.dss"),
            },
            CopyStep {
                from: bytes("/tmp/unpacked/a.dss"),
                to: bytes("/game/SK_Res/inject/textures/a.dss"),
            },
        ]
    );
    assert_eq!(plan_copies(b"/tmp/unpacked", &[directory("extras")], b"/game"), vec![]);
}

#[test]
fn texture_installation_goes_step_by_step() {
    let entries = vec![file("skin.dss"), directory("extras"), file("hair.dss")];
    let installer = install_texture(b"/tmp/unpacked", &entries, b"/game", String::from("2B\n"));
    assert_eq!(
        installer.next_action(),
        Action::CreateDirectory(bytes("/game/SK_Res/inject/textures"))
    );
    let installer = pending(installer.advance(StepOutcome::Done));
    assert_eq!(
        installer.next_action(),
        copy("/tmp/unpacked/skin.dss", "/game/SK_Res/inject/textures/skin.dss")
    );
    let installer = pending(installer.advance(StepOutcome::Done));
    assert_eq!(
        installer.next_action(),
        copy("/tmp/unpacked/hair.dss", "/game/SK_Res/inject/textures/hair.dss")
    );
    match installer.advance(StepOutcome::Done) {
        Routing::Installed(record) => {
            assert_eq!(record.name(), "2B\n");
            assert_eq!(
                record.files(),
                &vec![
                    bytes("/game/SK_Res/inject/textures/skin.dss"),
                    bytes("/game/SK_Res/inject/textures/hair.dss"),
                ]
            );
            assert!(record.enabled());
            assert_eq!(record.mod_type(), ModType::Textures);
            assert!(record.is_well_formed());
        },
        other => panic!("not installed: {:?}", other),
    }
}

#[test]
fn missing_destination_fails_before_any_copy() {
    let installer = install_world_model(b"/tmp/unpacked", &[file("bg.dat")], b"/game", String::from("city"));
    match installer.advance(StepOutcome::Failed(String::from("read-only file system"))) {
        Routing::Failed(error) => {
            assert_eq!(error, InstallationError::DestinationUnavailable(bytes("/game/data/bg")));
            assert!(error.before_any_copy());
        },
        other => panic!("not failed: {:?}", other),
    }
}

#[test]
fn copy_failure_names_the_file() {
    let entries = vec![file("a.usm"), file("b.usm"), file("c.usm")];
    let installer =
        install_cutscene_replacements(b"/tmp/unpacked", &entries, b"/game", String::from("movies"));
    let installer = pending(installer.advance(StepOutcome::Done));
    let installer = pending(installer.advance(StepOutcome::Done));
    assert_eq!(installer.next_action(), copy("/tmp/unpacked/b.usm", "/game/data/movie/b.usm"));
    match installer.advance(StepOutcome::Failed(String::from("disk full"))) {
        Routing::Failed(error) => {
            assert_eq!(
                error,
                InstallationError::CopyFailure {
                    file: bytes("/tmp/unpacked/b.usm"),
                    detail: String::from("disk full"),
                }
            );
            assert!(!error.before_any_copy());
        },
        other => panic!("not failed: {:?}", other),
    }
}

#[test]
fn failure_of_the_first_copy_names_the_first_file() {
    let installer =
        install_texture(b"/tmp/unpacked", &[file("a.dss"), file("b.dss")], b"/game", String::from("x"));
    let installer = pending(installer.advance(StepOutcome::Done));
    match installer.advance(StepOutcome::Failed(String::from("no space"))) {
        Routing::Failed(error) => assert_eq!(
            error,
            InstallationError::CopyFailure {
                file: bytes("/tmp/unpacked/a.dss"),
                detail: String::from("no space"),
            }
        ),
        other => panic!("not failed: {:?}", other),
    }
}

#[test]
fn model_installations_go_to_their_directories() {
    let entries = vec![file("pl0000.dtt"), file("pl0000.dat")];

    let installer = install_player_model(b"/tmp/u/costume", &entries, b"/game", String::from("a"));
    assert_eq!(installer.next_action(), Action::CreateDirectory(bytes("/game/data/pl")));
    let installer = pending(installer.advance(StepOutcome::Done));
    assert_eq!(
        installer.next_action(),
        copy("/tmp/u/costume/pl0000.dtt", "/game/data/pl/pl0000.dtt")
    );

    let installer = install_weapon_model(b"/tmp/u", &entries, b"/game", String::from("b"));
    assert_eq!(installer.next_action(), Action::CreateDirectory(bytes("/game/data/wp")));
    let installer = pending(installer.advance(StepOutcome::Done));
    assert_eq!(installer.next_action(), copy("/tmp/u/pl0000.dtt", "/game/data/wp/pl0000.dtt"));

    let installer = install_world_model(b"/tmp/u", &entries, b"/game", String::from("c"));
    assert_eq!(installer.next_action(), Action::CreateDirectory(bytes("/game/data/bg")));

    let installer =
        install_cutscene_replacements(b"/tmp/u", &entries, b"/game", String::from("d"));
    assert_eq!(installer.next_action(), Action::CreateDirectory(bytes("/game/data/movie")));
}

#[test]
fn installed_models_keep_their_category() {
    let installer = install_player_model(b"/tmp/u", &[file("pl.dtt")], b"/game", String::from("a"));
    let installer = pending(installer.advance(StepOutcome::Done));
    match installer.advance(StepOutcome::Done) {
        Routing::Installed(record) => {
            assert_eq!(record.mod_type(), ModType::PlayerModels);
            assert_eq!(record.files(), &vec![bytes("/game/data/pl/pl.dtt")]);
        },
        other => panic!("not installed: {:?}", other),
    }
    let installer = install_weapon_model(b"/tmp/u", &[file("wp.dat")], b"/game", String::from("a"));
    let installer = pending(installer.advance(StepOutcome::Done));
    match installer.advance(StepOutcome::Done) {
        Routing::Installed(record) => {
            assert_eq!(record.mod_type(), ModType::WeaponModels);
            assert_eq!(record.files(), &vec![bytes("/game/data/wp/wp.dat")]);
        },
        other => panic!("not installed: {:?}", other),
    }
}

#[test]
fn preset_goes_where_the_caller_says() {
    let installer = install_reshade_preset(
        b"/tmp/unpacked",
        &[file("ReShade.ini"), file("look.fx")],
        b"/game",
        String::from("cinema"),
        b"reshade-presets",
    );
    assert_eq!(installer.next_action(), Action::CreateDirectory(bytes("/game/reshade-presets")));
    let installer = pending(installer.advance(StepOutcome::Done));
    let installer = pending(installer.advance(StepOutcome::Done));
    match installer.advance(StepOutcome::Done) {
        Routing::Installed(record) => {
            assert_eq!(record.mod_type(), ModType::ReshadePreset);
            assert_eq!(
                record.files(),
                &vec![
                    bytes("/game/reshade-presets/ReShade.ini"),
                    bytes("/game/reshade-presets/look.fx"),
                ]
            );
        },
        other => panic!("not installed: {:?}", other),
    }
}

#[test]
fn preset_without_files_is_installed_once_its_directory_is_there() {
    let installer =
        install_reshade_preset(b"/tmp/unpacked", &[], b"/game", String::from("empty"), b"presets");
    match installer.advance(StepOutcome::Done) {
        Routing::Installed(record) => {
            assert_eq!(record.files(), &Vec::<Vec<u8>>::new());
            assert!(record.is_well_formed());
        },
        other => panic!("not installed: {:?}", other),
    }
}

#[test]
fn preset_directory_at_the_root_is_taken_as_it_stands() {
    let installer = install_reshade_preset(
        b"/tmp/unpacked",
        &[file("ReShade.ini")],
        b"/game",
        String::from("cinema"),
        b"/opt/reshade/presets",
    );
    assert_eq!(installer.next_action(), Action::CreateDirectory(bytes("/opt/reshade/presets")));
}

#[test]
fn begin_takes_any_destination() {
    let installer = Installer::begin(
        ModType::Textures,
        String::from("x"),
        b"",
        &[file("a.dss")],
        bytes("/elsewhere/"),
    );
    assert_eq!(installer.next_action(), Action::CreateDirectory(bytes("/elsewhere/")));
    let installer = pending(installer.advance(StepOutcome::Done));
    assert_eq!(installer.next_action(), copy("a.dss", "/elsewhere/a.dss"));
}
