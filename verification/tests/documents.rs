use ata::documents::{ConfigDocument, DocumentError, ModDocument};
use ata::records::{Config, Mod, ModType};
use serde_json::Value;

fn bytes(text: &str) -> Vec<u8> {
    text.as_bytes().to_vec()
}

fn registry() -> Config {
    Config::new(
        bytes("/home/a2/.local/share/Steam/steamapps/common/NieRAutomata"),
        vec![
            Mod::new(
                String::from("skin \"2B\"\n"),
                vec![
                    bytes("/game/SK_Res/inject/textures/a.dss"),
                    bytes("/game/SK_Res/inject/textures/caf\u{e9} \u{1f5e1}.dss"),
                ],
                true,
                ModType::Textures,
            ),
            Mod::new(String::from("sword"), vec![bytes("/game/data/wp/wp0000.dtt")], false, ModType::WeaponModels),
            Mod::new(String::from("costume"), vec![bytes("/game/data/pl/pl.dat")], true, ModType::PlayerModels),
            Mod::new(String::from("city"), vec![bytes("/game/data/bg/bg.dat")], false, ModType::WorldModels),
            Mod::new(String::from("intro"), vec![bytes("/game/data/movie/intro.usm")], true, ModType::CutsceneReplacements),
            Mod::new(String::from("look"), vec![], true, ModType::ReshadePreset),
        ],
    )
}

fn to_json(document: &ConfigDocument) -> Value {
    let mut mods = Vec::new();
    for entry in &document.mods {
        let mut fields = serde_json::Map::new();
        fields.insert(String::from("name"), Value::String(entry.name.clone()));
        fields.insert(
            String::from("files"),
            Value::Array(entry.files.iter().cloned().map(Value::String).collect()),
        );
        fields.insert(String::from("enabled"), Value::Bool(entry.enabled));
        fields.insert(String::from("mod_type"), Value::String(entry.mod_type.clone()));
        mods.push(Value::Object(fields));
    }
    let mut fields = serde_json::Map::new();
    fields.insert(String::from("game_path"), Value::String(document.game_path.clone()));
    fields.insert(String::from("mods"), Value::Array(mods));
    Value::Object(fields)
}

fn from_json(value: &Value) -> ConfigDocument {
    let text = |value: &Value, key: &str| value.get(key).unwrap().as_str().unwrap().to_string();
    ConfigDocument {
        game_path: text(value, "game_path"),
        mods: value
            .get("mods")
            .unwrap()
            .as_array()
            .unwrap()
            .iter()
            .map(|entry| ModDocument {
                name: text(entry, "name"),
                files: entry
                    .get("files")
                    .unwrap()
                    .as_array()
                    .unwrap()
                    .iter()
                    .map(|file| file.as_str().unwrap().to_string())
                    .collect(),
                enabled: entry.get("enabled").unwrap().as_bool().unwrap(),
                mod_type: text(entry, "mod_type"),
            })
            .collect(),
    }
}

#[test]
fn record_is_written_as_texts() {
    let record = Mod::new(
        String::from("sword"),
        vec![bytes("/game/data/wp/wp0000.dtt"), bytes("/game/data/wp/wp0000.dat")],
        false,
        ModType::WeaponModels,
    );
    assert_eq!(
        record.to_document(),
        Ok(ModDocument {
            name: String::from("sword"),
            files: vec![
                String::from("/game/data/wp/wp0000.dtt"),
                String::from("/game/data/wp/wp0000.dat"),
            ],
            enabled: false,
            mod_type: String::from("WeaponModels"),
        })
    );
}

#[test]
fn entry_is_read_as_a_record() {
    let entry = ModDocument {
        name: String::from("intro"),
        files: vec![String::from("/game/data/movie/intro.usm")],
        enabled: true,
        mod_type: String::from("CutsceneReplacements"),
    };
    assert_eq!(
        Mod::from_document(&entry),
        Ok(Mod::new(
            String::from("intro"),
            vec![bytes("/game/data/movie/intro.usm")],
            true,
            ModType::CutsceneReplacements
        ))
    );
}

#[test]
fn registry_comes_back_from_its_document() {
    let registry = registry();
    let document = registry.to_document().unwrap();
    assert_eq!(document.game_path, "/home/a2/.local/share/Steam/steamapps/common/NieRAutomata");
    assert_eq!(document.mods.len(), 6);
    assert_eq!(document.mods[5].mod_type, "ReshadePreset");
    assert_eq!(Config::from_document(&document), Ok(registry));
}

#[test]
fn document_comes_back_from_its_registry() {
    let document = registry().to_document().unwrap();
    let read = Config::from_document(&document).unwrap();
    assert_eq!(read.to_document(), Ok(document));
}

#[test]
fn empty_registry_comes_back() {
    let registry = Config::new(bytes("/game"), vec![]);
    let document = registry.to_document().unwrap();
    assert_eq!(document, ConfigDocument { game_path: String::from("/game"), mods: vec![] });
    assert_eq!(Config::from_document(&document), Ok(registry));
}

#[test]
fn registry_comes_back_from_its_text() {
    let registry = registry();
    let document = registry.to_document().unwrap();
    let written = serde_json::to_string_pretty(&to_json(&document)).unwrap();
    let parsed: Value = serde_json::from_str(&written).unwrap();
    let read = from_json(&parsed);
    assert_eq!(read, document);
    assert_eq!(Config::from_document(&read), Ok(registry));
}

#[test]
fn registry_is_read_from_a_data_file() {
    let text = "{\n  \"game_path\": \"/game\",\n  \"mods\": [\n    {\n      \"name\": \"skin\",\n      \
                \"files\": [\n        \"/game/SK_Res/inject/textures/a.dss\"\n      ],\n      \
                \"enabled\": true,\n      \"mod_type\": \"Textures\"\n    }\n  ]\n}";
    let parsed: Value = serde_json::from_str(text).unwrap();
    let read = Config::from_document(&from_json(&parsed));
    assert_eq!(
        read,
        Ok(Config::new(
            bytes("/game"),
            vec![Mod::new(
                String::from("skin"),
                vec![bytes("/game/SK_Res/inject/textures/a.dss")],
                true,
                ModType::Textures
            )]
        ))
    );
}

#[test]
fn path_that_is_not_text_has_no_document() {
    let record =
        Mod::new(String::from("x"), vec![bytes("/game/a.dss"), b"/game/\xff.dss".to_vec()], true, ModType::Textures);
    assert_eq!(record.to_document(), Err(DocumentError::PathNotText));
    let registry = Config::new(bytes("/game"), vec![record]);
    assert_eq!(registry.to_document(), Err(DocumentError::PathNotText));
    let registry = Config::new(b"/ga\xc3me".to_vec(), vec![]);
    assert_eq!(registry.to_document(), Err(DocumentError::PathNotText));
}

#[test]
fn unknown_category_is_no_record() {
    let entry = ModDocument {
        name: String::from("x"),
        files: vec![],
        enabled: true,
        mod_type: String::from("Shaders"),
    };
    assert_eq!(Mod::from_document(&entry), Err(DocumentError::UnknownModType));
    let good = ModDocument {
        name: String::from("y"),
        files: vec![],
        enabled: true,
        mod_type: String::from("Textures"),
    };
    let document = ConfigDocument { game_path: String::from("/game"), mods: vec![good, entry] };
    assert_eq!(Config::from_document(&document), Err(DocumentError::UnknownModType));
}
