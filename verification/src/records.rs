//! What is kept of each installed mod, and the registry that holds the
//! records together with the path of the game.

use vstd::prelude::*;
use crate::paths::{ascii, ascii_bytes, join, joined, same_bytes};
use crate::text::same_text;

verus! {

/// The categories of mod that can be installed.
#[derive(Clone, Copy, Debug, PartialEq, Eq, Structural)]
pub enum ModType {
    Textures,
    PlayerModels,
    WeaponModels,
    WorldModels,
    CutsceneReplacements,
    ReshadePreset,
}

impl ModType {
    /// Whether a mod of this category consists of files in the game's
    /// directories, so that its record must name at least one.
    pub open spec fn needs_files(self) -> bool {
        self != ModType::ReshadePreset
    }

    /// The name under which the category is written out.
    pub open spec fn name_of(self) -> Seq<char> {
        match self {
            ModType::Textures => "Textures"@,
            ModType::PlayerModels => "PlayerModels"@,
            ModType::WeaponModels => "WeaponModels"@,
            ModType::WorldModels => "WorldModels"@,
            ModType::CutsceneReplacements => "CutsceneReplacements"@,
            ModType::ReshadePreset => "ReshadePreset"@,
        }
    }

    /// The category that is written out as `name`, if there is one.
    pub open spec fn named(name: Seq<char>) -> Option<ModType> {
        if name == "Textures"@ {
            Some(ModType::Textures)
        } else if name == "PlayerModels"@ {
            Some(ModType::PlayerModels)
        } else if name == "WeaponModels"@ {
            Some(ModType::WeaponModels)
        } else if name == "WorldModels"@ {
            Some(ModType::WorldModels)
        } else if name == "CutsceneReplacements"@ {
            Some(ModType::CutsceneReplacements)
        } else if name == "ReshadePreset"@ {
            Some(ModType::ReshadePreset)
        } else {
            None
        }
    }

    /// The name under which the category is written out.
    pub fn name(self) -> (name: &'static str)
        ensures
            name@ == self.name_of(),
    {
        match self {
            ModType::Textures => "Textures",
            ModType::PlayerModels => "PlayerModels",
            ModType::WeaponModels => "WeaponModels",
            ModType::WorldModels => "WorldModels",
            ModType::CutsceneReplacements => "CutsceneReplacements",
            ModType::ReshadePreset => "ReshadePreset",
        }
    }

    /// Reads a category's name back.
    pub fn from_name(name: &str) -> (mod_type: Option<ModType>)
        ensures
            mod_type == ModType::named(name@),
    {
        if same_text(name, "Textures") {
            Some(ModType::Textures)
        } else if same_text(name, "PlayerModels") {
            Some(ModType::PlayerModels)
        } else if same_text(name, "WeaponModels") {
            Some(ModType::WeaponModels)
        } else if same_text(name, "WorldModels") {
            Some(ModType::WorldModels)
        } else if same_text(name, "CutsceneReplacements") {
            Some(ModType::CutsceneReplacements)
        } else if same_text(name, "ReshadePreset") {
            Some(ModType::ReshadePreset)
        } else {
            None
        }
    }

    /// Every category is read back from its own name, and a name that reads
    /// as a category is that category's name.
    pub proof fn lemma_name_round_trip(mod_type: ModType, name: Seq<char>)
        ensures
            ModType::named(mod_type.name_of()) == Some(mod_type),
            ModType::named(name) == Some(mod_type) ==> name == mod_type.name_of(),
    {
        reveal_strlit("Textures");
        reveal_strlit("PlayerModels");
        reveal_strlit("WeaponModels");
        reveal_strlit("WorldModels");
        reveal_strlit("CutsceneReplacements");
        reveal_strlit("ReshadePreset");
        assert("Textures"@[0] == 'T');
        assert("PlayerModels"@[0] == 'P');
        assert("WeaponModels"@[1] == 'e');
        assert("WorldModels"@[1] == 'o');
        assert("CutsceneReplacements"@[0] == 'C');
        assert("ReshadePreset"@[0] == 'R');
    }
}

/// The paths of a list as byte sequences.
pub open spec fn path_views(paths: Seq<Vec<u8>>) -> Seq<Seq<u8>> {
    paths.map_values(|path: Vec<u8>| path@)
}

/// The record of one installed mod.
#[derive(Clone, Debug, PartialEq, Eq)]
pub struct Mod {
    name: String,
    files: Vec<Vec<u8>>,
    enabled: bool,
    mod_type: ModType,
}

/// A `Mod` as plain values: the name that the user gave it, the files that
/// were copied for it, in the order of copying, whether it is enabled, and
/// its category.
pub struct ModView {
    pub name: Seq<char>,
    pub files: Seq<Seq<u8>>,
    pub enabled: bool,
    pub mod_type: ModType,
}

impl ModView {
    /// What holds of the record of every installed mod: it has a name, no
    /// file stands in it twice, and it names a file unless its category can
    /// do without.
    pub open spec fn well_formed(self) -> bool {
        &&& self.name.len() > 0
        &&& self.files.no_duplicates()
        &&& (self.mod_type.needs_files() ==> self.files.len() > 0)
    }
}

impl View for Mod {
    type V = ModView;

    closed spec fn view(&self) -> ModView {
        ModView {
            name: self.name@,
            files: path_views(self.files@),
            enabled: self.enabled,
            mod_type: self.mod_type,
        }
    }
}

impl Mod {
    /// A record with the given fields.
    pub fn new(name: String, files: Vec<Vec<u8>>, enabled: bool, mod_type: ModType) -> (record: Self)
        ensures
            record@ == (ModView {
                name: name@,
                files: path_views(files@),
                enabled,
                mod_type,
            }),
    {
        Self { name, files, enabled, mod_type }
    }

    /// The name that the user gave the mod.
    pub fn name(&self) -> (name: &String)
        ensures
            name@ == self@.name,
    {
        &self.name
    }

    /// The files that were copied for the mod, in the order of copying.
    pub fn files(&self) -> (files: &Vec<Vec<u8>>)
        ensures
            path_views(files@) == self@.files,
    {
        &self.files
    }

    /// Whether the mod is enabled.
    pub fn enabled(&self) -> (enabled: bool)
        ensures
            enabled == self@.enabled,
    {
        self.enabled
    }

    /// The mod's category.
    pub fn mod_type(&self) -> (mod_type: ModType)
        ensures
            mod_type == self@.mod_type,
    {
        self.mod_type
    }

    /// Enables or disables the mod. Nothing else of the record changes.
    pub fn set_enabled(&mut self, enabled: bool)
        ensures
            final(self)@ == (ModView { enabled, ..old(self)@ }),
    {
        self.enabled = enabled;
    }

    /// Whether the record is one that an installation can have left.
    pub fn is_well_formed(&self) -> (ok: bool)
        ensures
            ok == self@.well_formed(),
    {
        if self.name.as_str().is_empty() {
            return false;
        }
        if self.files.len() == 0 && self.mod_type != ModType::ReshadePreset {
            return false;
        }
        let ghost files = path_views(self.files@);
        let mut i: usize = 0;
        while i < self.files.len()
            invariant
                i <= self.files.len(),
                files == path_views(self.files@),
                forall|a: int, b: int| 0 <= a < b < i ==> files[a] != files[b],
            decreases self.files.len() - i,
        {
            let mut j: usize = 0;
            while j < i
                invariant
                    j <= i < self.files.len(),
                    files == path_views(self.files@),
                    forall|a: int| 0 <= a < j ==> files[a] != files[i as int],
                decreases i - j,
            {
                if same_bytes(self.files[j].as_slice(), self.files[i].as_slice()) {
                    assert(files[j as int] == files[i as int]);
                    return false;
                }
                j += 1;
            }
            i += 1;
        }
        true
    }
}

/// The records of a list as plain values.
pub open spec fn mod_views(mods: Seq<Mod>) -> Seq<ModView> {
    mods.map_values(|record: Mod| record@)
}

/// The registry: where the game is installed, and the mods that were
/// installed into it, in the order of their installation.
#[derive(Clone, Debug, PartialEq, Eq)]
pub struct Config {
    pub game_path: Vec<u8>,
    pub mods: Vec<Mod>,
}

/// A `Config` as plain values.
pub struct ConfigView {
    pub game_path: Seq<u8>,
    pub mods: Seq<ModView>,
}

impl ConfigView {
    /// Whether the record at `place` is the first that goes by `name`.
    pub open spec fn is_first_named(self, name: Seq<char>, place: int) -> bool {
        &&& 0 <= place < self.mods.len()
        &&& self.mods[place].name == name
        &&& forall|j: int| 0 <= j < place ==> (#[trigger] self.mods[j]).name != name
    }

    /// The place of the first record that goes by `name`, if there is one.
    pub open spec fn position_of(self, name: Seq<char>) -> Option<int> {
        if exists|place: int| self.is_first_named(name, place) {
            Some(choose|place: int| self.is_first_named(name, place))
        } else {
            None
        }
    }

    /// Only one record is the first that goes by a name.
    pub proof fn lemma_first_named_is_unique(self, name: Seq<char>, place: int)
        requires
            self.is_first_named(name, place),
        ensures
            self.position_of(name) == Some(place),
    {
        let chosen = choose|place: int| self.is_first_named(name, place);
        if chosen < place {
            assert(self.mods[chosen].name != name);
        } else if place < chosen {
            assert(self.mods[place].name != name);
        }
    }

    /// Where no record goes by a name, the name has no place.
    pub proof fn lemma_unknown_name(self, name: Seq<char>)
        requires
            forall|j: int| 0 <= j < self.mods.len() ==> (#[trigger] self.mods[j]).name != name,
        ensures
            self.position_of(name) is None,
    {
    }
}

impl View for Config {
    type V = ConfigView;

    open spec fn view(&self) -> ConfigView {
        ConfigView { game_path: self.game_path@, mods: mod_views(self.mods@) }
    }
}

/// What was found where the registry is kept on disk.
#[derive(Clone, Debug, PartialEq, Eq)]
pub enum StoredConfig {
    /// There is no data file yet.
    Absent,
    /// There is a data file, but it could not be opened or read as a registry.
    Unreadable(String),
    /// The registry that the data file holds.
    Present(Config),
}

/// The registry to start with, and whether it is new and has yet to be
/// written to the data file.
#[derive(Clone, Debug, PartialEq, Eq)]
pub struct LoadedConfig {
    pub config: Config,
    pub created: bool,
}

/// The home directory that is taken where the environment names none.
pub open spec fn fallback_home() -> Seq<u8> {
    ascii("/home/2B/"@)
}

/// The home directory under which the registry and the game are looked for:
/// the one the environment names, and a fixed one where it names none.
pub fn home_directory(named: Option<Vec<u8>>) -> (home: Vec<u8>)
    ensures
        home@ == (match named {
            Some(path) => path@,
            None => fallback_home(),
        }),
{
    match named {
        Some(path) => path,
        None => {
            proof {
                reveal_strlit("/home/2B/");
            }
            vstd::slice::slice_to_vec(ascii_bytes("/home/2B/"))
        },
    }
}

impl Config {
    /// Where the game is expected under the home directory `home`.
    pub open spec fn default_game_path(home: Seq<u8>) -> Seq<u8> {
        joined(home, ascii(".local/share/Steam/steamapps/common/NieRAutomata"@))
    }

    /// Where the registry is kept under the home directory `home`.
    pub open spec fn data_file_of(home: Seq<u8>) -> Seq<u8> {
        joined(joined(joined(home, ascii(".config"@)), ascii("ATA"@)), ascii("data.json"@))
    }

    /// The registry that a first run starts with.
    pub open spec fn initial(home: Seq<u8>) -> ConfigView {
        ConfigView { game_path: Config::default_game_path(home), mods: Seq::empty() }
    }

    /// A registry with the given fields.
    pub fn new(game_path: Vec<u8>, mods: Vec<Mod>) -> (config: Self)
        ensures
            config@ == (ConfigView { game_path: game_path@, mods: mod_views(mods@) }),
    {
        Self { game_path, mods }
    }

    /// The registry that a first run starts with: the game at its usual place
    /// under `home`, and no mods.
    pub fn default_for(home: &[u8]) -> (config: Self)
        ensures
            config@ == Config::initial(home@),
    {
        proof {
            reveal_strlit(".local/share/Steam/steamapps/common/NieRAutomata");
        }
        let game_path = join(
            home,
            ascii_bytes(".local/share/Steam/steamapps/common/NieRAutomata"),
        );
        let config = Self { game_path, mods: Vec::new() };
        assert(config@.mods =~= Seq::empty());
        config
    }

    /// Where the registry is kept under the home directory `home`.
    pub fn data_file_path(home: &[u8]) -> (path: Vec<u8>)
        ensures
            path@ == Config::data_file_of(home@),
    {
        proof {
            reveal_strlit(".config");
            reveal_strlit("ATA");
            reveal_strlit("data.json");
        }
        let config_dir = join(home, ascii_bytes(".config"));
        let own_dir = join(config_dir.as_slice(), ascii_bytes("ATA"));
        join(own_dir.as_slice(), ascii_bytes("data.json"))
    }

    /// Settles on the registry to start with. What the data file holds is
    /// taken as it is; where there is no data file, the registry is the
    /// initial one and has to be written out; a data file that cannot be read
    /// is an error, with the detail that came with it.
    pub fn load_config(home: &[u8], stored: StoredConfig) -> (loaded: Result<LoadedConfig, String>)
        ensures
            match stored {
                StoredConfig::Absent => loaded matches Ok(l) && l.config@ == Config::initial(home@)
                    && l.created,
                StoredConfig::Unreadable(detail) => loaded matches Err(e) && e@ == detail@,
                StoredConfig::Present(config) => loaded matches Ok(l) && l.config@ == config@
                    && !l.created,
            },
    {
        match stored {
            StoredConfig::Absent => Ok(LoadedConfig { config: Config::default_for(home), created: true }),
            StoredConfig::Unreadable(detail) => Err(detail),
            StoredConfig::Present(config) => Ok(LoadedConfig { config, created: false }),
        }
    }

    /// Appends the record of a newly installed mod.
    pub fn add_mod(&mut self, record: Mod)
        ensures
            final(self)@ == (ConfigView { mods: old(self)@.mods.push(record@), ..old(self)@ }),
    {
        self.mods.push(record);
        assert(mod_views(self.mods@) =~= mod_views(old(self).mods@).push(record@));
    }

    /// The place of the first mod that goes by `name`.
    pub fn position_of(&self, name: &str) -> (place: Option<usize>)
        ensures
            match place {
                Some(i) => self@.position_of(name@) == Some(i as int) && self@.is_first_named(
                    name@,
                    i as int,
                ),
                None => self@.position_of(name@) is None,
            },
    {
        let mut i: usize = 0;
        while i < self.mods.len()
            invariant
                i <= self.mods.len(),
                forall|j: int| 0 <= j < i ==> self@.mods[j].name != name@,
            decreases self.mods.len() - i,
        {
            if same_text(self.mods[i].name().as_str(), name) {
                proof {
                    self@.lemma_first_named_is_unique(name@, i as int);
                }
                return Some(i);
            }
            i += 1;
        }
        proof {
            self@.lemma_unknown_name(name@);
        }
        None
    }

    /// Takes the record at `index` out of the registry. The records behind it
    /// move up; with no record at `index` nothing changes.
    pub fn remove_mod(&mut self, index: usize) -> (removed: Option<Mod>)
        ensures
            final(self)@.game_path == old(self)@.game_path,
            index < old(self)@.mods.len() ==> (removed matches Some(record) && record@ == old(
                self,
            )@.mods[index as int]),
            index < old(self)@.mods.len() ==> final(self)@.mods == old(self)@.mods.remove(
                index as int,
            ),
            index >= old(self)@.mods.len() ==> removed is None && final(self)@ == old(self)@,
    {
        if index < self.mods.len() {
            let record = self.mods.remove(index);
            assert(mod_views(self.mods@) =~= mod_views(old(self).mods@).remove(index as int));
            Some(record)
        } else {
            None
        }
    }

    /// Enables or disables the mod at `index`. With no record at `index`
    /// nothing changes.
    pub fn set_enabled(&mut self, index: usize, enabled: bool) -> (found: bool)
        ensures
            found == (index < old(self)@.mods.len()),
            final(self)@.game_path == old(self)@.game_path,
            found ==> final(self)@.mods == old(self)@.mods.update(
                index as int,
                ModView { enabled, ..old(self)@.mods[index as int] },
            ),
            !found ==> final(self)@ == old(self)@,
    {
        if index < self.mods.len() {
            let mut record = self.mods.remove(index);
            record.set_enabled(enabled);
            self.mods.insert(index, record);
            assert(mod_views(self.mods@) =~= mod_views(old(self).mods@).update(
                index as int,
                ModView { enabled, ..old(self)@.mods[index as int] },
            ));
            true
        } else {
            false
        }
    }
}

} // verus!
