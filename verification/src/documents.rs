//! The registry as it is written out: a document of texts and flags, with
//! every path as text and every category under its name.

use vstd::prelude::*;
use vstd::utf8::*;
use crate::records::{mod_views, path_views, Config, ConfigView, Mod, ModType, ModView};
use crate::text::text_of;

verus! {

/// The entry of one mod in the document.
#[derive(Clone, Debug, PartialEq, Eq)]
pub struct ModDocument {
    pub name: String,
    pub files: Vec<String>,
    pub enabled: bool,
    pub mod_type: String,
}

/// A `ModDocument` as plain values.
pub struct ModDocumentView {
    pub name: Seq<char>,
    pub files: Seq<Seq<char>>,
    pub enabled: bool,
    pub mod_type: Seq<char>,
}

/// The texts of a list as sequences.
pub open spec fn text_views(texts: Seq<String>) -> Seq<Seq<char>> {
    texts.map_values(|text: String| text@)
}

impl View for ModDocument {
    type V = ModDocumentView;

    open spec fn view(&self) -> ModDocumentView {
        ModDocumentView {
            name: self.name@,
            files: text_views(self.files@),
            enabled: self.enabled,
            mod_type: self.mod_type@,
        }
    }
}

/// The entries of a list as plain values.
pub open spec fn entry_views(entries: Seq<ModDocument>) -> Seq<ModDocumentView> {
    entries.map_values(|entry: ModDocument| entry@)
}

/// The registry as a document.
#[derive(Clone, Debug, PartialEq, Eq)]
pub struct ConfigDocument {
    pub game_path: String,
    pub mods: Vec<ModDocument>,
}

/// A `ConfigDocument` as plain values.
pub struct ConfigDocumentView {
    pub game_path: Seq<char>,
    pub mods: Seq<ModDocumentView>,
}

impl View for ConfigDocument {
    type V = ConfigDocumentView;

    open spec fn view(&self) -> ConfigDocumentView {
        ConfigDocumentView { game_path: self.game_path@, mods: entry_views(self.mods@) }
    }
}

/// Why a registry and its document do not go over into each other.
#[derive(Clone, Copy, Debug, PartialEq, Eq, Structural)]
pub enum DocumentError {
    /// A path of the registry is not well-formed text, so that no document
    /// can hold it.
    PathNotText,
    /// The document names a category that there is none of.
    UnknownModType,
}

/// Whether every path of `paths` is well-formed text.
pub open spec fn all_text(paths: Seq<Seq<u8>>) -> bool {
    forall|i: int| 0 <= i < paths.len() ==> valid_utf8(#[trigger] paths[i])
}

/// The paths of `paths` as texts.
pub open spec fn as_texts(paths: Seq<Seq<u8>>) -> Seq<Seq<char>> {
    paths.map_values(|path: Seq<u8>| decode_utf8(path))
}

/// The texts of `texts` as paths.
pub open spec fn as_paths(texts: Seq<Seq<char>>) -> Seq<Seq<u8>> {
    texts.map_values(|text: Seq<char>| encode_utf8(text))
}

impl ModView {
    /// Whether the record can be written into a document: its paths are
    /// text.
    pub open spec fn writable(self) -> bool {
        all_text(self.files)
    }

    /// The record's entry in the document.
    pub open spec fn document(self) -> ModDocumentView {
        ModDocumentView {
            name: self.name,
            files: as_texts(self.files),
            enabled: self.enabled,
            mod_type: self.mod_type.name_of(),
        }
    }
}

impl ModDocumentView {
    /// Whether the entry can be read as a record: it names a category.
    pub open spec fn readable(self) -> bool {
        ModType::named(self.mod_type) is Some
    }

    /// The record that the entry stands for.
    pub open spec fn record(self) -> ModView {
        ModView {
            name: self.name,
            files: as_paths(self.files),
            enabled: self.enabled,
            mod_type: ModType::named(self.mod_type)->0,
        }
    }
}

impl ConfigView {
    /// Whether the registry can be written into a document.
    pub open spec fn writable(self) -> bool {
        &&& valid_utf8(self.game_path)
        &&& forall|i: int| 0 <= i < self.mods.len() ==> (#[trigger] self.mods[i]).writable()
    }

    /// The registry as a document: the same mods in the same order.
    pub open spec fn document(self) -> ConfigDocumentView {
        ConfigDocumentView {
            game_path: decode_utf8(self.game_path),
            mods: self.mods.map_values(|record: ModView| record.document()),
        }
    }
}

impl ConfigDocumentView {
    /// Whether the document can be read as a registry.
    pub open spec fn readable(self) -> bool {
        forall|i: int| 0 <= i < self.mods.len() ==> (#[trigger] self.mods[i]).readable()
    }

    /// The registry that the document stands for.
    pub open spec fn config(self) -> ConfigView {
        ConfigView {
            game_path: encode_utf8(self.game_path),
            mods: self.mods.map_values(|entry: ModDocumentView| entry.record()),
        }
    }
}

/// A record that is written into a document is read back from it as it
/// was.
pub proof fn lemma_record_round_trip(record: ModView)
    requires
        record.writable(),
    ensures
        record.document().readable(),
        record.document().record() == record,
{
    ModType::lemma_name_round_trip(record.mod_type, record.mod_type.name_of());
    let back = record.document().record();
    assert(back.files =~= record.files) by {
        assert forall|i: int| 0 <= i < record.files.len() implies back.files[i]
            == record.files[i] by {
            decode_utf8_encode_utf8(record.files[i]);
        }
    }
}

/// An entry that is read as a record is written back as it was.
pub proof fn lemma_entry_round_trip(entry: ModDocumentView)
    requires
        entry.readable(),
    ensures
        entry.record().writable(),
        entry.record().document() == entry,
{
    ModType::lemma_name_round_trip(ModType::named(entry.mod_type)->0, entry.mod_type);
    let back = entry.record().document();
    assert forall|i: int| 0 <= i < entry.files.len() implies valid_utf8(
        #[trigger] entry.record().files[i],
    ) by {
        encode_utf8_valid_utf8(entry.files[i]);
    }
    assert(back.files =~= entry.files) by {
        assert forall|i: int| 0 <= i < entry.files.len() implies back.files[i]
            == entry.files[i] by {
            encode_utf8_decode_utf8(entry.files[i]);
        }
    }
}

/// A registry that is written into a document is read back from it as it
/// was: the same game path, and the same mods in the same order, each with
/// the same name, files, flag and category.
pub proof fn lemma_registry_round_trip(registry: ConfigView)
    requires
        registry.writable(),
    ensures
        registry.document().readable(),
        registry.document().config() == registry,
{
    let document = registry.document();
    assert forall|i: int| 0 <= i < document.mods.len() implies (#[trigger] document.mods[i]).readable() by {
        lemma_record_round_trip(registry.mods[i]);
    }
    decode_utf8_encode_utf8(registry.game_path);
    assert(document.config().mods =~= registry.mods) by {
        assert forall|i: int| 0 <= i < registry.mods.len() implies document.config().mods[i]
            == registry.mods[i] by {
            lemma_record_round_trip(registry.mods[i]);
        }
    }
}

/// A document that is read as a registry is written back as it was.
pub proof fn lemma_document_round_trip(document: ConfigDocumentView)
    requires
        document.readable(),
    ensures
        document.config().writable(),
        document.config().document() == document,
{
    let registry = document.config();
    encode_utf8_valid_utf8(document.game_path);
    encode_utf8_decode_utf8(document.game_path);
    assert forall|i: int| 0 <= i < registry.mods.len() implies (#[trigger] registry.mods[i]).writable() by {
        lemma_entry_round_trip(document.mods[i]);
    }
    assert(registry.document().mods =~= document.mods) by {
        assert forall|i: int| 0 <= i < document.mods.len() implies registry.document().mods[i]
            == document.mods[i] by {
            lemma_entry_round_trip(document.mods[i]);
        }
    }
}

/// The paths of a list as texts, if they all are text.
fn texts_of(paths: &Vec<Vec<u8>>) -> (texts: Option<Vec<String>>)
    ensures
        texts is Some == all_text(path_views(paths@)),
        texts is Some ==> text_views(texts->0@) == as_texts(path_views(paths@)),
{
    let ghost views = path_views(paths@);
    let mut texts: Vec<String> = Vec::new();
    let mut i: usize = 0;
    while i < paths.len()
        invariant
            i <= paths.len(),
            views == path_views(paths@),
            forall|j: int| 0 <= j < i ==> valid_utf8(#[trigger] views[j]),
            text_views(texts@) =~= as_texts(views).take(i as int),
        decreases paths.len() - i,
    {
        assert(views[i as int] == paths@[i as int]@);
        match text_of(paths[i].as_slice()) {
            Some(text) => {
                let ghost before = text_views(texts@);
                texts.push(text.to_owned());
                assert(text_views(texts@) =~= before.push(decode_utf8(views[i as int])));
                assert(as_texts(views).take(i + 1) =~= as_texts(views).take(i as int).push(
                    decode_utf8(views[i as int]),
                ));
            },
            None => {
                return None;
            },
        }
        i += 1;
    }
    Some(texts)
}

/// The texts of a list as paths.
fn paths_of(texts: &Vec<String>) -> (paths: Vec<Vec<u8>>)
    ensures
        path_views(paths@) == as_paths(text_views(texts@)),
{
    let ghost views = text_views(texts@);
    let mut paths: Vec<Vec<u8>> = Vec::new();
    let mut i: usize = 0;
    while i < texts.len()
        invariant
            i <= texts.len(),
            views == text_views(texts@),
            path_views(paths@) =~= as_paths(views).take(i as int),
        decreases texts.len() - i,
    {
        assert(views[i as int] == texts@[i as int]@);
        let ghost before = path_views(paths@);
        paths.push(vstd::slice::slice_to_vec(texts[i].as_str().as_bytes()));
        assert(path_views(paths@) =~= before.push(encode_utf8(views[i as int])));
        assert(as_paths(views).take(i + 1) =~= as_paths(views).take(i as int).push(
            encode_utf8(views[i as int]),
        ));
        i += 1;
    }
    paths
}

impl Mod {
    /// Writes the record as its entry in the document. A record with a path
    /// that is not text has no entry.
    pub fn to_document(&self) -> (written: Result<ModDocument, DocumentError>)
        ensures
            self@.writable() ==> (written matches Ok(entry) && entry@ == self@.document()),
            !self@.writable() ==> written == Err::<ModDocument, DocumentError>(
                DocumentError::PathNotText,
            ),
    {
        match texts_of(self.files()) {
            Some(files) => Ok(
                ModDocument {
                    name: self.name().clone(),
                    files,
                    enabled: self.enabled(),
                    mod_type: self.mod_type().name().to_owned(),
                },
            ),
            None => Err(DocumentError::PathNotText),
        }
    }

    /// Reads an entry of the document as a record. An entry that names no
    /// category is no record.
    pub fn from_document(entry: &ModDocument) -> (read: Result<Mod, DocumentError>)
        ensures
            entry@.readable() ==> (read matches Ok(record) && record@ == entry@.record()),
            !entry@.readable() ==> read == Err::<Mod, DocumentError>(DocumentError::UnknownModType),
    {
        match ModType::from_name(entry.mod_type.as_str()) {
            Some(mod_type) => Ok(
                Mod::new(entry.name.clone(), paths_of(&entry.files), entry.enabled, mod_type),
            ),
            None => Err(DocumentError::UnknownModType),
        }
    }
}

impl Config {
    /// Writes the registry as a document. A registry with a path that is
    /// not text has none.
    pub fn to_document(&self) -> (written: Result<ConfigDocument, DocumentError>)
        ensures
            self@.writable() ==> (written matches Ok(document) && document@ == self@.document()),
            !self@.writable() ==> written == Err::<ConfigDocument, DocumentError>(
                DocumentError::PathNotText,
            ),
    {
        let game_path = match text_of(self.game_path.as_slice()) {
            Some(text) => text.to_owned(),
            None => {
                return Err(DocumentError::PathNotText);
            },
        };
        let ghost views = mod_views(self.mods@);
        let mut mods: Vec<ModDocument> = Vec::new();
        let mut i: usize = 0;
        while i < self.mods.len()
            invariant
                i <= self.mods.len(),
                views == mod_views(self.mods@),
                valid_utf8(self.game_path@),
                game_path@ == decode_utf8(self.game_path@),
                forall|j: int| 0 <= j < i ==> (#[trigger] views[j]).writable(),
                entry_views(mods@) =~= self@.document().mods.take(i as int),
            decreases self.mods.len() - i,
        {
            assert(views[i as int] == self.mods@[i as int]@);
            match self.mods[i].to_document() {
                Ok(entry) => {
                    let ghost before = entry_views(mods@);
                    mods.push(entry);
                    assert(entry_views(mods@) =~= before.push(views[i as int].document()));
                    assert(self@.document().mods.take(i + 1) =~= self@.document().mods.take(
                        i as int,
                    ).push(views[i as int].document()));
                },
                Err(error) => {
                    return Err(error);
                },
            }
            i += 1;
        }
        assert(self@.document().mods.take(i as int) =~= self@.document().mods);
        Ok(ConfigDocument { game_path, mods })
    }

    /// Reads a document as a registry. A document with an entry that names
    /// no category is no registry.
    pub fn from_document(document: &ConfigDocument) -> (read: Result<Config, DocumentError>)
        ensures
            document@.readable() ==> (read matches Ok(config) && config@ == document@.config()),
            !document@.readable() ==> read == Err::<Config, DocumentError>(
                DocumentError::UnknownModType,
            ),
    {
        let ghost views = entry_views(document.mods@);
        let mut mods: Vec<Mod> = Vec::new();
        let mut i: usize = 0;
        while i < document.mods.len()
            invariant
                i <= document.mods.len(),
                views == entry_views(document.mods@),
                forall|j: int| 0 <= j < i ==> (#[trigger] views[j]).readable(),
                mod_views(mods@) =~= document@.config().mods.take(i as int),
            decreases document.mods.len() - i,
        {
            assert(views[i as int] == document.mods@[i as int]@);
            match Mod::from_document(&document.mods[i]) {
                Ok(record) => {
                    let ghost before = mod_views(mods@);
                    mods.push(record);
                    assert(mod_views(mods@) =~= before.push(views[i as int].record()));
                    assert(document@.config().mods.take(i + 1) =~= document@.config().mods.take(
                        i as int,
                    ).push(views[i as int].record()));
                },
                Err(error) => {
                    return Err(error);
                },
            }
            i += 1;
        }
        assert(document@.config().mods.take(i as int) =~= document@.config().mods);
        let game_path = vstd::slice::slice_to_vec(document.game_path.as_str().as_bytes());
        Ok(Config { game_path, mods })
    }
}

} // verus!
