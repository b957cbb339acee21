//! Telling which category of mod an unpacked package holds, from the names
//! of its files.

use vstd::prelude::*;
use vstd::utf8::*;
use crate::errors::{InstallationError, InstallationErrorView};
use crate::paths::{
    ascii, ascii_bytes, extension, extension_of, file_name, file_name_of, file_stem,
    file_stem_of, joined, lemma_parts_of_joined, lemma_parts_of_name, same_bytes, DOT, SEPARATOR,
};
use crate::records::ModType;
use crate::text::{lemma_ascii_is_encoding, text_of};

verus! {

/// Whether `ext` is one of the two extensions that model files carry.
pub open spec fn is_model_extension(ext: Seq<u8>) -> bool {
    ext == ascii("dtt"@) || ext == ascii("dat"@)
}

/// The category that a model file belongs to, by the stem of its name.
pub open spec fn model_category(stem: Seq<u8>) -> Option<ModType> {
    if stem == ascii("pl"@) {
        Some(ModType::PlayerModels)
    } else if stem == ascii("wp"@) {
        Some(ModType::WeaponModels)
    } else if stem == ascii("bg"@) {
        Some(ModType::WorldModels)
    } else {
        None
    }
}

/// Whether the name of the file at `path` can be read: it has an extension,
/// and both the extension and the whole name are well-formed text.
pub open spec fn has_readable_name(path: Seq<u8>) -> bool {
    match extension_of(path) {
        Some(ext) => valid_utf8(ext) && valid_utf8(file_name_of(path)->0),
        None => false,
    }
}

/// The category that a file with the extension `ext` and the stem `stem` is
/// evidence of. Upper and lower case differ.
pub open spec fn category_of(ext: Seq<u8>, stem: Seq<u8>) -> Option<ModType> {
    if ext == ascii("dss"@) {
        Some(ModType::Textures)
    } else if ext == ascii("usm"@) {
        Some(ModType::CutsceneReplacements)
    } else if is_model_extension(ext) {
        model_category(stem)
    } else {
        None
    }
}

/// The category that the file at `path` is evidence of, by its extension
/// and, for a model file, by the stem of its name. A file whose name cannot
/// be read is evidence of nothing.
pub open spec fn classify_file(path: Seq<u8>) -> Option<ModType> {
    if has_readable_name(path) {
        category_of(extension_of(path)->0, file_stem_of(path)->0)
    } else {
        None
    }
}

/// A file is classified by its own name, wherever it lies: a file whose
/// name is made of the stem `stem`, a dot and the extension `ext`, both of
/// them well-formed text, has the category that the two stand for.
pub proof fn lemma_classified_by_name(dir: Seq<u8>, stem: Seq<u8>, ext: Seq<u8>)
    requires
        stem.len() > 0,
        !stem.contains(SEPARATOR),
        !ext.contains(SEPARATOR),
        !ext.contains(DOT),
        valid_utf8(stem),
        valid_utf8(ext),
        stem != seq![DOT] || ext.len() > 0,
    ensures
        classify_file(joined(dir, stem + seq![DOT] + ext)) == category_of(ext, stem),
{
    let name = stem + seq![DOT] + ext;
    let path = joined(dir, name);
    lemma_parts_of_name(stem, ext);
    lemma_parts_of_joined(dir, name);
    lemma_parts_of_joined(Seq::empty(), name);
    assert(joined(Seq::empty(), name) =~= name);
    assert(valid_utf8(name)) by {
        reveal_strlit(".");
        lemma_ascii_is_encoding("."@);
        assert(ascii("."@) =~= seq![DOT]);
        valid_utf8_concat(stem, seq![DOT]);
        valid_utf8_concat(stem + seq![DOT], ext);
    }
}

/// The files that are evidence of a category, wherever they lie: a texture
/// by the extension `dss` and a cutscene by `usm`, under any stem; a model
/// by the extension `dtt` or `dat`, under the stem `pl` for the player,
/// `wp` for a weapon and `bg` for the world. A model file of another stem,
/// and a file of another extension, is evidence of nothing.
pub proof fn lemma_documented_categories(dir: Seq<u8>, stem: Seq<u8>, ext: Seq<u8>)
    requires
        stem.len() > 0,
        !stem.contains(SEPARATOR),
        !ext.contains(SEPARATOR),
        !ext.contains(DOT),
        valid_utf8(stem),
        valid_utf8(ext),
        stem != seq![DOT] || ext.len() > 0,
    ensures
        classify_file(joined(dir, stem + ascii(".dss"@))) == Some(ModType::Textures),
        classify_file(joined(dir, stem + ascii(".usm"@))) == Some(ModType::CutsceneReplacements),
        classify_file(joined(dir, ascii("pl.dtt"@))) == Some(ModType::PlayerModels),
        classify_file(joined(dir, ascii("pl.dat"@))) == Some(ModType::PlayerModels),
        classify_file(joined(dir, ascii("wp.dtt"@))) == Some(ModType::WeaponModels),
        classify_file(joined(dir, ascii("wp.dat"@))) == Some(ModType::WeaponModels),
        classify_file(joined(dir, ascii("bg.dtt"@))) == Some(ModType::WorldModels),
        classify_file(joined(dir, ascii("bg.dat"@))) == Some(ModType::WorldModels),
        is_model_extension(ext) && stem != ascii("pl"@) && stem != ascii("wp"@) && stem != ascii(
            "bg"@,
        ) ==> classify_file(joined(dir, stem + seq![DOT] + ext)) is None,
        ext != ascii("dss"@) && ext != ascii("usm"@) && !is_model_extension(ext)
            ==> classify_file(joined(dir, stem + seq![DOT] + ext)) is None,
{
    reveal_strlit("dss");
    reveal_strlit("usm");
    reveal_strlit("dtt");
    reveal_strlit("dat");
    reveal_strlit("pl");
    reveal_strlit("wp");
    reveal_strlit("bg");
    reveal_strlit(".dss");
    reveal_strlit(".usm");
    reveal_strlit("pl.dtt");
    reveal_strlit("pl.dat");
    reveal_strlit("wp.dtt");
    reveal_strlit("wp.dat");
    reveal_strlit("bg.dtt");
    reveal_strlit("bg.dat");
    let dss = ascii("dss"@);
    let usm = ascii("usm"@);
    let dtt = ascii("dtt"@);
    let dat = ascii("dat"@);
    let pl = ascii("pl"@);
    let wp = ascii("wp"@);
    let bg = ascii("bg"@);
    lemma_ascii_is_encoding("dss"@);
    lemma_ascii_is_encoding("usm"@);
    lemma_ascii_is_encoding("dtt"@);
    lemma_ascii_is_encoding("dat"@);
    lemma_ascii_is_encoding("pl"@);
    lemma_ascii_is_encoding("wp"@);
    lemma_ascii_is_encoding("bg"@);
    assert(dss[1] != dtt[1] && dss[0] != usm[0] && usm[0] != dtt[0] && dat[1] != dtt[1]
        && dat[1] != dss[1] && dat[0] != usm[0]);
    assert(pl[0] != wp[0] && pl[0] != bg[0] && wp[0] != bg[0]);
    assert(stem + ascii(".dss"@) =~= stem + seq![DOT] + dss);
    assert(stem + ascii(".usm"@) =~= stem + seq![DOT] + usm);
    assert(ascii("pl.dtt"@) =~= pl + seq![DOT] + dtt);
    assert(ascii("pl.dat"@) =~= pl + seq![DOT] + dat);
    assert(ascii("wp.dtt"@) =~= wp + seq![DOT] + dtt);
    assert(ascii("wp.dat"@) =~= wp + seq![DOT] + dat);
    assert(ascii("bg.dtt"@) =~= bg + seq![DOT] + dtt);
    assert(ascii("bg.dat"@) =~= bg + seq![DOT] + dat);
    lemma_classified_by_name(dir, stem, dss);
    lemma_classified_by_name(dir, stem, usm);
    lemma_classified_by_name(dir, pl, dtt);
    lemma_classified_by_name(dir, pl, dat);
    lemma_classified_by_name(dir, wp, dtt);
    lemma_classified_by_name(dir, wp, dat);
    lemma_classified_by_name(dir, bg, dtt);
    lemma_classified_by_name(dir, bg, dat);
    lemma_classified_by_name(dir, stem, ext);
}

/// What is looked for besides the extensions of game files. A shader preset
/// has no extension of its own: it is known by a manifest, a file of a fixed
/// name that the package holds. Without such a name no package is taken for
/// a preset.
#[derive(Clone, Debug, PartialEq, Eq)]
pub struct ClassificationRules {
    pub preset_manifest: Option<Vec<u8>>,
}

/// `ClassificationRules` as plain values.
pub struct ClassificationRulesView {
    pub preset_manifest: Option<Seq<u8>>,
}

impl View for ClassificationRules {
    type V = ClassificationRulesView;

    open spec fn view(&self) -> ClassificationRulesView {
        ClassificationRulesView {
            preset_manifest: match self.preset_manifest {
                Some(name) => Some(name@),
                None => None,
            },
        }
    }
}

impl ClassificationRulesView {
    /// The rules that know game files only.
    pub open spec fn standard() -> ClassificationRulesView {
        ClassificationRulesView { preset_manifest: None }
    }

    /// Whether the file at `path` is the manifest of a shader preset.
    pub open spec fn is_manifest(self, path: Seq<u8>) -> bool {
        self.preset_manifest is Some && self.preset_manifest == file_name_of(path)
    }

    /// The category that the file at `path` is evidence of under these
    /// rules. The extensions of game files come first.
    pub open spec fn classify(self, path: Seq<u8>) -> Option<ModType> {
        match classify_file(path) {
            Some(mod_type) => Some(mod_type),
            None => if self.is_manifest(path) {
                Some(ModType::ReshadePreset)
            } else {
                None
            },
        }
    }
}

impl ClassificationRules {
    /// The rules that know game files only.
    pub fn standard() -> (rules: Self)
        ensures
            rules@ == ClassificationRulesView::standard(),
    {
        Self { preset_manifest: None }
    }

    /// Rules that, besides game files, know a shader preset by a file named
    /// `manifest`.
    pub fn with_preset_manifest(manifest: Vec<u8>) -> (rules: Self)
        ensures
            rules@ == (ClassificationRulesView { preset_manifest: Some(manifest@) }),
    {
        Self { preset_manifest: Some(manifest) }
    }
}

/// Why a file's extension cannot be had.
#[derive(Clone, Copy, Debug, PartialEq, Eq, Structural)]
pub enum ExtensionError {
    /// The file's name has no extension.
    Missing,
    /// The extension is not well-formed text.
    NotText,
}

/// The extension of the file at `path`, as text.
pub fn get_file_extension(path: &[u8]) -> (found: Result<&str, ExtensionError>)
    ensures
        match extension_of(path@) {
            None => found == Err::<&str, ExtensionError>(ExtensionError::Missing),
            Some(ext) => if valid_utf8(ext) {
                found matches Ok(text) && text@ == decode_utf8(ext)
            } else {
                found == Err::<&str, ExtensionError>(ExtensionError::NotText)
            },
        },
{
    match extension(path) {
        None => Err(ExtensionError::Missing),
        Some(ext) => match text_of(ext) {
            Some(text) => Ok(text),
            None => Err(ExtensionError::NotText),
        },
    }
}

/// What looking at one file gave.
#[derive(Clone, Copy, Debug, PartialEq, Eq, Structural)]
pub enum Inspection {
    /// The file is evidence of a category.
    Recognized(ModType),
    /// The file is none that a mod of a known category holds.
    Unrecognized,
    /// The file is passed over: its name has no extension.
    NoExtension,
    /// The file is passed over: its extension is not well-formed text.
    ExtensionNotText,
    /// The file is passed over: its name is not well-formed text.
    NameNotText,
}

impl ClassificationRulesView {
    /// What looking at the file at `path` gives under these rules: the
    /// category it is evidence of, or else why it is none.
    pub open spec fn inspection(self, path: Seq<u8>) -> Inspection {
        match self.classify(path) {
            Some(mod_type) => Inspection::Recognized(mod_type),
            None => match extension_of(path) {
                None => Inspection::NoExtension,
                Some(ext) => if !valid_utf8(ext) {
                    Inspection::ExtensionNotText
                } else if !valid_utf8(file_name_of(path)->0) {
                    Inspection::NameNotText
                } else {
                    Inspection::Unrecognized
                },
            },
        }
    }
}

/// The category that a model file belongs to, by the stem of its name.
fn model_category_of(stem: &[u8]) -> (found: Option<ModType>)
    ensures
        found == model_category(stem@),
{
    proof {
        reveal_strlit("pl");
        reveal_strlit("wp");
        reveal_strlit("bg");
    }
    if same_bytes(stem, ascii_bytes("pl")) {
        Some(ModType::PlayerModels)
    } else if same_bytes(stem, ascii_bytes("wp")) {
        Some(ModType::WeaponModels)
    } else if same_bytes(stem, ascii_bytes("bg")) {
        Some(ModType::WorldModels)
    } else {
        None
    }
}

/// Whether `ext` is one of the two extensions that model files carry.
fn has_model_extension(ext: &[u8]) -> (model: bool)
    ensures
        model == is_model_extension(ext@),
{
    proof {
        reveal_strlit("dtt");
        reveal_strlit("dat");
    }
    same_bytes(ext, ascii_bytes("dtt")) || same_bytes(ext, ascii_bytes("dat"))
}

/// Whether the name of the file at `path` can be read.
pub fn name_is_readable(path: &[u8]) -> (readable: bool)
    ensures
        readable == has_readable_name(path@),
{
    match get_file_extension(path) {
        Ok(_) => match file_name(path) {
            Some(name) => text_of(name).is_some(),
            None => false,
        },
        Err(_) => false,
    }
}

/// The category that the file at `path` is evidence of, by its extension
/// and, for a model file, by the stem of its name.
pub fn classify_game_file(path: &[u8]) -> (found: Option<ModType>)
    ensures
        found == classify_file(path@),
{
    proof {
        reveal_strlit("dss");
        reveal_strlit("usm");
    }
    if !name_is_readable(path) {
        return None;
    }
    match extension(path) {
        Some(ext) => {
            if same_bytes(ext, ascii_bytes("dss")) {
                Some(ModType::Textures)
            } else if same_bytes(ext, ascii_bytes("usm")) {
                Some(ModType::CutsceneReplacements)
            } else if has_model_extension(ext) {
                match file_stem(path) {
                    Some(stem) => model_category_of(stem),
                    None => None,
                }
            } else {
                None
            }
        },
        None => None,
    }
}

impl ClassificationRules {
    /// Whether the file at `path` is the manifest of a shader preset.
    pub fn is_manifest(&self, path: &[u8]) -> (manifest: bool)
        ensures
            manifest == self@.is_manifest(path@),
    {
        match &self.preset_manifest {
            Some(name) => match file_name(path) {
                Some(found) => same_bytes(found, name.as_slice()),
                None => false,
            },
            None => false,
        }
    }

    /// The category that the file at `path` is evidence of under these
    /// rules.
    pub fn classify(&self, path: &[u8]) -> (found: Option<ModType>)
        ensures
            found == self@.classify(path@),
    {
        match classify_game_file(path) {
            Some(mod_type) => Some(mod_type),
            None => if self.is_manifest(path) {
                Some(ModType::ReshadePreset)
            } else {
                None
            },
        }
    }

    /// Looks at the file at `path`: says which category it is evidence of,
    /// or why it is none.
    pub fn inspect_file(&self, path: &[u8]) -> (seen: Inspection)
        ensures
            seen == self@.inspection(path@),
    {
        if let Some(mod_type) = self.classify(path) {
            return Inspection::Recognized(mod_type);
        }
        match get_file_extension(path) {
            Err(ExtensionError::Missing) => Inspection::NoExtension,
            Err(ExtensionError::NotText) => Inspection::ExtensionNotText,
            Ok(_) => {
                if name_is_readable(path) {
                    Inspection::Unrecognized
                } else {
                    Inspection::NameNotText
                }
            },
        }
    }
}

/// One step of walking through an unpacked package: an entry that was
/// found, a file or something else, or the failure to read one.
#[derive(Clone, Debug, PartialEq, Eq)]
pub enum WalkItem {
    Entry { path: Vec<u8>, is_file: bool },
    Unreadable(String),
}

/// A `WalkItem` as plain values.
pub enum WalkItemView {
    Entry { path: Seq<u8>, is_file: bool },
    Unreadable(Seq<char>),
}

impl View for WalkItem {
    type V = WalkItemView;

    open spec fn view(&self) -> WalkItemView {
        match self {
            WalkItem::Entry { path, is_file } => WalkItemView::Entry {
                path: path@,
                is_file: *is_file,
            },
            WalkItem::Unreadable(detail) => WalkItemView::Unreadable(detail@),
        }
    }
}

/// The items of a walk as plain values.
pub open spec fn walk_views(items: Seq<WalkItem>) -> Seq<WalkItemView> {
    items.map_values(|item: WalkItem| item@)
}

/// What a walk through a package comes to.
pub enum Verdict {
    /// No file of the package is evidence of a category.
    NotAMod,
    /// The package is a mod of category `mod_type`: `proof_file` shows it.
    Found { mod_type: ModType, proof_file: Seq<u8> },
    /// The walk met an entry that it could not read.
    Aborted { detail: Seq<char> },
}

impl ClassificationRulesView {
    /// Whether the walk ends at `item`: a file that is evidence of a
    /// category, or an entry that could not be read. What is not a file is
    /// never evidence.
    pub open spec fn stops_at(self, item: WalkItemView) -> bool {
        match item {
            WalkItemView::Entry { path, is_file } => is_file && self.classify(path) is Some,
            WalkItemView::Unreadable(_) => true,
        }
    }

    /// Whether `k` is where the walk through `items` ends: at the first item
    /// that it stops at, or behind the last where it stops at none.
    pub open spec fn is_walk_end(self, items: Seq<WalkItemView>, k: int) -> bool {
        &&& 0 <= k <= items.len()
        &&& forall|j: int| 0 <= j < k ==> !self.stops_at(#[trigger] items[j])
        &&& (k < items.len() ==> self.stops_at(items[k]))
    }

    /// Where the walk through `items` ends.
    pub open spec fn walk_end(self, items: Seq<WalkItemView>) -> int {
        choose|k: int| self.is_walk_end(items, k)
    }

    /// What a walk that ends at `k` comes to.
    pub open spec fn verdict_at(self, items: Seq<WalkItemView>, k: int) -> Verdict {
        if 0 <= k < items.len() {
            match items[k] {
                WalkItemView::Entry { path, is_file } => match self.classify(path) {
                    Some(mod_type) => Verdict::Found { mod_type, proof_file: path },
                    None => Verdict::NotAMod,
                },
                WalkItemView::Unreadable(detail) => Verdict::Aborted { detail },
            }
        } else {
            Verdict::NotAMod
        }
    }

    /// What the walk through `items` comes to: the first file that is
    /// evidence of a category decides, unless an entry before it could not
    /// be read.
    pub open spec fn verdict(self, items: Seq<WalkItemView>) -> Verdict {
        self.verdict_at(items, self.walk_end(items))
    }

    /// A walk ends at one place only.
    pub proof fn lemma_walk_end_unique(self, items: Seq<WalkItemView>, k: int)
        requires
            self.is_walk_end(items, k),
        ensures
            self.walk_end(items) == k,
    {
        let chosen = self.walk_end(items);
        assert(self.is_walk_end(items, chosen));
        if chosen < k {
            assert(!self.stops_at(items[chosen]));
        } else if k < chosen {
            assert(!self.stops_at(items[k]));
        }
    }

    /// A package without a file that is evidence of a category, and without
    /// an entry that could not be read, is no mod; so is an empty one. Only
    /// such a package is none.
    pub proof fn lemma_nothing_recognized(self, items: Seq<WalkItemView>)
        ensures
            (forall|j: int| 0 <= j < items.len() ==> !self.stops_at(#[trigger] items[j]))
                ==> self.verdict(items) == Verdict::NotAMod,
            self.verdict(items) == Verdict::NotAMod ==> forall|j: int|
                0 <= j < items.len() ==> !self.stops_at(#[trigger] items[j]),
            items.len() == 0 ==> self.verdict(items) == Verdict::NotAMod,
    {
        if forall|j: int| 0 <= j < items.len() ==> !self.stops_at(#[trigger] items[j]) {
            self.lemma_walk_end_unique(items, items.len() as int);
        }
        if self.verdict(items) == Verdict::NotAMod {
            let k = self.lemma_walk_ends(items);
            if k < items.len() {
                assert(self.stops_at(items[k]));
            }
        }
    }

    /// Every walk ends somewhere: the place is returned.
    pub proof fn lemma_walk_ends(self, items: Seq<WalkItemView>) -> (k: int)
        ensures
            self.is_walk_end(items, k),
            self.walk_end(items) == k,
        decreases items.len(),
    {
        if items.len() == 0 {
            assert(self.is_walk_end(items, 0));
            self.lemma_walk_end_unique(items, 0);
            0
        } else {
            let front = items.drop_last();
            let k = self.lemma_walk_ends(front);
            assert forall|j: int| 0 <= j < k implies !self.stops_at(#[trigger] items[j]) by {
                assert(front[j] == items[j]);
            }
            if k < front.len() {
                assert(front[k] == items[k]);
                assert(self.is_walk_end(items, k));
                self.lemma_walk_end_unique(items, k);
                k
            } else if self.stops_at(items.last()) {
                assert(self.is_walk_end(items, k));
                self.lemma_walk_end_unique(items, k);
                k
            } else {
                assert(self.is_walk_end(items, k + 1));
                self.lemma_walk_end_unique(items, k + 1);
                k + 1
            }
        }
    }

    /// The first match wins. Where the file at place `k` is evidence of a
    /// category, and the walk stops at nothing before it, the package has
    /// that category and the file is its proof, whatever follows it.
    pub proof fn lemma_first_match_wins(self, items: Seq<WalkItemView>, k: int)
        requires
            0 <= k < items.len(),
            items[k] is Entry,
            items[k]->is_file,
            self.classify(items[k]->path) is Some,
            forall|j: int| 0 <= j < k ==> !self.stops_at(#[trigger] items[j]),
        ensures
            self.verdict(items) == (Verdict::Found {
                mod_type: self.classify(items[k]->path)->0,
                proof_file: items[k]->path,
            }),
    {
        self.lemma_walk_end_unique(items, k);
    }

    /// What comes behind the place where a walk ends does not change what
    /// the walk comes to.
    pub proof fn lemma_rest_is_not_read(
        self,
        items: Seq<WalkItemView>,
        other: Seq<WalkItemView>,
        k: int,
    )
        requires
            self.is_walk_end(items, k),
            k < items.len(),
            k < other.len(),
            other.take(k + 1) == items.take(k + 1),
        ensures
            self.verdict(other) == self.verdict(items),
    {
        assert forall|j: int| 0 <= j <= k implies other[j] == items[j] by {
            assert(other.take(k + 1)[j] == other[j]);
            assert(items.take(k + 1)[j] == items[j]);
        }
        assert(self.is_walk_end(other, k));
        self.lemma_walk_end_unique(items, k);
        self.lemma_walk_end_unique(other, k);
    }
}

impl ClassificationRules {
    /// Whether a walk ends at `item`, so that nothing behind it has to be
    /// read.
    pub fn stops_at(&self, item: &WalkItem) -> (stops: bool)
        ensures
            stops == self@.stops_at(item@),
    {
        match item {
            WalkItem::Entry { path, is_file } => *is_file && self.classify(path.as_slice()).is_some(),
            WalkItem::Unreadable(_) => true,
        }
    }

    /// Goes through the items of a walk in their order, and says which
    /// category of mod the package holds: that of the first file that is
    /// evidence of one, with that file as proof. A package without such a
    /// file is no mod. An entry that could not be read, met before any such
    /// file, ends the walk with an error.
    pub fn check_mod_type(&self, items: &[WalkItem]) -> (found: Result<
        Option<(ModType, Vec<u8>)>,
        InstallationError,
    >)
        ensures
            match self@.verdict(walk_views(items@)) {
                Verdict::NotAMod => found matches Ok(None),
                Verdict::Found { mod_type, proof_file } => found matches Ok(Some(evidence))
                    && evidence.0 == mod_type && evidence.1@ == proof_file,
                Verdict::Aborted { detail } => found matches Err(e) && e@
                    == InstallationErrorView::FileAccessingError(detail),
            },
    {
        let ghost views = walk_views(items@);
        let mut i: usize = 0;
        while i < items.len()
            invariant
                i <= items.len(),
                views == walk_views(items@),
                forall|j: int| 0 <= j < i ==> !self@.stops_at(#[trigger] views[j]),
            decreases items.len() - i,
        {
            assert(views[i as int] == items@[i as int]@);
            match &items[i] {
                WalkItem::Unreadable(detail) => {
                    proof {
                        self@.lemma_walk_end_unique(views, i as int);
                    }
                    return Err(InstallationError::FileAccessingError(detail.clone()));
                },
                WalkItem::Entry { path, is_file } => {
                    if *is_file {
                        if let Some(mod_type) = self.classify(path.as_slice()) {
                            proof {
                                self@.lemma_walk_end_unique(views, i as int);
                            }
                            let proof_file = vstd::slice::slice_to_vec(path.as_slice());
                            return Ok(Some((mod_type, proof_file)));
                        }
                    }
                },
            }
            i += 1;
        }
        proof {
            self@.lemma_walk_end_unique(views, i as int);
        }
        Ok(None)
    }
}

/// Says which category of mod a package holds, by the extensions of game
/// files alone.
pub fn check_mod_type(items: &[WalkItem]) -> (found: Result<
    Option<(ModType, Vec<u8>)>,
    InstallationError,
>)
    ensures
        match ClassificationRulesView::standard().verdict(walk_views(items@)) {
            Verdict::NotAMod => found matches Ok(None),
            Verdict::Found { mod_type, proof_file } => found matches Ok(Some(evidence))
                && evidence.0 == mod_type && evidence.1@ == proof_file,
            Verdict::Aborted { detail } => found matches Err(e) && e@
                == InstallationErrorView::FileAccessingError(detail),
        },
{
    ClassificationRules::standard().check_mod_type(items)
}

} // verus!
