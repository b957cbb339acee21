//! The three things a user can ask for: installing a mod, uninstalling one,
//! and listing what is installed.
//!
//! An installation goes through its stages one event at a time. Whoever
//! drives it does the work of each stage, and reports what came of it.

use vstd::prelude::*;
use vstd::string::StringExecFns;
use crate::classifier::{
    walk_views, ClassificationRules, ClassificationRulesView, Verdict, WalkItem, WalkItemView,
};
use crate::errors::{InstallationError, InstallationErrorView};
use crate::paths::{
    file_name_of, is_entry_of, is_name, is_plain_directory, joined, lemma_parts_of_joined,
    lies_in, parent, parent_of, SEPARATOR,
};
use crate::records::{mod_views, path_views, Config, ConfigView, Mod, ModType, ModView};
use crate::router::{
    destination, destination_for, destination_of, installable, lemma_copies_go_into_destination,
    lemma_plan_covers_files, lemma_plan_targets_differ, InstallerView, SourceEntryView,
};

verus! {

/// The stage that an installation is at.
#[derive(Clone, Debug, PartialEq, Eq)]
pub enum InstallState {
    /// Waiting to be told which archive to install.
    AwaitingArchive,
    /// The archive is being unpacked.
    Extracting { archive: Vec<u8> },
    /// The unpacked package is being looked through.
    Classifying { extracted: Vec<u8> },
    /// The files of the mod are being copied from `source`, the directory
    /// that holds `proof_file`, somewhere in the package at `extracted`.
    Routing { mod_type: ModType, proof_file: Vec<u8>, source: Vec<u8>, extracted: Vec<u8> },
    /// The mod is in the registry, and the registry is being written out.
    Persisting,
    /// The mod is installed and on record.
    Recorded,
    /// The installation has failed.
    Failed(InstallationError),
}

/// An `InstallState` as plain values.
pub enum InstallStateView {
    AwaitingArchive,
    Extracting { archive: Seq<u8> },
    Classifying { extracted: Seq<u8> },
    Routing { mod_type: ModType, proof_file: Seq<u8>, source: Seq<u8>, extracted: Seq<u8> },
    Persisting,
    Recorded,
    Failed(InstallationErrorView),
}

impl View for InstallState {
    type V = InstallStateView;

    open spec fn view(&self) -> InstallStateView {
        match self {
            InstallState::AwaitingArchive => InstallStateView::AwaitingArchive,
            InstallState::Extracting { archive } => InstallStateView::Extracting {
                archive: archive@,
            },
            InstallState::Classifying { extracted } => InstallStateView::Classifying {
                extracted: extracted@,
            },
            InstallState::Routing { mod_type, proof_file, source, extracted } => {
                InstallStateView::Routing {
                    mod_type: *mod_type,
                    proof_file: proof_file@,
                    source: source@,
                    extracted: extracted@,
                }
            },
            InstallState::Persisting => InstallStateView::Persisting,
            InstallState::Recorded => InstallStateView::Recorded,
            InstallState::Failed(error) => InstallStateView::Failed(error@),
        }
    }
}

impl InstallState {
    /// Whether the installation has come to its end, well or not.
    pub fn is_final(&self) -> (ended: bool)
        ensures
            ended == self@.is_final(),
    {
        match self {
            InstallState::Recorded => true,
            InstallState::Failed(_) => true,
            _ => false,
        }
    }
}

/// What came of the work of a stage.
#[derive(Debug)]
pub enum InstallEvent {
    /// The user named an archive, which is on disk or is not.
    ArchiveChosen { path: Vec<u8>, exists: bool },
    /// Unpacking ended: with the directory that holds the package, or with
    /// an error.
    Extracted(Result<Vec<u8>, InstallationError>),
    /// The package was walked through: these are its entries, in the order
    /// of the walk.
    Walked(Vec<WalkItem>),
    /// Copying ended: with the mod's record, or with an error.
    Routed(Result<Mod, InstallationError>),
    /// Writing the registry out ended: well, or with an error's detail.
    Persisted(Result<(), String>),
}

/// An `InstallEvent` as plain values.
pub enum InstallEventView {
    ArchiveChosen { path: Seq<u8>, exists: bool },
    Extracted(Result<Seq<u8>, InstallationErrorView>),
    Walked(Seq<WalkItemView>),
    Routed(Result<ModView, InstallationErrorView>),
    Persisted(Result<(), Seq<char>>),
}

impl View for InstallEvent {
    type V = InstallEventView;

    open spec fn view(&self) -> InstallEventView {
        match self {
            InstallEvent::ArchiveChosen { path, exists } => InstallEventView::ArchiveChosen {
                path: path@,
                exists: *exists,
            },
            InstallEvent::Extracted(Ok(dir)) => InstallEventView::Extracted(Ok(dir@)),
            InstallEvent::Extracted(Err(error)) => InstallEventView::Extracted(Err(error@)),
            InstallEvent::Walked(items) => InstallEventView::Walked(walk_views(items@)),
            InstallEvent::Routed(Ok(record)) => InstallEventView::Routed(Ok(record@)),
            InstallEvent::Routed(Err(error)) => InstallEventView::Routed(Err(error@)),
            InstallEvent::Persisted(Ok(_)) => InstallEventView::Persisted(Ok(())),
            InstallEvent::Persisted(Err(detail)) => InstallEventView::Persisted(Err(detail@)),
        }
    }
}

/// The directory that a mod is installed from: the one that holds the file
/// which proved its category.
pub open spec fn source_of(proof_file: Seq<u8>) -> Seq<u8> {
    match parent_of(proof_file) {
        Some(dir) => dir,
        None => Seq::empty(),
    }
}

/// The directory that a mod is installed from holds the file that proved
/// its category, under that file's name: where the walk came upon the entry
/// `name` of the directory `dir`, the mod is installed from `dir`.
pub proof fn lemma_source_holds_proof_file(dir: Seq<u8>, name: Seq<u8>)
    requires
        is_name(name),
        !name.contains(SEPARATOR),
        is_plain_directory(dir),
    ensures
        source_of(joined(dir, name)) == dir,
        file_name_of(joined(dir, name)) == Some(name),
{
    lemma_parts_of_joined(dir, name);
}

/// Whether every path of `files` is an entry of the directory `dir`.
pub open spec fn all_in(dir: Seq<u8>, files: Seq<Seq<u8>>) -> bool {
    forall|i: int| 0 <= i < files.len() ==> lies_in(dir, #[trigger] files[i])
}

/// Whether `record` can be what the installation of a mod of category
/// `mod_type` into the game at `game_path` leaves: a well-formed record of
/// that category, enabled, with its files in the directory where the game
/// keeps that category.
pub open spec fn fits(game_path: Seq<u8>, mod_type: ModType, record: ModView) -> bool {
    &&& record.mod_type == mod_type
    &&& record.enabled
    &&& record.well_formed()
    &&& (destination_of(game_path, mod_type) matches Some(dir) ==> all_in(dir, record.files))
}

/// What an installation that the library has led leaves is fit to enter
/// the registry: the record that comes of installing the files of a
/// directory listing, under a name, into the game of the registry.
pub proof fn lemma_installed_record_fits(
    game_path: Seq<u8>,
    mod_type: ModType,
    name: Seq<char>,
    source: Seq<u8>,
    entries: Seq<SourceEntryView>,
    preset_directory: Seq<u8>,
)
    requires
        installable(mod_type, name, entries),
    ensures
        fits(
            game_path,
            mod_type,
            InstallerView::start(
                mod_type,
                name,
                source,
                entries,
                destination_for(game_path, mod_type, preset_directory),
            ).record(),
        ),
{
    let destination = destination_for(game_path, mod_type, preset_directory);
    lemma_plan_targets_differ(source, entries, destination);
    lemma_plan_covers_files(source, entries, destination);
    lemma_copies_go_into_destination(source, entries, destination);
}

/// Whether `record` can be what the installation of a mod of category
/// `mod_type` into the game at `game_path` leaves.
pub fn record_fits(game_path: &[u8], mod_type: ModType, record: &Mod) -> (fit: bool)
    ensures
        fit == fits(game_path@, mod_type, record@),
{
    if record.mod_type() != mod_type || !record.enabled() || !record.is_well_formed() {
        return false;
    }
    match destination(game_path, mod_type) {
        None => true,
        Some(dir) => {
            let files = record.files();
            let ghost views = path_views(files@);
            let mut i: usize = 0;
            while i < files.len()
                invariant
                    i <= files.len(),
                    views == path_views(files@),
                    views == record@.files,
                    record@.mod_type == mod_type,
                    record@.enabled,
                    record@.well_formed(),
                    destination_of(game_path@, mod_type) == Some(dir@),
                    forall|j: int| 0 <= j < i ==> lies_in(dir@, #[trigger] views[j]),
                decreases files.len() - i,
            {
                assert(views[i as int] == files@[i as int]@);
                if !is_entry_of(dir.as_slice(), files[i].as_slice()) {
                    return false;
                }
                i += 1;
            }
            true
        },
    }
}

/// Whether the registry `now` is `before` with one record appended, and
/// nothing else changed.
pub open spec fn one_more(before: ConfigView, now: ConfigView) -> bool {
    &&& now.game_path == before.game_path
    &&& now.mods.len() == before.mods.len() + 1
    &&& now.mods.drop_last() == before.mods
}

impl InstallStateView {
    /// Whether the installation has come to its end, well or not.
    pub open spec fn is_final(self) -> bool {
        self is Recorded || self is Failed
    }

    /// The stage that follows when the package at `extracted` has been
    /// walked through.
    pub open spec fn classified(
        rules: ClassificationRulesView,
        extracted: Seq<u8>,
        items: Seq<WalkItemView>,
    ) -> InstallStateView {
        match rules.verdict(items) {
            Verdict::Found { mod_type, proof_file } => InstallStateView::Routing {
                mod_type,
                proof_file,
                source: source_of(proof_file),
                extracted,
            },
            Verdict::NotAMod => InstallStateView::Failed(InstallationErrorView::NoRecognizedMod),
            Verdict::Aborted { detail } => InstallStateView::Failed(
                InstallationErrorView::FileAccessingError(detail),
            ),
        }
    }

    /// The stage that follows this one on `event`. Each stage waits for the
    /// event that reports its own work, and stays as it is on any other. An
    /// installation that has come to its end stays there. A record that
    /// does not fit the mod that is being installed fails the installation.
    pub open spec fn next(
        self,
        rules: ClassificationRulesView,
        event: InstallEventView,
        registry: ConfigView,
    ) -> InstallStateView {
        match (self, event) {
            (
                InstallStateView::AwaitingArchive,
                InstallEventView::ArchiveChosen { path, exists },
            ) => if exists {
                InstallStateView::Extracting { archive: path }
            } else {
                InstallStateView::Failed(InstallationErrorView::NotFound(path))
            },
            (InstallStateView::Extracting { .. }, InstallEventView::Extracted(Ok(dir))) => {
                InstallStateView::Classifying { extracted: dir }
            },
            (InstallStateView::Extracting { .. }, InstallEventView::Extracted(Err(error))) => {
                InstallStateView::Failed(error)
            },
            (InstallStateView::Classifying { extracted }, InstallEventView::Walked(items)) => {
                InstallStateView::classified(rules, extracted, items)
            },
            (InstallStateView::Routing { mod_type, .. }, InstallEventView::Routed(Ok(record))) => {
                if fits(registry.game_path, mod_type, record) {
                    InstallStateView::Persisting
                } else {
                    InstallStateView::Failed(InstallationErrorView::RecordRejected)
                }
            },
            (InstallStateView::Routing { .. }, InstallEventView::Routed(Err(error))) => {
                InstallStateView::Failed(error)
            },
            (InstallStateView::Persisting, InstallEventView::Persisted(Ok(_))) => {
                InstallStateView::Recorded
            },
            (InstallStateView::Persisting, InstallEventView::Persisted(Err(detail))) => {
                InstallStateView::Failed(InstallationErrorView::RegistryPersistenceFailure(detail))
            },
            (stage, _) => stage,
        }
    }

    /// The directory that holds the unpacked package, as long as the
    /// installation has use for it.
    pub open spec fn scratch(self) -> Option<Seq<u8>> {
        match self {
            InstallStateView::Classifying { extracted } => Some(extracted),
            InstallStateView::Routing { extracted, .. } => Some(extracted),
            _ => None,
        }
    }

    /// The directory that is to be deleted after `event` at this stage: the
    /// unpacked package, once the installation has no more use for it.
    pub open spec fn released(
        self,
        rules: ClassificationRulesView,
        event: InstallEventView,
        registry: ConfigView,
    ) -> Option<Seq<u8>> {
        if self.next(rules, event, registry).scratch() is None {
            self.scratch()
        } else {
            None
        }
    }

    /// The unpacked package is released on every way out: as long as an
    /// installation holds one, each step either keeps it or hands it over
    /// for deletion. Nothing else is ever handed over, and an installation
    /// that has come to its end, or writes the registry out, holds none.
    pub proof fn lemma_scratch_is_released(
        self,
        rules: ClassificationRulesView,
        event: InstallEventView,
        registry: ConfigView,
    )
        ensures
            match self.scratch() {
                Some(dir) => (self.next(rules, event, registry).scratch() == Some(dir) && self.released(
                    rules,
                    event,
                    registry,
                ) is None) || (self.next(rules, event, registry).scratch() is None && self.released(
                    rules,
                    event,
                    registry,
                ) == Some(dir)),
                None => self.released(rules, event, registry) is None,
            },
            self.is_final() || self is Persisting ==> self.scratch() is None,
    {
    }

    /// The registry after `event` at this stage: the record of the mod is
    /// appended when its files have all been copied and the record fits the
    /// mod, and at no other time does the registry change.
    pub open spec fn registry_after(self, event: InstallEventView, registry: ConfigView) -> ConfigView {
        match (self, event) {
            (InstallStateView::Routing { mod_type, .. }, InstallEventView::Routed(Ok(record))) => {
                if fits(registry.game_path, mod_type, record) {
                    ConfigView { mods: registry.mods.push(record), ..registry }
                } else {
                    registry
                }
            },
            _ => registry,
        }
    }

    /// An installation that fails leaves the registry as it was, and so
    /// does every step but the one that ends the copying well. That step
    /// appends the new record behind the others, and the record is a
    /// well-formed, enabled one of the category that was found.
    pub proof fn lemma_commit_is_all_or_nothing(
        self,
        rules: ClassificationRulesView,
        event: InstallEventView,
        registry: ConfigView,
    )
        ensures
            self.next(rules, event, registry) is Failed ==> self.registry_after(event, registry)
                == registry,
            self.registry_after(event, registry) != registry ==> self is Routing
                && self.next(rules, event, registry) is Persisting,
            self.registry_after(event, registry) != registry ==> self.registry_after(
                event,
                registry,
            ).mods.len() == registry.mods.len() + 1 && fits(
                registry.game_path,
                self->mod_type,
                self.registry_after(event, registry).mods.last(),
            ),
            self.registry_after(event, registry).game_path == registry.game_path,
            self.registry_after(event, registry).mods.len() >= registry.mods.len(),
            self.registry_after(event, registry).mods.take(registry.mods.len() as int)
                == registry.mods,
    {
        assert(registry.mods.take(registry.mods.len() as int) =~= registry.mods);
        match (self, event) {
            (InstallStateView::Routing { .. }, InstallEventView::Routed(Ok(record))) => {
                assert(registry.mods.push(record).take(registry.mods.len() as int)
                    =~= registry.mods);
            },
            _ => {},
        }
    }

    /// The stage and the registry after the events of `events`, one after
    /// the other.
    pub open spec fn run(
        self,
        rules: ClassificationRulesView,
        events: Seq<InstallEventView>,
        registry: ConfigView,
    ) -> (InstallStateView, ConfigView)
        decreases events.len(),
    {
        if events.len() == 0 {
            (self, registry)
        } else {
            self.next(rules, events[0], registry).run(
                rules,
                events.drop_first(),
                self.registry_after(events[0], registry),
            )
        }
    }

    /// Whether the registry `now` is what an installation at this stage,
    /// begun on the registry `before`, has made of it: the same registry as
    /// long as the files are not all copied, and the same with one record
    /// more from then on. A failed installation has left one or the other.
    pub open spec fn accounts_for(self, before: ConfigView, now: ConfigView) -> bool {
        match self {
            InstallStateView::Persisting | InstallStateView::Recorded => one_more(before, now),
            InstallStateView::Failed(_) => now == before || one_more(before, now),
            _ => now == before,
        }
    }

    /// An installation commits once or not at all. Whatever is reported to
    /// it, and in whatever order, the registry it leaves is the one it was
    /// begun on, with one record more where the files were all copied, and
    /// with nothing else changed.
    pub proof fn lemma_run_commits_once(
        self,
        rules: ClassificationRulesView,
        events: Seq<InstallEventView>,
        before: ConfigView,
        now: ConfigView,
    )
        requires
            self.accounts_for(before, now),
        ensures
            self.run(rules, events, now).0.accounts_for(before, self.run(rules, events, now).1),
        decreases events.len(),
    {
        if events.len() > 0 {
            let next = self.next(rules, events[0], now);
            let registry = self.registry_after(events[0], now);
            match (self, events[0]) {
                (InstallStateView::Routing { .. }, InstallEventView::Routed(Ok(record))) => {
                    assert(now.mods.push(record).drop_last() =~= now.mods);
                },
                _ => {},
            }
            next.lemma_run_commits_once(rules, events.drop_first(), before, registry);
        }
    }

    /// An installation that is begun anew and runs to its good end has
    /// added one record to the registry; one that stops before its files
    /// are all copied has added none.
    pub proof fn lemma_installation_from_the_start(
        rules: ClassificationRulesView,
        events: Seq<InstallEventView>,
        registry: ConfigView,
    )
        ensures
            ({
                let (end, now) = InstallStateView::AwaitingArchive.run(rules, events, registry);
                &&& end is Recorded ==> one_more(registry, now)
                &&& !(end is Recorded || end is Persisting || end is Failed) ==> now == registry
                &&& now == registry || one_more(registry, now)
            }),
    {
        InstallStateView::AwaitingArchive.lemma_run_commits_once(rules, events, registry, registry);
    }

    /// An installation that has come to its end stays there, whatever is
    /// reported to it.
    pub proof fn lemma_end_is_final(
        self,
        rules: ClassificationRulesView,
        event: InstallEventView,
        registry: ConfigView,
    )
        requires
            self.is_final(),
        ensures
            self.next(rules, event, registry) == self,
            self.registry_after(event, registry) == registry,
    {
    }

    /// A package in which nothing is recognized ends the installation as no
    /// mod, with the registry as it was.
    pub proof fn lemma_unrecognized_package(
        self,
        rules: ClassificationRulesView,
        items: Seq<WalkItemView>,
        registry: ConfigView,
    )
        requires
            self is Classifying,
            forall|j: int| 0 <= j < items.len() ==> !rules.stops_at(#[trigger] items[j]),
        ensures
            self.next(rules, InstallEventView::Walked(items), registry) == InstallStateView::Failed(
                InstallationErrorView::NoRecognizedMod,
            ),
            self.registry_after(InstallEventView::Walked(items), registry) == registry,
    {
        rules.lemma_nothing_recognized(items);
    }
}

/// What a step of an installation comes to: the stage that follows, and
/// the directory of the unpacked package where it is to be deleted now.
#[derive(Clone, Debug, PartialEq, Eq)]
pub struct InstallStep {
    pub state: InstallState,
    pub release: Option<Vec<u8>>,
}

/// Takes an installation one stage further: `event` reports what came of
/// the work of the stage `state`, and the stage that follows is returned.
/// The record of the mod enters `registry` when its files have all been
/// copied, if it is a well-formed, enabled record of the category that was
/// found; on every other step, and on every failure, the registry stays as
/// it is. The unpacked package is handed over for deletion as soon as
/// the installation has no more use for it.
pub fn install_mod(
    state: InstallState,
    event: InstallEvent,
    rules: &ClassificationRules,
    registry: &mut Config,
) -> (step: InstallStep)
    ensures
        step.state@ == state@.next(rules@, event@, old(registry)@),
        match state@.released(rules@, event@, old(registry)@) {
            Some(dir) => step.release matches Some(d) && d@ == dir,
            None => step.release is None,
        },
        final(registry)@ == state@.registry_after(event@, old(registry)@),
{
    match state {
        InstallState::AwaitingArchive => match event {
            InstallEvent::ArchiveChosen { path, exists } => {
                if exists {
                    InstallStep { state: InstallState::Extracting { archive: path }, release: None }
                } else {
                    InstallStep {
                        state: InstallState::Failed(InstallationError::NotFound(path)),
                        release: None,
                    }
                }
            },
            _ => InstallStep { state: InstallState::AwaitingArchive, release: None },
        },
        InstallState::Extracting { archive } => match event {
            InstallEvent::Extracted(Ok(dir)) => InstallStep {
                state: InstallState::Classifying { extracted: dir },
                release: None,
            },
            InstallEvent::Extracted(Err(error)) => InstallStep {
                state: InstallState::Failed(error),
                release: None,
            },
            _ => InstallStep { state: InstallState::Extracting { archive }, release: None },
        },
        InstallState::Classifying { extracted } => match event {
            InstallEvent::Walked(items) => match rules.check_mod_type(items.as_slice()) {
                Ok(Some((mod_type, proof_file))) => {
                    let source = match parent(proof_file.as_slice()) {
                        Some(dir) => dir,
                        None => Vec::new(),
                    };
                    InstallStep {
                        state: InstallState::Routing { mod_type, proof_file, source, extracted },
                        release: None,
                    }
                },
                Ok(None) => InstallStep {
                    state: InstallState::Failed(InstallationError::NoRecognizedMod),
                    release: Some(extracted),
                },
                Err(error) => InstallStep {
                    state: InstallState::Failed(error),
                    release: Some(extracted),
                },
            },
            _ => InstallStep { state: InstallState::Classifying { extracted }, release: None },
        },
        InstallState::Routing { mod_type, proof_file, source, extracted } => match event {
            InstallEvent::Routed(Ok(record)) => {
                if record_fits(registry.game_path.as_slice(), mod_type, &record) {
                    registry.add_mod(record);
                    InstallStep { state: InstallState::Persisting, release: Some(extracted) }
                } else {
                    InstallStep {
                        state: InstallState::Failed(InstallationError::RecordRejected),
                        release: Some(extracted),
                    }
                }
            },
            InstallEvent::Routed(Err(error)) => InstallStep {
                state: InstallState::Failed(error),
                release: Some(extracted),
            },
            _ => InstallStep {
                state: InstallState::Routing { mod_type, proof_file, source, extracted },
                release: None,
            },
        },
        InstallState::Persisting => match event {
            InstallEvent::Persisted(Ok(_)) => InstallStep {
                state: InstallState::Recorded,
                release: None,
            },
            InstallEvent::Persisted(Err(detail)) => InstallStep {
                state: InstallState::Failed(InstallationError::RegistryPersistenceFailure(detail)),
                release: None,
            },
            _ => InstallStep { state: InstallState::Persisting, release: None },
        },
        InstallState::Recorded => InstallStep { state: InstallState::Recorded, release: None },
        InstallState::Failed(error) => InstallStep {
            state: InstallState::Failed(error),
            release: None,
        },
    }
}

/// What came of removing one file of a mod.
#[derive(Clone, Debug, PartialEq, Eq)]
pub enum RemovalOutcome {
    /// The file was there and has been removed.
    Removed,
    /// The file was gone already.
    AlreadyMissing,
    /// The file is still there: removing it failed.
    Failed(String),
}

impl RemovalOutcome {
    /// Whether the file is gone: removed now, or missing before.
    pub open spec fn gone(self) -> bool {
        !(self is Failed)
    }

    /// Whether the file is gone: removed now, or missing before.
    pub fn is_gone(&self) -> (gone: bool)
        ensures
            gone == self.gone(),
    {
        match self {
            RemovalOutcome::Failed(_) => false,
            _ => true,
        }
    }
}

/// Why a mod was not uninstalled.
#[derive(Clone, Copy, Debug, PartialEq, Eq, Structural)]
pub enum UninstallError {
    /// No mod on record goes by the name.
    UnknownMod,
    /// Some file of the mod is not known to be gone: removing it failed, or
    /// nothing was reported of it.
    FilesNotRemoved,
}

/// Whether each of the first `count` files is reported gone.
pub open spec fn all_gone(count: nat, outcomes: Seq<RemovalOutcome>) -> bool {
    &&& outcomes.len() >= count
    &&& forall|j: int| 0 <= j < count ==> (#[trigger] outcomes[j]).gone()
}

impl ConfigView {
    /// What uninstalling the mod that goes by `name` comes to, when the
    /// removal of its files, one after the other, has gone as `outcomes`
    /// say: the record that leaves the registry, with the registry that
    /// stays behind; or why the mod stays.
    pub open spec fn uninstalled(self, name: Seq<char>, outcomes: Seq<RemovalOutcome>) -> Result<
        (ModView, ConfigView),
        UninstallError,
    > {
        match self.position_of(name) {
            None => Err(UninstallError::UnknownMod),
            Some(place) => if all_gone(self.mods[place].files.len(), outcomes) {
                Ok((self.mods[place], ConfigView { mods: self.mods.remove(place), ..self }))
            } else {
                Err(UninstallError::FilesNotRemoved)
            },
        }
    }

    /// Uninstalling does not fail on files that are gone already: a mod on
    /// record, none of whose files could be found, is uninstalled all the
    /// same. Its record leaves the registry, and the others stay in their
    /// order.
    pub proof fn lemma_missing_files_do_not_fail(
        self,
        name: Seq<char>,
        place: int,
        outcomes: Seq<RemovalOutcome>,
    )
        requires
            self.is_first_named(name, place),
            outcomes.len() == self.mods[place].files.len(),
            forall|j: int|
                0 <= j < outcomes.len() ==> #[trigger] outcomes[j]
                    == RemovalOutcome::AlreadyMissing,
        ensures
            self.uninstalled(name, outcomes) == Ok::<(ModView, ConfigView), UninstallError>(
                (self.mods[place], ConfigView { mods: self.mods.remove(place), ..self }),
            ),
    {
        self.lemma_first_named_is_unique(name, place);
    }
}

/// Whether each of the first `count` files is reported gone.
fn check_all_gone(count: usize, outcomes: &[RemovalOutcome]) -> (gone: bool)
    ensures
        gone == all_gone(count as nat, outcomes@),
{
    if outcomes.len() < count {
        return false;
    }
    let mut j: usize = 0;
    while j < count
        invariant
            j <= count <= outcomes.len(),
            forall|k: int| 0 <= k < j ==> (#[trigger] outcomes@[k]).gone(),
        decreases count - j,
    {
        if !outcomes[j].is_gone() {
            return false;
        }
        j += 1;
    }
    true
}

/// Takes the first mod that goes by `name` off the registry, once its files
/// are gone. `outcomes` says what came of removing each file of its record,
/// in the record's order. A file that was missing already counts as gone.
/// Where a file is not known to be gone, or no mod goes by the name, the
/// registry stays as it is.
pub fn uninstall_mod(registry: &mut Config, name: &str, outcomes: &[RemovalOutcome]) -> (removed:
    Result<Mod, UninstallError>)
    ensures
        match old(registry)@.uninstalled(name@, outcomes@) {
            Ok((record, rest)) => removed matches Ok(r) && r@ == record && final(registry)@
                == rest,
            Err(error) => removed == Err::<Mod, UninstallError>(error) && final(registry)@ == old(
                registry,
            )@,
        },
{
    match registry.position_of(name) {
        None => Err(UninstallError::UnknownMod),
        Some(place) => {
            assert(registry@.mods[place as int] == registry.mods@[place as int]@);
            let count: usize = registry.mods[place].files().len();
            if check_all_gone(count, outcomes) {
                match registry.remove_mod(place) {
                    Some(record) => Ok(record),
                    None => Err(UninstallError::UnknownMod),
                }
            } else {
                Err(UninstallError::FilesNotRemoved)
            }
        },
    }
}

/// The line that tells of one mod in a listing.
pub open spec fn listing_line(record: ModView) -> Seq<char> {
    record.name + " ("@ + record.mod_type.name_of() + ", "@ + (if record.enabled {
        "enabled"@
    } else {
        "disabled"@
    }) + ")"@
}

/// The lines that tell of the mods on record, one for each, in their order.
pub open spec fn listing(mods: Seq<ModView>) -> Seq<Seq<char>> {
    mods.map_values(|record: ModView| listing_line(record))
}

/// The texts of a list as sequences.
pub open spec fn line_views(lines: Seq<String>) -> Seq<Seq<char>> {
    lines.map_values(|line: String| line@)
}

/// The lines to print for a listing of `mods`: for each mod, in the order
/// of the registry, its name, its category, and whether it is enabled.
pub fn list_mods(mods: &[Mod]) -> (lines: Vec<String>)
    ensures
        line_views(lines@) == listing(mod_views(mods@)),
{
    let mut lines: Vec<String> = Vec::new();
    let mut i: usize = 0;
    while i < mods.len()
        invariant
            i <= mods.len(),
            line_views(lines@) =~= listing(mod_views(mods@)).take(i as int),
        decreases mods.len() - i,
    {
        let record = &mods[i];
        let mut line = record.name().clone();
        line.append(" (");
        line.append(record.mod_type().name());
        line.append(", ");
        line.append(if record.enabled() { "enabled" } else { "disabled" });
        line.append(")");
        assert(line@ == listing_line(record@));
        let ghost before = line_views(lines@);
        lines.push(line);
        assert(line_views(lines@) =~= before.push(listing_line(record@)));
        assert(listing(mod_views(mods@)).take(i + 1) =~= listing(mod_views(mods@)).take(
            i as int,
        ).push(listing_line(mods@[i as int]@)));
        i += 1;
    }
    lines
}

} // verus!
