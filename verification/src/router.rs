//! Routing a mod's files into the game: where the files of each category
//! go, which copies that takes, and the record that is made of them once
//! every copy has gone through.
//!
//! The copying itself is the caller's: an `Installer` names the next thing
//! to do, and is told how it went.

use vstd::prelude::*;
use crate::errors::{InstallationError, InstallationErrorView};
use crate::paths::{
    ascii, ascii_bytes, file_name_of, is_name, join, joined, lemma_joined_is_injective,
    lemma_lies_in, lemma_parts_of_joined, lies_in, names_an_entry, same_bytes, SEPARATOR,
};
use crate::records::{path_views, Mod, ModType, ModView};

verus! {

/// Where the files of a category go, below the game's directory. A shader
/// preset has no place of its own there.
pub open spec fn subdirectory_of(mod_type: ModType) -> Option<Seq<u8>> {
    match mod_type {
        ModType::Textures => Some(ascii("SK_Res/inject/textures"@)),
        ModType::PlayerModels => Some(ascii("data/pl"@)),
        ModType::WeaponModels => Some(ascii("data/wp"@)),
        ModType::WorldModels => Some(ascii("data/bg"@)),
        ModType::CutsceneReplacements => Some(ascii("data/movie"@)),
        ModType::ReshadePreset => None,
    }
}

/// The directory that the files of a category are copied into, for the game
/// at `game_path`.
pub open spec fn destination_of(game_path: Seq<u8>, mod_type: ModType) -> Option<Seq<u8>> {
    match subdirectory_of(mod_type) {
        Some(subdirectory) => Some(joined(game_path, subdirectory)),
        None => None,
    }
}

/// The directory that the files of a category are copied into, for the game
/// at `game_path`.
pub fn destination(game_path: &[u8], mod_type: ModType) -> (dir: Option<Vec<u8>>)
    ensures
        dir is Some == destination_of(game_path@, mod_type) is Some,
        dir is Some ==> dir->0@ == destination_of(game_path@, mod_type)->0,
{
    proof {
        reveal_strlit("SK_Res/inject/textures");
        reveal_strlit("data/pl");
        reveal_strlit("data/wp");
        reveal_strlit("data/bg");
        reveal_strlit("data/movie");
    }
    match mod_type {
        ModType::Textures => Some(join(game_path, ascii_bytes("SK_Res/inject/textures"))),
        ModType::PlayerModels => Some(join(game_path, ascii_bytes("data/pl"))),
        ModType::WeaponModels => Some(join(game_path, ascii_bytes("data/wp"))),
        ModType::WorldModels => Some(join(game_path, ascii_bytes("data/bg"))),
        ModType::CutsceneReplacements => Some(join(game_path, ascii_bytes("data/movie"))),
        ModType::ReshadePreset => None,
    }
}

/// An entry of the directory that is installed from: its name, and whether
/// it is a file.
#[derive(Clone, Debug, PartialEq, Eq)]
pub struct SourceEntry {
    pub name: Vec<u8>,
    pub is_file: bool,
}

/// A `SourceEntry` as plain values.
pub struct SourceEntryView {
    pub name: Seq<u8>,
    pub is_file: bool,
}

impl View for SourceEntry {
    type V = SourceEntryView;

    open spec fn view(&self) -> SourceEntryView {
        SourceEntryView { name: self.name@, is_file: self.is_file }
    }
}

/// The entries of a list as plain values.
pub open spec fn entry_views(entries: Seq<SourceEntry>) -> Seq<SourceEntryView> {
    entries.map_values(|entry: SourceEntry| entry@)
}

/// One file to copy: from where, and to where.
#[derive(Clone, Debug, PartialEq, Eq)]
pub struct CopyStep {
    pub from: Vec<u8>,
    pub to: Vec<u8>,
}

/// A `CopyStep` as plain values.
pub struct CopyStepView {
    pub from: Seq<u8>,
    pub to: Seq<u8>,
}

impl View for CopyStep {
    type V = CopyStepView;

    open spec fn view(&self) -> CopyStepView {
        CopyStepView { from: self.from@, to: self.to@ }
    }
}

/// The steps of a list as plain values.
pub open spec fn step_views(steps: Seq<CopyStep>) -> Seq<CopyStepView> {
    steps.map_values(|step: CopyStep| step@)
}

/// Whether `entries` can be what a directory holds: every entry has a name,
/// a name is one component, and no two entries share one.
pub open spec fn is_listing(entries: Seq<SourceEntryView>) -> bool {
    &&& forall|i: int|
        0 <= i < entries.len() ==> is_name((#[trigger] entries[i]).name)
            && !entries[i].name.contains(SEPARATOR)
    &&& forall|i: int, j: int|
        0 <= i < j < entries.len() ==> (#[trigger] entries[i]).name
            != (#[trigger] entries[j]).name
}

/// Whether one of `entries` is a file.
pub open spec fn holds_a_file(entries: Seq<SourceEntryView>) -> bool {
    exists|i: int| 0 <= i < entries.len() && (#[trigger] entries[i]).is_file
}

/// What an installation asks of its input: a name for the mod, a directory
/// listing to install from, and in it at least one file, unless the
/// category can do without.
pub open spec fn installable(
    mod_type: ModType,
    name: Seq<char>,
    entries: Seq<SourceEntryView>,
) -> bool {
    &&& name.len() > 0
    &&& is_listing(entries)
    &&& (mod_type.needs_files() ==> holds_a_file(entries))
}

/// The copy that brings the entry `name` of `source` into `destination`,
/// under the same name.
pub open spec fn copy_of(source: Seq<u8>, name: Seq<u8>, destination: Seq<u8>) -> CopyStepView {
    CopyStepView { from: joined(source, name), to: joined(destination, name) }
}

/// The copies that an installation takes: one for each file among the
/// entries of `source`, in their order. What is not a file is left where it
/// is, and nothing below it is looked at.
pub open spec fn copy_plan(
    source: Seq<u8>,
    entries: Seq<SourceEntryView>,
    destination: Seq<u8>,
) -> Seq<CopyStepView>
    decreases entries.len(),
{
    if entries.len() == 0 {
        Seq::empty()
    } else {
        let before = copy_plan(source, entries.drop_last(), destination);
        if entries.last().is_file {
            before.push(copy_of(source, entries.last().name, destination))
        } else {
            before
        }
    }
}

/// The paths that the steps of a plan copy to.
pub open spec fn targets(steps: Seq<CopyStepView>) -> Seq<Seq<u8>> {
    steps.map_values(|step: CopyStepView| step.to)
}

/// Every step of a plan copies one of the entries that are files, and every
/// such entry has its step.
pub proof fn lemma_plan_covers_files(
    source: Seq<u8>,
    entries: Seq<SourceEntryView>,
    destination: Seq<u8>,
)
    ensures
        forall|k: int|
            0 <= k < copy_plan(source, entries, destination).len() ==> exists|i: int|
                0 <= i < entries.len() && entries[i].is_file && #[trigger] copy_plan(
                    source,
                    entries,
                    destination,
                )[k] == copy_of(source, entries[i].name, destination),
        forall|i: int|
            0 <= i < entries.len() && (#[trigger] entries[i]).is_file ==> copy_plan(
                source,
                entries,
                destination,
            ).contains(copy_of(source, entries[i].name, destination)),
        holds_a_file(entries) ==> copy_plan(source, entries, destination).len() > 0,
    decreases entries.len(),
{
    let plan = copy_plan(source, entries, destination);
    if entries.len() > 0 {
        let front = entries.drop_last();
        let before = copy_plan(source, front, destination);
        lemma_plan_covers_files(source, front, destination);
        assert forall|k: int| 0 <= k < plan.len() implies exists|i: int|
            0 <= i < entries.len() && entries[i].is_file && #[trigger] plan[k] == copy_of(
                source,
                entries[i].name,
                destination,
            ) by {
            if k < before.len() {
                let i = choose|i: int|
                    0 <= i < front.len() && front[i].is_file && before[k] == copy_of(
                        source,
                        front[i].name,
                        destination,
                    );
                assert(front[i] == entries[i]);
                assert(plan[k] == before[k]);
            } else {
                let i = entries.len() - 1;
                assert(entries[i].is_file);
            }
        }
        assert forall|i: int| 0 <= i < entries.len() && (#[trigger] entries[i]).is_file implies
            plan.contains(copy_of(source, entries[i].name, destination)) by {
            let step = copy_of(source, entries[i].name, destination);
            if i < front.len() {
                assert(front[i] == entries[i]);
                assert(before.contains(step));
                let k = choose|k: int| 0 <= k < before.len() && before[k] == step;
                assert(plan[k] == step);
            } else {
                assert(plan[plan.len() - 1] == step);
            }
        }
        if holds_a_file(entries) {
            let i = choose|i: int| 0 <= i < entries.len() && (#[trigger] entries[i]).is_file;
            assert(plan.contains(copy_of(source, entries[i].name, destination)));
        }
    }
}

/// Copying keeps the names: each step of the plan made of a directory
/// listing copies a file to a path of the same file name.
pub proof fn lemma_copies_keep_names(
    source: Seq<u8>,
    entries: Seq<SourceEntryView>,
    destination: Seq<u8>,
    k: int,
)
    requires
        is_listing(entries),
        0 <= k < copy_plan(source, entries, destination).len(),
    ensures
        file_name_of(copy_plan(source, entries, destination)[k].from) is Some,
        file_name_of(copy_plan(source, entries, destination)[k].to) == file_name_of(
            copy_plan(source, entries, destination)[k].from,
        ),
        copy_plan(source, entries, destination)[k].to == joined(
            destination,
            file_name_of(copy_plan(source, entries, destination)[k].from)->0,
        ),
{
    let plan = copy_plan(source, entries, destination);
    lemma_plan_covers_files(source, entries, destination);
    let i = choose|i: int|
        0 <= i < entries.len() && entries[i].is_file && plan[k] == copy_of(
            source,
            entries[i].name,
            destination,
        );
    lemma_parts_of_joined(source, entries[i].name);
    lemma_parts_of_joined(destination, entries[i].name);
}

/// Every step of the plan made of a directory listing copies into the
/// destination itself, not below or beside it.
pub proof fn lemma_copies_go_into_destination(
    source: Seq<u8>,
    entries: Seq<SourceEntryView>,
    destination: Seq<u8>,
)
    requires
        is_listing(entries),
    ensures
        forall|k: int|
            0 <= k < copy_plan(source, entries, destination).len() ==> lies_in(
                destination,
                #[trigger] targets(copy_plan(source, entries, destination))[k],
            ),
{
    let plan = copy_plan(source, entries, destination);
    lemma_plan_covers_files(source, entries, destination);
    assert forall|k: int| 0 <= k < plan.len() implies lies_in(
        destination,
        #[trigger] targets(plan)[k],
    ) by {
        let i = choose|i: int|
            0 <= i < entries.len() && entries[i].is_file && plan[k] == copy_of(
                source,
                entries[i].name,
                destination,
            );
        assert(targets(plan)[k] == joined(destination, entries[i].name));
        lemma_lies_in(destination, targets(plan)[k]);
    }
}

/// The plan made of a directory listing copies no two files to one place.
pub proof fn lemma_plan_targets_differ(
    source: Seq<u8>,
    entries: Seq<SourceEntryView>,
    destination: Seq<u8>,
)
    requires
        is_listing(entries),
    ensures
        targets(copy_plan(source, entries, destination)).no_duplicates(),
    decreases entries.len(),
{
    let plan = copy_plan(source, entries, destination);
    if entries.len() > 0 {
        let front = entries.drop_last();
        let before = copy_plan(source, front, destination);
        assert(is_listing(front)) by {
            assert forall|i: int| 0 <= i < front.len() implies is_name((#[trigger] front[i]).name)
                && !front[i].name.contains(SEPARATOR) by {
                assert(front[i] == entries[i]);
            }
            assert forall|i: int, j: int| 0 <= i < j < front.len() implies (#[trigger] front[i]).name
                != (#[trigger] front[j]).name by {
                assert(front[i] == entries[i]);
                assert(front[j] == entries[j]);
            }
        }
        lemma_plan_targets_differ(source, front, destination);
        if entries.last().is_file {
            let last = entries.last();
            lemma_plan_covers_files(source, front, destination);
            assert forall|a: int, b: int|
                0 <= a < targets(plan).len() && 0 <= b < targets(plan).len() && a != b implies targets(
                plan,
            )[a] != targets(plan)[b] by {
                if a < before.len() && b < before.len() {
                    assert(targets(before)[a] == targets(plan)[a]);
                    assert(targets(before)[b] == targets(plan)[b]);
                } else {
                    let old_one = if a < before.len() { a } else { b };
                    let i = choose|i: int|
                        0 <= i < front.len() && front[i].is_file && before[old_one] == copy_of(
                            source,
                            front[i].name,
                            destination,
                        );
                    assert(front[i] == entries[i]);
                    assert(entries[i].name != entries[entries.len() - 1].name);
                    if joined(destination, entries[i].name) == joined(destination, last.name) {
                        assert(entries[i].name.contains(entries[i].name[0]));
                        assert(last.name.contains(last.name[0]));
                        lemma_joined_is_injective(destination, entries[i].name, last.name);
                    }
                    assert(plan[old_one] == before[old_one]);
                }
            }
        } else {
            assert(plan == before);
        }
    } else {
        assert(targets(plan) =~= Seq::empty());
    }
}

/// Whether `entries` can be what a directory holds.
pub fn check_listing(entries: &[SourceEntry]) -> (ok: bool)
    ensures
        ok == is_listing(entry_views(entries@)),
{
    let ghost views = entry_views(entries@);
    let mut i: usize = 0;
    while i < entries.len()
        invariant
            i <= entries.len(),
            views == entry_views(entries@),
            forall|a: int|
                0 <= a < i ==> is_name((#[trigger] views[a]).name) && !views[a].name.contains(
                    SEPARATOR,
                ),
            forall|a: int, b: int|
                0 <= a < b < i ==> (#[trigger] views[a]).name != (#[trigger] views[b]).name,
        decreases entries.len() - i,
    {
        let name = entries[i].name.as_slice();
        assert(name@ == views[i as int].name);
        if !names_an_entry(name) {
            return false;
        }
        let mut k: usize = 0;
        while k < name.len()
            invariant
                k <= name.len(),
                i < entries.len(),
                views == entry_views(entries@),
                name@ == views[i as int].name,
                forall|c: int| 0 <= c < k ==> name@[c] != SEPARATOR,
            decreases name.len() - k,
        {
            if name[k] == SEPARATOR {
                assert(name@[k as int] == SEPARATOR);
                assert(views[i as int].name.contains(SEPARATOR));
                return false;
            }
            k += 1;
        }
        let mut j: usize = 0;
        while j < i
            invariant
                j <= i < entries.len(),
                views == entry_views(entries@),
                name@ == views[i as int].name,
                forall|a: int| 0 <= a < j ==> (#[trigger] views[a]).name != name@,
            decreases i - j,
        {
            assert(entries[j as int].name@ == views[j as int].name);
            if same_bytes(entries[j].name.as_slice(), name) {
                return false;
            }
            j += 1;
        }
        i += 1;
    }
    true
}

/// Whether one of `entries` is a file.
pub fn has_file(entries: &[SourceEntry]) -> (found: bool)
    ensures
        found == holds_a_file(entry_views(entries@)),
{
    let ghost views = entry_views(entries@);
    let mut i: usize = 0;
    while i < entries.len()
        invariant
            i <= entries.len(),
            views == entry_views(entries@),
            forall|a: int| 0 <= a < i ==> !(#[trigger] views[a]).is_file,
        decreases entries.len() - i,
    {
        if entries[i].is_file {
            assert(views[i as int].is_file);
            return true;
        }
        i += 1;
    }
    false
}

/// Whether an installation can be begun with this name and these entries.
pub fn can_install(mod_type: ModType, name: &str, entries: &[SourceEntry]) -> (ok: bool)
    ensures
        ok == installable(mod_type, name@, entry_views(entries@)),
{
    !name.is_empty() && check_listing(entries) && (mod_type == ModType::ReshadePreset || has_file(
        entries,
    ))
}

/// Lays out the copies that bring the files among the entries of `source`
/// into `destination`.
pub fn plan_copies(source: &[u8], entries: &[SourceEntry], destination: &[u8]) -> (steps: Vec<
    CopyStep,
>)
    ensures
        step_views(steps@) == copy_plan(source@, entry_views(entries@), destination@),
{
    let ghost views = entry_views(entries@);
    let mut steps: Vec<CopyStep> = Vec::new();
    let mut i: usize = 0;
    assert(views.take(0) =~= Seq::empty());
    assert(step_views(steps@) =~= Seq::empty());
    while i < entries.len()
        invariant
            i <= entries.len(),
            views == entry_views(entries@),
            step_views(steps@) == copy_plan(source@, views.take(i as int), destination@),
        decreases entries.len() - i,
    {
        let ghost before = step_views(steps@);
        assert(views.take(i + 1).drop_last() =~= views.take(i as int));
        assert(views.take(i + 1).last() == entries@[i as int]@);
        if entries[i].is_file {
            let name = entries[i].name.as_slice();
            let step = CopyStep { from: join(source, name), to: join(destination, name) };
            steps.push(step);
            assert(step_views(steps@) =~= before.push(step@));
        }
        i += 1;
    }
    assert(views.take(i as int) =~= views);
    steps
}

/// How the step that an installation asked for went.
#[derive(Clone, Debug, PartialEq, Eq)]
pub enum StepOutcome {
    Done,
    Failed(String),
}

/// A `StepOutcome` as plain values.
pub enum StepOutcomeView {
    Done,
    Failed(Seq<char>),
}

impl View for StepOutcome {
    type V = StepOutcomeView;

    open spec fn view(&self) -> StepOutcomeView {
        match self {
            StepOutcome::Done => StepOutcomeView::Done,
            StepOutcome::Failed(detail) => StepOutcomeView::Failed(detail@),
        }
    }
}

/// What an installation asks to be done next.
#[derive(Clone, Debug, PartialEq, Eq)]
pub enum Action {
    /// Make sure that this directory is there, creating it if need be.
    CreateDirectory(Vec<u8>),
    /// Copy this file, over whatever is at the place it goes to.
    CopyFile(CopyStep),
}

/// An `Action` as plain values.
pub enum ActionView {
    CreateDirectory(Seq<u8>),
    CopyFile(CopyStepView),
}

impl View for Action {
    type V = ActionView;

    open spec fn view(&self) -> ActionView {
        match self {
            Action::CreateDirectory(dir) => ActionView::CreateDirectory(dir@),
            Action::CopyFile(step) => ActionView::CopyFile(step@),
        }
    }
}

/// An installation under way: the copies it takes, and how far it has got.
#[derive(Debug)]
pub struct Installer {
    mod_type: ModType,
    name: String,
    destination: Vec<u8>,
    steps: Vec<CopyStep>,
    copied: Option<usize>,
}

/// An `Installer` as plain values. `copied` is the number of copies that
/// have gone through, and `None` as long as the destination has not been
/// made sure of.
pub struct InstallerView {
    pub mod_type: ModType,
    pub name: Seq<char>,
    pub destination: Seq<u8>,
    pub steps: Seq<CopyStepView>,
    pub copied: Option<nat>,
}

/// Where an installation stands after a step.
#[derive(Debug)]
pub enum Routing {
    /// There is more to do.
    Pending(Installer),
    /// Every file is in place: this is the mod's record.
    Installed(Mod),
    /// The installation has failed. Files that were copied stay in place.
    Failed(InstallationError),
}

/// A `Routing` as plain values.
pub enum RoutingView {
    Pending(InstallerView),
    Installed(ModView),
    Failed(InstallationErrorView),
}

impl InstallerView {
    /// What holds of every installation under way: the mod has a name, no
    /// two copies go to one place, there is a copy to make unless the
    /// category can do without, and not all copies have been made.
    pub open spec fn well_formed(self) -> bool {
        &&& self.name.len() > 0
        &&& targets(self.steps).no_duplicates()
        &&& (self.mod_type.needs_files() ==> self.steps.len() > 0)
        &&& (self.copied matches Some(k) ==> k < self.steps.len())
    }

    /// The installation of the files among `entries` of `source` into
    /// `destination`, before anything has been done.
    pub open spec fn start(
        mod_type: ModType,
        name: Seq<char>,
        source: Seq<u8>,
        entries: Seq<SourceEntryView>,
        destination: Seq<u8>,
    ) -> InstallerView {
        InstallerView {
            mod_type,
            name,
            destination,
            steps: copy_plan(source, entries, destination),
            copied: None,
        }
    }

    /// What is to be done next: first the destination is made sure of, then
    /// the copies are made in their order.
    pub open spec fn next_action(self) -> ActionView {
        match self.copied {
            None => ActionView::CreateDirectory(self.destination),
            Some(k) => ActionView::CopyFile(self.steps[k as int]),
        }
    }

    /// The record that the installation leaves when all has gone through:
    /// under the name given, enabled, with the places that the files were
    /// copied to, in the order of copying.
    pub open spec fn record(self) -> ModView {
        ModView {
            name: self.name,
            files: targets(self.steps),
            enabled: true,
            mod_type: self.mod_type,
        }
    }

    /// The error that a failure of the next step comes to.
    pub open spec fn failure(self, detail: Seq<char>) -> InstallationErrorView {
        match self.copied {
            None => InstallationErrorView::DestinationUnavailable(self.destination),
            Some(k) => InstallationErrorView::CopyFailure {
                file: self.steps[k as int].from,
                detail,
            },
        }
    }

    /// The number of copies that have gone through once the next step has.
    pub open spec fn copied_after_next(self) -> nat {
        match self.copied {
            None => 0,
            Some(k) => k + 1,
        }
    }

    /// Where the installation stands once the step it asked for has gone
    /// as `outcome` says. A failure ends it, and nothing is undone. After
    /// the last copy the record is made.
    pub open spec fn advanced(self, outcome: StepOutcomeView) -> RoutingView {
        match outcome {
            StepOutcomeView::Failed(detail) => RoutingView::Failed(self.failure(detail)),
            StepOutcomeView::Done => if self.copied_after_next() >= self.steps.len() {
                RoutingView::Installed(self.record())
            } else {
                RoutingView::Pending(
                    InstallerView { copied: Some(self.copied_after_next()), ..self },
                )
            },
        }
    }

    /// The number of steps that are still to be taken.
    pub open spec fn remaining(self) -> nat {
        match self.copied {
            None => self.steps.len() + 1,
            Some(k) => (self.steps.len() - k) as nat,
        }
    }

    /// Where the installation stands once its steps have gone as `outcomes`
    /// say, one after the other. Outcomes behind its end are not read.
    pub open spec fn run(self, outcomes: Seq<StepOutcomeView>) -> RoutingView
        decreases outcomes.len(),
    {
        if outcomes.len() == 0 {
            RoutingView::Pending(self)
        } else {
            match self.advanced(outcomes[0]) {
                RoutingView::Pending(next) => next.run(outcomes.drop_first()),
                ended => ended,
            }
        }
    }

    /// The error that comes of a failure after `done` more steps have gone
    /// through.
    pub open spec fn failure_after(self, done: nat, detail: Seq<char>) -> InstallationErrorView {
        match self.copied {
            None => if done == 0 {
                InstallationErrorView::DestinationUnavailable(self.destination)
            } else {
                InstallationErrorView::CopyFailure { file: self.steps[done - 1].from, detail }
            },
            Some(k) => InstallationErrorView::CopyFailure {
                file: self.steps[(k + done) as int].from,
                detail,
            },
        }
    }

    /// An installation of which every remaining step goes through ends with
    /// its record, and the record is well-formed.
    pub proof fn lemma_success(self, outcomes: Seq<StepOutcomeView>)
        requires
            self.well_formed(),
            outcomes.len() >= self.remaining(),
            forall|i: int| 0 <= i < self.remaining() ==> outcomes[i] == StepOutcomeView::Done,
        ensures
            self.run(outcomes) == RoutingView::Installed(self.record()),
            self.record().well_formed(),
        decreases outcomes.len(),
    {
        assert(outcomes[0] == StepOutcomeView::Done);
        match self.advanced(outcomes[0]) {
            RoutingView::Pending(next) => {
                let rest = outcomes.drop_first();
                assert forall|i: int| 0 <= i < next.remaining() implies rest[i]
                    == StepOutcomeView::Done by {
                    assert(rest[i] == outcomes[i + 1]);
                }
                next.lemma_success(rest);
            },
            _ => {},
        }
    }

    /// An installation fails at its first step that fails, with the error
    /// of that step: the destination where it could not be made sure of, or
    /// else the file that could not be copied. What is reported after that
    /// changes nothing.
    pub proof fn lemma_first_failure_ends(
        self,
        outcomes: Seq<StepOutcomeView>,
        done: nat,
        detail: Seq<char>,
    )
        requires
            self.well_formed(),
            done < self.remaining(),
            done < outcomes.len(),
            forall|i: int| 0 <= i < done ==> outcomes[i] == StepOutcomeView::Done,
            outcomes[done as int] == StepOutcomeView::Failed(detail),
        ensures
            self.run(outcomes) == RoutingView::Failed(self.failure_after(done, detail)),
        decreases done,
    {
        if done > 0 {
            assert(outcomes[0] == StepOutcomeView::Done);
            let next = InstallerView { copied: Some(self.copied_after_next()), ..self };
            let rest = outcomes.drop_first();
            assert forall|i: int| 0 <= i < done - 1 implies rest[i] == StepOutcomeView::Done by {
                assert(rest[i] == outcomes[i + 1]);
            }
            assert(rest[done - 1] == outcomes[done as int]);
            next.lemma_first_failure_ends(rest, (done - 1) as nat, detail);
        }
    }
}

impl View for Installer {
    type V = InstallerView;

    closed spec fn view(&self) -> InstallerView {
        InstallerView {
            mod_type: self.mod_type,
            name: self.name@,
            destination: self.destination@,
            steps: step_views(self.steps@),
            copied: match self.copied {
                Some(k) => Some(k as nat),
                None => None,
            },
        }
    }
}

impl View for Routing {
    type V = RoutingView;

    open spec fn view(&self) -> RoutingView {
        match self {
            Routing::Pending(installer) => RoutingView::Pending(installer@),
            Routing::Installed(record) => RoutingView::Installed(record@),
            Routing::Failed(error) => RoutingView::Failed(error@),
        }
    }
}

impl Installer {
    #[verifier::type_invariant]
    spec fn sound(self) -> bool {
        self@.well_formed()
    }

    /// Begins the installation of a mod of category `mod_type` under the
    /// name `name`: the files among the entries of `source` are to go into
    /// `destination`.
    pub fn begin(
        mod_type: ModType,
        name: String,
        source: &[u8],
        entries: &[SourceEntry],
        destination: Vec<u8>,
    ) -> (installer: Self)
        requires
            installable(mod_type, name@, entry_views(entries@)),
        ensures
            installer@ == InstallerView::start(
                mod_type,
                name@,
                source@,
                entry_views(entries@),
                destination@,
            ),
            installer@.well_formed(),
    {
        let steps = plan_copies(source, entries, destination.as_slice());
        proof {
            lemma_plan_targets_differ(source@, entry_views(entries@), destination@);
            lemma_plan_covers_files(source@, entry_views(entries@), destination@);
        }
        Self { mod_type, name, destination, steps, copied: None }
    }

    /// What is to be done next.
    pub fn next_action(&self) -> (action: Action)
        ensures
            action@ == self@.next_action(),
    {
        proof {
            use_type_invariant(self);
        }
        match self.copied {
            None => Action::CreateDirectory(vstd::slice::slice_to_vec(self.destination.as_slice())),
            Some(k) => {
                let step = &self.steps[k];
                Action::CopyFile(
                    CopyStep {
                        from: vstd::slice::slice_to_vec(step.from.as_slice()),
                        to: vstd::slice::slice_to_vec(step.to.as_slice()),
                    },
                )
            },
        }
    }

    /// Takes note of how the step that was asked for went, and says where
    /// the installation stands now.
    pub fn advance(self, outcome: StepOutcome) -> (routing: Routing)
        ensures
            routing@ == self@.advanced(outcome@),
            routing matches Routing::Installed(record) ==> record@.well_formed(),
            routing matches Routing::Pending(next) ==> next@.well_formed(),
    {
        proof {
            use_type_invariant(&self);
        }
        match outcome {
            StepOutcome::Failed(detail) => match self.copied {
                None => Routing::Failed(InstallationError::DestinationUnavailable(self.destination)),
                Some(k) => {
                    let file = vstd::slice::slice_to_vec(self.steps[k].from.as_slice());
                    Routing::Failed(InstallationError::CopyFailure { file, detail })
                },
            },
            StepOutcome::Done => {
                let next: usize = match self.copied {
                    None => 0,
                    Some(k) => {
                        assert(self@.copied == Some(k as nat));
                        assert(k < self.steps.len());
                        k + 1
                    },
                };
                if next >= self.steps.len() {
                    let files = targets_of(&self.steps);
                    Routing::Installed(Mod::new(self.name, files, true, self.mod_type))
                } else {
                    Routing::Pending(
                        Installer {
                            mod_type: self.mod_type,
                            name: self.name,
                            destination: self.destination,
                            steps: self.steps,
                            copied: Some(next),
                        },
                    )
                }
            },
        }
    }
}

/// The paths that the steps of a plan copy to.
fn targets_of(steps: &Vec<CopyStep>) -> (files: Vec<Vec<u8>>)
    ensures
        path_views(files@) == targets(step_views(steps@)),
{
    let mut files: Vec<Vec<u8>> = Vec::new();
    let mut i: usize = 0;
    while i < steps.len()
        invariant
            i <= steps.len(),
            path_views(files@) =~= targets(step_views(steps@)).take(i as int),
        decreases steps.len() - i,
    {
        let ghost before = path_views(files@);
        files.push(vstd::slice::slice_to_vec(steps[i].to.as_slice()));
        assert(path_views(files@) =~= before.push(steps@[i as int].to@));
        assert(targets(step_views(steps@)).take(i + 1) =~= targets(step_views(steps@)).take(
            i as int,
        ).push(steps@[i as int].to@));
        i += 1;
    }
    files
}

/// Begins the installation of a texture mod under the name `name`: the files
/// among the entries of `dss_folder_path` are to go into `SK_Res/inject/textures` below the
/// game's directory.
pub fn install_texture(
    dss_folder_path: &[u8],
    entries: &[SourceEntry],
    game_path: &[u8],
    name: String,
) -> (installer: Installer)
    requires
        installable(ModType::Textures, name@, entry_views(entries@)),
    ensures
        installer@ == InstallerView::start(
            ModType::Textures,
            name@,
            dss_folder_path@,
            entry_views(entries@),
            joined(game_path@, ascii("SK_Res/inject/textures"@)),
        ),
        installer@.well_formed(),
{
    proof {
        reveal_strlit("SK_Res/inject/textures");
    }
    let destination = join(game_path, ascii_bytes("SK_Res/inject/textures"));
    Installer::begin(ModType::Textures, name, dss_folder_path, entries, destination)
}

/// Begins the installation of a player model under the name `name`: the files
/// among the entries of `dtt_dat_folder_path` are to go into `data/pl` below the
/// game's directory.
pub fn install_player_model(
    dtt_dat_folder_path: &[u8],
    entries: &[SourceEntry],
    game_path: &[u8],
    name: String,
) -> (installer: Installer)
    requires
        installable(ModType::PlayerModels, name@, entry_views(entries@)),
    ensures
        installer@ == InstallerView::start(
            ModType::PlayerModels,
            name@,
            dtt_dat_folder_path@,
            entry_views(entries@),
            joined(game_path@, ascii("data/pl"@)),
        ),
        installer@.well_formed(),
{
    proof {
        reveal_strlit("data/pl");
    }
    let destination = join(game_path, ascii_bytes("data/pl"));
    Installer::begin(ModType::PlayerModels, name, dtt_dat_folder_path, entries, destination)
}

/// Begins the installation of a weapon model under the name `name`: the files
/// among the entries of `dtt_dat_folder_path` are to go into `data/wp` below the
/// game's directory.
pub fn install_weapon_model(
    dtt_dat_folder_path: &[u8],
    entries: &[SourceEntry],
    game_path: &[u8],
    name: String,
) -> (installer: Installer)
    requires
        installable(ModType::WeaponModels, name@, entry_views(entries@)),
    ensures
        installer@ == InstallerView::start(
            ModType::WeaponModels,
            name@,
            dtt_dat_folder_path@,
            entry_views(entries@),
            joined(game_path@, ascii("data/wp"@)),
        ),
        installer@.well_formed(),
{
    proof {
        reveal_strlit("data/wp");
    }
    let destination = join(game_path, ascii_bytes("data/wp"));
    Installer::begin(ModType::WeaponModels, name, dtt_dat_folder_path, entries, destination)
}

/// Begins the installation of a world model under the name `name`: the files
/// among the entries of `dtt_dat_folder_path` are to go into `data/bg` below the
/// game's directory.
pub fn install_world_model(
    dtt_dat_folder_path: &[u8],
    entries: &[SourceEntry],
    game_path: &[u8],
    name: String,
) -> (installer: Installer)
    requires
        installable(ModType::WorldModels, name@, entry_views(entries@)),
    ensures
        installer@ == InstallerView::start(
            ModType::WorldModels,
            name@,
            dtt_dat_folder_path@,
            entry_views(entries@),
            joined(game_path@, ascii("data/bg"@)),
        ),
        installer@.well_formed(),
{
    proof {
        reveal_strlit("data/bg");
    }
    let destination = join(game_path, ascii_bytes("data/bg"));
    Installer::begin(ModType::WorldModels, name, dtt_dat_folder_path, entries, destination)
}

/// Begins the installation of cutscene replacements under the name `name`: the files
/// among the entries of `usm_folder_path` are to go into `data/movie` below the
/// game's directory.
pub fn install_cutscene_replacements(
    usm_folder_path: &[u8],
    entries: &[SourceEntry],
    game_path: &[u8],
    name: String,
) -> (installer: Installer)
    requires
        installable(ModType::CutsceneReplacements, name@, entry_views(entries@)),
    ensures
        installer@ == InstallerView::start(
            ModType::CutsceneReplacements,
            name@,
            usm_folder_path@,
            entry_views(entries@),
            joined(game_path@, ascii("data/movie"@)),
        ),
        installer@.well_formed(),
{
    proof {
        reveal_strlit("data/movie");
    }
    let destination = join(game_path, ascii_bytes("data/movie"));
    Installer::begin(ModType::CutsceneReplacements, name, usm_folder_path, entries, destination)
}

/// Begins the installation of a shader preset under the name `name`: the
/// files among the entries of `preset_folder_path` are to go into
/// `preset_directory` below the game's directory. The game has no fixed
/// place for presets, so the caller names one; a directory that begins at
/// the root is taken as it stands.
pub fn install_reshade_preset(
    preset_folder_path: &[u8],
    entries: &[SourceEntry],
    game_path: &[u8],
    name: String,
    preset_directory: &[u8],
) -> (installer: Installer)
    requires
        installable(ModType::ReshadePreset, name@, entry_views(entries@)),
    ensures
        installer@ == InstallerView::start(
            ModType::ReshadePreset,
            name@,
            preset_folder_path@,
            entry_views(entries@),
            joined(game_path@, preset_directory@),
        ),
        installer@.well_formed(),
{
    let destination = join(game_path, preset_directory);
    Installer::begin(ModType::ReshadePreset, name, preset_folder_path, entries, destination)
}

/// The directory that an installation copies into: the one of the mod's
/// category, and for a shader preset `preset_directory` below the game's
/// directory.
pub open spec fn destination_for(
    game_path: Seq<u8>,
    mod_type: ModType,
    preset_directory: Seq<u8>,
) -> Seq<u8> {
    match destination_of(game_path, mod_type) {
        Some(dir) => dir,
        None => joined(game_path, preset_directory),
    }
}

/// Begins the installation of a mod of category `mod_type`, in the way of
/// that category.
pub fn begin_installation(
    mod_type: ModType,
    source: &[u8],
    entries: &[SourceEntry],
    game_path: &[u8],
    name: String,
    preset_directory: &[u8],
) -> (installer: Installer)
    requires
        installable(mod_type, name@, entry_views(entries@)),
    ensures
        installer@ == InstallerView::start(
            mod_type,
            name@,
            source@,
            entry_views(entries@),
            destination_for(game_path@, mod_type, preset_directory@),
        ),
        installer@.well_formed(),
{
    match mod_type {
        ModType::Textures => install_texture(source, entries, game_path, name),
        ModType::PlayerModels => install_player_model(source, entries, game_path, name),
        ModType::WeaponModels => install_weapon_model(source, entries, game_path, name),
        ModType::WorldModels => install_world_model(source, entries, game_path, name),
        ModType::CutsceneReplacements => install_cutscene_replacements(
            source,
            entries,
            game_path,
            name,
        ),
        ModType::ReshadePreset => install_reshade_preset(
            source,
            entries,
            game_path,
            name,
            preset_directory,
        ),
    }
}

} // verus!
