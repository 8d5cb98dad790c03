//! Removal of untracked and, on demand, ignored paths from the working tree.
//!
//! The paths to remove are selected from a status snapshot. For each of them
//! in turn the run asks its caller to announce the removal where that is
//! wanted, to say whether the path is a file or a directory, and to remove
//! it. A removal that fails is reported and counted, and the run goes on to
//! the next path.

use vstd::prelude::*;
use crate::status::{paths_under, StatusFlag, StatusFlags, StatusSnapshot};
use crate::text::string_views;

verus! {

/// The flags of what a clean removes: untracked paths, and ignored paths
/// where they are included.
pub open spec fn clean_flags(include_ignored: bool) -> Set<StatusFlag> {
    if include_ignored {
        set![StatusFlag::WorktreeNew, StatusFlag::Ignored]
    } else {
        set![StatusFlag::WorktreeNew]
    }
}

/// The filter under which a clean selects its paths.
pub fn clean_filter(include_ignored: bool) -> (filter: StatusFlags)
    ensures
        filter@ == clean_flags(include_ignored),
{
    let untracked = StatusFlags::only(StatusFlag::WorktreeNew);
    if include_ignored {
        let filter = untracked.with(StatusFlag::Ignored);
        assert(filter@ =~= clean_flags(true));
        filter
    } else {
        untracked
    }
}

/// What a path to remove is on disk.
#[derive(Clone, Copy, Debug, PartialEq, Eq, Structural)]
pub enum PathKind {
    File,
    Directory,
}

/// What the run asks of its caller.
#[derive(Clone, Debug, PartialEq, Eq)]
pub enum CleanAction {
    /// Tell the user that this path is about to be removed.
    Announce { path: String },
    /// Find out whether this path is a file or a directory.
    Inspect { path: String },
    /// Remove this file.
    RemoveFile { path: String },
    /// Remove this directory with all that it holds.
    RemoveDirectory { path: String },
    /// Tell the user that this path could not be removed, and why.
    ReportFailure { path: String, error: String },
    /// Nothing is left to do.
    Finish(CleanSummary),
}

/// What a clean action stands for.
pub enum CleanActionView {
    Announce { path: Seq<char> },
    Inspect { path: Seq<char> },
    RemoveFile { path: Seq<char> },
    RemoveDirectory { path: Seq<char> },
    ReportFailure { path: Seq<char>, error: Seq<char> },
    Finish { removed: nat, failed: nat },
}

impl View for CleanAction {
    type V = CleanActionView;

    open spec fn view(&self) -> CleanActionView {
        match self {
            CleanAction::Announce { path } => CleanActionView::Announce { path: path@ },
            CleanAction::Inspect { path } => CleanActionView::Inspect { path: path@ },
            CleanAction::RemoveFile { path } => CleanActionView::RemoveFile { path: path@ },
            CleanAction::RemoveDirectory { path } => CleanActionView::RemoveDirectory {
                path: path@,
            },
            CleanAction::ReportFailure { path, error } => CleanActionView::ReportFailure {
                path: path@,
                error: error@,
            },
            CleanAction::Finish(summary) => CleanActionView::Finish {
                removed: summary.removed as nat,
                failed: summary.failed as nat,
            },
        }
    }
}

/// What the caller tells the run once it has done what was asked.
#[derive(Clone, Debug, PartialEq, Eq)]
pub enum CleanEvent {
    /// The user was told.
    Told,
    /// The path is of this kind.
    Kind(PathKind),
    /// The path was removed.
    Removed,
    /// The path could not be removed, for the reason given.
    RemoveFailed(String),
}

/// What a clean event stands for.
pub enum CleanEventView {
    Told,
    Kind(PathKind),
    Removed,
    RemoveFailed(Seq<char>),
}

impl View for CleanEvent {
    type V = CleanEventView;

    open spec fn view(&self) -> CleanEventView {
        match self {
            CleanEvent::Told => CleanEventView::Told,
            CleanEvent::Kind(kind) => CleanEventView::Kind(*kind),
            CleanEvent::Removed => CleanEventView::Removed,
            CleanEvent::RemoveFailed(error) => CleanEventView::RemoveFailed(error@),
        }
    }
}

/// How a clean ended: how many paths were removed and how many were not.
#[derive(Clone, Copy, Debug, PartialEq, Eq, Structural)]
pub struct CleanSummary {
    pub removed: usize,
    pub failed: usize,
}

impl CleanSummary {
    /// Whether every selected path was removed.
    pub fn succeeded(&self) -> (complete: bool)
        ensures
            complete == (self.failed == 0),
    {
        self.failed == 0
    }
}

/// What is being done with the path at hand.
pub enum CleanStageView {
    /// Its removal is to be announced.
    Announcing,
    /// Its kind is to be found out.
    Inspecting,
    /// It is to be removed as a path of this kind.
    Removing(PathKind),
    /// Its removal failed for this reason, which is to be reported.
    Reporting(Seq<char>),
}

/// What a run of clean stands for: the selected paths, whether removals are
/// announced, the place of the path at hand, what is being done with it, and
/// the counts of removed and of failed paths so far.
pub struct CleanView {
    pub paths: Seq<Seq<char>>,
    pub verbose: bool,
    pub position: nat,
    pub stage: CleanStageView,
    pub removed: nat,
    pub failed: nat,
}

impl CleanView {
    /// The stage in which every path starts.
    pub open spec fn first_stage(self) -> CleanStageView {
        if self.verbose {
            CleanStageView::Announcing
        } else {
            CleanStageView::Inspecting
        }
    }

    /// A run is well formed when every path before the one at hand was
    /// either removed or counted as failed.
    pub open spec fn well_formed(self) -> bool {
        &&& self.position <= self.paths.len()
        &&& self.removed + self.failed == self.position
    }

    /// Whether nothing is left to do.
    pub open spec fn finished(self) -> bool {
        self.position >= self.paths.len()
    }

    /// What the run asks for in this state.
    pub open spec fn action(self) -> CleanActionView {
        if self.finished() {
            CleanActionView::Finish { removed: self.removed, failed: self.failed }
        } else {
            let path = self.paths[self.position as int];
            match self.stage {
                CleanStageView::Announcing => CleanActionView::Announce { path },
                CleanStageView::Inspecting => CleanActionView::Inspect { path },
                CleanStageView::Removing(PathKind::File) => CleanActionView::RemoveFile { path },
                CleanStageView::Removing(PathKind::Directory) => CleanActionView::RemoveDirectory {
                    path,
                },
                CleanStageView::Reporting(error) => CleanActionView::ReportFailure {
                    path,
                    error,
                },
            }
        }
    }

    /// The run at the next path, with one more path removed or failed.
    pub open spec fn moved_on(self, removed: bool) -> CleanView {
        CleanView {
            position: self.position + 1,
            stage: self.first_stage(),
            removed: if removed {
                self.removed + 1
            } else {
                self.removed
            },
            failed: if removed {
                self.failed
            } else {
                self.failed + 1
            },
            ..self
        }
    }

    /// The state that follows on an event. An announcement leads to the
    /// inspection, the kind of the path to its removal, a removal to the next
    /// path, a failed removal to its report, and the report to the next
    /// path. An event that does not answer what was asked changes nothing.
    pub open spec fn next(self, event: CleanEventView) -> CleanView {
        if self.finished() {
            self
        } else {
            match (self.stage, event) {
                (CleanStageView::Announcing, CleanEventView::Told) => CleanView {
                    stage: CleanStageView::Inspecting,
                    ..self
                },
                (CleanStageView::Inspecting, CleanEventView::Kind(kind)) => CleanView {
                    stage: CleanStageView::Removing(kind),
                    ..self
                },
                (CleanStageView::Removing(_), CleanEventView::Removed) => self.moved_on(true),
                (CleanStageView::Removing(_), CleanEventView::RemoveFailed(error)) => CleanView {
                    stage: CleanStageView::Reporting(error),
                    ..self
                },
                (CleanStageView::Reporting(_), CleanEventView::Told) => self.moved_on(false),
                _ => self,
            }
        }
    }
}

/// The state in which a clean of the given paths starts.
pub open spec fn clean_start(paths: Seq<Seq<char>>, verbose: bool) -> CleanView {
    CleanView {
        paths,
        verbose,
        position: 0,
        stage: if verbose {
            CleanStageView::Announcing
        } else {
            CleanStageView::Inspecting
        },
        removed: 0,
        failed: 0,
    }
}

enum CleanStage {
    Announcing,
    Inspecting,
    Removing(PathKind),
    Reporting(String),
}

/// A run of clean over the paths selected from a snapshot.
pub struct Clean {
    paths: Vec<String>,
    verbose: bool,
    position: usize,
    stage: CleanStage,
    failed: usize,
}

impl View for Clean {
    type V = CleanView;

    closed spec fn view(&self) -> CleanView {
        CleanView {
            paths: string_views(self.paths@),
            verbose: self.verbose,
            position: self.position as nat,
            stage: match self.stage {
                CleanStage::Announcing => CleanStageView::Announcing,
                CleanStage::Inspecting => CleanStageView::Inspecting,
                CleanStage::Removing(kind) => CleanStageView::Removing(kind),
                CleanStage::Reporting(error) => CleanStageView::Reporting(error@),
            },
            removed: (self.position - self.failed) as nat,
            failed: self.failed as nat,
        }
    }
}

impl Clean {
    #[verifier::type_invariant]
    spec fn sound(self) -> bool {
        self.failed <= self.position <= self.paths.len()
    }

    /// A clean of the untracked paths of `snapshot`, and of its ignored
    /// paths where `include_ignored` is set, in the order of the snapshot.
    pub fn clean(snapshot: &StatusSnapshot, include_ignored: bool, verbose: bool) -> (run: Clean)
        ensures
            run@ == clean_start(paths_under(snapshot@, clean_flags(include_ignored)), verbose),
    {
        let paths = snapshot.select_paths(&clean_filter(include_ignored));
        Clean {
            paths,
            verbose,
            position: 0,
            stage: if verbose {
                CleanStage::Announcing
            } else {
                CleanStage::Inspecting
            },
            failed: 0,
        }
    }

    /// What the caller is to do now.
    pub fn action(&self) -> (action: CleanAction)
        ensures
            self@.well_formed(),
            action@ == self@.action(),
    {
        proof {
            use_type_invariant(self);
        }
        if self.position >= self.paths.len() {
            CleanAction::Finish(
                CleanSummary { removed: self.position - self.failed, failed: self.failed },
            )
        } else {
            let path = self.paths[self.position].clone();
            match &self.stage {
                CleanStage::Announcing => CleanAction::Announce { path },
                CleanStage::Inspecting => CleanAction::Inspect { path },
                CleanStage::Removing(PathKind::File) => CleanAction::RemoveFile { path },
                CleanStage::Removing(PathKind::Directory) => CleanAction::RemoveDirectory {
                    path,
                },
                CleanStage::Reporting(error) => CleanAction::ReportFailure {
                    path,
                    error: error.clone(),
                },
            }
        }
    }

    /// Takes note of what the caller did and moves on.
    pub fn advance(&mut self, event: CleanEvent)
        ensures
            final(self)@ == old(self)@.next(event@),
    {
        proof {
            use_type_invariant(&*self);
        }
        if self.position >= self.paths.len() {
            return ;
        }
        let first = if self.verbose {
            CleanStage::Announcing
        } else {
            CleanStage::Inspecting
        };
        match (&self.stage, event) {
            (CleanStage::Announcing, CleanEvent::Told) => {
                self.stage = CleanStage::Inspecting;
            },
            (CleanStage::Inspecting, CleanEvent::Kind(kind)) => {
                self.stage = CleanStage::Removing(kind);
            },
            (CleanStage::Removing(_), CleanEvent::Removed) => {
                self.position = self.position + 1;
                self.stage = first;
            },
            (CleanStage::Removing(_), CleanEvent::RemoveFailed(error)) => {
                self.stage = CleanStage::Reporting(error);
            },
            (CleanStage::Reporting(_), CleanEvent::Told) => {
                self.position = self.position + 1;
                self.failed = self.failed + 1;
                self.stage = first;
            },
            _ => {},
        }
    }
}

/// Whether the event answers what the action asks for.
pub open spec fn answers(action: CleanActionView, event: CleanEventView) -> bool {
    match action {
        CleanActionView::Announce { .. } => event is Told,
        CleanActionView::Inspect { .. } => event is Kind,
        CleanActionView::RemoveFile { .. } => event is Removed || event is RemoveFailed,
        CleanActionView::RemoveDirectory { .. } => event is Removed || event is RemoveFailed,
        CleanActionView::ReportFailure { .. } => event is Told,
        CleanActionView::Finish { .. } => false,
    }
}

/// A bound on the number of answers that a run still needs: what is left
/// to do for the path at hand, and four answers for each path after it.
pub open spec fn steps_left(run: CleanView) -> int {
    if run.finished() {
        0
    } else {
        4 * (run.paths.len() - run.position - 1) + match run.stage {
            CleanStageView::Announcing => 4int,
            CleanStageView::Inspecting => 3int,
            CleanStageView::Removing(_) => 2int,
            CleanStageView::Reporting(_) => 1int,
        }
    }
}

/// A caller that answers what it is asked brings the run to its end: every
/// answer leaves fewer steps to take, whether a removal succeeds or fails.
pub proof fn law_clean_makes_progress(run: CleanView, event: CleanEventView)
    requires
        run.well_formed(),
        !run.finished(),
        answers(run.action(), event),
    ensures
        0 <= steps_left(run.next(event)) < steps_left(run),
{
}

/// A run stays well formed, and keeps its paths, whatever it is told.
pub proof fn law_clean_stays_well_formed(run: CleanView, event: CleanEventView)
    requires
        run.well_formed(),
    ensures
        run.next(event).well_formed(),
        run.next(event).paths == run.paths,
        run.next(event).verbose == run.verbose,
{
}

/// A run asks for the end exactly when every selected path is behind it.
pub proof fn law_clean_ends_after_last_path(run: CleanView)
    requires
        run.well_formed(),
    ensures
        run.action() is Finish <==> run.position == run.paths.len(),
        run.action() matches CleanActionView::Finish { removed, failed } ==> removed + failed
            == run.paths.len(),
{
}

/// The paths are taken in order and one at a time, and a path is left
/// behind only once its removal was tried: after it was removed, or after
/// its failed removal was reported.
pub proof fn law_clean_takes_paths_in_order(run: CleanView, event: CleanEventView)
    requires
        run.well_formed(),
    ensures
        run.next(event).position == run.position || run.next(event).position == run.position + 1,
        run.next(event).position == run.position + 1 ==> {
            ||| run.stage is Removing && event is Removed && run.next(event).removed
                == run.removed + 1 && run.next(event).failed == run.failed
            ||| run.stage is Reporting && event is Told && run.next(event).failed == run.failed
                + 1 && run.next(event).removed == run.removed
        },
{
}

/// A removal that fails does not end the run: once the failure is reported
/// the run stands at the next path, with one more failure counted.
pub proof fn law_clean_goes_on_after_failure(run: CleanView, error: Seq<char>)
    requires
        run.well_formed(),
        !run.finished(),
        run.stage is Removing,
    ensures
        run.next(CleanEventView::RemoveFailed(error)).action() == (CleanActionView::ReportFailure {
            path: run.paths[run.position as int],
            error,
        }),
        run.next(CleanEventView::RemoveFailed(error)).next(CleanEventView::Told) == run.moved_on(
            false,
        ),
{
}

} // verus!
