//! Fetching from a remote, and from all remotes in turn.
//!
//! A fetch resolves its remote, by name or else as an address, downloads
//! every reference with the tags that belong to them, disconnects, and moves
//! the local tips to what was downloaded. The caller does each of these and
//! reports how it went; a failure at resolution, download or tip update ends
//! the fetch of that remote. Fetching all remotes takes them one by one, and
//! a remote that fails does not stop the others.

use vstd::prelude::*;
use crate::text::string_views;

verus! {

/// The part of a fetch in which it can fail.
#[derive(Clone, Copy, Debug, PartialEq, Eq, Structural)]
pub enum FetchPhase {
    /// Finding the remote, by name or as an address.
    Resolution,
    /// Downloading from the remote.
    Download,
    /// Moving the local tips.
    UpdateTips,
}

/// Why the fetch of a remote failed.
#[derive(Clone, Debug, PartialEq, Eq)]
pub struct FetchError {
    /// The remote, as it was named to the fetch.
    pub remote: String,
    /// Where the fetch failed.
    pub phase: FetchPhase,
    /// What the failed operation said.
    pub detail: String,
}

/// What a fetch error stands for.
pub struct FetchErrorView {
    pub remote: Seq<char>,
    pub phase: FetchPhase,
    pub detail: Seq<char>,
}

impl View for FetchError {
    type V = FetchErrorView;

    open spec fn view(&self) -> FetchErrorView {
        FetchErrorView { remote: self.remote@, phase: self.phase, detail: self.detail@ }
    }
}

/// How the fetch of a remote ended.
#[derive(Clone, Debug, PartialEq, Eq)]
pub enum FetchOutcome {
    Fetched,
    Failed(FetchError),
}

/// What the outcome of a fetch stands for.
pub enum FetchOutcomeView {
    Fetched,
    Failed(FetchErrorView),
}

impl View for FetchOutcome {
    type V = FetchOutcomeView;

    open spec fn view(&self) -> FetchOutcomeView {
        match self {
            FetchOutcome::Fetched => FetchOutcomeView::Fetched,
            FetchOutcome::Failed(error) => FetchOutcomeView::Failed(error@),
        }
    }
}

/// What a fetch asks of its caller.
#[derive(Clone, Debug, PartialEq, Eq)]
pub enum FetchAction {
    /// Look up the remote that is configured under this name.
    FindRemote { name: String },
    /// Make a remote without a name for this address.
    AnonymousRemote { url: String },
    /// Download from the remote: the references that `refspecs` select, all
    /// of them where it is empty, with every tag where `all_tags` is set,
    /// answering calls for credentials where `with_credentials` is set.
    Download { refspecs: Vec<String>, all_tags: bool, with_credentials: bool },
    /// Disconnect from the remote.
    Disconnect,
    /// Move the local tips to what was downloaded, also where that is no
    /// fast-forward if `forced` is set, with every tag where `all_tags` is.
    UpdateTips { forced: bool, all_tags: bool },
    /// The fetch of the remote has ended in this way.
    Finish(FetchOutcome),
}

/// What a fetch action stands for.
pub enum FetchActionView {
    FindRemote { name: Seq<char> },
    AnonymousRemote { url: Seq<char> },
    Download { refspecs: Seq<Seq<char>>, all_tags: bool, with_credentials: bool },
    Disconnect,
    UpdateTips { forced: bool, all_tags: bool },
    Finish(FetchOutcomeView),
}

impl View for FetchAction {
    type V = FetchActionView;

    open spec fn view(&self) -> FetchActionView {
        match self {
            FetchAction::FindRemote { name } => FetchActionView::FindRemote { name: name@ },
            FetchAction::AnonymousRemote { url } => FetchActionView::AnonymousRemote {
                url: url@,
            },
            FetchAction::Download { refspecs, all_tags, with_credentials } => {
                FetchActionView::Download {
                    refspecs: string_views(refspecs@),
                    all_tags: *all_tags,
                    with_credentials: *with_credentials,
                }
            },
            FetchAction::Disconnect => FetchActionView::Disconnect,
            FetchAction::UpdateTips { forced, all_tags } => FetchActionView::UpdateTips {
                forced: *forced,
                all_tags: *all_tags,
            },
            FetchAction::Finish(outcome) => FetchActionView::Finish(outcome@),
        }
    }
}

/// How what the fetch asked for went.
#[derive(Clone, Debug, PartialEq, Eq)]
pub enum FetchEvent {
    Succeeded,
    /// It failed, and this is what the failed operation said.
    Failed(String),
}

/// What a fetch event stands for.
pub enum FetchEventView {
    Succeeded,
    Failed(Seq<char>),
}

impl View for FetchEvent {
    type V = FetchEventView;

    open spec fn view(&self) -> FetchEventView {
        match self {
            FetchEvent::Succeeded => FetchEventView::Succeeded,
            FetchEvent::Failed(detail) => FetchEventView::Failed(detail@),
        }
    }
}

/// How far the fetch of a remote has come.
#[derive(Clone, Debug, PartialEq, Eq)]
pub enum FetchStage {
    FindingRemote,
    MakingAnonymousRemote,
    Downloading,
    Disconnecting,
    UpdatingTips,
    Fetched,
    Failed { phase: FetchPhase, detail: String },
}

/// What a stage of a fetch stands for.
pub enum FetchStageView {
    FindingRemote,
    MakingAnonymousRemote,
    Downloading,
    Disconnecting,
    UpdatingTips,
    Fetched,
    Failed { phase: FetchPhase, detail: Seq<char> },
}

impl View for FetchStage {
    type V = FetchStageView;

    open spec fn view(&self) -> FetchStageView {
        match self {
            FetchStage::FindingRemote => FetchStageView::FindingRemote,
            FetchStage::MakingAnonymousRemote => FetchStageView::MakingAnonymousRemote,
            FetchStage::Downloading => FetchStageView::Downloading,
            FetchStage::Disconnecting => FetchStageView::Disconnecting,
            FetchStage::UpdatingTips => FetchStageView::UpdatingTips,
            FetchStage::Fetched => FetchStageView::Fetched,
            FetchStage::Failed { phase, detail } => FetchStageView::Failed {
                phase: *phase,
                detail: detail@,
            },
        }
    }
}

impl FetchStageView {
    /// Whether the fetch has ended, well or not.
    pub open spec fn ended(self) -> bool {
        self is Fetched || self is Failed
    }

    /// What a fetch of the remote `name` asks for at this stage.
    pub open spec fn action(self, name: Seq<char>) -> FetchActionView {
        match self {
            FetchStageView::FindingRemote => FetchActionView::FindRemote { name },
            FetchStageView::MakingAnonymousRemote => FetchActionView::AnonymousRemote {
                url: name,
            },
            FetchStageView::Downloading => FetchActionView::Download {
                refspecs: Seq::empty(),
                all_tags: true,
                with_credentials: true,
            },
            FetchStageView::Disconnecting => FetchActionView::Disconnect,
            FetchStageView::UpdatingTips => FetchActionView::UpdateTips {
                forced: true,
                all_tags: true,
            },
            FetchStageView::Fetched => FetchActionView::Finish(FetchOutcomeView::Fetched),
            FetchStageView::Failed { phase, detail } => FetchActionView::Finish(
                FetchOutcomeView::Failed(FetchErrorView { remote: name, phase, detail }),
            ),
        }
    }

    /// The stage that follows on an event. A remote that is not found by
    /// name is made from the name as an address. A failure to make it, to
    /// download or to move the tips ends the fetch. How the disconnection
    /// went does not matter. A fetch that has ended stays as it is.
    pub open spec fn next(self, event: FetchEventView) -> FetchStageView {
        match (self, event) {
            (FetchStageView::FindingRemote, FetchEventView::Succeeded) => {
                FetchStageView::Downloading
            },
            (FetchStageView::FindingRemote, FetchEventView::Failed(_)) => {
                FetchStageView::MakingAnonymousRemote
            },
            (FetchStageView::MakingAnonymousRemote, FetchEventView::Succeeded) => {
                FetchStageView::Downloading
            },
            (FetchStageView::MakingAnonymousRemote, FetchEventView::Failed(detail)) => {
                FetchStageView::Failed { phase: FetchPhase::Resolution, detail }
            },
            (FetchStageView::Downloading, FetchEventView::Succeeded) => {
                FetchStageView::Disconnecting
            },
            (FetchStageView::Downloading, FetchEventView::Failed(detail)) => {
                FetchStageView::Failed { phase: FetchPhase::Download, detail }
            },
            (FetchStageView::Disconnecting, _) => FetchStageView::UpdatingTips,
            (FetchStageView::UpdatingTips, FetchEventView::Succeeded) => FetchStageView::Fetched,
            (FetchStageView::UpdatingTips, FetchEventView::Failed(detail)) => {
                FetchStageView::Failed { phase: FetchPhase::UpdateTips, detail }
            },
            (FetchStageView::Fetched, _) => self,
            (FetchStageView::Failed { .. }, _) => self,
        }
    }
}

impl FetchStage {
    /// Whether the fetch has ended, well or not.
    pub fn ended(&self) -> (ended: bool)
        ensures
            ended == self@.ended(),
    {
        match self {
            FetchStage::Fetched => true,
            FetchStage::Failed { .. } => true,
            _ => false,
        }
    }

    /// What a fetch of the remote `name` asks for at this stage.
    pub fn action(&self, name: &str) -> (action: FetchAction)
        ensures
            action@ == self@.action(name@),
    {
        match self {
            FetchStage::FindingRemote => FetchAction::FindRemote { name: String::from_str(name) },
            FetchStage::MakingAnonymousRemote => FetchAction::AnonymousRemote {
                url: String::from_str(name),
            },
            FetchStage::Downloading => {
                let refspecs: Vec<String> = Vec::new();
                assert(string_views(refspecs@) =~= Seq::<Seq<char>>::empty());
                FetchAction::Download { refspecs, all_tags: true, with_credentials: true }
            },
            FetchStage::Disconnecting => FetchAction::Disconnect,
            FetchStage::UpdatingTips => FetchAction::UpdateTips { forced: true, all_tags: true },
            FetchStage::Fetched => FetchAction::Finish(FetchOutcome::Fetched),
            FetchStage::Failed { phase, detail } => FetchAction::Finish(
                FetchOutcome::Failed(
                    FetchError {
                        remote: String::from_str(name),
                        phase: *phase,
                        detail: detail.clone(),
                    },
                ),
            ),
        }
    }

    /// The stage that follows on an event.
    pub fn next(self, event: FetchEvent) -> (stage: FetchStage)
        ensures
            stage@ == self@.next(event@),
    {
        match (self, event) {
            (FetchStage::FindingRemote, FetchEvent::Succeeded) => FetchStage::Downloading,
            (FetchStage::FindingRemote, FetchEvent::Failed(_)) => {
                FetchStage::MakingAnonymousRemote
            },
            (FetchStage::MakingAnonymousRemote, FetchEvent::Succeeded) => FetchStage::Downloading,
            (FetchStage::MakingAnonymousRemote, FetchEvent::Failed(detail)) => {
                FetchStage::Failed { phase: FetchPhase::Resolution, detail }
            },
            (FetchStage::Downloading, FetchEvent::Succeeded) => FetchStage::Disconnecting,
            (FetchStage::Downloading, FetchEvent::Failed(detail)) => FetchStage::Failed {
                phase: FetchPhase::Download,
                detail,
            },
            (FetchStage::Disconnecting, _) => FetchStage::UpdatingTips,
            (FetchStage::UpdatingTips, FetchEvent::Succeeded) => FetchStage::Fetched,
            (FetchStage::UpdatingTips, FetchEvent::Failed(detail)) => FetchStage::Failed {
                phase: FetchPhase::UpdateTips,
                detail,
            },
            (FetchStage::Fetched, _) => FetchStage::Fetched,
            (FetchStage::Failed { phase, detail }, _) => FetchStage::Failed { phase, detail },
        }
    }
}

/// The fetch of one remote.
#[derive(Clone, Debug, PartialEq, Eq)]
pub struct Fetch {
    /// The remote: the name of a configured remote, or an address.
    pub name: String,
    /// How far the fetch has come.
    pub stage: FetchStage,
}

impl Fetch {
    /// A fetch of the remote `name` that has done nothing yet.
    pub fn fetch_remote(name: &str) -> (fetch: Fetch)
        ensures
            fetch.name@ == name@,
            fetch.stage@ == FetchStageView::FindingRemote,
    {
        Fetch { name: String::from_str(name), stage: FetchStage::FindingRemote }
    }

    /// What the caller is to do now.
    pub fn action(&self) -> (action: FetchAction)
        ensures
            action@ == self.stage@.action(self.name@),
    {
        self.stage.action(self.name.as_str())
    }

    /// Takes note of how what was asked for went.
    pub fn advance(self, event: FetchEvent) -> (fetch: Fetch)
        ensures
            fetch.name == self.name,
            fetch.stage@ == self.stage@.next(event@),
    {
        Fetch { name: self.name, stage: self.stage.next(event) }
    }
}

/// What the fetch of all remotes asks of its caller.
#[derive(Clone, Debug, PartialEq, Eq)]
pub enum FetchAllAction {
    /// Do this for the remote at hand. Where it is the end of that remote's
    /// fetch, report it; the next remote follows.
    Remote(FetchAction),
    /// Every remote was taken: so many were fetched and so many failed.
    Finish { fetched: usize, failed: usize },
}

/// What an action of the fetch of all remotes stands for.
pub enum FetchAllActionView {
    Remote(FetchActionView),
    Finish { fetched: nat, failed: nat },
}

impl View for FetchAllAction {
    type V = FetchAllActionView;

    open spec fn view(&self) -> FetchAllActionView {
        match self {
            FetchAllAction::Remote(action) => FetchAllActionView::Remote(action@),
            FetchAllAction::Finish { fetched, failed } => FetchAllActionView::Finish {
                fetched: *fetched as nat,
                failed: *failed as nat,
            },
        }
    }
}

/// What the fetch of all remotes stands for: the remotes, the place of the
/// one at hand, how far its fetch has come, and how many of those before it
/// were fetched and how many failed.
pub struct FetchAllView {
    pub names: Seq<Seq<char>>,
    pub position: nat,
    pub stage: FetchStageView,
    pub fetched: nat,
    pub failed: nat,
}

impl FetchAllView {
    /// Every remote before the one at hand was either fetched or failed.
    pub open spec fn well_formed(self) -> bool {
        &&& self.position <= self.names.len()
        &&& self.fetched + self.failed == self.position
    }

    /// Whether every remote was taken.
    pub open spec fn finished(self) -> bool {
        self.position >= self.names.len()
    }

    /// What is asked for in this state.
    pub open spec fn action(self) -> FetchAllActionView {
        if self.finished() {
            FetchAllActionView::Finish { fetched: self.fetched, failed: self.failed }
        } else {
            FetchAllActionView::Remote(self.stage.action(self.names[self.position as int]))
        }
    }

    /// The state that follows on an event. While the fetch of the remote at
    /// hand goes on, the event moves it. Once it has ended, well or not, the
    /// next remote is taken up from the start.
    pub open spec fn next(self, event: FetchEventView) -> FetchAllView {
        if self.finished() {
            self
        } else if self.stage.ended() {
            FetchAllView {
                position: self.position + 1,
                stage: FetchStageView::FindingRemote,
                fetched: if self.stage is Fetched {
                    self.fetched + 1
                } else {
                    self.fetched
                },
                failed: if self.stage is Fetched {
                    self.failed
                } else {
                    self.failed + 1
                },
                ..self
            }
        } else {
            FetchAllView { stage: self.stage.next(event), ..self }
        }
    }
}

/// The fetch of all remotes, one after the other.
pub struct FetchAll {
    names: Vec<String>,
    position: usize,
    stage: FetchStage,
    failed: usize,
}

impl View for FetchAll {
    type V = FetchAllView;

    closed spec fn view(&self) -> FetchAllView {
        FetchAllView {
            names: string_views(self.names@),
            position: self.position as nat,
            stage: self.stage@,
            fetched: (self.position - self.failed) as nat,
            failed: self.failed as nat,
        }
    }
}

impl FetchAll {
    #[verifier::type_invariant]
    spec fn sound(self) -> bool {
        self.failed <= self.position <= self.names.len()
    }

    /// A fetch of the remotes `names`, in that order, that has done nothing
    /// yet.
    pub fn new(names: Vec<String>) -> (all: FetchAll)
        ensures
            all@ == (FetchAllView {
                names: string_views(names@),
                position: 0,
                stage: FetchStageView::FindingRemote,
                fetched: 0,
                failed: 0,
            }),
    {
        FetchAll { names, position: 0, stage: FetchStage::FindingRemote, failed: 0 }
    }

    /// What the caller is to do now.
    pub fn action(&self) -> (action: FetchAllAction)
        ensures
            self@.well_formed(),
            action@ == self@.action(),
    {
        proof {
            use_type_invariant(self);
        }
        if self.position >= self.names.len() {
            FetchAllAction::Finish { fetched: self.position - self.failed, failed: self.failed }
        } else {
            FetchAllAction::Remote(self.stage.action(self.names[self.position].as_str()))
        }
    }

    /// Takes note of how what was asked for went.
    pub fn advance(&mut self, event: FetchEvent)
        ensures
            final(self)@ == old(self)@.next(event@),
    {
        proof {
            use_type_invariant(&*self);
        }
        if self.position >= self.names.len() {
            return ;
        }
        if self.stage.ended() {
            let fetched = match &self.stage {
                FetchStage::Fetched => true,
                _ => false,
            };
            self.position = self.position + 1;
            if !fetched {
                self.failed = self.failed + 1;
            }
            self.stage = FetchStage::FindingRemote;
        } else {
            let mut stage = FetchStage::FindingRemote;
            std::mem::swap(&mut stage, &mut self.stage);
            self.stage = stage.next(event);
        }
    }
}

/// The stage that a fetch reaches from `stage` when it is told `events` in
/// turn.
pub open spec fn after_events(stage: FetchStageView, events: Seq<FetchEventView>) -> FetchStageView
    decreases events.len(),
{
    if events.len() == 0 {
        stage
    } else {
        after_events(stage.next(events[0]), events.skip(1))
    }
}

/// A fetch whose remote is found, by name or else as an address, and whose
/// download and tip update succeed has fetched, however the disconnection
/// went.
pub proof fn law_fetch_from_start_to_end(
    found: bool,
    missing: Seq<char>,
    disconnection: FetchEventView,
)
    ensures
        after_events(
            FetchStageView::FindingRemote,
            if found {
                seq![
                    FetchEventView::Succeeded,
                    FetchEventView::Succeeded,
                    disconnection,
                    FetchEventView::Succeeded,
                ]
            } else {
                seq![
                    FetchEventView::Failed(missing),
                    FetchEventView::Succeeded,
                    FetchEventView::Succeeded,
                    disconnection,
                    FetchEventView::Succeeded,
                ]
            },
        ) == FetchStageView::Fetched,
{
    reveal_with_fuel(after_events, 6);
    if found {
        let events = seq![
            FetchEventView::Succeeded,
            FetchEventView::Succeeded,
            disconnection,
            FetchEventView::Succeeded,
        ];
        assert(events.skip(1).skip(1).skip(1).skip(1).len() == 0);
        assert(events.skip(1)[0] == FetchEventView::Succeeded);
        assert(events.skip(1).skip(1)[0] == disconnection);
        assert(events.skip(1).skip(1).skip(1)[0] == FetchEventView::Succeeded);
    } else {
        let events = seq![
            FetchEventView::Failed(missing),
            FetchEventView::Succeeded,
            FetchEventView::Succeeded,
            disconnection,
            FetchEventView::Succeeded,
        ];
        assert(events.skip(1).skip(1).skip(1).skip(1).skip(1).len() == 0);
        assert(events.skip(1)[0] == FetchEventView::Succeeded);
        assert(events.skip(1).skip(1)[0] == FetchEventView::Succeeded);
        assert(events.skip(1).skip(1).skip(1)[0] == disconnection);
        assert(events.skip(1).skip(1).skip(1).skip(1)[0] == FetchEventView::Succeeded);
    }
}

/// A fetch that has failed stays failed: nothing that it is told later
/// makes it fetch, and its error stays the same.
pub proof fn law_fetch_failure_is_fatal(stage: FetchStageView, events: Seq<FetchEventView>)
    requires
        stage is Failed,
    ensures
        after_events(stage, events) == stage,
    decreases events.len(),
{
    if events.len() > 0 {
        law_fetch_failure_is_fatal(stage, events.skip(1));
    }
}

/// A fetch that has ended stays as it is, whatever it is told.
pub proof fn law_fetch_end_is_final(stage: FetchStageView, event: FetchEventView)
    requires
        stage.ended(),
    ensures
        stage.next(event) == stage,
{
}

/// The steps of a fetch come in order: it downloads only from a remote that
/// was resolved, disconnects only after a download that succeeded, moves the
/// tips only after the disconnection, and is done only after the tips were
/// moved.
pub proof fn law_fetch_steps_in_order(stage: FetchStageView, event: FetchEventView)
    ensures
        stage.next(event) is Downloading ==> (stage is FindingRemote
            || stage is MakingAnonymousRemote) && event is Succeeded,
        stage.next(event) is MakingAnonymousRemote ==> stage is FindingRemote && event is Failed,
        stage.next(event) is Disconnecting ==> stage is Downloading && event is Succeeded,
        stage.next(event) is UpdatingTips ==> stage is Disconnecting,
        stage.next(event) is Fetched && !(stage is Fetched) ==> stage is UpdatingTips
            && event is Succeeded,
{
}

/// A fetch fails only where resolution, download or tip update failed, and
/// its error then names that part and carries what the failure said.
pub proof fn law_fetch_failure_is_reported(stage: FetchStageView, event: FetchEventView)
    requires
        !stage.ended(),
        stage.next(event) is Failed,
    ensures
        event is Failed,
        stage.next(event)->detail == event->Failed_0,
        stage.next(event)->phase == (match stage {
            FetchStageView::MakingAnonymousRemote => FetchPhase::Resolution,
            FetchStageView::Downloading => FetchPhase::Download,
            _ => FetchPhase::UpdateTips,
        }),
        stage is MakingAnonymousRemote || stage is Downloading || stage is UpdatingTips,
{
}

/// The fetch of all remotes stays well formed and keeps its remotes.
pub proof fn law_fetch_all_stays_well_formed(all: FetchAllView, event: FetchEventView)
    requires
        all.well_formed(),
    ensures
        all.next(event).well_formed(),
        all.next(event).names == all.names,
{
}

/// A remote whose fetch failed does not stop the others: the next remote is
/// taken up from the start, and the failure is counted.
pub proof fn law_fetch_all_goes_on_after_failure(all: FetchAllView, event: FetchEventView)
    requires
        all.well_formed(),
        !all.finished(),
        all.stage is Failed,
    ensures
        all.next(event).position == all.position + 1,
        all.next(event).stage == FetchStageView::FindingRemote,
        all.next(event).failed == all.failed + 1,
        all.next(event).fetched == all.fetched,
{
}

/// The fetch of all remotes ends exactly when every remote was taken, and
/// then every remote is counted once, as fetched or as failed.
pub proof fn law_fetch_all_ends_after_last(all: FetchAllView)
    requires
        all.well_formed(),
    ensures
        all.action() is Finish <==> all.position == all.names.len(),
        all.action() matches FetchAllActionView::Finish { fetched, failed } ==> fetched + failed
            == all.names.len(),
{
}

} // verus!
