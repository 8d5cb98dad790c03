//! Commits built from the index: a new commit on top of HEAD, and the
//! replacement of the commit at HEAD.
//!
//! A commit is described by its tree, its parents, its author, its committer
//! and its message. The functions here say what the commit to write is; the
//! object store writes it and moves HEAD.

use vstd::prelude::*;
use crate::stage::add_all;
use crate::status::{
    any_under, index_change_flags, staged_query, StatusEntryView, StatusQuery, StatusSnapshot,
};
use crate::text::{option_view, string_views};

verus! {

/// The identifier of an object in the store.
#[derive(Clone, Copy, Debug, PartialEq, Eq, Hash)]
pub struct ObjectId {
    pub bytes: [u8; 20],
}

/// Who wrote or committed a change, and when.
#[derive(Clone, Debug, PartialEq, Eq)]
pub struct Signature {
    pub name: String,
    pub email: String,
    /// Seconds since the epoch.
    pub seconds: i64,
    /// Minutes east of Greenwich.
    pub offset_minutes: i32,
}

/// What a signature stands for.
pub struct SignatureView {
    pub name: Seq<char>,
    pub email: Seq<char>,
    pub seconds: i64,
    pub offset_minutes: i32,
}

impl View for Signature {
    type V = SignatureView;

    open spec fn view(&self) -> SignatureView {
        SignatureView {
            name: self.name@,
            email: self.email@,
            seconds: self.seconds,
            offset_minutes: self.offset_minutes,
        }
    }
}

impl Signature {
    /// A signature equal to this one.
    pub fn duplicate(&self) -> (copy: Signature)
        ensures
            copy@ == self@,
    {
        Signature {
            name: self.name.clone(),
            email: self.email.clone(),
            seconds: self.seconds,
            offset_minutes: self.offset_minutes,
        }
    }
}

/// A commit: its tree, its parents in order, who wrote it, who committed it,
/// and its message.
#[derive(Clone, Debug, PartialEq, Eq)]
pub struct CommitDescriptor {
    pub tree: ObjectId,
    pub parents: Vec<ObjectId>,
    pub author: Signature,
    pub committer: Signature,
    pub message: String,
}

/// What a commit descriptor stands for.
pub struct CommitView {
    pub tree: ObjectId,
    pub parents: Seq<ObjectId>,
    pub author: SignatureView,
    pub committer: SignatureView,
    pub message: Seq<char>,
}

impl View for CommitDescriptor {
    type V = CommitView;

    open spec fn view(&self) -> CommitView {
        CommitView {
            tree: self.tree,
            parents: self.parents@,
            author: self.author@,
            committer: self.committer@,
            message: self.message@,
        }
    }
}

impl CommitDescriptor {
    /// A descriptor equal to this one.
    pub fn duplicate(&self) -> (copy: CommitDescriptor)
        ensures
            copy@ == self@,
    {
        let mut parents: Vec<ObjectId> = Vec::new();
        let mut i: usize = 0;
        while i < self.parents.len()
            invariant
                i <= self.parents.len(),
                parents@ == self.parents@.take(i as int),
            decreases self.parents.len() - i,
        {
            parents.push(self.parents[i]);
            assert(self.parents@.take(i + 1) =~= self.parents@.take(i as int).push(
                self.parents@[i as int],
            ));
            i += 1;
        }
        assert(self.parents@.take(i as int) =~= self.parents@);
        CommitDescriptor {
            tree: self.tree,
            parents,
            author: self.author.duplicate(),
            committer: self.committer.duplicate(),
            message: self.message.clone(),
        }
    }
}

/// What HEAD points at.
#[derive(Clone, Copy, Debug, PartialEq, Eq)]
pub enum Head {
    /// A branch without a commit yet.
    Unborn,
    /// This commit.
    Commit(ObjectId),
    /// Something that is not directly a commit.
    Other,
}

/// The parents of a commit made on top of `head`: the commit at HEAD, or
/// none where the branch is unborn.
pub open spec fn parents_on(head: Head) -> Seq<ObjectId> {
    match head {
        Head::Commit(id) => seq![id],
        _ => Seq::empty(),
    }
}

/// The commit made on top of `head` from a tree, the signature of the
/// repository and a message: the signature is both author and committer, and
/// the message is taken as it is.
pub open spec fn commit_on(
    head: Head,
    signature: SignatureView,
    tree: ObjectId,
    message: Seq<char>,
) -> CommitView {
    CommitView {
        tree,
        parents: parents_on(head),
        author: signature,
        committer: signature,
        message,
    }
}

/// The commit that replaces `old`: the same parents, author and committer,
/// with the tree and the message replaced where another is given.
pub open spec fn amended(old: CommitView, tree: Option<ObjectId>, message: Option<Seq<char>>) ->
    CommitView {
    CommitView {
        tree: match tree {
            Some(tree) => tree,
            None => old.tree,
        },
        message: match message {
            Some(message) => message,
            None => old.message,
        },
        ..old
    }
}

/// Why no commit can be described.
#[derive(Clone, Copy, Debug, PartialEq, Eq, Structural)]
pub enum DescribeError {
    /// HEAD does not point directly at a commit.
    HeadNotACommit,
}

/// The commit to write on top of HEAD. It fails exactly where HEAD points
/// at something other than a commit; on an unborn branch the commit has no
/// parent.
pub fn commit_to_head(head: Head, signature: &Signature, tree: ObjectId, message: &str) -> (commit:
    Result<CommitDescriptor, DescribeError>)
    ensures
        head is Other <==> commit is Err,
        commit matches Ok(described) ==> described@ == commit_on(
            head,
            signature@,
            tree,
            message@,
        ),
{
    let mut parents: Vec<ObjectId> = Vec::new();
    match head {
        Head::Unborn => {},
        Head::Commit(id) => {
            parents.push(id);
        },
        Head::Other => {
            return Err(DescribeError::HeadNotACommit);
        },
    }
    assert(parents@ =~= parents_on(head));
    Ok(
        CommitDescriptor {
            tree,
            parents,
            author: signature.duplicate(),
            committer: signature.duplicate(),
            message: String::from_str(message),
        },
    )
}

/// The commit that replaces the commit at HEAD. Its parents, author and
/// committer are those of the old commit; the tree and the message are
/// replaced where another is given, each on its own.
pub fn amend_to_head(old: &CommitDescriptor, tree: Option<ObjectId>, message: Option<&str>) -> (commit:
    CommitDescriptor)
    ensures
        commit@ == amended(
            old@,
            tree,
            match message {
                Some(message) => Some(message@),
                None => None,
            },
        ),
        commit@.parents == old@.parents,
{
    let mut commit = old.duplicate();
    match tree {
        Some(tree) => {
            commit.tree = tree;
        },
        None => {},
    }
    match message {
        Some(message) => {
            commit.message = String::from_str(message);
        },
        None => {},
    }
    commit
}

/// Amending keeps the parents, their number and their order, and changes
/// the tree exactly where a tree other than the old one is given.
pub proof fn law_amend_keeps_parents(
    old: CommitView,
    tree: Option<ObjectId>,
    message: Option<Seq<char>>,
)
    ensures
        amended(old, tree, message).parents == old.parents,
        amended(old, tree, message).author == old.author,
        amended(old, tree, message).committer == old.committer,
        amended(old, tree, message).tree != old.tree <==> tree is Some && tree->0 != old.tree,
{
}

/// A commit on top of HEAD has the commit at HEAD as its only parent, and
/// no parent where the branch is unborn.
pub proof fn law_commit_parents(
    head: Head,
    signature: SignatureView,
    tree: ObjectId,
    message: Seq<char>,
)
    requires
        !(head is Other),
    ensures
        head is Unborn ==> commit_on(head, signature, tree, message).parents.len() == 0,
        head matches Head::Commit(id) ==> commit_on(head, signature, tree, message).parents
            == seq![id],
        commit_on(head, signature, tree, message).author == commit_on(
            head,
            signature,
            tree,
            message,
        ).committer,
{
}

/// What is to be written: a new commit, or the replacement of the commit at
/// HEAD, with a new message where one is given.
#[allow(inconsistent_fields)]
#[derive(Clone, Debug, PartialEq, Eq)]
pub enum CommitMode {
    Commit { message: String },
    Amend { message: Option<String> },
}

/// What a commit mode stands for.
#[allow(inconsistent_fields)]
pub enum CommitModeView {
    Commit { message: Seq<char> },
    Amend { message: Option<Seq<char>> },
}

impl View for CommitMode {
    type V = CommitModeView;

    open spec fn view(&self) -> CommitModeView {
        match self {
            CommitMode::Commit { message } => CommitModeView::Commit { message: message@ },
            CommitMode::Amend { message } => CommitModeView::Amend {
                message: option_view(*message),
            },
        }
    }
}

/// An operation of the object store that a commit needs.
#[derive(Clone, Copy, Debug, PartialEq, Eq, Structural)]
pub enum StoreStep {
    Stage,
    ReadStatus,
    WriteTree,
    ReadHead,
    ReadCommit,
    WriteCommit,
}

/// Why a commit was not written.
#[derive(Clone, Debug, PartialEq, Eq)]
pub enum CommitError {
    /// The repository has no signature configured.
    NoSignature,
    /// HEAD does not point directly at a commit.
    HeadNotACommit,
    /// The object store failed at this step, with these words.
    Store { step: StoreStep, detail: String },
}

/// What a commit error stands for.
pub enum CommitErrorView {
    NoSignature,
    HeadNotACommit,
    Store { step: StoreStep, detail: Seq<char> },
}

impl View for CommitError {
    type V = CommitErrorView;

    open spec fn view(&self) -> CommitErrorView {
        match self {
            CommitError::NoSignature => CommitErrorView::NoSignature,
            CommitError::HeadNotACommit => CommitErrorView::HeadNotACommit,
            CommitError::Store { step, detail } => CommitErrorView::Store {
                step: *step,
                detail: detail@,
            },
        }
    }
}

/// What a commit run asks of its caller.
#[derive(Clone, Debug, PartialEq, Eq)]
pub enum CommitAction {
    /// Add to the index what these patterns select, and write the index.
    StageAll { pathspecs: Vec<String> },
    /// Enumerate the status of the repository as the query says.
    ReadStatus { query: StatusQuery },
    /// Read the signature that the repository is configured with.
    ReadSignature,
    /// Write the index as a tree.
    WriteTree,
    /// Find out what HEAD points at.
    ReadHead,
    /// Read this commit.
    ReadCommit { id: ObjectId },
    /// Write this commit and let HEAD point at it. Where `replaces` names a
    /// commit, the new one takes its place; that commit is left as it is.
    WriteCommit { replaces: Option<ObjectId>, commit: CommitDescriptor },
    /// The commit was written under this identifier.
    Committed(ObjectId),
    /// The index does not differ from HEAD: there is nothing to commit or
    /// to amend, and nothing was written.
    NothingToCommit,
    /// No commit was written.
    Failed(CommitError),
}

/// What a commit action stands for.
pub enum CommitActionView {
    StageAll { pathspecs: Seq<Seq<char>> },
    ReadStatus { query: StatusQuery },
    ReadSignature,
    WriteTree,
    ReadHead,
    ReadCommit { id: ObjectId },
    WriteCommit { replaces: Option<ObjectId>, commit: CommitView },
    Committed(ObjectId),
    NothingToCommit,
    Failed(CommitErrorView),
}

impl View for CommitAction {
    type V = CommitActionView;

    open spec fn view(&self) -> CommitActionView {
        match self {
            CommitAction::StageAll { pathspecs } => CommitActionView::StageAll {
                pathspecs: string_views(pathspecs@),
            },
            CommitAction::ReadStatus { query } => CommitActionView::ReadStatus { query: *query },
            CommitAction::ReadSignature => CommitActionView::ReadSignature,
            CommitAction::WriteTree => CommitActionView::WriteTree,
            CommitAction::ReadHead => CommitActionView::ReadHead,
            CommitAction::ReadCommit { id } => CommitActionView::ReadCommit { id: *id },
            CommitAction::WriteCommit { replaces, commit } => CommitActionView::WriteCommit {
                replaces: *replaces,
                commit: commit@,
            },
            CommitAction::Committed(id) => CommitActionView::Committed(*id),
            CommitAction::NothingToCommit => CommitActionView::NothingToCommit,
            CommitAction::Failed(error) => CommitActionView::Failed(error@),
        }
    }
}

/// What the caller tells a commit run once it has done what was asked.
#[derive(Clone, Debug, PartialEq, Eq)]
pub enum CommitEvent {
    /// The index was written with what was to be added.
    Staged,
    /// The status of the repository.
    Status(StatusSnapshot),
    /// The repository's signature.
    Signature(Signature),
    /// The tree that the index was written as.
    Tree(ObjectId),
    /// What HEAD points at.
    Head(Head),
    /// The commit that was read.
    Commit(CommitDescriptor),
    /// The identifier of the commit that was written.
    Written(ObjectId),
    /// What was asked for failed, with these words.
    Failed(String),
}

/// What a commit event stands for.
pub enum CommitEventView {
    Staged,
    Status(Seq<StatusEntryView>),
    Signature(SignatureView),
    Tree(ObjectId),
    Head(Head),
    Commit(CommitView),
    Written(ObjectId),
    Failed(Seq<char>),
}

impl View for CommitEvent {
    type V = CommitEventView;

    open spec fn view(&self) -> CommitEventView {
        match self {
            CommitEvent::Staged => CommitEventView::Staged,
            CommitEvent::Status(status) => CommitEventView::Status(status@),
            CommitEvent::Signature(signature) => CommitEventView::Signature(signature@),
            CommitEvent::Tree(tree) => CommitEventView::Tree(*tree),
            CommitEvent::Head(head) => CommitEventView::Head(*head),
            CommitEvent::Commit(commit) => CommitEventView::Commit(commit@),
            CommitEvent::Written(id) => CommitEventView::Written(*id),
            CommitEvent::Failed(detail) => CommitEventView::Failed(detail@),
        }
    }
}

/// How far a commit run has come, with what it has gathered.
#[derive(Clone, Debug, PartialEq, Eq)]
pub enum CommitStage {
    Staging,
    ReadingStatus,
    ReadingSignature,
    WritingTree { signature: Signature },
    ReadingHead { signature: Signature, tree: ObjectId },
    ReadingCommit { tree: ObjectId, id: ObjectId },
    Writing { replaces: Option<ObjectId>, commit: CommitDescriptor },
    Committed(ObjectId),
    NothingToCommit,
    Failed(CommitError),
}

/// What a stage of a commit run stands for.
pub enum CommitStageView {
    Staging,
    ReadingStatus,
    ReadingSignature,
    WritingTree { signature: SignatureView },
    ReadingHead { signature: SignatureView, tree: ObjectId },
    ReadingCommit { tree: ObjectId, id: ObjectId },
    Writing { replaces: Option<ObjectId>, commit: CommitView },
    Committed(ObjectId),
    NothingToCommit,
    Failed(CommitErrorView),
}

impl View for CommitStage {
    type V = CommitStageView;

    open spec fn view(&self) -> CommitStageView {
        match self {
            CommitStage::Staging => CommitStageView::Staging,
            CommitStage::ReadingStatus => CommitStageView::ReadingStatus,
            CommitStage::ReadingSignature => CommitStageView::ReadingSignature,
            CommitStage::WritingTree { signature } => CommitStageView::WritingTree {
                signature: signature@,
            },
            CommitStage::ReadingHead { signature, tree } => CommitStageView::ReadingHead {
                signature: signature@,
                tree: *tree,
            },
            CommitStage::ReadingCommit { tree, id } => CommitStageView::ReadingCommit {
                tree: *tree,
                id: *id,
            },
            CommitStage::Writing { replaces, commit } => CommitStageView::Writing {
                replaces: *replaces,
                commit: commit@,
            },
            CommitStage::Committed(id) => CommitStageView::Committed(*id),
            CommitStage::NothingToCommit => CommitStageView::NothingToCommit,
            CommitStage::Failed(error) => CommitStageView::Failed(error@),
        }
    }
}

/// The failure of the object store at `step`.
pub open spec fn store_failure(step: StoreStep, detail: Seq<char>) -> CommitStageView {
    CommitStageView::Failed(CommitErrorView::Store { step, detail })
}

impl CommitStageView {
    /// Whether the run has ended, with a commit or without one.
    pub open spec fn ended(self) -> bool {
        self is Committed || self is NothingToCommit || self is Failed
    }

    /// What the run asks for at this stage.
    pub open spec fn action(self) -> CommitActionView {
        match self {
            CommitStageView::Staging => CommitActionView::StageAll { pathspecs: seq!["."@] },
            CommitStageView::ReadingStatus => CommitActionView::ReadStatus {
                query: staged_query(),
            },
            CommitStageView::ReadingSignature => CommitActionView::ReadSignature,
            CommitStageView::WritingTree { .. } => CommitActionView::WriteTree,
            CommitStageView::ReadingHead { .. } => CommitActionView::ReadHead,
            CommitStageView::ReadingCommit { id, .. } => CommitActionView::ReadCommit { id },
            CommitStageView::Writing { replaces, commit } => CommitActionView::WriteCommit {
                replaces,
                commit,
            },
            CommitStageView::Committed(id) => CommitActionView::Committed(id),
            CommitStageView::NothingToCommit => CommitActionView::NothingToCommit,
            CommitStageView::Failed(error) => CommitActionView::Failed(error),
        }
    }

    /// The stage that follows once HEAD is known. A new commit goes on top
    /// of the commit at HEAD, or stands alone on an unborn branch. An amend
    /// needs the commit at HEAD and reads it next. Anything else is fatal.
    pub open spec fn after_head(
        mode: CommitModeView,
        signature: SignatureView,
        tree: ObjectId,
        head: Head,
    ) -> CommitStageView {
        match (mode, head) {
            (CommitModeView::Commit { message }, Head::Unborn) => CommitStageView::Writing {
                replaces: None,
                commit: commit_on(head, signature, tree, message),
            },
            (CommitModeView::Commit { message }, Head::Commit(_)) => CommitStageView::Writing {
                replaces: None,
                commit: commit_on(head, signature, tree, message),
            },
            (CommitModeView::Amend { .. }, Head::Commit(id)) => CommitStageView::ReadingCommit {
                tree,
                id,
            },
            _ => CommitStageView::Failed(CommitErrorView::HeadNotACommit),
        }
    }

    /// The stage that follows on an event. What is to be staged is staged
    /// first. Then the status is read, and the run ends without a commit
    /// where the index does not differ from HEAD. Then the signature is
    /// read, and its absence is fatal; the index is written as a tree, HEAD
    /// is read, for an amend the commit at HEAD is read, and the commit is
    /// written. A failure of the store ends the run. An event that does not
    /// answer what was asked changes nothing, and a run that has ended stays
    /// as it is.
    pub open spec fn next(self, mode: CommitModeView, event: CommitEventView) -> CommitStageView {
        match (self, event) {
            (CommitStageView::Staging, CommitEventView::Staged) => CommitStageView::ReadingStatus,
            (CommitStageView::Staging, CommitEventView::Failed(detail)) => {
                store_failure(StoreStep::Stage, detail)
            },
            (CommitStageView::ReadingStatus, CommitEventView::Status(entries)) => {
                if any_under(entries, index_change_flags()) {
                    CommitStageView::ReadingSignature
                } else {
                    CommitStageView::NothingToCommit
                }
            },
            (CommitStageView::ReadingStatus, CommitEventView::Failed(detail)) => {
                store_failure(StoreStep::ReadStatus, detail)
            },
            (CommitStageView::ReadingSignature, CommitEventView::Signature(signature)) => {
                CommitStageView::WritingTree { signature }
            },
            (CommitStageView::ReadingSignature, CommitEventView::Failed(_)) => {
                CommitStageView::Failed(CommitErrorView::NoSignature)
            },
            (CommitStageView::WritingTree { signature }, CommitEventView::Tree(tree)) => {
                CommitStageView::ReadingHead { signature, tree }
            },
            (CommitStageView::WritingTree { .. }, CommitEventView::Failed(detail)) => {
                store_failure(StoreStep::WriteTree, detail)
            },
            (CommitStageView::ReadingHead { signature, tree }, CommitEventView::Head(head)) => {
                Self::after_head(mode, signature, tree, head)
            },
            (CommitStageView::ReadingHead { .. }, CommitEventView::Failed(detail)) => {
                store_failure(StoreStep::ReadHead, detail)
            },
            (CommitStageView::ReadingCommit { tree, id }, CommitEventView::Commit(old)) => {
                CommitStageView::Writing {
                    replaces: Some(id),
                    commit: amended(
                        old,
                        Some(tree),
                        match mode {
                            CommitModeView::Amend { message } => message,
                            CommitModeView::Commit { message } => Some(message),
                        },
                    ),
                }
            },
            (CommitStageView::ReadingCommit { .. }, CommitEventView::Failed(detail)) => {
                store_failure(StoreStep::ReadCommit, detail)
            },
            (CommitStageView::Writing { .. }, CommitEventView::Written(id)) => {
                CommitStageView::Committed(id)
            },
            (CommitStageView::Writing { .. }, CommitEventView::Failed(detail)) => {
                store_failure(StoreStep::WriteCommit, detail)
            },
            _ => self,
        }
    }
}

/// A run that writes one commit: a new one on top of HEAD, or one in place
/// of the commit at HEAD.
#[derive(Clone, Debug, PartialEq, Eq)]
pub struct CommitRun {
    pub mode: CommitMode,
    pub stage: CommitStage,
}

impl CommitRun {
    /// A run that commits the index on top of HEAD with `message` as it is.
    /// There must be something to commit: the index differs from HEAD.
    pub fn commit(status: &StatusSnapshot, message: &str) -> (run: CommitRun)
        requires
            any_under(status@, index_change_flags()),
        ensures
            run.mode@ == (CommitModeView::Commit { message: message@ }),
            run.stage@ == CommitStageView::ReadingSignature,
    {
        CommitRun {
            mode: CommitMode::Commit { message: String::from_str(message) },
            stage: CommitStage::ReadingSignature,
        }
    }

    /// A run that replaces the commit at HEAD by one with the tree of the
    /// index, and with `message` where one is given. There must be something
    /// to amend: the index differs from HEAD.
    pub fn amend(status: &StatusSnapshot, message: Option<String>) -> (run: CommitRun)
        requires
            any_under(status@, index_change_flags()),
        ensures
            run.mode@ == (CommitModeView::Amend { message: option_view(message) }),
            run.stage@ == CommitStageView::ReadingSignature,
    {
        CommitRun { mode: CommitMode::Amend { message }, stage: CommitStage::ReadingSignature }
    }

    /// A run for `mode` that first finds out whether there is anything to
    /// commit or to amend, after staging everything where `stage_all` is set.
    pub fn start(mode: CommitMode, stage_all: bool) -> (run: CommitRun)
        ensures
            run.mode == mode,
            run.stage@ == if stage_all {
                CommitStageView::Staging
            } else {
                CommitStageView::ReadingStatus
            },
    {
        CommitRun {
            mode,
            stage: if stage_all {
                CommitStage::Staging
            } else {
                CommitStage::ReadingStatus
            },
        }
    }

    /// What the caller is to do now.
    pub fn action(&self) -> (action: CommitAction)
        ensures
            action@ == self.stage@.action(),
    {
        match &self.stage {
            CommitStage::Staging => CommitAction::StageAll { pathspecs: add_all() },
            CommitStage::ReadingStatus => CommitAction::ReadStatus {
                query: StatusQuery::staged(),
            },
            CommitStage::ReadingSignature => CommitAction::ReadSignature,
            CommitStage::WritingTree { .. } => CommitAction::WriteTree,
            CommitStage::ReadingHead { .. } => CommitAction::ReadHead,
            CommitStage::ReadingCommit { id, .. } => CommitAction::ReadCommit { id: *id },
            CommitStage::Writing { replaces, commit } => CommitAction::WriteCommit {
                replaces: *replaces,
                commit: commit.duplicate(),
            },
            CommitStage::Committed(id) => CommitAction::Committed(*id),
            CommitStage::NothingToCommit => CommitAction::NothingToCommit,
            CommitStage::Failed(error) => CommitAction::Failed(
                match error {
                    CommitError::NoSignature => CommitError::NoSignature,
                    CommitError::HeadNotACommit => CommitError::HeadNotACommit,
                    CommitError::Store { step, detail } => CommitError::Store {
                        step: *step,
                        detail: detail.clone(),
                    },
                },
            ),
        }
    }

    /// Takes note of what the caller did and moves on.
    pub fn advance(self, event: CommitEvent) -> (run: CommitRun)
        ensures
            run.mode == self.mode,
            run.stage@ == self.stage@.next(self.mode@, event@),
    {
        let CommitRun { mode, stage } = self;
        let next = match (stage, event) {
            (CommitStage::Staging, CommitEvent::Staged) => CommitStage::ReadingStatus,
            (CommitStage::Staging, CommitEvent::Failed(detail)) => CommitStage::Failed(
                CommitError::Store { step: StoreStep::Stage, detail },
            ),
            (CommitStage::ReadingStatus, CommitEvent::Status(status)) => {
                if status.is_to_commit() {
                    CommitStage::ReadingSignature
                } else {
                    CommitStage::NothingToCommit
                }
            },
            (CommitStage::ReadingStatus, CommitEvent::Failed(detail)) => CommitStage::Failed(
                CommitError::Store { step: StoreStep::ReadStatus, detail },
            ),
            (CommitStage::ReadingSignature, CommitEvent::Signature(signature)) => {
                CommitStage::WritingTree { signature }
            },
            (CommitStage::ReadingSignature, CommitEvent::Failed(_)) => CommitStage::Failed(
                CommitError::NoSignature,
            ),
            (CommitStage::WritingTree { signature }, CommitEvent::Tree(tree)) => {
                CommitStage::ReadingHead { signature, tree }
            },
            (CommitStage::WritingTree { .. }, CommitEvent::Failed(detail)) => CommitStage::Failed(
                CommitError::Store { step: StoreStep::WriteTree, detail },
            ),
            (CommitStage::ReadingHead { signature, tree }, CommitEvent::Head(head)) => {
                match (&mode, head) {
                    (CommitMode::Amend { .. }, Head::Commit(id)) => CommitStage::ReadingCommit {
                        tree,
                        id,
                    },
                    (CommitMode::Commit { message }, _) => {
                        match commit_to_head(head, &signature, tree, message.as_str()) {
                            Ok(commit) => CommitStage::Writing { replaces: None, commit },
                            Err(_) => CommitStage::Failed(CommitError::HeadNotACommit),
                        }
                    },
                    _ => CommitStage::Failed(CommitError::HeadNotACommit),
                }
            },
            (CommitStage::ReadingHead { .. }, CommitEvent::Failed(detail)) => CommitStage::Failed(
                CommitError::Store { step: StoreStep::ReadHead, detail },
            ),
            (CommitStage::ReadingCommit { tree, id }, CommitEvent::Commit(old)) => {
                let commit = match &mode {
                    CommitMode::Amend { message: Some(message) } => amend_to_head(
                        &old,
                        Some(tree),
                        Some(message.as_str()),
                    ),
                    CommitMode::Amend { message: None } => amend_to_head(&old, Some(tree), None),
                    CommitMode::Commit { message } => amend_to_head(
                        &old,
                        Some(tree),
                        Some(message.as_str()),
                    ),
                };
                CommitStage::Writing { replaces: Some(id), commit }
            },
            (CommitStage::ReadingCommit { .. }, CommitEvent::Failed(detail)) => {
                CommitStage::Failed(CommitError::Store { step: StoreStep::ReadCommit, detail })
            },
            (CommitStage::Writing { .. }, CommitEvent::Written(id)) => CommitStage::Committed(id),
            (CommitStage::Writing { .. }, CommitEvent::Failed(detail)) => CommitStage::Failed(
                CommitError::Store { step: StoreStep::WriteCommit, detail },
            ),
            (stage, _) => stage,
        };
        CommitRun { mode, stage: next }
    }
}

/// The stage that a run reaches from `stage` when it is told `events` in
/// turn.
pub open spec fn after_events(
    stage: CommitStageView,
    mode: CommitModeView,
    events: Seq<CommitEventView>,
) -> CommitStageView
    decreases events.len(),
{
    if events.len() == 0 {
        stage
    } else {
        after_events(stage.next(mode, events[0]), mode, events.skip(1))
    }
}

/// A run for a new commit that is given the signature, the tree of the
/// index and a HEAD that is unborn or a commit asks for the commit on top
/// of that HEAD to be written, and ends with the identifier that the store
/// gives for it.
pub proof fn law_commit_run_from_start_to_end(
    signature: SignatureView,
    tree: ObjectId,
    head: Head,
    message: Seq<char>,
    id: ObjectId,
)
    requires
        !(head is Other),
    ensures
        after_events(
            CommitStageView::ReadingSignature,
            CommitModeView::Commit { message },
            seq![
                CommitEventView::Signature(signature),
                CommitEventView::Tree(tree),
                CommitEventView::Head(head),
            ],
        ).action() == (CommitActionView::WriteCommit {
            replaces: None,
            commit: commit_on(head, signature, tree, message),
        }),
        after_events(
            CommitStageView::ReadingSignature,
            CommitModeView::Commit { message },
            seq![
                CommitEventView::Signature(signature),
                CommitEventView::Tree(tree),
                CommitEventView::Head(head),
                CommitEventView::Written(id),
            ],
        ) == CommitStageView::Committed(id),
{
    reveal_with_fuel(after_events, 5);
    let mode = CommitModeView::Commit { message };
    let three = seq![
        CommitEventView::Signature(signature),
        CommitEventView::Tree(tree),
        CommitEventView::Head(head),
    ];
    let four = seq![
        CommitEventView::Signature(signature),
        CommitEventView::Tree(tree),
        CommitEventView::Head(head),
        CommitEventView::Written(id),
    ];
    assert(three.skip(1).skip(1).skip(1).len() == 0);
    assert(four.skip(1).skip(1).skip(1).skip(1).len() == 0);
    assert(three.skip(1)[0] == CommitEventView::Tree(tree));
    assert(three.skip(1).skip(1)[0] == CommitEventView::Head(head));
    assert(four.skip(1)[0] == CommitEventView::Tree(tree));
    assert(four.skip(1).skip(1)[0] == CommitEventView::Head(head));
    assert(four.skip(1).skip(1).skip(1)[0] == CommitEventView::Written(id));
}

/// An amend that is given the signature, the tree of the index, a HEAD that
/// is a commit and that commit asks for a commit in its place, with the same
/// parents, author and committer and with the tree of the index, and ends
/// with the identifier that the store gives for it.
pub proof fn law_amend_run_from_start_to_end(
    signature: SignatureView,
    tree: ObjectId,
    head: ObjectId,
    old: CommitView,
    message: Option<Seq<char>>,
    id: ObjectId,
)
    ensures
        after_events(
            CommitStageView::ReadingSignature,
            CommitModeView::Amend { message },
            seq![
                CommitEventView::Signature(signature),
                CommitEventView::Tree(tree),
                CommitEventView::Head(Head::Commit(head)),
                CommitEventView::Commit(old),
            ],
        ).action() == (CommitActionView::WriteCommit {
            replaces: Some(head),
            commit: amended(old, Some(tree), message),
        }),
        after_events(
            CommitStageView::ReadingSignature,
            CommitModeView::Amend { message },
            seq![
                CommitEventView::Signature(signature),
                CommitEventView::Tree(tree),
                CommitEventView::Head(Head::Commit(head)),
                CommitEventView::Commit(old),
                CommitEventView::Written(id),
            ],
        ) == CommitStageView::Committed(id),
{
    reveal_with_fuel(after_events, 6);
    let four = seq![
        CommitEventView::Signature(signature),
        CommitEventView::Tree(tree),
        CommitEventView::Head(Head::Commit(head)),
        CommitEventView::Commit(old),
    ];
    let five = seq![
        CommitEventView::Signature(signature),
        CommitEventView::Tree(tree),
        CommitEventView::Head(Head::Commit(head)),
        CommitEventView::Commit(old),
        CommitEventView::Written(id),
    ];
    assert(four.skip(1).skip(1).skip(1).skip(1).len() == 0);
    assert(five.skip(1).skip(1).skip(1).skip(1).skip(1).len() == 0);
    assert(four.skip(1)[0] == CommitEventView::Tree(tree));
    assert(four.skip(1).skip(1)[0] == CommitEventView::Head(Head::Commit(head)));
    assert(four.skip(1).skip(1).skip(1)[0] == CommitEventView::Commit(old));
    assert(five.skip(1)[0] == CommitEventView::Tree(tree));
    assert(five.skip(1).skip(1)[0] == CommitEventView::Head(Head::Commit(head)));
    assert(five.skip(1).skip(1).skip(1)[0] == CommitEventView::Commit(old));
    assert(five.skip(1).skip(1).skip(1).skip(1)[0] == CommitEventView::Written(id));
}

/// No run asks for a commit to be written before it was told the tree that
/// the index was written as, whatever else it is told.
pub proof fn law_commit_needs_tree_first(
    start: CommitStageView,
    mode: CommitModeView,
    events: Seq<CommitEventView>,
)
    requires
        start is Staging || start is ReadingStatus || start is ReadingSignature,
        forall|i: int| 0 <= i < events.len() ==> !(#[trigger] events[i] is Tree),
    ensures
        !(after_events(start, mode, events) is Writing),
        !(after_events(start, mode, events) is Committed),
{
    lemma_stays_before_tree(start, mode, events);
}

spec fn before_tree(stage: CommitStageView) -> bool {
    ||| stage is Staging
    ||| stage is ReadingStatus
    ||| stage is NothingToCommit
    ||| stage is ReadingSignature
    ||| stage is WritingTree
    ||| stage is Failed
}

proof fn lemma_stays_before_tree(
    stage: CommitStageView,
    mode: CommitModeView,
    events: Seq<CommitEventView>,
)
    requires
        before_tree(stage),
        forall|i: int| 0 <= i < events.len() ==> !(#[trigger] events[i] is Tree),
    ensures
        before_tree(after_events(stage, mode, events)),
    decreases events.len(),
{
    if events.len() > 0 {
        assert(!(events[0] is Tree));
        let rest = events.skip(1);
        assert forall|i: int| 0 <= i < rest.len() implies !(#[trigger] rest[i] is Tree) by {
            assert(rest[i] == events[i + 1]);
        }
        lemma_stays_before_tree(stage.next(mode, events[0]), mode, rest);
    }
}

/// A run that finds the index equal to HEAD writes nothing: it ends there
/// and then, before the signature is read or the tree is written; and a run
/// goes on to commit only where the index differs from HEAD.
pub proof fn law_commit_needs_index_changes(mode: CommitModeView, status: Seq<StatusEntryView>)
    ensures
        !any_under(status, index_change_flags()) ==> CommitStageView::ReadingStatus.next(
            mode,
            CommitEventView::Status(status),
        ) == CommitStageView::NothingToCommit,
        any_under(status, index_change_flags()) ==> CommitStageView::ReadingStatus.next(
            mode,
            CommitEventView::Status(status),
        ) == CommitStageView::ReadingSignature,
        CommitStageView::NothingToCommit.ended(),
{
}

/// Where everything is to be staged, the status is read only after the
/// staging, so that the run judges, and commits, what was staged.
pub proof fn law_commit_stages_first(mode: CommitModeView, event: CommitEventView)
    ensures
        CommitStageView::Staging.next(mode, event) is ReadingStatus <==> event is Staged,
        !(CommitStageView::Staging.next(mode, event) is ReadingSignature),
        !(CommitStageView::Staging.next(mode, event) is WritingTree),
{
}

/// A run that has ended stays as it is, whatever it is told.
pub proof fn law_commit_end_is_final(
    stage: CommitStageView,
    mode: CommitModeView,
    event: CommitEventView,
)
    requires
        stage.ended(),
    ensures
        stage.next(mode, event) == stage,
{
}

/// The steps of a run come in order: the tree is written only once the
/// signature is known, HEAD is read only once the tree is written, a commit
/// is read only for an amend and once HEAD is known, the commit is written
/// only after all of these, and the run holds a commit identifier only once
/// the store has given one.
pub proof fn law_commit_steps_in_order(
    stage: CommitStageView,
    mode: CommitModeView,
    event: CommitEventView,
)
    requires
        stage.next(mode, event) != stage,
    ensures
        stage.next(mode, event) is ReadingStatus ==> stage is Staging,
        stage.next(mode, event) is NothingToCommit ==> stage is ReadingStatus,
        stage.next(mode, event) is ReadingSignature ==> stage is ReadingStatus,
        stage.next(mode, event) is WritingTree ==> stage is ReadingSignature,
        stage.next(mode, event) is ReadingHead ==> stage is WritingTree,
        stage.next(mode, event) is ReadingCommit ==> stage is ReadingHead && mode is Amend,
        stage.next(mode, event) is Writing ==> (stage is ReadingHead && mode is Commit) || (
        stage is ReadingCommit),
        stage.next(mode, event) is Committed ==> stage is Writing && event is Written,
{
}

/// The commit that a run for a new commit writes: its tree is the tree that
/// the index was written as, its author and its committer are the signature
/// that was read, its message is the one given, and its only parent is the
/// commit at HEAD, or it has none on an unborn branch. Nothing is replaced.
pub proof fn law_commit_run_writes_commit_on_head(
    signature: SignatureView,
    tree: ObjectId,
    message: Seq<char>,
    head: Head,
)
    requires
        !(head is Other),
    ensures
        (CommitStageView::ReadingHead { signature, tree }).next(
            CommitModeView::Commit { message },
            CommitEventView::Head(head),
        ) == (CommitStageView::Writing {
            replaces: None,
            commit: commit_on(head, signature, tree, message),
        }),
{
}

/// The commit that an amend writes takes the place of the commit at HEAD
/// and keeps its parents, its author and its committer; its tree is the
/// tree that the index was written as.
pub proof fn law_amend_run_keeps_parents(
    tree: ObjectId,
    id: ObjectId,
    message: Option<Seq<char>>,
    old: CommitView,
)
    ensures
        (CommitStageView::ReadingCommit { tree, id }).next(
            CommitModeView::Amend { message },
            CommitEventView::Commit(old),
        ) matches CommitStageView::Writing { replaces, commit } && replaces == Some(id)
            && commit.parents == old.parents && commit.author == old.author && commit.committer
            == old.committer && commit.tree == tree,
{
}

/// An amend fails where HEAD does not point directly at a commit, as on an
/// unborn branch; it is not passed over.
pub proof fn law_amend_needs_commit_at_head(
    signature: SignatureView,
    tree: ObjectId,
    message: Option<Seq<char>>,
    head: Head,
)
    requires
        !(head is Commit),
    ensures
        (CommitStageView::ReadingHead { signature, tree }).next(
            CommitModeView::Amend { message },
            CommitEventView::Head(head),
        ) == CommitStageView::Failed(CommitErrorView::HeadNotACommit),
{
}

} // verus!
