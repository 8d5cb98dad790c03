use lazy_git_ext::commit::{
    amend_to_head, commit_to_head, CommitAction, CommitDescriptor, CommitError, CommitEvent,
    CommitMode, CommitRun, DescribeError, Head, ObjectId, Signature, StoreStep,
};
use lazy_git_ext::status::{StatusEntry, StatusFlag, StatusFlags, StatusQuery, StatusSnapshot};

fn id(byte: u8) -> ObjectId {
    ObjectId { bytes: [byte; 20] }
}

fn signature(name: &str) -> Signature {
    Signature {
        name: name.to_string(),
        email: format!("{}@example.org", name),
        seconds: 1_700_000_000,
        offset_minutes: 120,
    }
}

fn staged() -> StatusSnapshot {
    StatusSnapshot::new(vec![StatusEntry {
        path: "file.txt".to_string(),
        flags: StatusFlags::only(StatusFlag::IndexNew),
    }])
}

fn old_commit() -> CommitDescriptor {
    CommitDescriptor {
        tree: id(1),
        parents: vec![id(7), id(8)],
        author: signature("author"),
        committer: signature("committer"),
        message: "Old message".to_string(),
    }
}

#[test]
fn commit_on_unborn_head_has_no_parents() {
    let commit = commit_to_head(Head::Unborn, &signature("me"), id(3), "Initial").unwrap();
    assert!(commit.parents.is_empty());
    assert_eq!(commit.tree, id(3));
    assert_eq!(commit.message, "Initial");
    assert_eq!(commit.author, signature("me"));
    assert_eq!(commit.committer, signature("me"));
}

#[test]
fn commit_on_head_has_head_as_only_parent() {
    let commit = commit_to_head(Head::Commit(id(9)), &signature("me"), id(3), " as given\n").unwrap();
    assert_eq!(commit.parents, vec![id(9)]);
    assert_eq!(commit.message, " as given\n");
    assert_eq!(commit.author, commit.committer);
}

#[test]
fn commit_on_something_else_fails() {
    assert_eq!(
        commit_to_head(Head::Other, &signature("me"), id(3), "x"),
        Err(DescribeError::HeadNotACommit)
    );
}

#[test]
fn amend_replaces_only_the_tree() {
    let old = old_commit();
    let commit = amend_to_head(&old, Some(id(2)), None);
    assert_eq!(commit.tree, id(2));
    assert_eq!(commit.parents, old.parents);
    assert_eq!(commit.author, old.author);
    assert_eq!(commit.committer, old.committer);
    assert_eq!(commit.message, old.message);
}

#[test]
fn amend_replaces_only_the_message() {
    let old = old_commit();
    let commit = amend_to_head(&old, None, Some("New message"));
    assert_eq!(commit.tree, old.tree);
    assert_eq!(commit.parents, old.parents);
    assert_eq!(commit.message, "New message");
}

#[test]
fn amend_without_replacement_describes_the_old_commit() {
    let old = old_commit();
    assert_eq!(amend_to_head(&old, None, None), old);
    assert_eq!(old.duplicate(), old);
    assert_eq!(signature("x").duplicate(), signature("x"));
}

#[test]
fn amend_of_a_root_commit_stays_a_root_commit() {
    let old = CommitDescriptor { parents: Vec::new(), ..old_commit() };
    let commit = amend_to_head(&old, Some(id(5)), Some("again"));
    assert!(commit.parents.is_empty());
    assert_ne!(commit.tree, old.tree);
}

fn unstaged() -> StatusSnapshot {
    StatusSnapshot::new(vec![StatusEntry {
        path: "n.txt".to_string(),
        flags: StatusFlags::only(StatusFlag::WorktreeNew),
    }])
}

#[test]
fn nothing_staged_ends_the_run_without_a_commit() {
    for mode in [CommitMode::Commit { message: "m".to_string() }, CommitMode::Amend { message: None }] {
        let run = CommitRun::start(mode.clone(), false);
        assert_eq!(run.mode, mode);
        assert_eq!(run.action(), CommitAction::ReadStatus { query: StatusQuery::staged() });
        let run = run.advance(CommitEvent::Status(unstaged()));
        assert_eq!(run.action(), CommitAction::NothingToCommit);
        let run = run.advance(CommitEvent::Signature(signature("late")));
        assert_eq!(run.action(), CommitAction::NothingToCommit);
    }
}

#[test]
fn staged_changes_let_the_run_go_on() {
    let run = CommitRun::start(CommitMode::Amend { message: None }, false)
        .advance(CommitEvent::Status(staged()));
    assert_eq!(run.action(), CommitAction::ReadSignature);
}

#[test]
fn staging_comes_before_the_status() {
    let run = CommitRun::start(CommitMode::Commit { message: "m".to_string() }, true);
    assert_eq!(run.action(), CommitAction::StageAll { pathspecs: vec![".".to_string()] });
    let ignored = run.clone().advance(CommitEvent::Status(staged()));
    assert_eq!(ignored, run);
    let run = run.advance(CommitEvent::Staged);
    assert_eq!(run.action(), CommitAction::ReadStatus { query: StatusQuery::staged() });
}

#[test]
fn failed_staging_and_failed_status_are_fatal() {
    let fail = || CommitEvent::Failed("io".to_string());
    let mode = CommitMode::Commit { message: "m".to_string() };
    assert_eq!(
        CommitRun::start(mode.clone(), true).advance(fail()).action(),
        CommitAction::Failed(CommitError::Store { step: StoreStep::Stage, detail: "io".to_string() })
    );
    assert_eq!(
        CommitRun::start(mode, false).advance(fail()).action(),
        CommitAction::Failed(CommitError::Store {
            step: StoreStep::ReadStatus,
            detail: "io".to_string()
        })
    );
}

#[test]
fn commit_run_on_unborn_head_writes_a_root_commit() {
    let run = CommitRun::commit(&staged(), "Initial");
    assert_eq!(run.action(), CommitAction::ReadSignature);
    let run = run.advance(CommitEvent::Signature(signature("me")));
    assert_eq!(run.action(), CommitAction::WriteTree);
    let run = run.advance(CommitEvent::Tree(id(4)));
    assert_eq!(run.action(), CommitAction::ReadHead);
    let run = run.advance(CommitEvent::Head(Head::Unborn));
    assert_eq!(
        run.action(),
        CommitAction::WriteCommit {
            replaces: None,
            commit: CommitDescriptor {
                tree: id(4),
                parents: Vec::new(),
                author: signature("me"),
                committer: signature("me"),
                message: "Initial".to_string(),
            },
        }
    );
    let run = run.advance(CommitEvent::Written(id(10)));
    assert_eq!(run.action(), CommitAction::Committed(id(10)));
}

#[test]
fn commit_run_on_head_writes_a_child_of_head() {
    let run = CommitRun::commit(&staged(), "Second")
        .advance(CommitEvent::Signature(signature("me")))
        .advance(CommitEvent::Tree(id(4)))
        .advance(CommitEvent::Head(Head::Commit(id(10))));
    match run.action() {
        CommitAction::WriteCommit { replaces, commit } => {
            assert_eq!(replaces, None);
            assert_eq!(commit.parents, vec![id(10)]);
            assert_eq!(commit.tree, id(4));
            assert_eq!(commit.message, "Second");
        }
        other => panic!("unexpected action {:?}", other),
    }
}

#[test]
fn commit_without_signature_is_fatal() {
    let run = CommitRun::commit(&staged(), "m").advance(CommitEvent::Failed("not set".to_string()));
    assert_eq!(run.action(), CommitAction::Failed(CommitError::NoSignature));
    let run = CommitRun::amend(&staged(), None).advance(CommitEvent::Failed("not set".to_string()));
    assert_eq!(run.action(), CommitAction::Failed(CommitError::NoSignature));
}

#[test]
fn store_failures_end_the_run_with_their_step() {
    let store = |step: StoreStep| {
        CommitAction::Failed(CommitError::Store { step, detail: "io".to_string() })
    };
    let fail = || CommitEvent::Failed("io".to_string());
    let signed = CommitRun::commit(&staged(), "m").advance(CommitEvent::Signature(signature("me")));
    assert_eq!(signed.clone().advance(fail()).action(), store(StoreStep::WriteTree));
    let written = signed.advance(CommitEvent::Tree(id(4)));
    assert_eq!(written.clone().advance(fail()).action(), store(StoreStep::ReadHead));
    let ready = written.advance(CommitEvent::Head(Head::Unborn));
    assert_eq!(ready.advance(fail()).action(), store(StoreStep::WriteCommit));
    let amend = CommitRun::amend(&staged(), None)
        .advance(CommitEvent::Signature(signature("me")))
        .advance(CommitEvent::Tree(id(4)))
        .advance(CommitEvent::Head(Head::Commit(id(10))));
    assert_eq!(amend.advance(fail()).action(), store(StoreStep::ReadCommit));
}

#[test]
fn commit_with_head_elsewhere_is_fatal() {
    let run = CommitRun::commit(&staged(), "m")
        .advance(CommitEvent::Signature(signature("me")))
        .advance(CommitEvent::Tree(id(4)))
        .advance(CommitEvent::Head(Head::Other));
    assert_eq!(run.action(), CommitAction::Failed(CommitError::HeadNotACommit));
}

#[test]
fn amend_run_keeps_parents_and_signatures() {
    let run = CommitRun::amend(&staged(), None)
        .advance(CommitEvent::Signature(signature("me")))
        .advance(CommitEvent::Tree(id(4)))
        .advance(CommitEvent::Head(Head::Commit(id(10))));
    assert_eq!(run.action(), CommitAction::ReadCommit { id: id(10) });
    let run = run.advance(CommitEvent::Commit(old_commit()));
    assert_eq!(
        run.action(),
        CommitAction::WriteCommit {
            replaces: Some(id(10)),
            commit: CommitDescriptor { tree: id(4), ..old_commit() },
        }
    );
    let run = run.advance(CommitEvent::Written(id(11)));
    assert_eq!(run.action(), CommitAction::Committed(id(11)));
}

#[test]
fn amend_run_with_message_replaces_the_message() {
    let run = CommitRun::amend(&staged(), Some("Edited".to_string()))
        .advance(CommitEvent::Signature(signature("me")))
        .advance(CommitEvent::Tree(id(4)))
        .advance(CommitEvent::Head(Head::Commit(id(10))))
        .advance(CommitEvent::Commit(old_commit()));
    assert_eq!(
        run.action(),
        CommitAction::WriteCommit {
            replaces: Some(id(10)),
            commit: CommitDescriptor {
                tree: id(4),
                message: "Edited".to_string(),
                ..old_commit()
            },
        }
    );
}

#[test]
fn amend_on_unborn_head_is_fatal() {
    for head in [Head::Unborn, Head::Other] {
        let run = CommitRun::amend(&staged(), None)
            .advance(CommitEvent::Signature(signature("me")))
            .advance(CommitEvent::Tree(id(4)))
            .advance(CommitEvent::Head(head));
        assert_eq!(run.action(), CommitAction::Failed(CommitError::HeadNotACommit));
    }
}

#[test]
fn commit_run_ignores_events_that_answer_nothing() {
    let run = CommitRun::commit(&staged(), "m");
    let same = run
        .clone()
        .advance(CommitEvent::Tree(id(1)))
        .advance(CommitEvent::Head(Head::Unborn))
        .advance(CommitEvent::Written(id(2)))
        .advance(CommitEvent::Commit(old_commit()));
    assert_eq!(same, run);
}

#[test]
fn ended_commit_run_stays_as_it_is() {
    let done = CommitRun::commit(&staged(), "m")
        .advance(CommitEvent::Signature(signature("me")))
        .advance(CommitEvent::Tree(id(4)))
        .advance(CommitEvent::Head(Head::Unborn))
        .advance(CommitEvent::Written(id(10)));
    let again = done
        .clone()
        .advance(CommitEvent::Failed("late".to_string()))
        .advance(CommitEvent::Written(id(12)));
    assert_eq!(again, done);
}
