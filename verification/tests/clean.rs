use lazy_git_ext::clean::{clean_filter, Clean, CleanAction, CleanEvent, CleanSummary, PathKind};
use lazy_git_ext::status::{StatusEntry, StatusFlag, StatusFlags, StatusSnapshot};

fn entry(path: &str, flag: StatusFlag) -> StatusEntry {
    StatusEntry { path: path.to_string(), flags: StatusFlags::only(flag) }
}

fn working_tree() -> StatusSnapshot {
    StatusSnapshot::new(vec![
        entry("a.txt", StatusFlag::WorktreeNew),
        entry("b.log", StatusFlag::Ignored),
    ])
}

/// A working tree as a list of paths with their kinds, and the paths whose
/// removal is made to fail.
struct Disk {
    present: Vec<(String, PathKind)>,
    stuck: Vec<String>,
    told: Vec<String>,
}

impl Disk {
    fn with(paths: &[(&str, PathKind)]) -> Disk {
        Disk {
            present: paths.iter().map(|(path, kind)| (path.to_string(), *kind)).collect(),
            stuck: Vec::new(),
            told: Vec::new(),
        }
    }

    fn holds(&self, path: &str) -> bool {
        self.present.iter().any(|(present, _)| present == path)
    }

    fn drive(&mut self, mut run: Clean) -> CleanSummary {
        let mut steps = 0;
        loop {
            steps += 1;
            assert!(steps < 1000);
            let event = match run.action() {
                CleanAction::Announce { path } => {
                    self.told.push(format!("Removing '{}'", path));
                    CleanEvent::Told
                }
                CleanAction::Inspect { path } => {
                    let kind = self.present.iter().find(|(present, _)| *present == path).unwrap().1;
                    CleanEvent::Kind(kind)
                }
                CleanAction::RemoveFile { path } | CleanAction::RemoveDirectory { path } => {
                    if self.stuck.contains(&path) {
                        CleanEvent::RemoveFailed("permission denied".to_string())
                    } else {
                        self.present.retain(|(present, _)| *present != path);
                        CleanEvent::Removed
                    }
                }
                CleanAction::ReportFailure { path, error } => {
                    self.told.push(format!("Cannot remove '{}'. Error: '{}'", path, error));
                    CleanEvent::Told
                }
                CleanAction::Finish(summary) => return summary,
            };
            run.advance(event);
        }
    }
}

#[test]
fn clean_filter_is_untracked_and_ignored_on_demand() {
    let plain = clean_filter(false);
    assert_eq!(plain, StatusFlags::only(StatusFlag::WorktreeNew));
    let wide = clean_filter(true);
    assert_eq!(wide, StatusFlags::only(StatusFlag::WorktreeNew).with(StatusFlag::Ignored));
}

#[test]
fn clean_removes_untracked_and_leaves_ignored() {
    let mut disk = Disk::with(&[("a.txt", PathKind::File), ("b.log", PathKind::File)]);
    let summary = disk.drive(Clean::clean(&working_tree(), false, false));
    assert!(!disk.holds("a.txt"));
    assert!(disk.holds("b.log"));
    assert_eq!(summary, CleanSummary { removed: 1, failed: 0 });
    assert!(summary.succeeded());
    assert!(disk.told.is_empty());
}

#[test]
fn clean_with_ignored_removes_both() {
    let mut disk = Disk::with(&[("a.txt", PathKind::File), ("b.log", PathKind::File)]);
    let summary = disk.drive(Clean::clean(&working_tree(), true, false));
    assert!(!disk.holds("a.txt"));
    assert!(!disk.holds("b.log"));
    assert_eq!(summary, CleanSummary { removed: 2, failed: 0 });
}

#[test]
fn clean_of_nothing_finishes_at_once() {
    let snapshot = StatusSnapshot::new(vec![entry("m.txt", StatusFlag::WorktreeModified)]);
    let run = Clean::clean(&snapshot, true, true);
    assert_eq!(run.action(), CleanAction::Finish(CleanSummary { removed: 0, failed: 0 }));
}

#[test]
fn clean_asks_in_order_without_announcing() {
    let mut run = Clean::clean(&working_tree(), true, false);
    assert_eq!(run.action(), CleanAction::Inspect { path: "a.txt".to_string() });
    run.advance(CleanEvent::Kind(PathKind::File));
    assert_eq!(run.action(), CleanAction::RemoveFile { path: "a.txt".to_string() });
    run.advance(CleanEvent::Removed);
    assert_eq!(run.action(), CleanAction::Inspect { path: "b.log".to_string() });
    run.advance(CleanEvent::Kind(PathKind::Directory));
    assert_eq!(run.action(), CleanAction::RemoveDirectory { path: "b.log".to_string() });
    run.advance(CleanEvent::Removed);
    assert_eq!(run.action(), CleanAction::Finish(CleanSummary { removed: 2, failed: 0 }));
}

#[test]
fn verbose_clean_announces_before_it_removes() {
    let mut run = Clean::clean(&working_tree(), false, true);
    assert_eq!(run.action(), CleanAction::Announce { path: "a.txt".to_string() });
    run.advance(CleanEvent::Told);
    assert_eq!(run.action(), CleanAction::Inspect { path: "a.txt".to_string() });
    run.advance(CleanEvent::Kind(PathKind::File));
    assert_eq!(run.action(), CleanAction::RemoveFile { path: "a.txt".to_string() });
    run.advance(CleanEvent::Removed);
    assert_eq!(run.action(), CleanAction::Finish(CleanSummary { removed: 1, failed: 0 }));
}

#[test]
fn verbose_clean_reports_every_removal() {
    let mut disk = Disk::with(&[("a.txt", PathKind::File), ("b.log", PathKind::Directory)]);
    disk.drive(Clean::clean(&working_tree(), true, true));
    assert_eq!(disk.told, vec!["Removing 'a.txt'".to_string(), "Removing 'b.log'".to_string()]);
}

#[test]
fn failed_removal_is_reported_and_the_rest_goes_on() {
    let mut disk = Disk::with(&[("a.txt", PathKind::File), ("b.log", PathKind::File)]);
    disk.stuck.push("a.txt".to_string());
    let summary = disk.drive(Clean::clean(&working_tree(), true, false));
    assert!(disk.holds("a.txt"));
    assert!(!disk.holds("b.log"));
    assert_eq!(summary, CleanSummary { removed: 1, failed: 1 });
    assert!(!summary.succeeded());
    assert_eq!(disk.told, vec!["Cannot remove 'a.txt'. Error: 'permission denied'".to_string()]);
}

#[test]
fn failure_report_carries_path_and_error() {
    let mut run = Clean::clean(&working_tree(), false, false);
    run.advance(CleanEvent::Kind(PathKind::Directory));
    run.advance(CleanEvent::RemoveFailed("busy".to_string()));
    assert_eq!(
        run.action(),
        CleanAction::ReportFailure { path: "a.txt".to_string(), error: "busy".to_string() }
    );
    run.advance(CleanEvent::Told);
    assert_eq!(run.action(), CleanAction::Finish(CleanSummary { removed: 0, failed: 1 }));
}

#[test]
fn event_that_answers_nothing_is_ignored() {
    let mut run = Clean::clean(&working_tree(), false, false);
    run.advance(CleanEvent::Removed);
    run.advance(CleanEvent::Told);
    run.advance(CleanEvent::RemoveFailed("x".to_string()));
    assert_eq!(run.action(), CleanAction::Inspect { path: "a.txt".to_string() });
    run.advance(CleanEvent::Kind(PathKind::File));
    run.advance(CleanEvent::Kind(PathKind::Directory));
    run.advance(CleanEvent::Told);
    assert_eq!(run.action(), CleanAction::RemoveFile { path: "a.txt".to_string() });
}

#[test]
fn finished_clean_stays_finished() {
    let mut run = Clean::clean(&StatusSnapshot::new(Vec::new()), false, true);
    let done = CleanAction::Finish(CleanSummary { removed: 0, failed: 0 });
    assert_eq!(run.action(), done);
    run.advance(CleanEvent::Removed);
    run.advance(CleanEvent::Told);
    assert_eq!(run.action(), done);
}
