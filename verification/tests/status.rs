use lazy_git_ext::status::{
    StatusEntry, StatusFlag, StatusFlags, StatusQuery, StatusSnapshot,
};

fn entry(path: &str, flags: StatusFlags) -> StatusEntry {
    StatusEntry { path: path.to_string(), flags }
}

const EVERY_FLAG: [StatusFlag; 9] = [
    StatusFlag::IndexNew,
    StatusFlag::IndexModified,
    StatusFlag::IndexDeleted,
    StatusFlag::IndexRenamed,
    StatusFlag::IndexTypechange,
    StatusFlag::WorktreeNew,
    StatusFlag::WorktreeModified,
    StatusFlag::WorktreeDeleted,
    StatusFlag::Ignored,
];

#[test]
fn empty_flag_set_holds_nothing() {
    let flags = StatusFlags::empty();
    assert!(flags.is_empty());
    for flag in EVERY_FLAG {
        assert!(!flags.contains(flag));
    }
}

#[test]
fn only_holds_exactly_one_flag() {
    for flag in EVERY_FLAG {
        let flags = StatusFlags::only(flag);
        assert!(!flags.is_empty());
        for other in EVERY_FLAG {
            assert_eq!(flags.contains(other), other == flag);
        }
    }
}

#[test]
fn with_adds_a_flag_and_keeps_the_others() {
    let flags = StatusFlags::only(StatusFlag::IndexNew).with(StatusFlag::Ignored);
    assert!(flags.contains(StatusFlag::IndexNew));
    assert!(flags.contains(StatusFlag::Ignored));
    assert!(!flags.contains(StatusFlag::WorktreeNew));
    assert_eq!(flags.with(StatusFlag::Ignored), flags);
}

#[test]
fn union_holds_the_flags_of_both() {
    let left = StatusFlags::only(StatusFlag::IndexDeleted);
    let right = StatusFlags::only(StatusFlag::WorktreeModified).with(StatusFlag::IndexRenamed);
    let both = left.union(right);
    for flag in EVERY_FLAG {
        assert_eq!(both.contains(flag), left.contains(flag) || right.contains(flag));
    }
}

#[test]
fn intersects_needs_a_common_flag() {
    let index = StatusFlags::index_changes();
    assert!(index.intersects(&StatusFlags::only(StatusFlag::IndexTypechange)));
    assert!(!index.intersects(&StatusFlags::only(StatusFlag::WorktreeNew)));
    assert!(!index.intersects(&StatusFlags::empty()));
    assert!(!StatusFlags::empty().intersects(&StatusFlags::all()));
    assert!(StatusFlags::all().intersects(&StatusFlags::only(StatusFlag::Ignored)));
}

#[test]
fn named_filters_hold_their_flags() {
    let index = StatusFlags::index_changes();
    let stageable = StatusFlags::stageable();
    let all = StatusFlags::all();
    let index_flags = [
        StatusFlag::IndexNew,
        StatusFlag::IndexModified,
        StatusFlag::IndexDeleted,
        StatusFlag::IndexRenamed,
        StatusFlag::IndexTypechange,
    ];
    let stageable_flags = [
        StatusFlag::WorktreeNew,
        StatusFlag::WorktreeModified,
        StatusFlag::WorktreeDeleted,
    ];
    for flag in EVERY_FLAG {
        assert_eq!(index.contains(flag), index_flags.contains(&flag));
        assert_eq!(stageable.contains(flag), stageable_flags.contains(&flag));
        assert!(all.contains(flag));
    }
}

#[test]
fn empty_snapshot_is_clean() {
    let snapshot = StatusSnapshot::new(Vec::new());
    assert!(!snapshot.has_stageable_changes());
    assert!(!snapshot.is_dirty());
    assert!(!snapshot.is_to_commit());
    assert!(snapshot.select_paths(&StatusFlags::all()).is_empty());
}

#[test]
fn entry_without_flags_is_not_outstanding() {
    let snapshot = StatusSnapshot::new(vec![entry("same.txt", StatusFlags::empty())]);
    assert!(!snapshot.has_stageable_changes());
    assert!(!snapshot.is_dirty());
    assert!(!snapshot.is_to_commit());
    assert!(snapshot.select_paths(&StatusFlags::all()).is_empty());
}

#[test]
fn untracked_file_makes_snapshot_stageable_and_dirty() {
    let snapshot =
        StatusSnapshot::new(vec![entry("a.txt", StatusFlags::only(StatusFlag::WorktreeNew))]);
    assert!(snapshot.has_stageable_changes());
    assert!(snapshot.is_dirty());
    assert!(!snapshot.is_to_commit());
    assert_eq!(
        snapshot.select_paths(&StatusFlags::only(StatusFlag::WorktreeNew)),
        vec!["a.txt".to_string()]
    );
}

#[test]
fn ignored_file_is_dirty_but_not_stageable() {
    let snapshot =
        StatusSnapshot::new(vec![entry("b.log", StatusFlags::only(StatusFlag::Ignored))]);
    assert!(!snapshot.has_stageable_changes());
    assert!(snapshot.is_dirty());
    assert!(!snapshot.is_to_commit());
}

#[test]
fn staged_modification_is_to_commit() {
    for flag in [
        StatusFlag::IndexNew,
        StatusFlag::IndexModified,
        StatusFlag::IndexDeleted,
        StatusFlag::IndexRenamed,
        StatusFlag::IndexTypechange,
    ] {
        let snapshot = StatusSnapshot::new(vec![
            entry("other.txt", StatusFlags::only(StatusFlag::WorktreeModified)),
            entry("staged.txt", StatusFlags::only(flag)),
        ]);
        assert!(snapshot.is_to_commit());
        assert!(snapshot.is_dirty());
    }
}

#[test]
fn worktree_changes_alone_are_not_to_commit() {
    let snapshot = StatusSnapshot::new(vec![
        entry("m.txt", StatusFlags::only(StatusFlag::WorktreeModified)),
        entry("d.txt", StatusFlags::only(StatusFlag::WorktreeDeleted)),
        entry("n.txt", StatusFlags::only(StatusFlag::WorktreeNew)),
        entry("i.txt", StatusFlags::only(StatusFlag::Ignored)),
    ]);
    assert!(!snapshot.is_to_commit());
    assert!(snapshot.has_stageable_changes());
}

#[test]
fn select_paths_untracked_only_skips_ignored() {
    let snapshot = StatusSnapshot::new(vec![
        entry("a.txt", StatusFlags::only(StatusFlag::WorktreeNew)),
        entry("b.log", StatusFlags::only(StatusFlag::Ignored)),
    ]);
    assert_eq!(
        snapshot.select_paths(&StatusFlags::only(StatusFlag::WorktreeNew)),
        vec!["a.txt".to_string()]
    );
    let both = StatusFlags::only(StatusFlag::WorktreeNew).with(StatusFlag::Ignored);
    assert_eq!(
        snapshot.select_paths(&both),
        vec!["a.txt".to_string(), "b.log".to_string()]
    );
}

#[test]
fn select_paths_keeps_the_order_of_the_snapshot() {
    let snapshot = StatusSnapshot::new(vec![
        entry("z", StatusFlags::only(StatusFlag::WorktreeNew)),
        entry("skip", StatusFlags::only(StatusFlag::IndexNew)),
        entry("a", StatusFlags::only(StatusFlag::WorktreeNew).with(StatusFlag::IndexModified)),
        entry("m", StatusFlags::only(StatusFlag::WorktreeNew)),
    ]);
    assert_eq!(
        snapshot.select_paths(&StatusFlags::only(StatusFlag::WorktreeNew)),
        vec!["z".to_string(), "a".to_string(), "m".to_string()]
    );
    assert_eq!(
        snapshot.select_paths(&StatusFlags::index_changes()),
        vec!["skip".to_string(), "a".to_string()]
    );
    assert!(snapshot.select_paths(&StatusFlags::empty()).is_empty());
}

#[test]
fn any_agrees_with_a_non_empty_selection() {
    let snapshot = StatusSnapshot::new(vec![
        entry("a", StatusFlags::only(StatusFlag::WorktreeDeleted)),
        entry("b", StatusFlags::only(StatusFlag::IndexRenamed)),
    ]);
    for flag in EVERY_FLAG {
        let filter = StatusFlags::only(flag);
        assert_eq!(snapshot.any(&filter), !snapshot.select_paths(&filter).is_empty());
    }
}

#[test]
fn selection_hands_out_each_path_once() {
    let snapshot = StatusSnapshot::new(vec![
        entry("one", StatusFlags::only(StatusFlag::WorktreeNew)),
        entry("two", StatusFlags::only(StatusFlag::Ignored)),
        entry("three", StatusFlags::only(StatusFlag::WorktreeNew)),
    ]);
    let mut selection = snapshot.into_selection(StatusFlags::only(StatusFlag::WorktreeNew));
    assert_eq!(selection.next_path(), Some("one".to_string()));
    assert_eq!(selection.next_path(), Some("three".to_string()));
    assert_eq!(selection.next_path(), None);
    assert_eq!(selection.next_path(), None);
}

#[test]
fn selection_of_nothing_is_empty_at_once() {
    let snapshot = StatusSnapshot::new(vec![entry("x", StatusFlags::only(StatusFlag::Ignored))]);
    let mut selection = snapshot.into_selection(StatusFlags::stageable());
    assert_eq!(selection.next_path(), None);
}

#[test]
fn status_queries_include_what_they_should() {
    let staged = StatusQuery::staged();
    assert!(!staged.include_untracked);
    assert!(!staged.include_ignored);
    assert!(!staged.include_unmodified);
    let outstanding = StatusQuery::outstanding();
    assert!(outstanding.include_untracked);
    assert!(outstanding.include_ignored);
    assert!(!outstanding.include_unmodified);
}
