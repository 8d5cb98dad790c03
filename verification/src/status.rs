//! Status flags, status entries and the questions asked of a status snapshot.
//!
//! A snapshot is the list of `(path, flags)` pairs that a status enumeration
//! produced, in the order in which it produced them. The functions here answer
//! whether anything can be staged, whether the index differs from HEAD,
//! whether anything at all is outstanding, and which paths fall under a filter.

use vstd::prelude::*;
use crate::text::string_views;

verus! {

/// One way in which a path differs between HEAD, the index and the working tree.
#[derive(Clone, Copy, Debug, PartialEq, Eq, Structural)]
pub enum StatusFlag {
    IndexNew,
    IndexModified,
    IndexDeleted,
    IndexRenamed,
    IndexTypechange,
    WorktreeNew,
    WorktreeModified,
    WorktreeDeleted,
    Ignored,
}

/// Two flag sets overlap when some flag is in both.
pub open spec fn overlaps(a: Set<StatusFlag>, b: Set<StatusFlag>) -> bool {
    exists|flag: StatusFlag| a.contains(flag) && b.contains(flag)
}

/// The flags that say the index differs from HEAD.
pub open spec fn index_change_flags() -> Set<StatusFlag> {
    set![
        StatusFlag::IndexNew,
        StatusFlag::IndexModified,
        StatusFlag::IndexDeleted,
        StatusFlag::IndexRenamed,
        StatusFlag::IndexTypechange,
    ]
}

/// The flags that say the working tree holds something that can be staged:
/// an untracked path, or a tracked one that differs from the index.
pub open spec fn stageable_flags() -> Set<StatusFlag> {
    set![StatusFlag::WorktreeNew, StatusFlag::WorktreeModified, StatusFlag::WorktreeDeleted]
}

/// Every flag: tracked changes, untracked paths and ignored paths together.
pub open spec fn outstanding_flags() -> Set<StatusFlag> {
    Set::full()
}

/// A set of status flags.
#[derive(Clone, Copy, Debug, PartialEq, Eq, Structural)]
pub struct StatusFlags {
    index_new: bool,
    index_modified: bool,
    index_deleted: bool,
    index_renamed: bool,
    index_typechange: bool,
    worktree_new: bool,
    worktree_modified: bool,
    worktree_deleted: bool,
    ignored: bool,
}

impl StatusFlags {
    spec fn has(self, flag: StatusFlag) -> bool {
        match flag {
            StatusFlag::IndexNew => self.index_new,
            StatusFlag::IndexModified => self.index_modified,
            StatusFlag::IndexDeleted => self.index_deleted,
            StatusFlag::IndexRenamed => self.index_renamed,
            StatusFlag::IndexTypechange => self.index_typechange,
            StatusFlag::WorktreeNew => self.worktree_new,
            StatusFlag::WorktreeModified => self.worktree_modified,
            StatusFlag::WorktreeDeleted => self.worktree_deleted,
            StatusFlag::Ignored => self.ignored,
        }
    }
}

impl View for StatusFlags {
    type V = Set<StatusFlag>;

    closed spec fn view(&self) -> Set<StatusFlag> {
        Set::new(|flag: StatusFlag| self.has(flag))
    }
}

impl StatusFlags {
    /// The set without any flag.
    pub fn empty() -> (flags: StatusFlags)
        ensures
            flags@ == Set::<StatusFlag>::empty(),
    {
        let flags = StatusFlags {
            index_new: false,
            index_modified: false,
            index_deleted: false,
            index_renamed: false,
            index_typechange: false,
            worktree_new: false,
            worktree_modified: false,
            worktree_deleted: false,
            ignored: false,
        };
        assert(flags@ =~= Set::<StatusFlag>::empty());
        flags
    }

    /// The set that holds `flag` and nothing else.
    pub fn only(flag: StatusFlag) -> (flags: StatusFlags)
        ensures
            flags@ == set![flag],
    {
        let flags = StatusFlags::empty().with(flag);
        assert(flags@ =~= set![flag]);
        flags
    }

    /// This set with `flag` added.
    pub fn with(self, flag: StatusFlag) -> (flags: StatusFlags)
        ensures
            flags@ == self@.insert(flag),
    {
        let mut flags = self;
        match flag {
            StatusFlag::IndexNew => flags.index_new = true,
            StatusFlag::IndexModified => flags.index_modified = true,
            StatusFlag::IndexDeleted => flags.index_deleted = true,
            StatusFlag::IndexRenamed => flags.index_renamed = true,
            StatusFlag::IndexTypechange => flags.index_typechange = true,
            StatusFlag::WorktreeNew => flags.worktree_new = true,
            StatusFlag::WorktreeModified => flags.worktree_modified = true,
            StatusFlag::WorktreeDeleted => flags.worktree_deleted = true,
            StatusFlag::Ignored => flags.ignored = true,
        }
        assert(flags@ =~= self@.insert(flag));
        flags
    }

    /// The flags that are in this set or in `other`.
    pub fn union(self, other: StatusFlags) -> (flags: StatusFlags)
        ensures
            flags@ == self@.union(other@),
    {
        let flags = StatusFlags {
            index_new: self.index_new || other.index_new,
            index_modified: self.index_modified || other.index_modified,
            index_deleted: self.index_deleted || other.index_deleted,
            index_renamed: self.index_renamed || other.index_renamed,
            index_typechange: self.index_typechange || other.index_typechange,
            worktree_new: self.worktree_new || other.worktree_new,
            worktree_modified: self.worktree_modified || other.worktree_modified,
            worktree_deleted: self.worktree_deleted || other.worktree_deleted,
            ignored: self.ignored || other.ignored,
        };
        assert forall|flag: StatusFlag| flags.has(flag) == (self.has(flag) || other.has(flag)) by {}
        assert(flags@ =~= self@.union(other@));
        flags
    }

    /// Whether `flag` is in the set.
    pub fn contains(&self, flag: StatusFlag) -> (found: bool)
        ensures
            found == self@.contains(flag),
    {
        match flag {
            StatusFlag::IndexNew => self.index_new,
            StatusFlag::IndexModified => self.index_modified,
            StatusFlag::IndexDeleted => self.index_deleted,
            StatusFlag::IndexRenamed => self.index_renamed,
            StatusFlag::IndexTypechange => self.index_typechange,
            StatusFlag::WorktreeNew => self.worktree_new,
            StatusFlag::WorktreeModified => self.worktree_modified,
            StatusFlag::WorktreeDeleted => self.worktree_deleted,
            StatusFlag::Ignored => self.ignored,
        }
    }

    /// Whether the set holds no flag.
    pub fn is_empty(&self) -> (none: bool)
        ensures
            none == (self@ == Set::<StatusFlag>::empty()),
    {
        let none = !(self.index_new || self.index_modified || self.index_deleted
            || self.index_renamed || self.index_typechange || self.worktree_new
            || self.worktree_modified || self.worktree_deleted || self.ignored);
        proof {
            if none {
                assert(self@ =~= Set::<StatusFlag>::empty());
            } else {
                let witness = if self.index_new {
                    StatusFlag::IndexNew
                } else if self.index_modified {
                    StatusFlag::IndexModified
                } else if self.index_deleted {
                    StatusFlag::IndexDeleted
                } else if self.index_renamed {
                    StatusFlag::IndexRenamed
                } else if self.index_typechange {
                    StatusFlag::IndexTypechange
                } else if self.worktree_new {
                    StatusFlag::WorktreeNew
                } else if self.worktree_modified {
                    StatusFlag::WorktreeModified
                } else if self.worktree_deleted {
                    StatusFlag::WorktreeDeleted
                } else {
                    StatusFlag::Ignored
                };
                assert(self@.contains(witness));
            }
        }
        none
    }

    /// Whether some flag is both in this set and in `other`.
    pub fn intersects(&self, other: &StatusFlags) -> (common: bool)
        ensures
            common == overlaps(self@, other@),
    {
        let both = StatusFlags {
            index_new: self.index_new && other.index_new,
            index_modified: self.index_modified && other.index_modified,
            index_deleted: self.index_deleted && other.index_deleted,
            index_renamed: self.index_renamed && other.index_renamed,
            index_typechange: self.index_typechange && other.index_typechange,
            worktree_new: self.worktree_new && other.worktree_new,
            worktree_modified: self.worktree_modified && other.worktree_modified,
            worktree_deleted: self.worktree_deleted && other.worktree_deleted,
            ignored: self.ignored && other.ignored,
        };
        assert forall|flag: StatusFlag| both.has(flag) == (self.has(flag) && other.has(flag)) by {}
        assert(both@ =~= self@.intersect(other@));
        let common = !both.is_empty();
        proof {
            if common {
                assert(both@ !== Set::<StatusFlag>::empty());
                assert(exists|flag: StatusFlag| both@.contains(flag)) by {
                    if forall|flag: StatusFlag| !both@.contains(flag) {
                        assert(both@ =~= Set::<StatusFlag>::empty());
                    }
                }
                let flag = choose|flag: StatusFlag| both@.contains(flag);
                assert(self@.contains(flag) && other@.contains(flag));
            } else {
                assert forall|flag: StatusFlag| !(self@.contains(flag) && other@.contains(
                    flag,
                )) by {
                    assert(!both@.contains(flag));
                }
            }
        }
        common
    }

    /// The flags that say the index differs from HEAD.
    pub fn index_changes() -> (flags: StatusFlags)
        ensures
            flags@ == index_change_flags(),
    {
        let flags = StatusFlags {
            index_new: true,
            index_modified: true,
            index_deleted: true,
            index_renamed: true,
            index_typechange: true,
            worktree_new: false,
            worktree_modified: false,
            worktree_deleted: false,
            ignored: false,
        };
        assert(flags@ =~= index_change_flags());
        flags
    }

    /// The flags of what can be staged: untracked paths and tracked paths
    /// that differ from the index. Ignored paths are not among them.
    pub fn stageable() -> (flags: StatusFlags)
        ensures
            flags@ == stageable_flags(),
    {
        let flags = StatusFlags {
            index_new: false,
            index_modified: false,
            index_deleted: false,
            index_renamed: false,
            index_typechange: false,
            worktree_new: true,
            worktree_modified: true,
            worktree_deleted: true,
            ignored: false,
        };
        assert(flags@ =~= stageable_flags());
        flags
    }

    /// Every flag.
    pub fn all() -> (flags: StatusFlags)
        ensures
            flags@ == outstanding_flags(),
    {
        let flags = StatusFlags {
            index_new: true,
            index_modified: true,
            index_deleted: true,
            index_renamed: true,
            index_typechange: true,
            worktree_new: true,
            worktree_modified: true,
            worktree_deleted: true,
            ignored: true,
        };
        assert(flags@ =~= outstanding_flags());
        flags
    }
}

/// One path of a status snapshot with the flags that the enumeration gave it.
#[derive(Clone, Debug, PartialEq, Eq)]
pub struct StatusEntry {
    /// The path, relative to the root of the working tree.
    pub path: String,
    /// How the path differs between HEAD, the index and the working tree.
    pub flags: StatusFlags,
}

/// What a status entry stands for: a path and a set of flags.
pub struct StatusEntryView {
    pub path: Seq<char>,
    pub flags: Set<StatusFlag>,
}

impl View for StatusEntry {
    type V = StatusEntryView;

    open spec fn view(&self) -> StatusEntryView {
        StatusEntryView { path: self.path@, flags: self.flags@ }
    }
}

/// The test that an entry falls under `filter`: its flags overlap the filter.
pub open spec fn falls_under(filter: Set<StatusFlag>) -> spec_fn(StatusEntryView) -> bool {
    |entry: StatusEntryView| overlaps(entry.flags, filter)
}

/// The path of an entry.
pub open spec fn path_of() -> spec_fn(StatusEntryView) -> Seq<char> {
    |entry: StatusEntryView| entry.path
}

/// Whether some entry falls under `filter`.
pub open spec fn any_under(entries: Seq<StatusEntryView>, filter: Set<StatusFlag>) -> bool {
    exists|i: int| 0 <= i < entries.len() && overlaps(#[trigger] entries[i].flags, filter)
}

/// The paths of the entries that fall under `filter`, in the order of the entries.
pub open spec fn paths_under(entries: Seq<StatusEntryView>, filter: Set<StatusFlag>) -> Seq<
    Seq<char>,
> {
    entries.filter(falls_under(filter)).map_values(path_of())
}

/// What a list of entries stands for, entry by entry.
pub open spec fn entry_views(entries: Seq<StatusEntry>) -> Seq<StatusEntryView> {
    entries.map_values(|entry: StatusEntry| entry@)
}

/// The entries of a status enumeration, in the order in which it produced them.
#[derive(Clone, Debug, PartialEq, Eq)]
pub struct StatusSnapshot {
    pub entries: Vec<StatusEntry>,
}

impl View for StatusSnapshot {
    type V = Seq<StatusEntryView>;

    open spec fn view(&self) -> Seq<StatusEntryView> {
        entry_views(self.entries@)
    }
}

impl StatusSnapshot {
    /// A snapshot of the given entries.
    pub fn new(entries: Vec<StatusEntry>) -> (snapshot: StatusSnapshot)
        ensures
            snapshot.entries == entries,
    {
        StatusSnapshot { entries }
    }

    /// Whether some entry falls under `filter`.
    pub fn any(&self, filter: &StatusFlags) -> (found: bool)
        ensures
            found == any_under(self@, filter@),
    {
        let mut i: usize = 0;
        while i < self.entries.len()
            invariant
                i <= self.entries.len(),
                forall|k: int| 0 <= k < i ==> !overlaps(#[trigger] self@[k].flags, filter@),
            decreases self.entries.len() - i,
        {
            if self.entries[i].flags.intersects(filter) {
                assert(overlaps(self@[i as int].flags, filter@));
                return true;
            }
            i += 1;
        }
        false
    }

    /// Whether the index differs from HEAD, so that there is something to
    /// commit or to amend.
    pub fn is_to_commit(&self) -> (changed: bool)
        ensures
            changed == any_under(self@, index_change_flags()),
    {
        self.any(&StatusFlags::index_changes())
    }

    /// Whether the working tree holds anything that can be staged: an
    /// untracked path or a tracked path that differs from the index.
    pub fn has_stageable_changes(&self) -> (stageable: bool)
        ensures
            stageable == any_under(self@, stageable_flags()),
    {
        self.any(&StatusFlags::stageable())
    }

    /// Whether anything is outstanding: a tracked change, an untracked path
    /// or an ignored path.
    pub fn is_dirty(&self) -> (dirty: bool)
        ensures
            dirty == any_under(self@, outstanding_flags()),
    {
        self.any(&StatusFlags::all())
    }

    /// The paths whose flags overlap `filter`, in the order of the snapshot.
    pub fn select_paths(&self, filter: &StatusFlags) -> (paths: Vec<String>)
        ensures
            string_views(paths@) == paths_under(self@, filter@),
    {
        let mut paths: Vec<String> = Vec::new();
        let mut i: usize = 0;
        assert(self@.take(0) =~= Seq::empty());
        assert(string_views(paths@) =~= paths_under(self@.take(0), filter@)) by {
            reveal(Seq::filter);
        }
        while i < self.entries.len()
            invariant
                i <= self.entries.len(),
                string_views(paths@) == paths_under(self@.take(i as int), filter@),
            decreases self.entries.len() - i,
        {
            let ghost before = string_views(paths@);
            proof {
                assert(self@.take(i + 1) =~= self@.take(i as int).push(self@[i as int]));
                self@.take(i as int).lemma_filter_push(self@[i as int], falls_under(filter@));
            }
            if self.entries[i].flags.intersects(filter) {
                paths.push(self.entries[i].path.clone());
                assert(string_views(paths@) =~= before.push(self@[i as int].path));
                assert(paths_under(self@.take(i + 1), filter@) =~= paths_under(
                    self@.take(i as int),
                    filter@,
                ).push(self@[i as int].path));
            }
            i += 1;
        }
        assert(self@.take(i as int) =~= self@);
        paths
    }
}

/// The paths of a snapshot that fall under a filter, handed out one at a
/// time in the order of the snapshot. A path that was handed out is gone:
/// the selection cannot be started again.
pub struct PathSelection {
    entries: Vec<StatusEntry>,
    filter: StatusFlags,
    position: usize,
}

impl PathSelection {
    #[verifier::type_invariant]
    spec fn well_formed(self) -> bool {
        self.position <= self.entries.len()
    }

    /// The paths that are still to be handed out.
    pub closed spec fn remaining(self) -> Seq<Seq<char>> {
        paths_under(
            entry_views(self.entries@).skip(self.position as int),
            self.filter@,
        )
    }

    /// Hands out the next path, or `None` when no path is left.
    pub fn next_path(&mut self) -> (path: Option<String>)
        ensures
            match path {
                Some(p) => old(self).remaining().len() > 0 && p@ == old(self).remaining()[0]
                    && final(self).remaining() == old(self).remaining().drop_first(),
                None => old(self).remaining().len() == 0 && final(self).remaining().len() == 0,
            },
    {
        proof {
            use_type_invariant(&*self);
        }
        let ghost all = entry_views(self.entries@);
        let ghost start = self.position as int;
        let ghost pred = falls_under(self.filter@);
        let mut i: usize = self.position;
        while i < self.entries.len()
            invariant
                start <= i <= self.entries.len(),
                all == entry_views(self.entries@),
                pred == falls_under(self.filter@),
                old(self).remaining() == all.skip(start).filter(pred).map_values(path_of()),
                all.skip(start).filter(pred) == all.skip(i as int).filter(pred),
            decreases self.entries.len() - i,
        {
            proof {
                let head = seq![all[i as int]];
                assert(all.skip(i as int) =~= head + all.skip(i + 1));
                Seq::filter_distributes_over_add(head, all.skip(i + 1), pred);
                assert(head =~= Seq::<StatusEntryView>::empty().push(all[i as int]));
                Seq::<StatusEntryView>::empty().lemma_filter_push(all[i as int], pred);
                assert(Seq::<StatusEntryView>::empty().filter(pred) =~= Seq::empty()) by {
                    reveal(Seq::filter);
                }
            }
            if self.entries[i].flags.intersects(&self.filter) {
                let path = self.entries[i].path.clone();
                self.position = i + 1;
                proof {
                    let rest = all.skip(i + 1).filter(pred);
                    assert(all.skip(start).filter(pred) =~= seq![all[i as int]] + rest);
                    let kept = all.skip(start).filter(pred);
                    assert(old(self).remaining() == kept.map_values(path_of()));
                    assert(kept.len() == rest.len() + 1);
                    assert(kept[0] == all[i as int]);
                    assert(self.remaining() == rest.map_values(path_of()));
                    assert(forall|k: int| 0 <= k < rest.len() ==> kept[k + 1] == rest[k]);
                    assert(self.remaining() =~= old(self).remaining().drop_first());
                    assert(old(self).remaining()[0] == all[i as int].path);
                }
                return Some(path);
            }
            i += 1;
        }
        self.position = i;
        proof {
            assert(all.skip(i as int) =~= Seq::empty());
            assert(all.skip(i as int).filter(pred) =~= Seq::empty()) by {
                reveal(Seq::filter);
            }
        }
        None
    }
}

impl StatusSnapshot {
    /// The paths whose flags overlap `filter`, to be taken one at a time.
    pub fn into_selection(self, filter: StatusFlags) -> (selection: PathSelection)
        ensures
            selection.remaining() == paths_under(self@, filter@),
    {
        let selection = PathSelection { entries: self.entries, filter, position: 0 };
        assert(self@.skip(0) =~= self@);
        selection
    }
}

/// Every selected path belongs to an entry that falls under the filter: an
/// entry whose flags do not overlap the filter is never handed out.
pub proof fn law_selected_paths_fall_under(
    entries: Seq<StatusEntryView>,
    filter: Set<StatusFlag>,
    i: int,
)
    requires
        0 <= i < paths_under(entries, filter).len(),
    ensures
        exists|k: int|
            0 <= k < entries.len() && #[trigger] entries[k].path == paths_under(entries, filter)[i]
                && overlaps(entries[k].flags, filter),
{
    let kept = entries.filter(falls_under(filter));
    entries.lemma_filter_pred(falls_under(filter), i);
    assert(kept.contains(kept[i]));
    entries.lemma_filter_contains_rev(falls_under(filter), kept[i]);
    let k = choose|k: int| 0 <= k < entries.len() && entries[k] == kept[i];
    assert(entries[k].path == paths_under(entries, filter)[i]);
}

/// Some entry falls under a filter exactly when the selection under that
/// filter is not empty.
pub proof fn law_any_iff_selection_not_empty(
    entries: Seq<StatusEntryView>,
    filter: Set<StatusFlag>,
)
    ensures
        any_under(entries, filter) <==> paths_under(entries, filter).len() > 0,
{
    let kept = entries.filter(falls_under(filter));
    if any_under(entries, filter) {
        let i = choose|i: int| 0 <= i < entries.len() && overlaps(entries[i].flags, filter);
        entries.lemma_filter_contains(falls_under(filter), i);
    }
    if kept.len() > 0 {
        entries.lemma_filter_pred(falls_under(filter), 0);
        assert(kept.contains(kept[0]));
        entries.lemma_filter_contains_rev(falls_under(filter), kept[0]);
        let k = choose|k: int| 0 <= k < entries.len() && entries[k] == kept[0];
        assert(overlaps(entries[k].flags, filter));
    }
}

/// Where the enumeration under every flag hands out nothing, nothing can be
/// staged and the repository is not dirty.
pub proof fn law_nothing_outstanding(entries: Seq<StatusEntryView>)
    requires
        paths_under(entries, outstanding_flags()).len() == 0,
    ensures
        !any_under(entries, stageable_flags()),
        !any_under(entries, outstanding_flags()),
{
    law_any_iff_selection_not_empty(entries, outstanding_flags());
    if any_under(entries, stageable_flags()) {
        let i = choose|i: int|
            0 <= i < entries.len() && overlaps(entries[i].flags, stageable_flags());
        let flag = choose|flag: StatusFlag|
            entries[i].flags.contains(flag) && stageable_flags().contains(flag);
        assert(entries[i].flags.contains(flag) && outstanding_flags().contains(flag));
        assert(overlaps(entries[i].flags, outstanding_flags()));
    }
}

/// An untracked path that enters the snapshot, at whatever place, makes the
/// snapshot stageable and dirty, and is among the paths selected under the
/// untracked flag alone.
pub proof fn law_untracked_path_shows(
    entries: Seq<StatusEntryView>,
    at: int,
    entry: StatusEntryView,
)
    requires
        0 <= at <= entries.len(),
        entry.flags.contains(StatusFlag::WorktreeNew),
    ensures
        any_under(entries.insert(at, entry), stageable_flags()),
        any_under(entries.insert(at, entry), outstanding_flags()),
        paths_under(entries.insert(at, entry), set![StatusFlag::WorktreeNew]).contains(
            entry.path,
        ),
{
    let grown = entries.insert(at, entry);
    let untracked = set![StatusFlag::WorktreeNew];
    assert(grown[at] == entry);
    assert(entry.flags.contains(StatusFlag::WorktreeNew) && stageable_flags().contains(
        StatusFlag::WorktreeNew,
    ));
    assert(overlaps(grown[at].flags, stageable_flags()));
    assert(entry.flags.contains(StatusFlag::WorktreeNew) && outstanding_flags().contains(
        StatusFlag::WorktreeNew,
    ));
    assert(overlaps(grown[at].flags, outstanding_flags()));
    assert(entry.flags.contains(StatusFlag::WorktreeNew) && untracked.contains(
        StatusFlag::WorktreeNew,
    ));
    assert(overlaps(grown[at].flags, untracked));
    grown.lemma_filter_contains(falls_under(untracked), at);
    let kept = grown.filter(falls_under(untracked));
    let j = choose|j: int| 0 <= j < kept.len() && kept[j] == entry;
    assert(paths_under(grown, untracked)[j] == entry.path);
}

/// A path that is staged, at whatever place of the snapshot, makes the
/// index differ from HEAD.
pub proof fn law_staged_path_is_to_commit(
    entries: Seq<StatusEntryView>,
    at: int,
    entry: StatusEntryView,
)
    requires
        0 <= at <= entries.len(),
        overlaps(entry.flags, index_change_flags()),
    ensures
        any_under(entries.insert(at, entry), index_change_flags()),
{
    assert(entries.insert(at, entry)[at] == entry);
}

/// Where no entry carries a flag of the index, there is nothing to commit.
pub proof fn law_nothing_staged(entries: Seq<StatusEntryView>)
    requires
        forall|i: int|
            0 <= i < entries.len() ==> (#[trigger] entries[i]).flags.disjoint(
                index_change_flags(),
            ),
    ensures
        !any_under(entries, index_change_flags()),
{
    if any_under(entries, index_change_flags()) {
        let i = choose|i: int|
            0 <= i < entries.len() && overlaps(entries[i].flags, index_change_flags());
        assert(entries[i].flags.disjoint(index_change_flags()));
    }
}

/// What a status enumeration is to include besides the paths that differ.
#[derive(Clone, Copy, Debug, PartialEq, Eq, Structural)]
pub struct StatusQuery {
    pub include_untracked: bool,
    pub include_ignored: bool,
    pub include_unmodified: bool,
}

/// The enumeration that tells whether there is something to commit:
/// tracked paths only.
pub open spec fn staged_query() -> StatusQuery {
    StatusQuery { include_untracked: false, include_ignored: false, include_unmodified: false }
}

/// The enumeration that tells whether the repository is dirty and what a
/// clean removes: untracked and ignored paths too, unmodified ones not.
pub open spec fn outstanding_query() -> StatusQuery {
    StatusQuery { include_untracked: true, include_ignored: true, include_unmodified: false }
}

impl StatusQuery {
    /// The enumeration that tells whether there is something to commit:
    /// tracked paths only.
    pub fn staged() -> (query: StatusQuery)
        ensures
            query == staged_query(),
    {
        StatusQuery { include_untracked: false, include_ignored: false, include_unmodified: false }
    }

    /// The enumeration that tells whether the repository is dirty and what a
    /// clean removes: untracked and ignored paths too, unmodified ones not.
    pub fn outstanding() -> (query: StatusQuery)
        ensures
            query == outstanding_query(),
    {
        StatusQuery { include_untracked: true, include_ignored: true, include_unmodified: false }
    }
}

} // verus!
