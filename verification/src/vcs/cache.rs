//! The statuses of a scan, one for each path.
use crate::paths::{components, PathParts};
use crate::vcs::git::GitService;
use crate::vcs::status::{classified, severity, worse, GitFileStatus};
use vstd::prelude::*;

verus! {

/// A path relative to the repository root, with its status.
pub type EntryView = (Seq<Seq<u8>>, GitFileStatus);

/// One entry of a status scan as Git reports it.
#[derive(Debug)]
pub struct RawStatus {
    /// The path relative to the repository root, written with `/`; none where Git's
    /// path is no valid text.
    pub path: Option<Vec<u8>>,
    /// The bits of the `git2::Status`.
    pub bits: u32,
}

/// What a [`RawStatus`] holds.
pub struct RawView {
    pub path: Option<Seq<u8>>,
    pub bits: u32,
}

impl View for RawStatus {
    type V = RawView;

    open spec fn view(&self) -> RawView {
        RawView {
            path: match self.path {
                Some(path) => Some(path@),
                None => None,
            },
            bits: self.bits,
        }
    }
}

/// What the entries of a scan hold.
pub open spec fn raw_views(scan: Seq<RawStatus>) -> Seq<RawView> {
    scan.map_values(|raw: RawStatus| raw@)
}

/// Whether there is an entry for `path`.
pub open spec fn has_path(entries: Seq<EntryView>, path: Seq<Seq<u8>>) -> bool {
    exists|i: int| 0 <= i < entries.len() && (#[trigger] entries[i]).0 == path
}

/// Where the entry for `path` stands, if there is one.
pub open spec fn position(entries: Seq<EntryView>, path: Seq<Seq<u8>>) -> int {
    choose|i: int| 0 <= i < entries.len() && (#[trigger] entries[i]).0 == path
}

/// The status that is kept for `path`.
pub open spec fn lookup(entries: Seq<EntryView>, path: Seq<Seq<u8>>) -> Option<GitFileStatus> {
    if has_path(entries, path) {
        Some(entries[position(entries, path)].1)
    } else {
        None
    }
}

/// `entries` with `status` for `path`, in place of the status it had if it had one.
pub open spec fn put(
    entries: Seq<EntryView>,
    path: Seq<Seq<u8>>,
    status: GitFileStatus,
) -> Seq<EntryView> {
    if has_path(entries, path) {
        entries.update(position(entries, path), (path, status))
    } else {
        entries.push((path, status))
    }
}

/// No path has two entries.
pub open spec fn distinct_paths(entries: Seq<EntryView>) -> bool {
    forall|i: int, j: int|
        0 <= i < j < entries.len() ==> (#[trigger] entries[i]).0 != (#[trigger] entries[j]).0
}

/// Every entry has a status that is shown.
pub open spec fn all_visible(entries: Seq<EntryView>) -> bool {
    forall|i: int| 0 <= i < entries.len() ==> (#[trigger] entries[i]).1 != GitFileStatus::Clean
}

/// `entries` after one more entry of a scan. An entry without a path, or whose status is
/// not shown, adds nothing.
pub open spec fn taken_in(entries: Seq<EntryView>, raw: RawView) -> Seq<EntryView> {
    match raw.path {
        Some(path) => if classified(raw.bits) != GitFileStatus::Clean {
            put(entries, components(path), classified(raw.bits))
        } else {
            entries
        },
        None => entries,
    }
}

/// The statuses that a scan leaves: its entries taken in one after the other.
pub open spec fn scanned(scan: Seq<RawView>) -> Seq<EntryView>
    decreases scan.len(),
{
    if scan.len() == 0 {
        Seq::empty()
    } else {
        taken_in(scanned(scan.drop_last()), scan.last())
    }
}

/// Whether the entry tells of what is in the directory `dir`: it lies at or below it.
pub open spec fn tells_of(entry: EntryView, dir: Seq<Seq<u8>>) -> bool {
    dir.is_prefix_of(entry.0)
}

/// Whether `dir` lies in what the entry says is untracked. Of such a directory a scan that
/// does not go into it lists no more than itself.
pub open spec fn hides(entry: EntryView, dir: Seq<Seq<u8>>) -> bool {
    entry.1 == GitFileStatus::Untracked && entry.0.is_prefix_of(dir) && entry.0 != dir
}

/// Whether `dir` lies in something untracked, so that the entries do not tell what is in it.
pub open spec fn is_hidden(entries: Seq<EntryView>, dir: Seq<Seq<u8>>) -> bool {
    exists|i: int| 0 <= i < entries.len() && hides(#[trigger] entries[i], dir)
}

/// The worst status of the entries at or below `dir`.
pub open spec fn worst_below(entries: Seq<EntryView>, dir: Seq<Seq<u8>>) -> GitFileStatus
    decreases entries.len(),
{
    if entries.len() == 0 {
        GitFileStatus::Clean
    } else {
        let before = worst_below(entries.drop_last(), dir);
        if tells_of(entries.last(), dir) {
            worse(before, entries.last().1)
        } else {
            before
        }
    }
}

/// A path relative to the repository root, with its status.
#[derive(Debug)]
pub struct StatusEntry {
    /// The path.
    pub path: PathParts,
    /// Its status.
    pub status: GitFileStatus,
}

impl View for StatusEntry {
    type V = EntryView;

    open spec fn view(&self) -> EntryView {
        (self.path@, self.status)
    }
}

/// What a list of entries holds.
pub open spec fn entry_views(entries: Seq<StatusEntry>) -> Seq<EntryView> {
    entries.map_values(|entry: StatusEntry| entry@)
}

/// Finds the entry for `path`.
pub(crate) fn find(entries: &Vec<StatusEntry>, path: &PathParts) -> (found: Option<usize>)
    requires
        distinct_paths(entry_views(entries@)),
    ensures
        match found {
            Some(i) => i < entries@.len() && has_path(entry_views(entries@), path@) && position(
                entry_views(entries@),
                path@,
            ) == i,
            None => !has_path(entry_views(entries@), path@),
        },
{
    let ghost views = entry_views(entries@);
    let mut i: usize = 0;
    while i < entries.len()
        invariant
            views == entry_views(entries@),
            distinct_paths(views),
            i <= entries@.len(),
            forall|j: int| 0 <= j < i ==> (#[trigger] views[j]).0 != path@,
        decreases entries@.len() - i,
    {
        assert(views[i as int] == entries@[i as int]@);
        if entries[i].path.same(path) {
            proof {
                let p = position(views, path@);
                assert(views[i as int].0 == path@);
                assert(0 <= p < views.len() && views[p].0 == path@);
                if p < i {
                    assert(views[p].0 != views[i as int].0);
                } else if p > i {
                    assert(views[i as int].0 != views[p].0);
                }
            }
            return Some(i);
        }
        i = i + 1;
    }
    None
}

fn put_status(entries: &mut Vec<StatusEntry>, path: PathParts, status: GitFileStatus)
    requires
        distinct_paths(entry_views(old(entries)@)),
    ensures
        entry_views(final(entries)@) == put(entry_views(old(entries)@), path@, status),
{
    match find(entries, &path) {
        Some(i) => {
            entries[i] = StatusEntry { path, status };
            assert(entry_views(entries@) =~= put(entry_views(old(entries)@), path@, status));
        },
        None => {
            entries.push(StatusEntry { path, status });
            assert(entry_views(entries@) =~= put(entry_views(old(entries)@), path@, status));
        },
    }
}

proof fn lemma_put_keeps_shape(entries: Seq<EntryView>, path: Seq<Seq<u8>>, status: GitFileStatus)
    requires
        distinct_paths(entries),
        all_visible(entries),
        status != GitFileStatus::Clean,
    ensures
        distinct_paths(put(entries, path, status)),
        all_visible(put(entries, path, status)),
{
    let after = put(entries, path, status);
    let p = position(entries, path);
    assert forall|i: int, j: int| 0 <= i < j < after.len() implies (#[trigger] after[i]).0 != (
    #[trigger] after[j]).0 by {
        if has_path(entries, path) {
            assert(after[i].0 == entries[i].0);
            assert(after[j].0 == entries[j].0);
        } else if j < entries.len() {
            assert(after[i] == entries[i] && after[j] == entries[j]);
        } else {
            assert(after[i] == entries[i]);
        }
    }
    assert forall|i: int| 0 <= i < after.len() implies (#[trigger] after[i]).1
        != GitFileStatus::Clean by {
        if i < entries.len() {
            assert(entries[i].1 != GitFileStatus::Clean);
        }
    }
}

/// Whatever a scan reports, each path is kept once and with a status that is shown.
pub proof fn scanned_statuses_are_distinct_and_visible(scan: Seq<RawView>)
    ensures
        distinct_paths(scanned(scan)),
        all_visible(scanned(scan)),
    decreases scan.len(),
{
    if scan.len() > 0 {
        let before = scanned(scan.drop_last());
        scanned_statuses_are_distinct_and_visible(scan.drop_last());
        if let Some(path) = scan.last().path {
            if classified(scan.last().bits) != GitFileStatus::Clean {
                lemma_put_keeps_shape(before, components(path), classified(scan.last().bits));
            }
        }
    }
}

/// Takes in the entries of a scan.
pub(crate) fn collect(scan: Vec<RawStatus>) -> (entries: Vec<StatusEntry>)
    ensures
        entry_views(entries@) == scanned(raw_views(scan@)),
{
    let ghost views = raw_views(scan@);
    let mut entries: Vec<StatusEntry> = Vec::new();
    let mut i: usize = 0;
    assert(views.take(0) =~= Seq::<RawView>::empty());
    assert(entry_views(entries@) =~= scanned(views.take(0)));
    while i < scan.len()
        invariant
            views == raw_views(scan@),
            i <= scan@.len(),
            entry_views(entries@) == scanned(views.take(i as int)),
        decreases scan@.len() - i,
    {
        proof {
            scanned_statuses_are_distinct_and_visible(views.take(i as int));
            assert(views.take(i + 1).drop_last() =~= views.take(i as int));
            assert(views.take(i + 1).last() == views[i as int]);
            assert(views[i as int] == scan@[i as int]@);
        }
        if let Some(path) = &scan[i].path {
            let status = GitFileStatus::from_git2_status(scan[i].bits);
            if status.is_visible() {
                put_status(&mut entries, PathParts::parse(path.as_slice()), status);
            }
        }
        i = i + 1;
    }
    assert(views.take(i as int) =~= views);
    entries
}

proof fn lemma_conflict_stays(entries: Seq<EntryView>, dir: Seq<Seq<u8>>, seen: int)
    requires
        0 <= seen <= entries.len(),
        worst_below(entries.take(seen), dir) == GitFileStatus::Conflict,
    ensures
        worst_below(entries, dir) == GitFileStatus::Conflict,
    decreases entries.len() - seen,
{
    if seen == entries.len() {
        assert(entries.take(seen) =~= entries);
    } else {
        assert(entries.take(seen + 1).drop_last() =~= entries.take(seen));
        lemma_conflict_stays(entries, dir, seen + 1);
    }
}

/// Whether `dir` lies in something untracked.
pub(crate) fn hidden(entries: &Vec<StatusEntry>, dir: &PathParts) -> (found: bool)
    ensures
        found == is_hidden(entry_views(entries@), dir@),
{
    let ghost views = entry_views(entries@);
    let mut i: usize = 0;
    while i < entries.len()
        invariant
            views == entry_views(entries@),
            i <= entries@.len(),
            forall|j: int| 0 <= j < i ==> !hides(#[trigger] views[j], dir@),
        decreases entries@.len() - i,
    {
        assert(views[i as int] == entries@[i as int]@);
        let untracked = matches!(entries[i].status, GitFileStatus::Untracked);
        if untracked && dir.starts_with(&entries[i].path) && entries[i].path.len() < dir.len() {
            assert(hides(views[i as int], dir@));
            return true;
        }
        i = i + 1;
    }
    false
}

/// The worst status of the entries at or below `dir`.
pub(crate) fn worst(entries: &Vec<StatusEntry>, dir: &PathParts) -> (status: GitFileStatus)
    ensures
        status == worst_below(entry_views(entries@), dir@),
{
    let ghost views = entry_views(entries@);
    let mut status = GitFileStatus::Clean;
    let mut i: usize = 0;
    assert(views.take(0) =~= Seq::<EntryView>::empty());
    while i < entries.len()
        invariant
            views == entry_views(entries@),
            i <= entries@.len(),
            status == worst_below(views.take(i as int), dir@),
        decreases entries@.len() - i,
    {
        assert(views[i as int] == entries@[i as int]@);
        assert(views.take(i + 1).drop_last() =~= views.take(i as int));
        if entries[i].path.starts_with(dir) {
            status = GitService::worse_status(status, entries[i].status);
            // Conflict is the worst, no need to continue
            if matches!(status, GitFileStatus::Conflict) {
                proof {
                    lemma_conflict_stays(views, dir@, i + 1);
                }
                return status;
            }
        }
        i = i + 1;
    }
    assert(views.take(i as int) =~= views);
    status
}

/// The worst status below a directory is that of an entry at or below it, or clean where
/// there is none, and no such entry has a worse one.
pub proof fn worst_below_is_the_worst(entries: Seq<EntryView>, dir: Seq<Seq<u8>>)
    ensures
        forall|i: int|
            0 <= i < entries.len() && tells_of(#[trigger] entries[i], dir) ==> severity(
                entries[i].1,
            ) <= severity(worst_below(entries, dir)),
        worst_below(entries, dir) == GitFileStatus::Clean || exists|i: int|
            0 <= i < entries.len() && tells_of(#[trigger] entries[i], dir) && entries[i].1
                == worst_below(entries, dir),
    decreases entries.len(),
{
    if entries.len() > 0 {
        let before = entries.drop_last();
        let last = entries.len() - 1;
        worst_below_is_the_worst(before, dir);
        assert forall|i: int|
            0 <= i < entries.len() && tells_of(#[trigger] entries[i], dir) implies severity(
            entries[i].1,
        ) <= severity(worst_below(entries, dir)) by {
            if i < last {
                assert(before[i] == entries[i]);
            }
        }
        if worst_below(entries, dir) == worst_below(before, dir) && worst_below(before, dir)
            != GitFileStatus::Clean {
            let k = choose|k: int|
                0 <= k < before.len() && tells_of(#[trigger] before[k], dir) && before[k].1
                    == worst_below(before, dir);
            assert(entries[k] == before[k]);
        } else if worst_below(entries, dir) != GitFileStatus::Clean {
            assert(tells_of(entries[last], dir));
        }
    }
}

/// The worst status below a directory does not depend on the order of the entries.
pub proof fn worst_below_ignores_order(
    entries: Seq<EntryView>,
    others: Seq<EntryView>,
    dir: Seq<Seq<u8>>,
)
    requires
        forall|entry: EntryView| entries.contains(entry) <==> others.contains(entry),
    ensures
        worst_below(entries, dir) == worst_below(others, dir),
{
    worst_below_is_the_worst(entries, dir);
    worst_below_is_the_worst(others, dir);
    let a = worst_below(entries, dir);
    let b = worst_below(others, dir);
    if a != GitFileStatus::Clean {
        let i = choose|i: int|
            0 <= i < entries.len() && tells_of(#[trigger] entries[i], dir) && entries[i].1
                == a;
        assert(entries.contains(entries[i]));
        assert(others.contains(entries[i]));
        let j = choose|j: int| 0 <= j < others.len() && others[j] == entries[i];
        assert(tells_of(others[j], dir));
        assert(severity(a) <= severity(b));
    }
    if b != GitFileStatus::Clean {
        let i = choose|i: int|
            0 <= i < others.len() && tells_of(#[trigger] others[i], dir) && others[i].1 == b;
        assert(others.contains(others[i]));
        assert(entries.contains(others[i]));
        let j = choose|j: int| 0 <= j < entries.len() && entries[j] == others[i];
        assert(tells_of(entries[j], dir));
        assert(severity(b) <= severity(a));
    }
}

/// A path has the status that was put for it last; the others keep theirs.
pub proof fn put_then_lookup(
    entries: Seq<EntryView>,
    path: Seq<Seq<u8>>,
    status: GitFileStatus,
    other: Seq<Seq<u8>>,
)
    requires
        distinct_paths(entries),
    ensures
        lookup(put(entries, path, status), path) == Some(status),
        other != path ==> lookup(put(entries, path, status), other) == lookup(entries, other),
{
    let after = put(entries, path, status);
    let p = position(entries, path);
    if has_path(entries, path) {
        assert(after[p].0 == path);
    } else {
        assert(after[entries.len() as int].0 == path);
    }
    assert(has_path(after, path));
    let q = position(after, path);
    assert(after[q].0 == path);
    if has_path(entries, path) && q != p {
        assert(after[q] == entries[q]);
        if q < p {
            assert(entries[q].0 != entries[p].0);
        } else {
            assert(entries[p].0 != entries[q].0);
        }
    }
    if !has_path(entries, path) && q < entries.len() {
        assert(entries[q].0 == path);
    }
    if other != path {
        if has_path(entries, other) {
            let o = position(entries, other);
            assert(after[o] == entries[o]);
            assert(has_path(after, other));
            let r = position(after, other);
            assert(after[r].0 == other);
            assert(after[r] == entries[r]);
            if r < o {
                assert(entries[r].0 != entries[o].0);
            } else if o < r {
                assert(entries[o].0 != entries[r].0);
            }
        } else if has_path(after, other) {
            let r = position(after, other);
            assert(after[r].0 == other);
            assert(after[r] == entries[r]);
        }
    }
}

/// Whether an entry of a scan says of `path` that it has a status that is shown.
pub open spec fn reports(raw: RawView, path: Seq<Seq<u8>>) -> bool {
    raw.path is Some && components(raw.path->0) == path && classified(raw.bits)
        != GitFileStatus::Clean
}

/// What a scan said of a path last is what is kept of it.
pub proof fn scan_keeps_the_last_report(scan: Seq<RawView>, path: Seq<Seq<u8>>, last: int)
    requires
        0 <= last < scan.len(),
        reports(scan[last], path),
        forall|i: int| last < i < scan.len() ==> !reports(#[trigger] scan[i], path),
    ensures
        lookup(scanned(scan), path) == Some(classified(scan[last].bits)),
    decreases scan.len(),
{
    let before = scanned(scan.drop_last());
    let raw = scan.last();
    scanned_statuses_are_distinct_and_visible(scan.drop_last());
    if last == scan.len() - 1 {
        put_then_lookup(before, path, classified(raw.bits), path);
    } else {
        assert(scan.drop_last()[last] == scan[last]);
        scan_keeps_the_last_report(scan.drop_last(), path, last);
        assert(!reports(scan[scan.len() - 1], path));
        if raw.path is Some && classified(raw.bits) != GitFileStatus::Clean {
            put_then_lookup(before, components(raw.path->0), classified(raw.bits), path);
        }
    }
}

/// Of a path that a scan says nothing of, nothing is kept.
pub proof fn scan_keeps_nothing_else(scan: Seq<RawView>, path: Seq<Seq<u8>>)
    requires
        forall|i: int| 0 <= i < scan.len() ==> !reports(#[trigger] scan[i], path),
    ensures
        lookup(scanned(scan), path) is None,
    decreases scan.len(),
{
    if scan.len() > 0 {
        let before = scanned(scan.drop_last());
        let raw = scan.last();
        assert forall|i: int| 0 <= i < scan.len() - 1 implies !reports(
            #[trigger] scan.drop_last()[i],
            path,
        ) by {
            assert(!reports(scan[i], path));
        }
        scan_keeps_nothing_else(scan.drop_last(), path);
        scanned_statuses_are_distinct_and_visible(scan.drop_last());
        assert(!reports(scan[scan.len() - 1], path));
        if raw.path is Some && classified(raw.bits) != GitFileStatus::Clean {
            put_then_lookup(before, components(raw.path->0), classified(raw.bits), path);
        }
    }
}

/// What counts for a directory are the entries whose first components are those of the
/// directory, one by one, and the entry of the directory itself. The worst status below it is
/// at least as bad as each of these, and one of them unless it is clean.
pub proof fn entries_count_by_whole_components(entries: Seq<EntryView>, dir: Seq<Seq<u8>>)
    ensures
        forall|i: int|
            0 <= i < entries.len() && (#[trigger] entries[i]).0.len() >= dir.len()
                && entries[i].0.take(dir.len() as int) == dir ==> severity(entries[i].1)
                <= severity(worst_below(entries, dir)),
        worst_below(entries, dir) != GitFileStatus::Clean ==> exists|i: int|
            0 <= i < entries.len() && (#[trigger] entries[i]).0.len() >= dir.len()
                && entries[i].0.take(dir.len() as int) == dir && entries[i].1 == worst_below(
                entries,
                dir,
            ),
{
    worst_below_is_the_worst(entries, dir);
    assert forall|i: int|
        0 <= i < entries.len() && (#[trigger] entries[i]).0.len() >= dir.len()
            && entries[i].0.take(dir.len() as int) == dir implies severity(entries[i].1)
        <= severity(worst_below(entries, dir)) by {
        assert(dir =~= entries[i].0.subrange(0, dir.len() as int));
        assert(tells_of(entries[i], dir));
    }
    if worst_below(entries, dir) != GitFileStatus::Clean {
        let i = choose|i: int|
            0 <= i < entries.len() && tells_of(#[trigger] entries[i], dir) && entries[i].1
                == worst_below(entries, dir);
        assert(entries[i].0.take(dir.len() as int) =~= dir);
    }
}

} // verus!
