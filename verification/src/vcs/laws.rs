//! What holds of the service across its operations.
use crate::paths::{
    components, dot_component, forward_slashes, root_component, separated, well_formed, written,
    written_reads_back, BACKSLASH,
};
use crate::vcs::cache::{
    distinct_paths, entries_count_by_whole_components, has_path, hides, lookup, position, reports,
    scan_keeps_nothing_else, scan_keeps_the_last_report, scanned, tells_of, worst_below,
    worst_below_is_the_worst, EntryView, RawView,
};
use crate::vcs::git::{
    directory_answer, search_result, DirectoryView, FileStatusView, GitError, GitErrorCode,
    RepoLocation, ServiceView,
};
use crate::vcs::relative::{relative_to, HostView};
use crate::vcs::status::{classified, severity, GitFileStatus};
use vstd::prelude::*;

verus! {

/// After a refresh the cache holds what the scan found and nothing of what it held before.
pub proof fn refresh_forgets_the_old_statuses(
    service: ServiceView,
    other: ServiceView,
    scan: Seq<RawView>,
)
    requires
        service.well_formed(),
        service.is_open,
        other.is_open,
    ensures
        service.outdated().updated(Some(scan)).statuses == scanned(scan),
        service.outdated().updated(Some(scan)).statuses == other.outdated().updated(
            Some(scan),
        ).statuses,
        service.outdated().updated(Some(scan)).cache_valid,
{
}

/// A cache that is up to date stays as it is, whatever a further scan would find.
pub proof fn valid_cache_is_left_alone(
    service: ServiceView,
    scan: Option<Seq<RawView>>,
    later: Option<Seq<RawView>>,
)
    requires
        service.updated(scan).cache_valid,
    ensures
        service.updated(scan).updated(later) == service.updated(scan),
{
}

/// A scan that fails leaves an empty cache, which is tried again the next time.
pub proof fn failed_scan_leaves_nothing(service: ServiceView)
    ensures
        service.outdated().updated(None).statuses == Seq::<EntryView>::empty(),
        !service.outdated().updated(None).cache_valid,
{
}

/// A refresh changes the statuses and nothing else: the repository, its root and the
/// workspace stay.
pub proof fn updates_keep_the_repository(service: ServiceView, scan: Option<Seq<RawView>>)
    ensures
        service.updated(scan).is_open == service.is_open,
        service.updated(scan).repo_root == service.repo_root,
        service.updated(scan).status_scope == service.status_scope,
{
}

/// A scan is limited to the opened workspace exactly where this is a part of the repository
/// and not the whole, and what it is limited to names the workspace.
pub proof fn scans_are_limited_to_the_workspace(
    service: ServiceView,
    scope: HostView,
    root: HostView,
)
    requires
        service.status_scope == Some(scope),
        service.repo_root == Some(root),
        well_formed(scope.parts),
        forall|i: int, j: int|
            0 <= i < scope.parts.len() && 0 <= j < scope.parts[i].len()
                ==> #[trigger] scope.parts[i][j] != BACKSLASH,
        root.parts.is_prefix_of(scope.parts),
    ensures
        service.pathspec() is Some <==> scope.parts != root.parts,
        service.pathspec() matches Some(text) ==> components(text) == scope.parts.skip(
            root.parts.len() as int,
        ),
{
    let relative = scope.parts.skip(root.parts.len() as int);
    assert(relative_to(scope, root) == Some(relative));
    if scope.parts != root.parts {
        if scope.parts.len() == root.parts.len() {
            assert(scope.parts.subrange(0, root.parts.len() as int) =~= scope.parts);
        }
        assert forall|i: int| 0 <= i < relative.len() implies #[trigger] relative[i]
            == scope.parts[i + root.parts.len()] by {}
        assert(well_formed(relative));
        written_reads_back(relative);
        lemma_written_without_backslash(relative);
        assert(forward_slashes(written(relative)) =~= written(relative));
    } else {
        assert(relative.len() == 0);
    }
}

proof fn lemma_separated_without_backslash(names: Seq<Seq<u8>>)
    requires
        forall|i: int, j: int|
            0 <= i < names.len() && 0 <= j < names[i].len() ==> #[trigger] names[i][j] != BACKSLASH,
    ensures
        forall|k: int|
            0 <= k < separated(names).len() ==> #[trigger] separated(names)[k] != BACKSLASH,
    decreases names.len(),
{
    if names.len() > 1 {
        let before = names.drop_last();
        assert forall|i: int, j: int| 0 <= i < before.len() && 0 <= j < before[i].len() implies
        #[trigger] before[i][j] != BACKSLASH by {
            assert(names[i][j] != BACKSLASH);
        }
        lemma_separated_without_backslash(before);
        let head = separated(before);
        let text = separated(names);
        assert forall|k: int| 0 <= k < text.len() implies #[trigger] text[k] != BACKSLASH by {
            if k < head.len() {
                assert(text[k] == head[k]);
            } else if k > head.len() {
                assert(text[k] == names[names.len() - 1][k - head.len() - 1]);
            }
        }
    } else if names.len() == 1 {
        assert forall|k: int| 0 <= k < names[0].len() implies names[0][k] != BACKSLASH by {}
    }
}

proof fn lemma_written_without_backslash(parts: Seq<Seq<u8>>)
    requires
        forall|i: int, j: int|
            0 <= i < parts.len() && 0 <= j < parts[i].len() ==> #[trigger] parts[i][j] != BACKSLASH,
    ensures
        forall|k: int| 0 <= k < written(parts).len() ==> #[trigger] written(parts)[k] != BACKSLASH,
{
    if parts.len() > 0 && parts[0] == root_component() {
        let names = parts.skip(1);
        assert forall|i: int, j: int| 0 <= i < names.len() && 0 <= j < names[i].len() implies
        #[trigger] names[i][j] != BACKSLASH by {
            assert(parts[i + 1][j] != BACKSLASH);
        }
        lemma_separated_without_backslash(names);
    } else {
        lemma_separated_without_backslash(parts);
    }
}

/// A file that a scan has listed has the status that the scan gave it last.
pub proof fn listed_files_have_their_status(
    service: ServiceView,
    path: HostView,
    scan: Seq<RawView>,
    last: int,
)
    requires
        service.is_open,
        service.inside(path) is Some,
        0 <= last < scan.len(),
        reports(scan[last], service.inside(path)->0),
        forall|i: int|
            last < i < scan.len() ==> !reports(#[trigger] scan[i], service.inside(path)->0),
    ensures
        service.outdated().updated(Some(scan)).status_step(path) == FileStatusView::Known(
            classified(scan[last].bits),
        ),
{
    scan_keeps_the_last_report(scan, service.inside(path)->0, last);
}

/// Of a file below the root that a scan has not listed, the cache says nothing: the
/// repository is asked.
pub proof fn files_not_listed_are_asked_for(
    service: ServiceView,
    path: HostView,
    scan: Seq<RawView>,
)
    requires
        service.is_open,
        service.inside(path) is Some,
        forall|i: int|
            0 <= i < scan.len() ==> !reports(#[trigger] scan[i], service.inside(path)->0),
    ensures
        service.outdated().updated(Some(scan)).status_step(path) == FileStatusView::ReadStatus(
            service.inside(path)->0,
        ),
{
    scan_keeps_nothing_else(scan, service.inside(path)->0);
}

/// Nothing outside the repository has a status other than clean.
pub proof fn outside_the_repository_all_is_clean(service: ServiceView, path: HostView)
    requires
        service.inside(path) is None,
    ensures
        service.status_step(path) == FileStatusView::Known(GitFileStatus::Clean),
        service.directory_step(path) == DirectoryView::Known(GitFileStatus::Clean),
{
}

/// Without a repository every path is clean, and there are no statuses.
pub proof fn without_a_repository_all_is_clean(service: ServiceView, path: HostView)
    requires
        service.well_formed(),
        !service.is_open,
    ensures
        service.status_step(path) == FileStatusView::Known(GitFileStatus::Clean),
        service.directory_step(path) == DirectoryView::Known(GitFileStatus::Clean),
        service.absolute_statuses() == Seq::<EntryView>::empty(),
{
}

/// What the cache answers for a directory is at least as bad as the status of any file in it
/// that the cache knows.
pub proof fn directories_are_as_bad_as_their_files(
    service: ServiceView,
    dir: HostView,
    file: HostView,
    status: GitFileStatus,
)
    requires
        service.well_formed(),
        service.inside(dir) is Some,
        service.inside(file) is Some,
        (service.inside(dir)->0).is_prefix_of(service.inside(file)->0),
        lookup(service.statuses, service.inside(file)->0) == Some(status),
    ensures
        service.directory_step(dir) matches DirectoryView::Known(shown) ==> severity(shown)
            >= severity(status),
{
    let relative = service.inside(file)->0;
    worst_below_is_the_worst(service.statuses, service.inside(dir)->0);
    let i = position(service.statuses, relative);
    assert(service.statuses[i].0 == relative);
    assert(tells_of(service.statuses[i], service.inside(dir)->0));
}

/// What the cache answers for a directory, where it is not clean, is the status of an entry
/// at or below it.
pub proof fn directories_have_the_status_of_an_entry(service: ServiceView, dir: HostView)
    requires
        service.inside(dir) is Some,
    ensures
        service.directory_step(dir) matches DirectoryView::Known(shown) ==> shown
            == GitFileStatus::Clean || exists|i: int|
            0 <= i < service.statuses.len() && tells_of(
                #[trigger] service.statuses[i],
                service.inside(dir)->0,
            ) && service.statuses[i].1 == shown,
{
    worst_below_is_the_worst(service.statuses, service.inside(dir)->0);
}

/// The cache answers for every directory but those that lie in something untracked; these are
/// scanned.
pub proof fn directories_in_untracked_ones_are_scanned(service: ServiceView, dir: HostView)
    requires
        service.inside(dir) is Some,
    ensures
        service.directory_step(dir) is ScanBelow <==> exists|i: int|
            0 <= i < service.statuses.len() && (#[trigger] service.statuses[i]).1
                == GitFileStatus::Untracked && service.statuses[i].0.is_prefix_of(
                service.inside(dir)->0,
            ) && service.statuses[i].0 != service.inside(dir)->0,
        service.directory_step(dir) is ScanBelow ==> service.directory_step(dir)
            == DirectoryView::ScanBelow(service.inside(dir)->0),
{
    let relative = service.inside(dir)->0;
    if exists|i: int|
        0 <= i < service.statuses.len() && (#[trigger] service.statuses[i]).1
            == GitFileStatus::Untracked && service.statuses[i].0.is_prefix_of(relative)
            && service.statuses[i].0 != relative {
        let i = choose|i: int|
            0 <= i < service.statuses.len() && (#[trigger] service.statuses[i]).1
                == GitFileStatus::Untracked && service.statuses[i].0.is_prefix_of(relative)
                && service.statuses[i].0 != relative;
        assert(hides(service.statuses[i], relative));
    }
}

/// A directory that was scanned is at least as bad as every file in it that the scan has
/// listed: it is untracked at least where it holds an untracked file.
pub proof fn scanned_directories_are_as_bad_as_their_files(
    dir: Seq<Seq<u8>>,
    scan: Seq<RawView>,
    file: Seq<Seq<u8>>,
    last: int,
)
    requires
        dir.is_prefix_of(file),
        0 <= last < scan.len(),
        reports(scan[last], file),
        forall|i: int| last < i < scan.len() ==> !reports(#[trigger] scan[i], file),
    ensures
        severity(directory_answer(DirectoryView::ScanBelow(dir), Some(scan))) >= severity(
            classified(scan[last].bits),
        ),
{
    scan_keeps_the_last_report(scan, file, last);
    worst_below_is_the_worst(scanned(scan), dir);
    let i = position(scanned(scan), file);
    assert(scanned(scan)[i].0 == file);
    assert(tells_of(scanned(scan)[i], dir));
}

/// A directory that was scanned is clean where the scan has listed nothing in it: where it is
/// empty, is missing, or holds ignored files alone.
pub proof fn scanned_directories_without_files_are_clean(dir: Seq<Seq<u8>>, scan: Seq<RawView>)
    requires
        forall|i: int, file: Seq<Seq<u8>>|
            0 <= i < scan.len() && dir.is_prefix_of(file) ==> !#[trigger] reports(scan[i], file),
    ensures
        directory_answer(DirectoryView::ScanBelow(dir), Some(scan)) == GitFileStatus::Clean,
{
    let entries = scanned(scan);
    worst_below_is_the_worst(entries, dir);
    if worst_below(entries, dir) != GitFileStatus::Clean {
        let i = choose|i: int|
            0 <= i < entries.len() && tells_of(#[trigger] entries[i], dir) && entries[i].1
                == worst_below(entries, dir);
        scan_keeps_nothing_else(scan, entries[i].0);
        assert(has_path(entries, entries[i].0));
    }
}

/// A path relative to the root that begins with a name.
pub open spec fn plainly_relative(path: Seq<Seq<u8>>) -> bool {
    path.len() > 0 ==> path[0] != root_component() && path[0] != dot_component()
}

/// Asking for a file under the absolute path that the list of all statuses gives finds the
/// status that the list gives.
pub proof fn listed_paths_lead_back(service: ServiceView, i: int, path: HostView)
    requires
        service.well_formed(),
        0 <= i < service.absolute_statuses().len(),
        plainly_relative(service.statuses[i].0),
        path.parts == service.absolute_statuses()[i].0,
    ensures
        service.status_step(path) == FileStatusView::Known(service.absolute_statuses()[i].1),
{
    let root = service.repo_root->0;
    let entry = service.statuses[i];
    assert(path.parts == root.parts + entry.0);
    assert(path.parts.subrange(0, root.parts.len() as int) =~= root.parts);
    assert(path.parts.skip(root.parts.len() as int) =~= entry.0);
    assert(service.inside(path) == Some(entry.0));
    assert(has_path(service.statuses, entry.0));
    let p = position(service.statuses, entry.0);
    assert(service.statuses[p].0 == entry.0);
    if p < i {
        assert(service.statuses[p].0 != service.statuses[i].0);
    } else if i < p {
        assert(service.statuses[i].0 != service.statuses[p].0);
    }
}

/// Every listed path lies below the repository root.
pub proof fn listed_paths_lie_below_the_root(service: ServiceView, i: int)
    requires
        0 <= i < service.absolute_statuses().len(),
        service.statuses[i].0.len() > 0 ==> service.statuses[i].0[0] != root_component(),
    ensures
        service.repo_root is Some,
        (service.repo_root->0).parts.is_prefix_of(service.absolute_statuses()[i].0),
{
    let root = (service.repo_root->0).parts;
    let path = service.absolute_statuses()[i].0;
    assert(path.subrange(0, root.len() as int) =~= root);
}

/// No absolute path is listed twice.
pub proof fn listed_paths_are_distinct(service: ServiceView)
    requires
        service.well_formed(),
        forall|i: int|
            0 <= i < service.statuses.len() ==> plainly_relative(
                (#[trigger] service.statuses[i]).0,
            ),
    ensures
        distinct_paths(service.absolute_statuses()),
{
    let all = service.absolute_statuses();
    assert forall|i: int, j: int| 0 <= i < j < all.len() implies (#[trigger] all[i]).0 != (
    #[trigger] all[j]).0 by {
        let root = service.repo_root->0;
        let a = service.statuses[i].0;
        let b = service.statuses[j].0;
        assert(all[i].0 == root.parts + a);
        assert(all[j].0 == root.parts + b);
        if all[i].0 == all[j].0 {
            assert(a =~= (root.parts + a).skip(root.parts.len() as int));
            assert(b =~= (root.parts + b).skip(root.parts.len() as int));
            assert(service.statuses[i].0 == service.statuses[j].0);
        }
    }
}

/// After a repository has been found, the root is that of the repository just found, and the
/// workspace the path it was opened for, whatever the service held before: its working
/// directory, or the parent of its own directory where it has none. The cache is out of date,
/// and what it held is kept until the next scan.
pub proof fn opening_replaces_the_repository(
    before: ServiceView,
    other: ServiceView,
    path: HostView,
    location: RepoLocation,
)
    ensures
        location.workdir matches Some(workdir) ==> before.opened(path, location).repo_root == Some(
            workdir@,
        ),
        location.workdir is None ==> (location.git_dir_parent matches Some(parent)
            ==> before.opened(path, location).repo_root == Some(parent@)),
        location.workdir is None && location.git_dir_parent is None ==> before.opened(
            path,
            location,
        ).repo_root is None,
        before.opened(path, location).status_scope == Some(path),
        before.opened(path, location).is_open,
        !before.opened(path, location).cache_valid,
        before.opened(path, location).statuses == before.statuses,
        before.opened(path, location).repo_root == other.opened(path, location).repo_root,
        before.opened(path, location).status_scope == other.opened(path, location).status_scope,
        before.opened(path, location).pathspec() == other.opened(path, location).pathspec(),
{
}

/// A service without a repository knows no root, no workspace and no status.
pub proof fn nothing_is_known_without_a_repository()
    ensures
        !ServiceView::nothing_open().is_open,
        ServiceView::nothing_open().repo_root is None,
        ServiceView::nothing_open().status_scope is None,
        ServiceView::nothing_open().statuses.len() == 0,
        !ServiceView::nothing_open().cache_valid,
        ServiceView::nothing_open().well_formed(),
{
}

/// Switching from one workspace to another answers for the files of the new one: a file in the
/// working directory that was found, which a scan lists there, has the status that the scan
/// gave it last, whatever was open before.
pub proof fn an_opened_repository_answers_for_its_files(
    before: ServiceView,
    path: HostView,
    location: RepoLocation,
    scan: Seq<RawView>,
    file: HostView,
    relative: Seq<Seq<u8>>,
    last: int,
)
    requires
        location.workdir is Some,
        file.parts == (location.workdir->0)@.parts + relative,
        0 <= last < scan.len(),
        reports(scan[last], relative),
        forall|i: int| last < i < scan.len() ==> !reports(#[trigger] scan[i], relative),
    ensures
        before.opened(path, location).updated(Some(scan)).status_step(file)
            == FileStatusView::Known(classified(scan[last].bits)),
{
    let root = (location.workdir->0)@;
    let service = before.opened(path, location);
    opening_replaces_the_repository(before, before, path, location);
    lemma_inside(service, root, file, relative);
    scan_keeps_the_last_report(scan, relative, last);
}

proof fn lemma_inside(
    service: ServiceView,
    root: HostView,
    file: HostView,
    relative: Seq<Seq<u8>>,
)
    requires
        service.repo_root == Some(root),
        file.parts == root.parts + relative,
    ensures
        service.inside(file) == Some(relative),
{
    assert(file.parts.subrange(0, root.parts.len() as int) =~= root.parts);
    assert(file.parts.skip(root.parts.len() as int) =~= relative);
}

/// A file in the repository has the status that the cache holds for its path below the root,
/// and where the cache holds none, it is asked about under that path.
pub proof fn the_cache_answers_by_the_path_below_the_root(
    service: ServiceView,
    root: HostView,
    file: HostView,
    relative: Seq<Seq<u8>>,
    i: int,
)
    requires
        service.well_formed(),
        service.repo_root == Some(root),
        file.parts == root.parts + relative,
    ensures
        0 <= i < service.statuses.len() && service.statuses[i].0 == relative
            ==> service.status_step(file) == FileStatusView::Known(service.statuses[i].1),
        (forall|j: int|
            0 <= j < service.statuses.len() ==> (#[trigger] service.statuses[j]).0 != relative)
            ==> service.status_step(file) == FileStatusView::ReadStatus(relative),
{
    lemma_inside(service, root, file, relative);
    if 0 <= i < service.statuses.len() && service.statuses[i].0 == relative {
        assert(has_path(service.statuses, relative));
        let p = position(service.statuses, relative);
        assert(service.statuses[p].0 == relative);
        if p < i {
            assert(service.statuses[p].0 != service.statuses[i].0);
        } else if i < p {
            assert(service.statuses[i].0 != service.statuses[p].0);
        }
    }
}

/// A path that does not begin with the components of the root, on a system with one spelling
/// for each file, is clean, be it a file or a directory.
pub proof fn paths_beside_the_root_are_clean(service: ServiceView, root: HostView, path: HostView)
    requires
        service.repo_root == Some(root),
        path.canonical is None || root.canonical is None,
        path.parts.len() < root.parts.len() || path.parts.take(root.parts.len() as int)
            != root.parts,
    ensures
        service.status_step(path) == FileStatusView::Known(GitFileStatus::Clean),
        service.directory_step(path) == DirectoryView::Known(GitFileStatus::Clean),
{
    if root.parts.is_prefix_of(path.parts) {
        assert(path.parts.take(root.parts.len() as int) =~= root.parts);
    }
}

/// For a directory in the repository that lies in nothing untracked, the cache answers: with a
/// status that is at least as bad as that of each entry at or below it, and that of one of them
/// unless it is clean.
pub proof fn the_cache_answers_for_directories(
    service: ServiceView,
    root: HostView,
    dir: HostView,
    relative: Seq<Seq<u8>>,
)
    requires
        service.repo_root == Some(root),
        dir.parts == root.parts + relative,
        forall|i: int|
            0 <= i < service.statuses.len() ==> !((#[trigger] service.statuses[i]).1
                == GitFileStatus::Untracked && service.statuses[i].0.len() < relative.len()
                && relative.take(service.statuses[i].0.len() as int) == service.statuses[i].0),
    ensures
        service.directory_step(dir) is Known,
        service.directory_step(dir) matches DirectoryView::Known(shown) ==> {
            &&& forall|i: int|
                0 <= i < service.statuses.len() && (#[trigger] service.statuses[i]).0.len()
                    >= relative.len() && service.statuses[i].0.take(relative.len() as int)
                    == relative ==> severity(service.statuses[i].1) <= severity(shown)
            &&& shown != GitFileStatus::Clean ==> exists|i: int|
                0 <= i < service.statuses.len() && (#[trigger] service.statuses[i]).0.len()
                    >= relative.len() && service.statuses[i].0.take(relative.len() as int)
                    == relative && service.statuses[i].1 == shown
        },
{
    lemma_inside(service, root, dir, relative);
    if exists|i: int|
        0 <= i < service.statuses.len() && hides(#[trigger] service.statuses[i], relative) {
        let i = choose|i: int|
            0 <= i < service.statuses.len() && hides(#[trigger] service.statuses[i], relative);
        let outer = service.statuses[i].0;
        assert(relative.take(outer.len() as int) =~= outer);
        if outer.len() == relative.len() {
            assert(relative.take(outer.len() as int) =~= relative);
        }
    }
    entries_count_by_whole_components(service.statuses, relative);
}

/// What is known of a directory is not changed by a scan that was not needed, and a scan that
/// failed leaves it clean.
pub proof fn directories_without_a_scan(
    status: GitFileStatus,
    dir: Seq<Seq<u8>>,
    scan: Option<Seq<RawView>>,
)
    ensures
        directory_answer(DirectoryView::Known(status), scan) == status,
        directory_answer(DirectoryView::ScanBelow(dir), None) == GitFileStatus::Clean,
{
}

/// What an update does to the cache of an open repository that is out of date: it holds what
/// the scan found, or nothing where the scan failed, and counts as up to date only if the scan
/// was had. Without a repository it stays empty and out of date.
pub proof fn updates_follow_the_scan(service: ServiceView, scan: Seq<RawView>)
    requires
        !service.cache_valid,
    ensures
        service.is_open ==> service.updated(Some(scan)).statuses == scanned(scan),
        service.is_open ==> service.updated(Some(scan)).cache_valid,
        service.updated(None).statuses.len() == 0,
        !service.updated(None).cache_valid,
        !service.is_open ==> service.updated(Some(scan)).statuses.len() == 0,
        !service.is_open ==> !service.updated(Some(scan)).cache_valid,
{
}

/// Marking the cache as out of date forgets nothing else.
pub proof fn outdated_services_keep_the_rest(service: ServiceView)
    ensures
        !service.outdated().cache_valid,
        service.outdated().statuses == service.statuses,
        service.outdated().is_open == service.is_open,
        service.outdated().repo_root == service.repo_root,
        service.outdated().status_scope == service.status_scope,
{
}

/// The list of all statuses has one entry for each that is cached, with its status and with its
/// path below the root put behind the root.
pub proof fn all_cached_statuses_are_listed(service: ServiceView, root: HostView, i: int)
    requires
        service.repo_root == Some(root),
    ensures
        service.absolute_statuses().len() == service.statuses.len(),
        0 <= i < service.statuses.len() ==> service.absolute_statuses()[i].1
            == service.statuses[i].1,
        0 <= i < service.statuses.len() && (service.statuses[i].0.len() > 0 ==> (
        service.statuses[i].0[0] != seq![47u8] && service.statuses[i].0[0] != seq![46u8]))
            ==> service.absolute_statuses()[i].0 == root.parts + service.statuses[i].0,
{
    if 0 <= i < service.statuses.len() {
        crate::paths::joining_goes_down(root.parts, service.statuses[i].0);
        if service.statuses[i].0.len() == 0 {
            assert(root.parts + service.statuses[i].0 =~= root.parts);
        }
    }
}

/// A scan is limited to where the workspace lies below the root, written with slashes alone; it
/// is not limited where the workspace is the root, or does not lie below it.
pub proof fn pathspecs_are_written_with_slashes(
    service: ServiceView,
    root: HostView,
    scope: HostView,
    k: int,
)
    requires
        service.repo_root == Some(root),
        service.status_scope == Some(scope),
    ensures
        relative_to(scope, root) is None ==> service.pathspec() is None,
        relative_to(scope, root) matches Some(relative) ==> {
            &&& service.pathspec() is None <==> relative.len() == 0
            &&& service.pathspec() matches Some(text) ==> {
                &&& text.len() == written(relative).len()
                &&& 0 <= k < text.len() ==> text[k] == (if written(relative)[k] == 92 {
                    47
                } else {
                    written(relative)[k]
                })
            }
        },
{
}

/// A search that finds no repository closes the one that was open, for whatever reason it found
/// none. It is an error exactly where the reason is another than that there is none, and then
/// the error is handed on; a repository that is found is open afterwards.
pub proof fn failed_searches_close_the_repository(
    service: ServiceView,
    path: HostView,
    discovered: Result<RepoLocation, GitError>,
)
    ensures
        service.after_search(path, discovered).is_open <==> discovered is Ok,
        search_result(discovered) == Ok::<bool, GitError>(true) <==> discovered is Ok,
        discovered matches Err(error) ==> {
            &&& service.after_search(path, discovered).repo_root is None
            &&& service.after_search(path, discovered).status_scope is None
            &&& service.after_search(path, discovered).statuses.len() == 0
            &&& !service.after_search(path, discovered).cache_valid
            &&& search_result(discovered) is Err <==> error.code != GitErrorCode::NotFound
            &&& error.code != GitErrorCode::NotFound ==> search_result(discovered) == Err::<
                bool,
                GitError,
            >(error)
        },
        discovered matches Ok(location) ==> service.after_search(path, discovered)
            == service.opened(path, location),
{
}

} // verus!
