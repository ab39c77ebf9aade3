//! Git integration service.
//!
//! [`GitService`] knows which repository is open and keeps the statuses of its files.
//! It decides what has to be asked of the repository and what follows from the answers;
//! asking is the caller's part.
use crate::paths::{forward_slashes, joined, to_forward_slashes, written, PathParts};
use crate::vcs::cache::{
    all_visible, collect, distinct_paths, entry_views, find, hidden, is_hidden, lookup, raw_views,
    scanned, worst, worst_below, EntryView, RawStatus, RawView, StatusEntry,
};
use crate::vcs::relative::{relative_to, repo_relative_path, HostPath, HostView};
use crate::vcs::status::{classified, severity_of, worse, GitFileStatus};
use vstd::prelude::*;
use vstd::string::*;

verus! {

// ---------------------------------------------------------------------------
// Questions and answers
// ---------------------------------------------------------------------------

/// The errors of Git that the service tells apart.
#[derive(Debug, Clone, Copy, PartialEq, Eq, Structural)]
pub enum GitErrorCode {
    /// What was asked for does not exist.
    NotFound,
    /// `HEAD` names a branch that has no commit yet.
    UnbornBranch,
    /// Any other error.
    Other,
}

/// An error of Git.
#[derive(Debug)]
pub struct GitError {
    /// What kind of error it is.
    pub code: GitErrorCode,
    /// What Git says about it.
    pub message: String,
}

/// Where a repository was found.
#[derive(Debug)]
pub struct RepoLocation {
    /// The working directory; a bare repository has none.
    pub workdir: Option<HostPath>,
    /// The directory that holds the repository's own directory, if there is one.
    pub git_dir_parent: Option<HostPath>,
}

/// A status scan of the open repository.
#[derive(Debug)]
pub struct StatusQuery {
    /// Whether files that Git does not track are listed.
    pub include_untracked: bool,
    /// Whether the files in a directory that Git does not track are listed one by one.
    pub recurse_untracked_dirs: bool,
    /// Whether ignored files are listed.
    pub include_ignored: bool,
    /// Whether unmodified files are listed.
    pub include_unmodified: bool,
    /// What the scan is limited to, if to anything.
    pub pathspec: Option<Vec<u8>>,
    /// Whether that is a path, and no pattern.
    pub literal_pathspec: bool,
}

/// What a [`StatusQuery`] holds.
pub struct QueryView {
    pub include_untracked: bool,
    pub recurse_untracked_dirs: bool,
    pub include_ignored: bool,
    pub include_unmodified: bool,
    pub pathspec: Option<Seq<u8>>,
    pub literal_pathspec: bool,
}

impl View for StatusQuery {
    type V = QueryView;

    open spec fn view(&self) -> QueryView {
        QueryView {
            include_untracked: self.include_untracked,
            recurse_untracked_dirs: self.recurse_untracked_dirs,
            include_ignored: self.include_ignored,
            include_unmodified: self.include_unmodified,
            pathspec: match self.pathspec {
                Some(text) => Some(text@),
                None => None,
            },
            literal_pathspec: self.literal_pathspec,
        }
    }
}

/// What `HEAD` was found to be.
#[derive(Debug)]
pub enum HeadReply {
    /// A branch, with its short name; none where the name is no valid text.
    Branch(Option<String>),
    /// Something else than a branch.
    NotABranch {
        /// Whether it points at a commit.
        has_target: bool,
    },
    /// It could not be read.
    Failed(GitErrorCode),
}

/// How far the question for the current branch has been answered.
#[derive(Debug)]
pub enum BranchStep {
    /// The answer.
    Known(Option<String>),
    /// The value of `init.defaultBranch` in the repository's configuration is needed.
    ReadDefaultBranch,
}

/// What a [`BranchStep`] holds.
pub enum BranchView {
    Known(Option<Seq<char>>),
    ReadDefaultBranch,
}

impl View for BranchStep {
    type V = BranchView;

    open spec fn view(&self) -> BranchView {
        match self {
            BranchStep::Known(Some(name)) => BranchView::Known(Some(name@)),
            BranchStep::Known(None) => BranchView::Known(None),
            BranchStep::ReadDefaultBranch => BranchView::ReadDefaultBranch,
        }
    }
}

/// The branch to report for what `HEAD` was found to be.
pub open spec fn branch_of(head: Option<HeadReply>) -> BranchView {
    match head {
        Some(HeadReply::Branch(Some(name))) => BranchView::Known(Some(name@)),
        Some(HeadReply::Branch(None)) => BranchView::Known(None),
        Some(HeadReply::NotABranch { has_target }) => if has_target {
            BranchView::Known(Some("HEAD detached"@))
        } else {
            BranchView::Known(None)
        },
        Some(HeadReply::Failed(code)) => if code == GitErrorCode::UnbornBranch {
            BranchView::ReadDefaultBranch
        } else {
            BranchView::Known(None)
        },
        None => BranchView::Known(None),
    }
}

/// The name of a branch that has no commit yet.
pub open spec fn unborn_name(default_branch: Option<Seq<char>>) -> Seq<char> {
    match default_branch {
        Some(name) => name + " (unborn)"@,
        None => "main (unborn)"@,
    }
}

/// The step that follows on the configured default branch.
pub open spec fn branch_answered(
    step: BranchView,
    default_branch: Option<Seq<char>>,
) -> BranchView {
    match step {
        BranchView::Known(branch) => BranchView::Known(branch),
        BranchView::ReadDefaultBranch => BranchView::Known(Some(unborn_name(default_branch))),
    }
}

impl BranchStep {
    /// Goes on with the configured default branch, none where there is none to be read.
    pub fn answer(self, default_branch: Option<String>) -> (next: BranchStep)
        ensures
            next@ == (match self@ {
                BranchView::ReadDefaultBranch => BranchView::Known(
                    Some(
                        unborn_name(
                            match default_branch {
                                Some(name) => Some(name@),
                                None => None,
                            },
                        ),
                    ),
                ),
                known => known,
            }),
            next@ == branch_answered(
                self@,
                match default_branch {
                    Some(name) => Some(name@),
                    None => None,
                },
            ),
    {
        match self {
            BranchStep::ReadDefaultBranch => match default_branch {
                Some(name) => BranchStep::Known(Some(name.concat(" (unborn)"))),
                None => BranchStep::Known(Some("main (unborn)".to_owned())),
            },
            known => known,
        }
    }
}

/// How far the question for the status of a file has been answered. The path is that of
/// the file below the repository root.
#[derive(Debug)]
pub enum FileStatusStep {
    /// The answer.
    Known(GitFileStatus),
    /// The status of the file alone is needed.
    ReadStatus(PathParts),
    /// Whether there is a file at the path is needed.
    CheckFile {
        /// The path.
        path: PathParts,
        /// Whether the status of the file alone was had, and was clean.
        unmodified: bool,
    },
    /// Whether Git ignores the path is needed.
    CheckIgnored {
        /// The path.
        path: PathParts,
        /// Whether the status of the file alone was had, and was clean.
        unmodified: bool,
    },
    /// Whether the path is in the index is needed.
    CheckIndex {
        /// The path.
        path: PathParts,
        /// Whether the path is ignored, so that it is clean only if it is tracked.
        ignored: bool,
    },
}

/// What a [`FileStatusStep`] holds.
pub enum FileStatusView {
    Known(GitFileStatus),
    ReadStatus(Seq<Seq<u8>>),
    CheckFile { path: Seq<Seq<u8>>, unmodified: bool },
    CheckIgnored { path: Seq<Seq<u8>>, unmodified: bool },
    CheckIndex { path: Seq<Seq<u8>>, ignored: bool },
}

impl View for FileStatusStep {
    type V = FileStatusView;

    open spec fn view(&self) -> FileStatusView {
        match self {
            FileStatusStep::Known(status) => FileStatusView::Known(*status),
            FileStatusStep::ReadStatus(path) => FileStatusView::ReadStatus(path@),
            FileStatusStep::CheckFile { path, unmodified } => FileStatusView::CheckFile {
                path: path@,
                unmodified: *unmodified,
            },
            FileStatusStep::CheckIgnored { path, unmodified } => FileStatusView::CheckIgnored {
                path: path@,
                unmodified: *unmodified,
            },
            FileStatusStep::CheckIndex { path, ignored } => FileStatusView::CheckIndex {
                path: path@,
                ignored: *ignored,
            },
        }
    }
}

/// An answer to a [`FileStatusStep`]; none stands for an answer that could not be had.
#[derive(Debug, Clone, Copy)]
pub enum FileStatusAnswer {
    /// The bits of the `git2::Status` of the file.
    Status(Option<u32>),
    /// Whether there is a file.
    IsFile(bool),
    /// Whether Git ignores it.
    Ignored(Option<bool>),
    /// Whether it is in the index.
    Indexed(Option<bool>),
}

/// The step that follows on an answer. An answer to another question changes nothing.
///
/// A file that is ignored is clean nonetheless where its own status was had and clean and it
/// is in the index: it is tracked and unmodified.
pub open spec fn answered(step: FileStatusView, answer: FileStatusAnswer) -> FileStatusView {
    match (step, answer) {
        (FileStatusView::ReadStatus(path), FileStatusAnswer::Status(bits)) => if bits is Some
            && classified(bits->0) != GitFileStatus::Clean {
            FileStatusView::Known(classified(bits->0))
        } else {
            FileStatusView::CheckFile { path, unmodified: bits is Some }
        },
        (
            FileStatusView::CheckFile { path, unmodified },
            FileStatusAnswer::IsFile(is_file),
        ) => if is_file {
            FileStatusView::CheckIgnored { path, unmodified }
        } else {
            FileStatusView::Known(GitFileStatus::Clean)
        },
        (
            FileStatusView::CheckIgnored { path, unmodified },
            FileStatusAnswer::Ignored(ignored),
        ) => if ignored == Some(true) && !unmodified {
            FileStatusView::Known(GitFileStatus::Ignored)
        } else {
            FileStatusView::CheckIndex { path, ignored: ignored == Some(true) }
        },
        (
            FileStatusView::CheckIndex { path, ignored },
            FileStatusAnswer::Indexed(indexed),
        ) => if ignored {
            FileStatusView::Known(
                if indexed == Some(true) {
                    GitFileStatus::Clean
                } else {
                    GitFileStatus::Ignored
                },
            )
        } else {
            FileStatusView::Known(
                if indexed == Some(false) {
                    GitFileStatus::Untracked
                } else {
                    GitFileStatus::Clean
                },
            )
        },
        _ => step,
    }
}

impl FileStatusStep {
    /// Goes on with an answer.
    pub fn answer(self, answer: FileStatusAnswer) -> (next: FileStatusStep)
        ensures
            next@ == answered(self@, answer),
    {
        match (self, answer) {
            (FileStatusStep::ReadStatus(path), FileStatusAnswer::Status(bits)) => {
                if let Some(bits) = bits {
                    let status = GitFileStatus::from_git2_status(bits);
                    if status.is_visible() {
                        return FileStatusStep::Known(status);
                    }
                    FileStatusStep::CheckFile { path, unmodified: true }
                } else {
                    FileStatusStep::CheckFile { path, unmodified: false }
                }
            },
            (
                FileStatusStep::CheckFile { path, unmodified },
                FileStatusAnswer::IsFile(is_file),
            ) => {
                if is_file {
                    FileStatusStep::CheckIgnored { path, unmodified }
                } else {
                    FileStatusStep::Known(GitFileStatus::Clean)
                }
            },
            (
                FileStatusStep::CheckIgnored { path, unmodified },
                FileStatusAnswer::Ignored(ignored),
            ) => {
                let ignored = matches!(ignored, Some(true));
                if ignored && !unmodified {
                    FileStatusStep::Known(GitFileStatus::Ignored)
                } else {
                    FileStatusStep::CheckIndex { path, ignored }
                }
            },
            (FileStatusStep::CheckIndex { ignored, .. }, FileStatusAnswer::Indexed(indexed)) => {
                if ignored {
                    // An ignore rule says nothing of a file that is tracked.
                    if matches!(indexed, Some(true)) {
                        FileStatusStep::Known(GitFileStatus::Clean)
                    } else {
                        FileStatusStep::Known(GitFileStatus::Ignored)
                    }
                } else if matches!(indexed, Some(false)) {
                    FileStatusStep::Known(GitFileStatus::Untracked)
                } else {
                    FileStatusStep::Known(GitFileStatus::Clean)
                }
            },
            (step, _) => step,
        }
    }
}

/// The status of a file that no scan has listed, if it is ignored or untracked: it has to
/// be a file, and one that is not ignored has to be missing from the index.
pub open spec fn fallback_untracked_status(
    is_file: bool,
    ignored: Option<bool>,
    indexed: Option<bool>,
) -> Option<GitFileStatus> {
    if !is_file {
        None
    } else if ignored == Some(true) {
        Some(GitFileStatus::Ignored)
    } else if indexed == Some(false) {
        Some(GitFileStatus::Untracked)
    } else {
        None
    }
}

/// Asking on until the answer is known gives the status that Git has for the file alone
/// where that one is shown, clean where the file is tracked and unmodified, whether or not it
/// is ignored, else ignored or untracked where the file is one of these, and clean otherwise.
pub proof fn asking_on_finds_the_status(
    path: Seq<Seq<u8>>,
    bits: Option<u32>,
    is_file: bool,
    ignored: Option<bool>,
    indexed: Option<bool>,
)
    ensures
        ({
            let first = answered(FileStatusView::ReadStatus(path), FileStatusAnswer::Status(bits));
            let second = answered(first, FileStatusAnswer::IsFile(is_file));
            let third = answered(second, FileStatusAnswer::Ignored(ignored));
            let fourth = answered(third, FileStatusAnswer::Indexed(indexed));
            fourth == FileStatusView::Known(
                if bits is Some && classified(bits->0) != GitFileStatus::Clean {
                    classified(bits->0)
                } else if bits is Some && indexed == Some(true) {
                    GitFileStatus::Clean
                } else {
                    match fallback_untracked_status(is_file, ignored, indexed) {
                        Some(status) => status,
                        None => GitFileStatus::Clean,
                    }
                },
            ) && (bits is Some && classified(bits->0) == GitFileStatus::Clean && indexed == Some(
                true,
            ) ==> fourth == FileStatusView::Known(GitFileStatus::Clean))
        }),
{
}

/// How far the question for the status of a directory has been answered.
#[derive(Debug)]
pub enum DirectoryStep {
    /// The answer.
    Known(GitFileStatus),
    /// The directory lies in something untracked, of which the cache holds no more than
    /// itself: a scan of the directory is needed.
    ScanBelow(PathParts),
}

/// What a [`DirectoryStep`] holds.
pub enum DirectoryView {
    Known(GitFileStatus),
    ScanBelow(Seq<Seq<u8>>),
}

impl View for DirectoryStep {
    type V = DirectoryView;

    open spec fn view(&self) -> DirectoryView {
        match self {
            DirectoryStep::Known(status) => DirectoryView::Known(*status),
            DirectoryStep::ScanBelow(path) => DirectoryView::ScanBelow(path@),
        }
    }
}

/// The status of a directory, with the scan of it where one was needed; none is a scan that
/// failed.
pub open spec fn directory_answer(
    step: DirectoryView,
    scan: Option<Seq<RawView>>,
) -> GitFileStatus {
    match (step, scan) {
        (DirectoryView::Known(status), _) => status,
        (DirectoryView::ScanBelow(path), Some(raw)) => worst_below(scanned(raw), path),
        (DirectoryView::ScanBelow(_), None) => GitFileStatus::Clean,
    }
}

/// The scan that is needed to go on, if one is.
pub open spec fn directory_query(step: DirectoryView) -> Option<QueryView> {
    match step {
        DirectoryView::Known(_) => None,
        DirectoryView::ScanBelow(path) => Some(
            QueryView {
                include_untracked: true,
                recurse_untracked_dirs: true,
                include_ignored: false,
                include_unmodified: false,
                pathspec: Some(written(path)),
                literal_pathspec: true,
            },
        ),
    }
}

impl DirectoryStep {
    /// The scan that is needed, if one is: of this directory alone, and into what is
    /// untracked.
    pub fn scan_request(&self) -> (query: Option<StatusQuery>)
        ensures
            query is Some <==> self@ is ScanBelow,
            query matches Some(q) ==> {
                &&& q.include_untracked
                &&& q.recurse_untracked_dirs
                &&& !q.include_ignored
                &&& !q.include_unmodified
                &&& q.pathspec is Some
                &&& q.pathspec->0@ == written(self@->ScanBelow_0)
                &&& q.literal_pathspec
            },
            query matches Some(q) ==> Some(q@) == directory_query(self@),
            query is None ==> directory_query(self@) is None,
    {
        match self {
            DirectoryStep::Known(_) => None,
            DirectoryStep::ScanBelow(path) => Some(
                StatusQuery {
                    include_untracked: true,
                    recurse_untracked_dirs: true,
                    include_ignored: false,
                    include_unmodified: false,
                    pathspec: Some(path.to_text()),
                    literal_pathspec: true,
                },
            ),
        }
    }

    /// The answer, with the scan where one was needed.
    pub fn answer(self, scan: Option<Vec<RawStatus>>) -> (status: GitFileStatus)
        ensures
            status == directory_answer(self@, scan_view(scan)),
    {
        match self {
            DirectoryStep::Known(status) => status,
            DirectoryStep::ScanBelow(path) => match scan {
                Some(raw) => worst(&collect(raw), &path),
                None => GitFileStatus::Clean,
            },
        }
    }
}

// ---------------------------------------------------------------------------
// Git Service
// ---------------------------------------------------------------------------

/// Git integration service.
///
/// Provides methods to query Git repository information including
/// the current branch and file statuses. Handles cases where Git
/// is not available or the directory is not a repository gracefully.
#[derive(Debug)]
pub struct GitService {
    /// Whether a repository is open
    is_open: bool,
    /// Root path of the repository
    repo_root: Option<HostPath>,
    /// Path opened as the workspace, used to scope expensive status scans.
    status_scope: Option<HostPath>,
    /// Cached file statuses (relative path and status)
    file_statuses: Vec<StatusEntry>,
    /// Whether status cache is valid
    cache_valid: bool,
}

/// What a [`GitService`] holds.
pub struct ServiceView {
    /// Whether a repository is open.
    pub is_open: bool,
    /// The root of the repository.
    pub repo_root: Option<HostView>,
    /// The path that was opened.
    pub status_scope: Option<HostView>,
    /// The cached statuses, by path relative to the root.
    pub statuses: Seq<EntryView>,
    /// Whether the cached statuses are up to date.
    pub cache_valid: bool,
}

/// What an optional path holds.
pub open spec fn host_view(path: Option<HostPath>) -> Option<HostView> {
    match path {
        Some(path) => Some(path@),
        None => None,
    }
}

impl View for GitService {
    type V = ServiceView;

    closed spec fn view(&self) -> ServiceView {
        ServiceView {
            is_open: self.is_open,
            repo_root: host_view(self.repo_root),
            status_scope: host_view(self.status_scope),
            statuses: entry_views(self.file_statuses@),
            cache_valid: self.cache_valid,
        }
    }
}

impl ServiceView {
    /// The service without a repository.
    pub open spec fn nothing_open() -> ServiceView {
        ServiceView {
            is_open: false,
            repo_root: None,
            status_scope: None,
            statuses: Seq::empty(),
            cache_valid: false,
        }
    }

    /// Each path has one cached status, and one that is shown; without a repository there
    /// is nothing to know.
    pub open spec fn well_formed(self) -> bool {
        &&& distinct_paths(self.statuses)
        &&& all_visible(self.statuses)
        &&& !self.is_open ==> self == ServiceView::nothing_open()
        &&& self.is_open ==> self.status_scope is Some
    }

    /// The service with the repository at `location` open for the workspace `path`.
    pub open spec fn opened(self, path: HostView, location: RepoLocation) -> ServiceView {
        ServiceView {
            is_open: true,
            repo_root: match location.workdir {
                Some(workdir) => Some(workdir@),
                None => host_view(location.git_dir_parent),
            },
            status_scope: Some(path),
            statuses: self.statuses,
            cache_valid: false,
        }
    }

    /// The service after the search for a repository from `path` has ended so.
    pub open spec fn after_search(
        self,
        path: HostView,
        discovered: Result<RepoLocation, GitError>,
    ) -> ServiceView {
        match discovered {
            Ok(location) => self.opened(path, location),
            Err(_) => ServiceView::nothing_open(),
        }
    }

    /// The workspace as seen from the repository root, if it lies below it.
    pub open spec fn scope_below_root(self) -> Option<Seq<Seq<u8>>> {
        match (self.repo_root, self.status_scope) {
            (Some(root), Some(scope)) => relative_to(scope, root),
            _ => None,
        }
    }

    /// What a scan is limited to: the workspace, where it is not the whole repository.
    pub open spec fn pathspec(self) -> Option<Seq<u8>> {
        match self.scope_below_root() {
            Some(scope) => if scope.len() > 0 {
                Some(forward_slashes(written(scope)))
            } else {
                None
            },
            None => None,
        }
    }

    /// The scan that brings the cache up to date, if a repository is open.
    pub open spec fn query(self) -> Option<QueryView> {
        if self.is_open {
            Some(
                QueryView {
                    include_untracked: true,
                    recurse_untracked_dirs: false,
                    include_ignored: false,
                    include_unmodified: false,
                    pathspec: self.pathspec(),
                    literal_pathspec: false,
                },
            )
        } else {
            None
        }
    }

    /// The service after its cache has been brought up to date with a scan; none is a scan
    /// that failed or was not made.
    pub open spec fn updated(self, scan: Option<Seq<RawView>>) -> ServiceView {
        if self.cache_valid {
            self
        } else if !self.is_open || scan is None {
            ServiceView { statuses: Seq::empty(), ..self }
        } else {
            ServiceView { statuses: scanned(scan->0), cache_valid: true, ..self }
        }
    }

    /// The service with a cache that is out of date.
    pub open spec fn outdated(self) -> ServiceView {
        ServiceView { cache_valid: false, ..self }
    }

    /// `path` as seen from the repository root, if there is one and it lies below it.
    pub open spec fn inside(self, path: HostView) -> Option<Seq<Seq<u8>>> {
        match self.repo_root {
            Some(root) => relative_to(path, root),
            None => None,
        }
    }

    /// How far the cache answers the question for the status of a file.
    pub open spec fn status_step(self, path: HostView) -> FileStatusView {
        match self.inside(path) {
            Some(relative) => match lookup(self.statuses, relative) {
                Some(status) => FileStatusView::Known(status),
                None => FileStatusView::ReadStatus(relative),
            },
            None => FileStatusView::Known(GitFileStatus::Clean),
        }
    }

    /// How far the cache answers the question for the status of a directory.
    pub open spec fn directory_step(self, dir: HostView) -> DirectoryView {
        match self.inside(dir) {
            Some(relative) => if is_hidden(self.statuses, relative) {
                DirectoryView::ScanBelow(relative)
            } else {
                DirectoryView::Known(worst_below(self.statuses, relative))
            },
            None => DirectoryView::Known(GitFileStatus::Clean),
        }
    }

    /// The cached statuses, with the paths as seen from the root of the file system.
    pub open spec fn absolute_statuses(self) -> Seq<EntryView> {
        match self.repo_root {
            Some(root) => self.statuses.map_values(
                |entry: EntryView| (joined(root.parts, entry.0), entry.1),
            ),
            None => Seq::empty(),
        }
    }
}

/// What the entries of a scan hold, if there was one.
pub open spec fn scan_view(scan: Option<Vec<RawStatus>>) -> Option<Seq<RawView>> {
    match scan {
        Some(entries) => Some(raw_views(entries@)),
        None => None,
    }
}

/// What the search for a repository is answered with: whether one was found. That there is
/// none is no error.
pub open spec fn search_result(discovered: Result<RepoLocation, GitError>) -> Result<
    bool,
    GitError,
> {
    match discovered {
        Ok(_) => Ok(true),
        Err(error) => if error.code == GitErrorCode::NotFound {
            Ok(false)
        } else {
            Err(error)
        },
    }
}

impl Default for GitService {
    fn default() -> (service: Self)
        ensures
            service@ == ServiceView::nothing_open(),
            service@.well_formed(),
    {
        GitService::new()
    }
}

impl GitService {
    /// Create a new Git service without an associated repository.
    pub fn new() -> (service: GitService)
        ensures
            service@ == ServiceView::nothing_open(),
            service@.well_formed(),
    {
        let service = GitService {
            is_open: false,
            repo_root: None,
            status_scope: None,
            file_statuses: Vec::new(),
            cache_valid: false,
        };
        assert(service@.statuses =~= Seq::<EntryView>::empty());
        service
    }

    /// Open a Git repository from a path.
    ///
    /// `discovered` is what walking up from the path in search of a repository has found.
    /// Returns Ok(true) if a repository was found, Ok(false) if not.
    pub fn open(
        &mut self,
        path: &HostPath,
        discovered: Result<RepoLocation, GitError>,
    ) -> (found: Result<bool, GitError>)
        requires
            old(self)@.well_formed(),
        ensures
            match discovered {
                Ok(location) => {
                    &&& found == Ok::<bool, GitError>(true)
                    &&& final(self)@ == old(self)@.opened(path@, location)
                },
                Err(error) => {
                    &&& error.code == GitErrorCode::NotFound ==> found == Ok::<bool, GitError>(
                        false,
                    )
                    &&& error.code != GitErrorCode::NotFound ==> found == Err::<bool, GitError>(
                        error,
                    )
                    &&& final(self)@ == ServiceView::nothing_open()
                },
            },
            final(self)@ == old(self)@.after_search(path@, discovered),
            found == search_result(discovered),
            final(self)@.well_formed(),
    {
        match discovered {
            Ok(location) => {
                self.repo_root = match location.workdir {
                    Some(workdir) => Some(workdir),
                    None => location.git_dir_parent,
                };
                self.status_scope = Some(path.duplicate());
                self.is_open = true;
                self.cache_valid = false;
                Ok(true)
            },
            Err(error) => {
                self.close();
                if error.code == GitErrorCode::NotFound {
                    Ok(false)
                } else {
                    Err(error)
                }
            },
        }
    }

    /// Close the current repository connection.
    pub fn close(&mut self)
        ensures
            final(self)@ == ServiceView::nothing_open(),
            final(self)@.well_formed(),
    {
        self.is_open = false;
        self.repo_root = None;
        self.status_scope = None;
        self.file_statuses.clear();
        self.cache_valid = false;
        assert(self@.statuses =~= Seq::<EntryView>::empty());
    }

    /// Check if a Git repository is currently open.
    pub fn is_open(&self) -> (open: bool)
        ensures
            open == self@.is_open,
    {
        self.is_open
    }

    /// Get the repository root path.
    pub fn repo_root(&self) -> (root: Option<&HostPath>)
        ensures
            match self@.repo_root {
                Some(view) => root is Some && root->0@ == view,
                None => root is None,
            },
    {
        self.repo_root.as_ref()
    }

    /// Get the path that was opened as the workspace.
    pub fn status_scope(&self) -> (scope: Option<&HostPath>)
        ensures
            match self@.status_scope {
                Some(view) => scope is Some && scope->0@ == view,
                None => scope is None,
            },
    {
        self.status_scope.as_ref()
    }

    /// Whether the cached statuses are up to date, so that no scan is needed.
    pub fn is_cache_valid(&self) -> (valid: bool)
        ensures
            valid == self@.cache_valid,
    {
        self.cache_valid
    }

    /// Get the current branch name.
    ///
    /// `head` is what `HEAD` of the open repository was found to be. The answer is
    /// - Some(name) - the current branch name (e.g., "main", "feature/xyz")
    /// - Some("HEAD detached") - if in detached HEAD state
    /// - None - if no repository is open or an error occurred
    ///
    /// and, for a branch without a commit, waits for the configured default branch.
    pub fn current_branch(&self, head: Option<HeadReply>) -> (step: BranchStep)
        ensures
            step@ == (if self@.is_open {
                branch_of(head)
            } else {
                BranchView::Known(None)
            }),
    {
        if !self.is_open {
            return BranchStep::Known(None);
        }
        match head {
            Some(HeadReply::Branch(name)) => BranchStep::Known(name),
            Some(HeadReply::NotABranch { has_target }) => {
                if has_target {
                    BranchStep::Known(Some("HEAD detached".to_owned()))
                } else {
                    BranchStep::Known(None)
                }
            },
            Some(HeadReply::Failed(code)) => {
                if code == GitErrorCode::UnbornBranch {
                    BranchStep::ReadDefaultBranch
                } else {
                    BranchStep::Known(None)
                }
            },
            None => BranchStep::Known(None),
        }
    }

    /// The scan that brings the cache up to date, if a repository is open.
    pub fn scan_request(&self) -> (query: Option<StatusQuery>)
        ensures
            query is Some <==> self@.is_open,
            query matches Some(q) ==> {
                &&& q.include_untracked
                &&& !q.recurse_untracked_dirs
                &&& !q.include_ignored
                &&& !q.include_unmodified
                &&& match self@.pathspec() {
                    Some(text) => q.pathspec is Some && q.pathspec->0@ == text,
                    None => q.pathspec is None,
                }
                &&& !q.literal_pathspec
            },
            query matches Some(q) ==> Some(q@) == self@.query(),
            query is None ==> self@.query() is None,
    {
        if !self.is_open {
            return None;
        }
        let mut pathspec: Option<Vec<u8>> = None;
        if let (Some(root), Some(scope)) = (&self.repo_root, &self.status_scope) {
            if let Some(relative) = repo_relative_path(scope, root) {
                if relative.len() > 0 {
                    pathspec = Some(to_forward_slashes(relative.to_text().as_slice()));
                }
            }
        }
        Some(
            StatusQuery {
                include_untracked: true,
                recurse_untracked_dirs: false,
                include_ignored: false,
                include_unmodified: false,
                pathspec,
                literal_pathspec: false,
            },
        )
    }

    /// Refresh the file status cache.
    ///
    /// This should be called when files might have changed.
    pub fn refresh_status(&mut self, scan: Option<Vec<RawStatus>>)
        requires
            old(self)@.well_formed(),
        ensures
            final(self)@ == old(self)@.outdated().updated(scan_view(scan)),
            final(self)@.well_formed(),
    {
        self.cache_valid = false;
        self.update_status_cache(scan);
    }

    /// Update the file status cache if needed.
    pub fn update_status_cache(&mut self, scan: Option<Vec<RawStatus>>)
        requires
            old(self)@.well_formed(),
        ensures
            final(self)@ == old(self)@.updated(scan_view(scan)),
            final(self)@.well_formed(),
    {
        if self.cache_valid {
            return;
        }
        self.file_statuses.clear();
        assert(self@.statuses =~= Seq::<EntryView>::empty());
        if !self.is_open {
            return;
        }
        if let Some(entries) = scan {
            proof {
                crate::vcs::cache::scanned_statuses_are_distinct_and_visible(raw_views(entries@));
            }
            self.file_statuses = collect(entries);
            self.cache_valid = true;
        }
    }

    /// Get the Git status for a specific file.
    ///
    /// The path should be absolute. The answer is GitFileStatus::Clean if the file
    /// is tracked and unmodified, or if the path is outside the repository. Where the cache
    /// does not hold the path, the repository has to be asked about this file.
    pub fn file_status(
        &mut self,
        path: &HostPath,
        scan: Option<Vec<RawStatus>>,
    ) -> (step: FileStatusStep)
        requires
            old(self)@.well_formed(),
        ensures
            final(self)@ == old(self)@.updated(scan_view(scan)),
            final(self)@.well_formed(),
            step@ == final(self)@.status_step(path@),
    {
        self.update_status_cache(scan);
        let relative = match &self.repo_root {
            Some(root) => match repo_relative_path(path, root) {
                Some(relative) => relative,
                None => return FileStatusStep::Known(GitFileStatus::Clean),
            },
            None => return FileStatusStep::Known(GitFileStatus::Clean),
        };
        match find(&self.file_statuses, &relative) {
            Some(i) => {
                assert(self@.statuses[i as int] == self.file_statuses@[i as int]@);
                FileStatusStep::Known(self.file_statuses[i].status)
            },
            None => FileStatusStep::ReadStatus(relative),
        }
    }

    /// Get all file statuses with absolute paths, after the cache has been brought up to date.
    pub fn get_all_statuses(&mut self, scan: Option<Vec<RawStatus>>) -> (statuses: Vec<StatusEntry>)
        requires
            old(self)@.well_formed(),
        ensures
            final(self)@ == old(self)@.updated(scan_view(scan)),
            final(self)@.well_formed(),
            entry_views(statuses@) == final(self)@.absolute_statuses(),
    {
        self.update_status_cache(scan);
        self.cached_all_statuses()
    }

    /// Get currently cached statuses without refreshing the cache.
    ///
    /// UI rendering should use this method so a paint pass never blocks on
    /// `git status`. Refresh is driven by explicit or debounced background
    /// refresh paths.
    pub fn cached_all_statuses(&self) -> (statuses: Vec<StatusEntry>)
        ensures
            entry_views(statuses@) == self@.absolute_statuses(),
    {
        let mut statuses: Vec<StatusEntry> = Vec::new();
        if let Some(root) = &self.repo_root {
            let ghost all = self@.absolute_statuses();
            let mut i: usize = 0;
            assert(entry_views(statuses@) =~= all.take(0));
            while i < self.file_statuses.len()
                invariant
                    self.repo_root == Some(*root),
                    all == self@.absolute_statuses(),
                    i <= self.file_statuses@.len(),
                    entry_views(statuses@) == all.take(i as int),
                decreases self.file_statuses@.len() - i,
            {
                let entry = &self.file_statuses[i];
                let path = root.parts.join(&entry.path);
                let ghost before = statuses@;
                statuses.push(StatusEntry { path, status: entry.status });
                proof {
                    assert(self@.statuses[i as int] == entry@);
                    assert(all[i as int] == (path@, entry.status));
                    assert(entry_views(statuses@) =~= entry_views(before).push(all[i as int]));
                    assert(all.take(i + 1) =~= all.take(i as int).push(all[i as int]));
                }
                i = i + 1;
            }
            assert(all.take(i as int) =~= all);
        } else {
            assert(entry_views(statuses@) =~= Seq::<EntryView>::empty());
        }
        statuses
    }

    /// Get the Git status for a directory.
    ///
    /// The answer is the "worst" status of any file within the directory:
    /// Conflict > StagedModified > Modified > Staged > Untracked > Deleted > Clean
    ///
    /// A scan lists an untracked directory without what is in it. Where the directory lies
    /// in one, it has to be scanned.
    pub fn directory_status(
        &mut self,
        dir_path: &HostPath,
        scan: Option<Vec<RawStatus>>,
    ) -> (step: DirectoryStep)
        requires
            old(self)@.well_formed(),
        ensures
            final(self)@ == old(self)@.updated(scan_view(scan)),
            final(self)@.well_formed(),
            step@ == final(self)@.directory_step(dir_path@),
    {
        self.update_status_cache(scan);
        let relative = match &self.repo_root {
            Some(root) => match repo_relative_path(dir_path, root) {
                Some(relative) => relative,
                None => return DirectoryStep::Known(GitFileStatus::Clean),  // Path outside repo
            },
            None => return DirectoryStep::Known(GitFileStatus::Clean),
        };
        if hidden(&self.file_statuses, &relative) {
            DirectoryStep::ScanBelow(relative)
        } else {
            DirectoryStep::Known(worst(&self.file_statuses, &relative))
        }
    }

    /// Compare two statuses and return the "worse" one for aggregation.
    pub fn worse_status(a: GitFileStatus, b: GitFileStatus) -> (status: GitFileStatus)
        ensures
            status == worse(a, b),
    {
        if severity_of(a) >= severity_of(b) {
            a
        } else {
            b
        }
    }
}

// ---------------------------------------------------------------------------
// What holds of questions and answers
// ---------------------------------------------------------------------------

/// Whether the question, if there is one, is about the file with this path.
pub open spec fn is_about(step: FileStatusView, file: Seq<Seq<u8>>) -> bool {
    match step {
        FileStatusView::Known(_) => true,
        FileStatusView::ReadStatus(path) => path == file,
        FileStatusView::CheckFile { path, .. } => path == file,
        FileStatusView::CheckIgnored { path, .. } => path == file,
        FileStatusView::CheckIndex { path, .. } => path == file,
    }
}

/// The step that follows on these answers, one after the other.
pub open spec fn answered_all(
    step: FileStatusView,
    answers: Seq<FileStatusAnswer>,
) -> FileStatusView
    decreases answers.len(),
{
    if answers.len() == 0 {
        step
    } else {
        answered(answered_all(step, answers.drop_last()), answers.last())
    }
}

/// Every question that follows from the question for a file is about that same file, whatever
/// the answers are.
pub proof fn questions_stay_with_the_file(
    step: FileStatusView,
    file: Seq<Seq<u8>>,
    answers: Seq<FileStatusAnswer>,
)
    requires
        is_about(step, file),
    ensures
        forall|answer: FileStatusAnswer| is_about(#[trigger] answered(step, answer), file),
        is_about(answered_all(step, answers), file),
        is_about(answered_all(FileStatusView::ReadStatus(file), answers), file),
    decreases answers.len(),
{
    if answers.len() > 0 {
        questions_stay_with_the_file(step, file, answers.drop_last());
    }
}

/// Each question is moved on by its own answer alone, and always; once the status is known,
/// nothing changes it.
pub proof fn answers_fit_their_question(
    file: Seq<Seq<u8>>,
    flag: bool,
    status: GitFileStatus,
    answer: FileStatusAnswer,
)
    ensures
        answered(FileStatusView::Known(status), answer) == FileStatusView::Known(status),
        answered(FileStatusView::ReadStatus(file), answer) == FileStatusView::ReadStatus(file)
            <==> !(answer is Status),
        ({
            let step = FileStatusView::CheckFile { path: file, unmodified: flag };
            answered(step, answer) == step <==> !(answer is IsFile)
        }),
        ({
            let step = FileStatusView::CheckIgnored { path: file, unmodified: flag };
            answered(step, answer) == step <==> !(answer is Ignored)
        }),
        ({
            let step = FileStatusView::CheckIndex { path: file, ignored: flag };
            answered(step, answer) == step <==> !(answer is Indexed)
        }),
{
}

/// The status that comes out for a file. Where Git's own flags for the file say something, they
/// decide, and nothing more is asked. Else something that is no file is clean; a file that is
/// tracked and unmodified is clean though an ignore rule matches it; any other file that an
/// ignore rule matches is ignored; one that none is known to match is untracked exactly where
/// the index is known not to hold it.
pub proof fn files_have_the_status_that_git_knows(
    file: Seq<Seq<u8>>,
    bits: Option<u32>,
    is_file: bool,
    ignored: Option<bool>,
    indexed: Option<bool>,
)
    ensures
        ({
            let first = answered(FileStatusView::ReadStatus(file), FileStatusAnswer::Status(bits));
            let second = answered(first, FileStatusAnswer::IsFile(is_file));
            let third = answered(second, FileStatusAnswer::Ignored(ignored));
            let fourth = answered(third, FileStatusAnswer::Indexed(indexed));
            let silent = bits is None || bits->0 & 0xcb8f == 0;
            let in_index = bits is Some && indexed == Some(true);
            &&& fourth is Known
            &&& !silent <==> first is Known
            &&& !silent ==> fourth == FileStatusView::Known(classified(bits->0))
            &&& silent && !is_file ==> fourth == FileStatusView::Known(GitFileStatus::Clean)
            &&& silent && in_index ==> fourth == FileStatusView::Known(GitFileStatus::Clean)
            &&& silent && is_file && !in_index && ignored == Some(true) ==> fourth
                == FileStatusView::Known(GitFileStatus::Ignored)
            &&& silent && is_file && ignored != Some(true) && indexed == Some(false) ==> fourth
                == FileStatusView::Known(GitFileStatus::Untracked)
            &&& silent && is_file && ignored != Some(true) && indexed != Some(false) ==> fourth
                == FileStatusView::Known(GitFileStatus::Clean)
        }),
{
    if let Some(flags) = bits {
        crate::vcs::status::clean_files_have_none_of_the_flags(flags);
    }
}

/// A branch is called by its own name; what points at a commit without a branch is called
/// detached; and only a branch without a commit needs the configured default.
pub proof fn branches_keep_their_names(head: HeadReply, default_branch: Seq<char>)
    ensures
        branch_of(None) == BranchView::Known(None),
        head matches HeadReply::Branch(Some(name)) ==> branch_of(Some(head)) == BranchView::Known(
            Some(name@),
        ),
        head matches HeadReply::Branch(None) ==> branch_of(Some(head)) == BranchView::Known(None),
        head matches HeadReply::NotABranch { has_target: true } ==> branch_of(Some(head))
            == BranchView::Known(
            Some(seq!['H', 'E', 'A', 'D', ' ', 'd', 'e', 't', 'a', 'c', 'h', 'e', 'd']),
        ),
        head matches HeadReply::NotABranch { has_target: false } ==> branch_of(Some(head))
            == BranchView::Known(None),
        head matches HeadReply::Failed(code) ==> (if code == GitErrorCode::UnbornBranch {
            branch_of(Some(head)) == BranchView::ReadDefaultBranch
        } else {
            branch_of(Some(head)) == BranchView::Known(None)
        }),
        unborn_name(Some(default_branch)) == default_branch + seq![
            ' ',
            '(',
            'u',
            'n',
            'b',
            'o',
            'r',
            'n',
            ')',
        ],
        unborn_name(None) == unborn_name(Some(seq!['m', 'a', 'i', 'n'])),
{
    reveal_strlit("HEAD detached");
    reveal_strlit(" (unborn)");
    reveal_strlit("main (unborn)");
    assert("HEAD detached"@ =~= seq![
        'H',
        'E',
        'A',
        'D',
        ' ',
        'd',
        'e',
        't',
        'a',
        'c',
        'h',
        'e',
        'd',
    ]);
    assert(" (unborn)"@ =~= seq![' ', '(', 'u', 'n', 'b', 'o', 'r', 'n', ')']);
    assert("main (unborn)"@ =~= seq!['m', 'a', 'i', 'n'] + " (unborn)"@);
}

/// What is known of a branch stays as it is; a branch without a commit comes out with a name
/// whatever is configured, and with the configured one where there is one.
pub proof fn default_branches_are_for_unborn_ones(
    branch: Option<Seq<char>>,
    default_branch: Option<Seq<char>>,
)
    ensures
        branch_answered(BranchView::Known(branch), default_branch) == BranchView::Known(branch),
        branch_answered(BranchView::ReadDefaultBranch, default_branch) matches BranchView::Known(
            Some(name),
        ) && (default_branch matches Some(configured) ==> configured.is_prefix_of(name)),
{
    if let Some(configured) = default_branch {
        let name = configured + " (unborn)"@;
        assert(name.subrange(0, configured.len() as int) =~= configured);
    }
}

/// Every scan looks for untracked files and for none that is ignored or unmodified. The one of
/// the whole workspace does not go into untracked directories; the one of a single directory
/// does, and what it is limited to is that directory, by its name.
pub proof fn scans_look_for_what_is_shown(service: ServiceView, step: DirectoryView)
    ensures
        service.query() is Some <==> service.is_open,
        service.query() matches Some(query) ==> query.include_untracked && !query.include_ignored
            && !query.include_unmodified && !query.recurse_untracked_dirs
            && !query.literal_pathspec && query.pathspec == service.pathspec(),
        directory_query(step) is Some <==> step is ScanBelow,
        directory_query(step) matches Some(query) ==> query.include_untracked
            && !query.include_ignored && !query.include_unmodified && query.recurse_untracked_dirs
            && query.literal_pathspec && query.pathspec is Some,
        step matches DirectoryView::ScanBelow(dir) ==> (crate::paths::well_formed(dir)
            ==> directory_query(step) is Some && crate::paths::components(
            directory_query(step)->0.pathspec->0,
        ) == dir),
{
    if let DirectoryView::ScanBelow(dir) = step {
        if crate::paths::well_formed(dir) {
            crate::paths::written_reads_back(dir);
        }
    }
}

} // verus!
