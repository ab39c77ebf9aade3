use ferrite::vcs::cache::{RawStatus, StatusEntry};
use ferrite::vcs::git::{
    BranchStep, DirectoryStep, FileStatusAnswer, FileStatusStep, GitError, GitErrorCode,
    GitService, HeadReply, RepoLocation, StatusQuery,
};
use ferrite::vcs::relative::HostPath;
use ferrite::vcs::status::GitFileStatus;
use git2::{ErrorCode, Repository, StatusOptions};
use std::io::Write;
use std::path::{Path, PathBuf};
use tempfile::TempDir;

const WT_NEW: u32 = 1 << 7;
const WT_MODIFIED: u32 = 1 << 8;
const INDEX_MODIFIED: u32 = 1 << 1;
const IGNORED: u32 = 1 << 14;
const CONFLICTED: u32 = 1 << 15;

fn host(path: &Path) -> HostPath {
    HostPath::from_text(path.as_os_str().as_encoded_bytes())
}

fn error(e: &git2::Error) -> GitError {
    let code = match e.code() {
        ErrorCode::NotFound => GitErrorCode::NotFound,
        ErrorCode::UnbornBranch => GitErrorCode::UnbornBranch,
        _ => GitErrorCode::Other,
    };
    GitError { code, message: e.message().to_string() }
}

fn discover(path: &Path) -> Result<RepoLocation, GitError> {
    match Repository::discover(path) {
        Ok(repo) => Ok(RepoLocation {
            workdir: repo.workdir().map(host),
            git_dir_parent: repo.path().parent().map(host),
        }),
        Err(e) => Err(error(&e)),
    }
}

fn scan(repo: &Repository, query: StatusQuery) -> Option<Vec<RawStatus>> {
    let mut options = StatusOptions::new();
    options
        .include_untracked(query.include_untracked)
        .recurse_untracked_dirs(query.recurse_untracked_dirs)
        .include_ignored(query.include_ignored)
        .include_unmodified(query.include_unmodified)
        .disable_pathspec_match(query.literal_pathspec);
    if let Some(pathspec) = query.pathspec {
        options.pathspec(pathspec);
    }
    let statuses = repo.statuses(Some(&mut options)).ok()?;
    let entries = statuses
        .iter()
        .map(|entry| RawStatus {
            path: entry.path().map(|path| path.as_bytes().to_vec()),
            bits: entry.status().bits(),
        })
        .collect();
    Some(entries)
}

fn head(repo: &Repository) -> HeadReply {
    match repo.head() {
        Ok(head) if head.is_branch() => HeadReply::Branch(head.shorthand().map(str::to_string)),
        Ok(head) => HeadReply::NotABranch { has_target: head.target().is_some() },
        Err(e) => HeadReply::Failed(error(&e).code),
    }
}

fn contains(statuses: &[StatusEntry], path: &Path) -> Option<GitFileStatus> {
    let wanted = host(path).parts;
    statuses.iter().find(|entry| entry.path.same(&wanted)).map(|entry| entry.status)
}

fn raw(path: &str, bits: u32) -> RawStatus {
    RawStatus { path: Some(path.as_bytes().to_vec()), bits }
}

/// A service with a repository at /repo, opened for `scope`.
fn opened(scope: &str) -> GitService {
    let mut service = GitService::new();
    let location = RepoLocation {
        workdir: Some(HostPath::from_text(b"/repo/")),
        git_dir_parent: Some(HostPath::from_text(b"/repo")),
    };
    assert!(service.open(&HostPath::from_text(scope.as_bytes()), Ok(location)).unwrap());
    service
}

fn failure(code: GitErrorCode) -> GitError {
    GitError { code, message: "failed".to_string() }
}

fn known(step: FileStatusStep) -> GitFileStatus {
    match step {
        FileStatusStep::Known(status) => status,
        other => panic!("not answered: {other:?}"),
    }
}

/// The status of a directory of which no scan is needed.
fn settled(step: DirectoryStep) -> GitFileStatus {
    assert!(step.scan_request().is_none());
    match step {
        DirectoryStep::Known(status) => status,
        other => panic!("not answered: {other:?}"),
    }
}

#[test]
fn test_git_service_new() {
    let service = GitService::new();
    assert!(!service.is_open());
    assert!(matches!(service.current_branch(None), BranchStep::Known(None)));
    assert!(service.repo_root().is_none());
}

#[test]
fn test_git_service_non_repo() {
    let temp_dir = TempDir::new().unwrap();
    let mut service = GitService::new();

    // Should return Ok(false) for non-repo directory
    let result = service.open(&host(temp_dir.path()), discover(temp_dir.path()));
    assert!(result.is_ok());
    assert!(!result.unwrap());
    assert!(!service.is_open());
}

#[test]
fn test_git_service_with_repo() {
    let temp_dir = TempDir::new().unwrap();
    let repo_path = temp_dir.path();

    // Initialize a Git repository
    let repo = Repository::init(repo_path).unwrap();
    assert!(repo.workdir().is_some());

    let mut service = GitService::new();
    let result = service.open(&host(repo_path), discover(repo_path));

    assert!(result.is_ok());
    assert!(result.unwrap());
    assert!(service.is_open());
    assert!(service.repo_root().is_some());

    // Branch should be something like "main (unborn)" for empty repo
    let step = service.current_branch(Some(head(&repo)));
    assert!(matches!(step, BranchStep::ReadDefaultBranch));
    let branch = match step.answer(None) {
        BranchStep::Known(branch) => branch,
        BranchStep::ReadDefaultBranch => None,
    };
    assert!(branch.is_some());
    assert_eq!(branch.unwrap(), "main (unborn)");
}

#[test]
fn test_git_service_untracked_file() {
    let temp_dir = TempDir::new().unwrap();
    let repo_path = temp_dir.path();

    // Initialize repo
    let repo = Repository::init(repo_path).unwrap();

    // Create an untracked file
    let mut file = tempfile::Builder::new()
        .prefix("test")
        .suffix(".txt")
        .rand_bytes(0)
        .tempfile_in(repo_path)
        .unwrap();
    file.write_all(b"hello").unwrap();
    let file_path = repo_path.join("test.txt");

    let mut service = GitService::new();
    service.open(&host(repo_path), discover(repo_path)).unwrap();
    let reply = scan(&repo, service.scan_request().unwrap());
    service.refresh_status(reply);

    let step = service.file_status(&host(&file_path), None);
    assert_eq!(known(step), GitFileStatus::Untracked);
}

#[test]
fn test_git_service_status_refresh_is_scoped_to_opened_workspace() {
    let temp_dir = TempDir::new().unwrap();
    let repo_path = temp_dir.path();
    let repo = Repository::init(repo_path).unwrap();

    let workspace_dir = tempfile::Builder::new()
        .prefix("workspace")
        .rand_bytes(0)
        .tempdir_in(repo_path)
        .unwrap();
    let workspace = workspace_dir.path();
    let named = |name: &str, dir: &Path| {
        let mut file =
            tempfile::Builder::new().prefix(name).rand_bytes(0).tempfile_in(dir).unwrap();
        file.write_all(name.as_bytes()).unwrap();
        file
    };
    let _inside = named("inside.txt", workspace);
    let _outside = named("outside.txt", repo_path);
    let inside_file = workspace.join("inside.txt");
    let outside_file = repo_path.join("outside.txt");

    let mut index = repo.index().unwrap();
    index.add_path(Path::new("workspace/inside.txt")).unwrap();
    index.add_path(Path::new("outside.txt")).unwrap();
    index.write().unwrap();

    let mut service = GitService::new();
    service.open(&host(workspace), discover(workspace)).unwrap();
    let reply = scan(&repo, service.scan_request().unwrap());
    service.refresh_status(reply);

    let statuses = service.cached_all_statuses();
    assert!(
        contains(&statuses, &inside_file).is_some(),
        "expected workspace status in cache: {statuses:?}"
    );
    assert!(
        contains(&statuses, &outside_file).is_none(),
        "status cache should not include paths outside opened workspace: {statuses:?}"
    );
}

#[test]
fn test_git_service_cached_all_statuses_does_not_refresh() {
    let temp_dir = TempDir::new().unwrap();
    let repo_path = temp_dir.path();
    Repository::init(repo_path).unwrap();

    let mut service = GitService::new();
    service.open(&host(repo_path), discover(repo_path)).unwrap();
    service.refresh_status(Some(vec![raw("cached.txt", WT_MODIFIED)]));
    // Opening again keeps the statuses and marks them as out of date.
    service.open(&host(repo_path), discover(repo_path)).unwrap();
    assert!(!service.is_cache_valid());

    let statuses = service.cached_all_statuses();

    assert_eq!(
        contains(&statuses, &repo_path.join("cached.txt")),
        Some(GitFileStatus::Modified)
    );
    assert!(!service.is_cache_valid());
}

#[test]
fn test_git_service_close() {
    let mut service = GitService::new();
    let temp_dir = TempDir::new().unwrap();
    Repository::init(temp_dir.path()).unwrap();

    service.open(&host(temp_dir.path()), discover(temp_dir.path())).unwrap();
    assert!(service.is_open());

    service.close();
    assert!(!service.is_open());
    assert!(service.repo_root().is_none());
}

#[test]
fn default_service_has_no_repository() {
    let service = GitService::default();
    assert!(!service.is_open());
    assert!(service.scan_request().is_none());
    assert!(service.cached_all_statuses().is_empty());
}

#[test]
fn other_errors_are_passed_on() {
    let mut service = opened("/repo");
    let result = service.open(&HostPath::from_text(b"/x"), Err(failure(GitErrorCode::Other)));
    let error = result.unwrap_err();
    assert_eq!(error.code, GitErrorCode::Other);
    assert_eq!(error.message, "failed");
    assert!(!service.is_open());

    let mut service = opened("/repo");
    let result =
        service.open(&HostPath::from_text(b"/x"), Err(failure(GitErrorCode::UnbornBranch)));
    assert!(result.is_err());
    assert!(!service.is_open());
}

#[test]
fn bare_repositories_lie_in_the_parent_of_their_directory() {
    let mut service = GitService::new();
    let location = RepoLocation {
        workdir: None,
        git_dir_parent: Some(HostPath::from_text(b"/srv/bare")),
    };
    service.open(&HostPath::from_text(b"/srv/bare"), Ok(location)).unwrap();
    assert_eq!(service.repo_root().unwrap().parts.to_text(), b"/srv/bare");
}

fn branch(service: &GitService, head: HeadReply) -> Option<String> {
    match service.current_branch(Some(head)) {
        BranchStep::Known(branch) => branch,
        BranchStep::ReadDefaultBranch => panic!("the default branch is needed"),
    }
}

#[test]
fn branches() {
    let service = opened("/repo");
    assert_eq!(
        branch(&service, HeadReply::Branch(Some("feature/xyz".to_string()))).as_deref(),
        Some("feature/xyz")
    );
    assert_eq!(branch(&service, HeadReply::Branch(None)), None);
    assert_eq!(
        branch(&service, HeadReply::NotABranch { has_target: true }).as_deref(),
        Some("HEAD detached")
    );
    assert_eq!(branch(&service, HeadReply::NotABranch { has_target: false }), None);
    assert_eq!(branch(&service, HeadReply::Failed(GitErrorCode::Other)), None);
    assert_eq!(branch(&service, HeadReply::Failed(GitErrorCode::NotFound)), None);
    let closed = GitService::new();
    assert_eq!(branch(&closed, HeadReply::Branch(Some("main".to_string()))), None);
}

#[test]
fn unborn_branches() {
    let service = opened("/repo");
    let step = service.current_branch(Some(HeadReply::Failed(GitErrorCode::UnbornBranch)));
    match step.answer(Some("trunk".to_string())) {
        BranchStep::Known(name) => assert_eq!(name.as_deref(), Some("trunk (unborn)")),
        BranchStep::ReadDefaultBranch => panic!("not answered"),
    }
    let settled = BranchStep::Known(Some("main".to_string()));
    assert!(matches!(settled.answer(None), BranchStep::Known(Some(name)) if name == "main"));
}

#[test]
fn scans_are_limited_to_a_part_of_the_repository() {
    let whole = opened("/repo").scan_request().unwrap();
    assert!(whole.include_untracked);
    assert!(!whole.recurse_untracked_dirs);
    assert!(!whole.include_ignored);
    assert!(!whole.include_unmodified);
    assert_eq!(whole.pathspec, None);
    assert!(!whole.literal_pathspec);
    let part = opened("/repo/docs/api/").scan_request().unwrap();
    assert_eq!(part.pathspec.as_deref(), Some("docs/api".as_bytes()));
    let mixed = opened("/repo/docs\\api").scan_request().unwrap();
    assert_eq!(mixed.pathspec.as_deref(), Some("docs/api".as_bytes()));
    assert_eq!(opened("/elsewhere").scan_request().unwrap().pathspec, None);
}

#[test]
fn refresh_replaces_what_was_cached() {
    let mut service = opened("/repo");
    service.refresh_status(Some(vec![
        raw("a", WT_MODIFIED),
        raw("clean", 0),
        RawStatus { path: None, bits: WT_NEW },
        raw("dir/", WT_NEW),
        raw("a", INDEX_MODIFIED),
    ]));
    assert!(service.is_cache_valid());
    let statuses = service.cached_all_statuses();
    assert_eq!(statuses.len(), 2);
    assert_eq!(contains(&statuses, Path::new("/repo/a")), Some(GitFileStatus::Staged));
    assert_eq!(contains(&statuses, Path::new("/repo/dir")), Some(GitFileStatus::Untracked));

    // An update does nothing while the cache is valid, a refresh always does.
    service.update_status_cache(Some(vec![raw("b", WT_NEW)]));
    assert_eq!(service.cached_all_statuses().len(), 2);
    service.refresh_status(Some(vec![raw("b", WT_NEW)]));
    let statuses = service.get_all_statuses(None);
    assert_eq!(statuses.len(), 1);
    assert_eq!(contains(&statuses, Path::new("/repo/b")), Some(GitFileStatus::Untracked));
}

#[test]
fn failed_scans_leave_nothing() {
    let mut service = opened("/repo");
    service.refresh_status(Some(vec![raw("a", WT_MODIFIED)]));
    service.refresh_status(None);
    assert!(!service.is_cache_valid());
    assert!(service.cached_all_statuses().is_empty());
}

#[test]
fn closed_services_take_in_nothing() {
    let mut service = GitService::new();
    service.refresh_status(Some(vec![raw("a", WT_MODIFIED)]));
    assert!(!service.is_cache_valid());
    assert!(service.cached_all_statuses().is_empty());
    let step = service.file_status(&HostPath::from_text(b"/repo/a"), None);
    assert_eq!(known(step), GitFileStatus::Clean);
    let step = service.directory_status(&HostPath::from_text(b"/repo"), None);
    assert_eq!(settled(step), GitFileStatus::Clean);
}

#[test]
fn status_of_a_file() {
    let mut service = opened("/repo");
    let reply = Some(vec![raw("src/a", WT_MODIFIED)]);
    let step = service.file_status(&HostPath::from_text(b"/repo/src/a"), reply);
    assert_eq!(known(step), GitFileStatus::Modified);
    let step = service.file_status(&HostPath::from_text(b"/other/src/a"), None);
    assert_eq!(known(step), GitFileStatus::Clean);
    match service.file_status(&HostPath::from_text(b"/repo/src/b"), None) {
        FileStatusStep::ReadStatus(path) => assert_eq!(path.to_text(), b"src/b"),
        other => panic!("unexpected step {other:?}"),
    }
}

fn asked(answers: [FileStatusAnswer; 4]) -> GitFileStatus {
    let mut service = opened("/repo");
    let mut step = service.file_status(&HostPath::from_text(b"/repo/x"), Some(vec![]));
    for answer in answers {
        step = step.answer(answer);
    }
    known(step)
}

#[test]
fn files_that_no_scan_has_listed() {
    let ask = |bits, is_file, ignored, indexed| {
        asked([
            FileStatusAnswer::Status(bits),
            FileStatusAnswer::IsFile(is_file),
            FileStatusAnswer::Ignored(ignored),
            FileStatusAnswer::Indexed(indexed),
        ])
    };
    assert_eq!(ask(Some(WT_NEW), true, Some(true), Some(false)), GitFileStatus::Untracked);
    assert_eq!(ask(Some(CONFLICTED), false, None, None), GitFileStatus::Conflict);
    assert_eq!(ask(Some(0), true, Some(true), Some(false)), GitFileStatus::Ignored);
    assert_eq!(ask(Some(0), true, Some(true), None), GitFileStatus::Ignored);
    assert_eq!(ask(Some(0), true, Some(false), Some(false)), GitFileStatus::Untracked);
    assert_eq!(ask(None, true, Some(true), Some(true)), GitFileStatus::Ignored);
    // Tracked and unmodified, though an ignore rule matches it too.
    assert_eq!(ask(Some(0), true, Some(true), Some(true)), GitFileStatus::Clean);
    assert_eq!(ask(None, true, Some(false), Some(false)), GitFileStatus::Untracked);
    assert_eq!(ask(None, true, None, Some(false)), GitFileStatus::Untracked);
    assert_eq!(ask(None, true, Some(false), Some(true)), GitFileStatus::Clean);
    assert_eq!(ask(None, true, Some(false), None), GitFileStatus::Clean);
    assert_eq!(ask(None, false, Some(true), Some(false)), GitFileStatus::Clean);
}

#[test]
fn answers_to_other_questions_change_nothing() {
    let mut service = opened("/repo");
    let step = service.file_status(&HostPath::from_text(b"/repo/x"), Some(vec![]));
    let step = step.answer(FileStatusAnswer::IsFile(true));
    assert!(matches!(step, FileStatusStep::ReadStatus(_)));
}

#[test]
fn status_of_a_directory() {
    let mut service = opened("/repo");
    let reply = Some(vec![
        raw("docs/a", WT_MODIFIED),
        raw("docs/b", INDEX_MODIFIED),
        raw("docs/sub/c", WT_NEW),
        raw("docsx/d", CONFLICTED),
    ]);
    let step = service.directory_status(&HostPath::from_text(b"/repo/docs"), reply);
    assert_eq!(settled(step), GitFileStatus::Modified);
    let mut ask = |path: &str| {
        settled(service.directory_status(&HostPath::from_text(path.as_bytes()), None))
    };
    assert_eq!(ask("/repo/docs/sub"), GitFileStatus::Untracked);
    assert_eq!(ask("/repo"), GitFileStatus::Conflict);
    assert_eq!(ask("/repo/empty"), GitFileStatus::Clean);
    assert_eq!(ask("/elsewhere"), GitFileStatus::Clean);
}

#[test]
fn directories_in_an_untracked_directory() {
    let mut service = opened("/repo");
    let reply = Some(vec![raw("new/", WT_NEW), raw("src", WT_MODIFIED), raw("old/", IGNORED)]);
    let step = service.directory_status(&HostPath::from_text(b"/repo/new"), reply);
    assert_eq!(settled(step), GitFileStatus::Untracked);
    let mut ask = |path: &str| {
        service.directory_status(&HostPath::from_text(path.as_bytes()), None)
    };
    for path in ["/repo/new/sub", "/repo/new/sub/deeper"] {
        assert!(matches!(ask(path), DirectoryStep::ScanBelow(_)));
    }
    assert_eq!(settled(ask("/repo")), GitFileStatus::Modified);
    assert_eq!(settled(ask("/repo/newer")), GitFileStatus::Clean);
    // What is in a tracked or an ignored entry is not hidden.
    assert_eq!(settled(ask("/repo/src/sub")), GitFileStatus::Clean);
    assert_eq!(settled(ask("/repo/old/sub")), GitFileStatus::Clean);

    let query = ask("/repo/new/sub").scan_request().unwrap();
    assert!(query.include_untracked && query.recurse_untracked_dirs);
    assert!(!query.include_ignored && !query.include_unmodified);
    assert_eq!(query.pathspec.as_deref(), Some("new/sub".as_bytes()));
    assert!(query.literal_pathspec);

    let listed = vec![raw("new/sub/a", WT_NEW), raw("new/sub2/b", CONFLICTED)];
    assert_eq!(ask("/repo/new/sub").answer(Some(listed)), GitFileStatus::Untracked);
    let elsewhere = vec![raw("new/a", WT_NEW), raw("new/sub2/b", CONFLICTED)];
    assert_eq!(ask("/repo/new/sub").answer(Some(elsewhere)), GitFileStatus::Clean);
    assert_eq!(ask("/repo/new/sub").answer(Some(vec![])), GitFileStatus::Clean);
    assert_eq!(ask("/repo/new/sub").answer(None), GitFileStatus::Clean);
    // A scan that was not needed changes nothing.
    let needless = vec![raw("src/x", CONFLICTED)];
    assert_eq!(ask("/repo/newer").answer(Some(needless)), GitFileStatus::Clean);
}

#[test]
fn scans_below_an_untracked_directory() {
    let temp_dir = TempDir::new().unwrap();
    let repo_path = temp_dir.path();
    let repo = Repository::init(repo_path).unwrap();
    repo.add_ignore_rule("*.o").unwrap();

    let dir_in = |name: &str, dir: &Path| {
        tempfile::Builder::new().prefix(name).rand_bytes(0).tempdir_in(dir).unwrap()
    };
    let file_in = |name: &str, dir: &Path| {
        tempfile::Builder::new().prefix(name).rand_bytes(0).tempfile_in(dir).unwrap()
    };
    let new = dir_in("new", repo_path);
    let filled = dir_in("filled", new.path());
    let inner = dir_in("inner", filled.path());
    let empty = dir_in("empty", new.path());
    let build = dir_in("build", new.path());
    let odd = dir_in("odd[1]*", new.path());
    let plain_file = file_in("plain.txt", new.path());
    let _kept = [
        file_in("a.txt", inner.path()),
        file_in("main.o", build.path()),
        file_in("b.txt", odd.path()),
    ];

    let mut service = GitService::new();
    service.open(&host(repo_path), discover(repo_path)).unwrap();
    let reply = scan(&repo, service.scan_request().unwrap());
    service.refresh_status(reply);
    let listed = service.cached_all_statuses();
    assert_eq!(listed.len(), 1);
    assert_eq!(contains(&listed, new.path()), Some(GitFileStatus::Untracked));

    let mut ask = |path: &Path| {
        let step = service.directory_status(&host(path), None);
        let below = step.scan_request().and_then(|query| scan(&repo, query));
        step.answer(below)
    };
    assert_eq!(ask(new.path()), GitFileStatus::Untracked);
    assert_eq!(ask(filled.path()), GitFileStatus::Untracked);
    assert_eq!(ask(inner.path()), GitFileStatus::Untracked);
    // The name of a directory is no pattern.
    assert_eq!(ask(odd.path()), GitFileStatus::Untracked);
    assert_eq!(ask(empty.path()), GitFileStatus::Clean);
    assert_eq!(ask(build.path()), GitFileStatus::Clean);
    assert_eq!(ask(&new.path().join("missing")), GitFileStatus::Clean);
    assert_eq!(ask(&plain_file.path().join("below")), GitFileStatus::Clean);
}

#[test]
fn listed_paths_can_be_asked_for() {
    let mut service = opened("/repo");
    service.refresh_status(Some(vec![raw("a/b", WT_NEW), raw("c", CONFLICTED)]));
    for entry in service.cached_all_statuses() {
        let path = PathBuf::from(String::from_utf8(entry.path.to_text()).unwrap());
        assert_eq!(known(service.file_status(&host(&path), None)), entry.status);
    }
}
