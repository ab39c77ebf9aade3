use ferrite::vcs::git::GitService;
use ferrite::vcs::status::{severity_of, GitFileStatus};

#[test]
fn test_git_file_status_labels() {
    assert_eq!(GitFileStatus::Clean.label(), "");
    assert_eq!(GitFileStatus::Modified.label(), "M");
    assert_eq!(GitFileStatus::Staged.label(), "S");
    assert_eq!(GitFileStatus::Untracked.label(), "U");
    assert_eq!(GitFileStatus::Conflict.label(), "!");
}

#[test]
fn remaining_labels() {
    assert_eq!(GitFileStatus::StagedModified.label(), "SM");
    assert_eq!(GitFileStatus::Ignored.label(), "I");
    assert_eq!(GitFileStatus::Deleted.label(), "D");
    assert_eq!(GitFileStatus::Renamed.label(), "R");
}

#[test]
fn icons() {
    assert_eq!(GitFileStatus::Clean.icon(), "");
    assert_eq!(GitFileStatus::Modified.icon(), "●");
    assert_eq!(GitFileStatus::Staged.icon(), "✓");
    assert_eq!(GitFileStatus::StagedModified.icon(), "◐");
    assert_eq!(GitFileStatus::Untracked.icon(), "?");
    assert_eq!(GitFileStatus::Ignored.icon(), "○");
    assert_eq!(GitFileStatus::Deleted.icon(), "-");
    assert_eq!(GitFileStatus::Renamed.icon(), "→");
    assert_eq!(GitFileStatus::Conflict.icon(), "⚠");
}

#[test]
fn test_git_file_status_visibility() {
    assert!(!GitFileStatus::Clean.is_visible());
    assert!(GitFileStatus::Modified.is_visible());
    assert!(GitFileStatus::Staged.is_visible());
    assert!(GitFileStatus::Untracked.is_visible());
}

#[test]
fn default_status_is_clean() {
    assert_eq!(GitFileStatus::default(), GitFileStatus::Clean);
}

#[test]
fn test_worse_status() {
    assert_eq!(
        GitService::worse_status(GitFileStatus::Clean, GitFileStatus::Modified),
        GitFileStatus::Modified
    );
    assert_eq!(
        GitService::worse_status(GitFileStatus::Modified, GitFileStatus::Conflict),
        GitFileStatus::Conflict
    );
    assert_eq!(
        GitService::worse_status(GitFileStatus::Staged, GitFileStatus::StagedModified),
        GitFileStatus::StagedModified
    );
}

#[test]
fn statuses_rank_from_clean_to_conflict() {
    let order = [
        GitFileStatus::Clean,
        GitFileStatus::Ignored,
        GitFileStatus::Deleted,
        GitFileStatus::Untracked,
        GitFileStatus::Renamed,
        GitFileStatus::Staged,
        GitFileStatus::Modified,
        GitFileStatus::StagedModified,
        GitFileStatus::Conflict,
    ];
    for (i, low) in order.iter().enumerate() {
        assert_eq!(severity_of(*low) as usize, i);
        for high in order[i..].iter() {
            assert_eq!(GitService::worse_status(*low, *high), *high);
            assert_eq!(GitService::worse_status(*high, *low), *high);
        }
    }
}

fn status(flags: git2::Status) -> GitFileStatus {
    GitFileStatus::from_git2_status(flags.bits())
}

#[test]
fn single_flags() {
    assert_eq!(status(git2::Status::CURRENT), GitFileStatus::Clean);
    assert_eq!(status(git2::Status::INDEX_NEW), GitFileStatus::Staged);
    assert_eq!(status(git2::Status::INDEX_MODIFIED), GitFileStatus::Staged);
    assert_eq!(status(git2::Status::INDEX_DELETED), GitFileStatus::Deleted);
    assert_eq!(status(git2::Status::INDEX_RENAMED), GitFileStatus::Renamed);
    assert_eq!(status(git2::Status::INDEX_TYPECHANGE), GitFileStatus::Clean);
    assert_eq!(status(git2::Status::WT_NEW), GitFileStatus::Untracked);
    assert_eq!(status(git2::Status::WT_MODIFIED), GitFileStatus::Modified);
    assert_eq!(status(git2::Status::WT_DELETED), GitFileStatus::Deleted);
    assert_eq!(status(git2::Status::WT_RENAMED), GitFileStatus::Modified);
    assert_eq!(status(git2::Status::WT_TYPECHANGE), GitFileStatus::Clean);
    assert_eq!(status(git2::Status::IGNORED), GitFileStatus::Ignored);
    assert_eq!(status(git2::Status::CONFLICTED), GitFileStatus::Conflict);
}

#[test]
fn flags_together() {
    assert_eq!(
        status(git2::Status::INDEX_NEW | git2::Status::WT_MODIFIED),
        GitFileStatus::StagedModified
    );
    assert_eq!(
        status(git2::Status::INDEX_DELETED | git2::Status::WT_NEW),
        GitFileStatus::Untracked
    );
    assert_eq!(
        status(git2::Status::INDEX_RENAMED | git2::Status::INDEX_DELETED),
        GitFileStatus::Renamed
    );
    assert_eq!(
        status(git2::Status::IGNORED | git2::Status::WT_NEW),
        GitFileStatus::Ignored
    );
    assert_eq!(status(git2::Status::all()), GitFileStatus::Conflict);
}

#[test]
fn unknown_bits_mean_nothing() {
    assert_eq!(GitFileStatus::from_git2_status(0xffff_0000), GitFileStatus::Clean);
    assert_eq!(GitFileStatus::from_git2_status(0xffff_0100), GitFileStatus::Modified);
}
