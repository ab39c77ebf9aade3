//! The status of a file in a Git working tree.
use vstd::prelude::*;

verus! {

/// Git status for a single file.
///
/// Represents the various states a file can be in relative to the Git index
/// and working directory.
#[derive(Debug, Clone, Copy, PartialEq, Eq, Structural)]
pub enum GitFileStatus {
    /// File is tracked and unmodified
    Clean,
    /// File has been modified in the working directory
    Modified,
    /// File has been staged for commit (index)
    Staged,
    /// File has both staged and unstaged modifications
    StagedModified,
    /// File is new and not tracked by Git
    Untracked,
    /// File is ignored by .gitignore
    Ignored,
    /// File has been deleted
    Deleted,
    /// File has been renamed
    Renamed,
    /// File has merge conflicts
    Conflict,
}

impl Default for GitFileStatus {
    fn default() -> (status: Self)
        ensures
            status == GitFileStatus::Clean,
    {
        GitFileStatus::Clean
    }
}

// ---------------------------------------------------------------------------
// The flags of git2
// ---------------------------------------------------------------------------

/// `git2::Status::INDEX_NEW`
pub const INDEX_NEW: u32 = 0x1;

/// `git2::Status::INDEX_MODIFIED`
pub const INDEX_MODIFIED: u32 = 0x2;

/// `git2::Status::INDEX_DELETED`
pub const INDEX_DELETED: u32 = 0x4;

/// `git2::Status::INDEX_RENAMED`
pub const INDEX_RENAMED: u32 = 0x8;

/// `git2::Status::WT_NEW`
pub const WT_NEW: u32 = 0x80;

/// `git2::Status::WT_MODIFIED`
pub const WT_MODIFIED: u32 = 0x100;

/// `git2::Status::WT_DELETED`
pub const WT_DELETED: u32 = 0x200;

/// `git2::Status::WT_RENAMED`
pub const WT_RENAMED: u32 = 0x800;

/// `git2::Status::IGNORED`
pub const IGNORED: u32 = 0x4000;

/// `git2::Status::CONFLICTED`
pub const CONFLICTED: u32 = 0x8000;

/// Whether the flag is set in the bits of a `git2::Status`.
pub open spec fn has(bits: u32, flag: u32) -> bool {
    bits & flag != 0
}

/// Calls `git2::Status::is_conflicted` on the status with these bits: true exactly where
/// the bit of `CONFLICTED` is set.
#[verifier::external_body]
fn is_conflicted(bits: u32) -> (set: bool)
    ensures
        set == has(bits, CONFLICTED),
{
    git2::Status::from_bits_truncate(bits).is_conflicted()
}

/// Calls `git2::Status::is_index_new` on the status with these bits: true exactly where
/// the bit of `INDEX_NEW` is set.
#[verifier::external_body]
fn is_index_new(bits: u32) -> (set: bool)
    ensures
        set == has(bits, INDEX_NEW),
{
    git2::Status::from_bits_truncate(bits).is_index_new()
}

/// Calls `git2::Status::is_index_modified` on the status with these bits: true exactly
/// where the bit of `INDEX_MODIFIED` is set.
#[verifier::external_body]
fn is_index_modified(bits: u32) -> (set: bool)
    ensures
        set == has(bits, INDEX_MODIFIED),
{
    git2::Status::from_bits_truncate(bits).is_index_modified()
}

/// Calls `git2::Status::is_index_deleted` on the status with these bits: true exactly
/// where the bit of `INDEX_DELETED` is set.
#[verifier::external_body]
fn is_index_deleted(bits: u32) -> (set: bool)
    ensures
        set == has(bits, INDEX_DELETED),
{
    git2::Status::from_bits_truncate(bits).is_index_deleted()
}

/// Calls `git2::Status::is_index_renamed` on the status with these bits: true exactly
/// where the bit of `INDEX_RENAMED` is set.
#[verifier::external_body]
fn is_index_renamed(bits: u32) -> (set: bool)
    ensures
        set == has(bits, INDEX_RENAMED),
{
    git2::Status::from_bits_truncate(bits).is_index_renamed()
}

/// Calls `git2::Status::is_wt_new` on the status with these bits: true exactly where the
/// bit of `WT_NEW` is set.
#[verifier::external_body]
fn is_wt_new(bits: u32) -> (set: bool)
    ensures
        set == has(bits, WT_NEW),
{
    git2::Status::from_bits_truncate(bits).is_wt_new()
}

/// Calls `git2::Status::is_wt_modified` on the status with these bits: true exactly where
/// the bit of `WT_MODIFIED` is set.
#[verifier::external_body]
fn is_wt_modified(bits: u32) -> (set: bool)
    ensures
        set == has(bits, WT_MODIFIED),
{
    git2::Status::from_bits_truncate(bits).is_wt_modified()
}

/// Calls `git2::Status::is_wt_deleted` on the status with these bits: true exactly where
/// the bit of `WT_DELETED` is set.
#[verifier::external_body]
fn is_wt_deleted(bits: u32) -> (set: bool)
    ensures
        set == has(bits, WT_DELETED),
{
    git2::Status::from_bits_truncate(bits).is_wt_deleted()
}

/// Calls `git2::Status::is_wt_renamed` on the status with these bits: true exactly where
/// the bit of `WT_RENAMED` is set.
#[verifier::external_body]
fn is_wt_renamed(bits: u32) -> (set: bool)
    ensures
        set == has(bits, WT_RENAMED),
{
    git2::Status::from_bits_truncate(bits).is_wt_renamed()
}

/// Calls `git2::Status::is_ignored` on the status with these bits: true exactly where the
/// bit of `IGNORED` is set.
#[verifier::external_body]
fn is_ignored(bits: u32) -> (set: bool)
    ensures
        set == has(bits, IGNORED),
{
    git2::Status::from_bits_truncate(bits).is_ignored()
}

/// Whether something about the file is staged: the index differs from the last commit.
pub open spec fn staged(bits: u32) -> bool {
    has(bits, INDEX_NEW) || has(bits, INDEX_MODIFIED) || has(bits, INDEX_DELETED) || has(
        bits,
        INDEX_RENAMED,
    )
}

/// Whether something about a tracked file is not staged: the working tree differs from
/// the index.
pub open spec fn unstaged(bits: u32) -> bool {
    has(bits, WT_MODIFIED) || has(bits, WT_DELETED) || has(bits, WT_RENAMED)
}

/// The status that the bits of a `git2::Status` stand for. What comes first wins.
pub open spec fn classified(bits: u32) -> GitFileStatus {
    if has(bits, CONFLICTED) {
        GitFileStatus::Conflict
    } else if has(bits, IGNORED) {
        GitFileStatus::Ignored
    } else if has(bits, WT_NEW) {
        GitFileStatus::Untracked
    } else if staged(bits) && unstaged(bits) {
        GitFileStatus::StagedModified
    } else if has(bits, INDEX_RENAMED) {
        GitFileStatus::Renamed
    } else if has(bits, INDEX_DELETED) || has(bits, WT_DELETED) {
        GitFileStatus::Deleted
    } else if staged(bits) {
        GitFileStatus::Staged
    } else if unstaged(bits) {
        GitFileStatus::Modified
    } else {
        GitFileStatus::Clean
    }
}

impl GitFileStatus {
    /// The short label of a status.
    pub open spec fn label_text(self) -> Seq<char> {
        match self {
            GitFileStatus::Clean => ""@,
            GitFileStatus::Modified => "M"@,
            GitFileStatus::Staged => "S"@,
            GitFileStatus::StagedModified => "SM"@,
            GitFileStatus::Untracked => "U"@,
            GitFileStatus::Ignored => "I"@,
            GitFileStatus::Deleted => "D"@,
            GitFileStatus::Renamed => "R"@,
            GitFileStatus::Conflict => "!"@,
        }
    }

    /// The symbol of a status.
    pub open spec fn icon_text(self) -> Seq<char> {
        match self {
            GitFileStatus::Clean => ""@,
            GitFileStatus::Modified => "●"@,
            GitFileStatus::Staged => "✓"@,
            GitFileStatus::StagedModified => "◐"@,
            GitFileStatus::Untracked => "?"@,
            GitFileStatus::Ignored => "○"@,
            GitFileStatus::Deleted => "-"@,
            GitFileStatus::Renamed => "→"@,
            GitFileStatus::Conflict => "⚠"@,
        }
    }

    /// Get a short label for the status (for badge display).
    pub fn label(&self) -> (label: &'static str)
        ensures
            label@ == self.label_text(),
    {
        match self {
            GitFileStatus::Clean => "",
            GitFileStatus::Modified => "M",
            GitFileStatus::Staged => "S",
            GitFileStatus::StagedModified => "SM",
            GitFileStatus::Untracked => "U",
            GitFileStatus::Ignored => "I",
            GitFileStatus::Deleted => "D",
            GitFileStatus::Renamed => "R",
            GitFileStatus::Conflict => "!",
        }
    }

    /// Get an icon/symbol for the status.
    pub fn icon(&self) -> (icon: &'static str)
        ensures
            icon@ == self.icon_text(),
    {
        match self {
            GitFileStatus::Clean => "",
            GitFileStatus::Modified => "●",  // Yellow dot
            GitFileStatus::Staged => "✓",  // Green check (staged)
            GitFileStatus::StagedModified => "◐",  // Half-filled (both staged and modified)
            GitFileStatus::Untracked => "?",  // Question mark
            GitFileStatus::Ignored => "○",  // Empty circle
            GitFileStatus::Deleted => "-",  // Minus (deletion)
            GitFileStatus::Renamed => "→",  // Arrow
            GitFileStatus::Conflict => "⚠",  // Warning
        }
    }

    /// Whether this status should be displayed (non-clean status).
    pub fn is_visible(&self) -> (visible: bool)
        ensures
            visible == (*self != GitFileStatus::Clean),
    {
        !matches!(self, GitFileStatus::Clean)
    }

    /// The status that the bits of a `git2::Status` stand for.
    pub fn from_git2_status(bits: u32) -> (status: GitFileStatus)
        ensures
            status == classified(bits),
    {
        // Conflicts outrank everything.
        if is_conflicted(bits) {
            return GitFileStatus::Conflict;
        }
        let index_deleted = is_index_deleted(bits);
        let index_renamed = is_index_renamed(bits);
        let has_staged = is_index_new(bits) || is_index_modified(bits) || index_deleted
            || index_renamed;
        let wt_deleted = is_wt_deleted(bits);
        let has_unstaged = is_wt_modified(bits) || wt_deleted || is_wt_renamed(bits);

        if is_ignored(bits) {
            return GitFileStatus::Ignored;
        }
        if is_wt_new(bits) {
            return GitFileStatus::Untracked;
        }
        if has_staged && has_unstaged {
            return GitFileStatus::StagedModified;
        }
        if index_renamed {
            return GitFileStatus::Renamed;
        }
        if index_deleted || wt_deleted {
            return GitFileStatus::Deleted;
        }
        if has_staged {
            return GitFileStatus::Staged;
        }
        if has_unstaged {
            return GitFileStatus::Modified;
        }
        GitFileStatus::Clean
    }
}

// ---------------------------------------------------------------------------
// The order of statuses
// ---------------------------------------------------------------------------

/// How much a status matters when one status has to stand for many files: the one that
/// matters most is shown.
pub open spec fn severity(status: GitFileStatus) -> int {
    match status {
        GitFileStatus::Clean => 0,
        GitFileStatus::Ignored => 1,
        GitFileStatus::Deleted => 2,
        GitFileStatus::Untracked => 3,
        GitFileStatus::Renamed => 4,
        GitFileStatus::Staged => 5,
        GitFileStatus::Modified => 6,
        GitFileStatus::StagedModified => 7,
        GitFileStatus::Conflict => 8,
    }
}

/// The more severe of two statuses.
pub open spec fn worse(a: GitFileStatus, b: GitFileStatus) -> GitFileStatus {
    if severity(a) >= severity(b) {
        a
    } else {
        b
    }
}

/// The severity of a status, as a number.
pub fn severity_of(status: GitFileStatus) -> (rank: u8)
    ensures
        rank == severity(status),
{
    match status {
        GitFileStatus::Clean => 0,
        GitFileStatus::Ignored => 1,
        GitFileStatus::Deleted => 2,
        GitFileStatus::Untracked => 3,
        GitFileStatus::Renamed => 4,
        GitFileStatus::Staged => 5,
        GitFileStatus::Modified => 6,
        GitFileStatus::StagedModified => 7,
        GitFileStatus::Conflict => 8,
    }
}

/// Conflict > StagedModified > Modified > Staged > Untracked > Deleted > Clean.
pub proof fn statuses_are_ranked()
    ensures
        severity(GitFileStatus::Conflict) > severity(GitFileStatus::StagedModified),
        severity(GitFileStatus::StagedModified) > severity(GitFileStatus::Modified),
        severity(GitFileStatus::Modified) > severity(GitFileStatus::Staged),
        severity(GitFileStatus::Staged) > severity(GitFileStatus::Untracked),
        severity(GitFileStatus::Untracked) > severity(GitFileStatus::Deleted),
        severity(GitFileStatus::Deleted) > severity(GitFileStatus::Clean),
{
}

/// Two statuses of the same severity are the same status.
pub proof fn severity_tells_statuses_apart(a: GitFileStatus, b: GitFileStatus)
    ensures
        severity(a) == severity(b) <==> a == b,
{
}

/// In which order statuses are gathered does not matter for the worst of them, and
/// neither does gathering one twice; a clean file adds nothing, and nothing outranks a
/// conflict.
pub proof fn worse_is_a_maximum(a: GitFileStatus, b: GitFileStatus, c: GitFileStatus)
    ensures
        worse(a, b) == worse(b, a),
        worse(a, worse(b, c)) == worse(worse(a, b), c),
        worse(a, a) == a,
        worse(GitFileStatus::Clean, a) == a,
        worse(GitFileStatus::Conflict, a) == GitFileStatus::Conflict,
{
    severity_tells_statuses_apart(a, b);
    severity_tells_statuses_apart(b, c);
    severity_tells_statuses_apart(a, c);
    severity_tells_statuses_apart(a, GitFileStatus::Conflict);
}

/// A file is clean exactly where none of the flags that the classification looks at is set.
pub proof fn clean_means_no_flag(bits: u32)
    ensures
        classified(bits) == GitFileStatus::Clean <==> !(has(bits, CONFLICTED) || has(bits, IGNORED)
            || has(bits, WT_NEW) || staged(bits) || unstaged(bits)),
{
}

/// A file that has merge conflicts is shown as such, whatever else is true of it.
pub proof fn conflicts_come_first(bits: u32)
    ensures
        classified(bits | CONFLICTED) == GitFileStatus::Conflict,
{
    assert((bits | 0x8000u32) & 0x8000u32 != 0) by (bit_vector);
}

/// Three statuses hang on one flag each: a conflict on 0x8000 whatever else is set, an ignored
/// file on 0x4000 unless there is a conflict, an untracked one on 0x80 unless it is either.
pub proof fn conflict_ignored_and_untracked_have_flags(bits: u32)
    ensures
        classified(bits) == GitFileStatus::Conflict <==> bits & 0x8000 != 0,
        classified(bits) == GitFileStatus::Ignored <==> bits & 0x4000 != 0 && bits & 0x8000 == 0,
        classified(bits) == GitFileStatus::Untracked <==> bits & 0x80 != 0 && bits & 0xc000 == 0,
{
    assert(bits & 0xc000 == 0 <==> (bits & 0x8000 == 0 && bits & 0x4000 == 0)) by (bit_vector);
}

/// Of a tracked file without a conflict, the flags 0x1, 0x2, 0x4 and 0x8 say that something is
/// staged, and 0x100, 0x200 and 0x800 that something is not. Where both are said it is both,
/// whichever flags say so; a file is staged or modified alone where only one side has changed,
/// and shown as renamed or deleted where that is what happened on that side.
pub proof fn tracked_files_show_both_sides(bits: u32)
    requires
        bits & 0xc080 == 0,
    ensures
        classified(bits) == GitFileStatus::StagedModified <==> bits & 0xf != 0 && bits & 0xb00
            != 0,
        classified(bits) == GitFileStatus::Renamed <==> bits & 0x8 != 0 && bits & 0xb00 == 0,
        classified(bits) == GitFileStatus::Deleted <==> (bits & 0x4 != 0 && bits & 0xb08 == 0) || (
        bits & 0x200 != 0 && bits & 0xf == 0),
        classified(bits) == GitFileStatus::Staged <==> bits & 0x3 != 0 && bits & 0xb0c == 0,
        classified(bits) == GitFileStatus::Modified <==> bits & 0x900 != 0 && bits & 0x20f == 0,
        classified(bits) == GitFileStatus::Clean <==> bits & 0xb0f == 0,
{
    assert(bits & 0xc080 == 0 ==> (bits & 0x8000 == 0 && bits & 0x4000 == 0 && bits & 0x80 == 0))
        by (bit_vector);
    assert(bits & 0xf != 0 <==> (bits & 0x1 != 0 || bits & 0x2 != 0 || bits & 0x4 != 0 || bits & 0x8
        != 0)) by (bit_vector);
    assert(bits & 0xb00 != 0 <==> (bits & 0x100 != 0 || bits & 0x200 != 0 || bits & 0x800 != 0))
        by (bit_vector);
    assert(bits & 0x3 != 0 <==> (bits & 0x1 != 0 || bits & 0x2 != 0)) by (bit_vector);
    assert(bits & 0x900 != 0 <==> (bits & 0x100 != 0 || bits & 0x800 != 0)) by (bit_vector);
    assert(bits & 0xb08 == 0 <==> (bits & 0xb00 == 0 && bits & 0x8 == 0)) by (bit_vector);
    assert(bits & 0xb0c == 0 <==> (bits & 0xb00 == 0 && bits & 0x8 == 0 && bits & 0x4 == 0))
        by (bit_vector);
    assert(bits & 0x20f == 0 <==> (bits & 0x200 == 0 && bits & 0xf == 0)) by (bit_vector);
    assert(bits & 0xb0f == 0 <==> (bits & 0xb00 == 0 && bits & 0xf == 0)) by (bit_vector);
}

/// Editing a file that is staged, or staging a part of one that is modified, leaves it both;
/// a change that is staged in two ways is no more than staged.
pub proof fn changes_add_up(bits: u32, staged_flag: u32, unstaged_flag: u32)
    requires
        staged_flag == 0x1 || staged_flag == 0x2 || staged_flag == 0x4 || staged_flag == 0x8,
        unstaged_flag == 0x100 || unstaged_flag == 0x200 || unstaged_flag == 0x800,
    ensures
        classified(bits) == GitFileStatus::Staged || classified(bits) == GitFileStatus::Renamed
            ==> classified(bits | unstaged_flag) == GitFileStatus::StagedModified,
        classified(bits) == GitFileStatus::Modified ==> classified(bits | staged_flag)
            == GitFileStatus::StagedModified,
        classified(bits) == GitFileStatus::StagedModified ==> classified(bits | unstaged_flag)
            == GitFileStatus::StagedModified && classified(bits | staged_flag)
            == GitFileStatus::StagedModified,
        classified(bits) == GitFileStatus::Staged ==> classified(bits | 0x3)
            == GitFileStatus::Staged,
{
    conflict_ignored_and_untracked_have_flags(bits);
    assert(bits & 0xc080 == 0 <==> (bits & 0xc000 == 0 && bits & 0x80 == 0)) by (bit_vector);
    assert(bits & 0xc000 == 0 <==> (bits & 0x8000 == 0 && bits & 0x4000 == 0)) by (bit_vector);
    if bits & 0xc080 == 0 {
        let edited = bits | unstaged_flag;
        let added = bits | staged_flag;
        let both = bits | 0x3;
        assert(edited & 0xc080 == 0 && edited & 0xb00 != 0 && (bits & 0xf != 0 ==> edited & 0xf
            != 0)) by (bit_vector)
            requires
                bits & 0xc080 == 0,
                edited == bits | unstaged_flag,
                unstaged_flag == 0x100 || unstaged_flag == 0x200 || unstaged_flag == 0x800,
        ;
        assert(added & 0xc080 == 0 && added & 0xf != 0 && (bits & 0xb00 != 0 ==> added & 0xb00
            != 0)) by (bit_vector)
            requires
                bits & 0xc080 == 0,
                added == bits | staged_flag,
                staged_flag == 0x1 || staged_flag == 0x2 || staged_flag == 0x4 || staged_flag
                    == 0x8,
        ;
        assert(both & 0xc080 == 0 && both & 0x3 != 0 && (bits & 0xb0c == 0 ==> both & 0xb0c == 0))
            by (bit_vector)
            requires
                bits & 0xc080 == 0,
                both == bits | 0x3,
        ;
        assert(bits & 0x3 != 0 ==> bits & 0xf != 0) by (bit_vector);
        assert(bits & 0x8 != 0 ==> bits & 0xf != 0) by (bit_vector);
        assert(bits & 0x900 != 0 ==> bits & 0xb00 != 0) by (bit_vector);
        tracked_files_show_both_sides(bits);
        tracked_files_show_both_sides(edited);
        tracked_files_show_both_sides(added);
        tracked_files_show_both_sides(both);
    }
}

/// No other flags matter: two sets of flags that agree on these ten stand for the same status.
pub proof fn other_flags_do_not_matter(bits: u32, other: u32)
    requires
        bits & 0xcb8f == other & 0xcb8f,
    ensures
        classified(bits) == classified(other),
{
    assert(bits & 0x1 == other & 0x1 && bits & 0x2 == other & 0x2 && bits & 0x4 == other & 0x4
        && bits & 0x8 == other & 0x8 && bits & 0x80 == other & 0x80 && bits & 0x100 == other & 0x100
        && bits & 0x200 == other & 0x200 && bits & 0x800 == other & 0x800 && bits & 0x4000 == other
        & 0x4000 && bits & 0x8000 == other & 0x8000) by (bit_vector)
        requires
            bits & 0xcb8f == other & 0xcb8f,
    ;
}

/// The whole order of statuses: each of these outranks the ones before it, and of two the one
/// that outranks the other is the worse.
pub proof fn each_status_outranks_those_before(order: Seq<GitFileStatus>, i: int, j: int)
    requires
        order == seq![
            GitFileStatus::Clean,
            GitFileStatus::Ignored,
            GitFileStatus::Deleted,
            GitFileStatus::Untracked,
            GitFileStatus::Renamed,
            GitFileStatus::Staged,
            GitFileStatus::Modified,
            GitFileStatus::StagedModified,
            GitFileStatus::Conflict,
        ],
        0 <= i <= j < order.len(),
    ensures
        worse(order[i], order[j]) == order[j],
        worse(order[j], order[i]) == order[j],
        i < j ==> severity(order[i]) < severity(order[j]),
{
}

/// The label of a status is made of the initials of its name, but for a clean file, which has
/// none, and a conflict, which calls for attention. No two statuses share one.
pub proof fn labels_are_initials(a: GitFileStatus, b: GitFileStatus)
    ensures
        GitFileStatus::Clean.label_text() == Seq::<char>::empty(),
        GitFileStatus::Modified.label_text() == seq!['M'],
        GitFileStatus::Staged.label_text() == seq!['S'],
        GitFileStatus::StagedModified.label_text() == seq!['S', 'M'],
        GitFileStatus::Untracked.label_text() == seq!['U'],
        GitFileStatus::Ignored.label_text() == seq!['I'],
        GitFileStatus::Deleted.label_text() == seq!['D'],
        GitFileStatus::Renamed.label_text() == seq!['R'],
        GitFileStatus::Conflict.label_text() == seq!['!'],
        a.label_text() == b.label_text() <==> a == b,
{
    reveal_strlit("");
    reveal_strlit("M");
    reveal_strlit("S");
    reveal_strlit("SM");
    reveal_strlit("U");
    reveal_strlit("I");
    reveal_strlit("D");
    reveal_strlit("R");
    reveal_strlit("!");
    assert(GitFileStatus::Clean.label_text() =~= Seq::<char>::empty());
    assert(GitFileStatus::Modified.label_text() =~= seq!['M']);
    assert(GitFileStatus::Staged.label_text() =~= seq!['S']);
    assert(GitFileStatus::StagedModified.label_text() =~= seq!['S', 'M']);
    assert(GitFileStatus::Untracked.label_text() =~= seq!['U']);
    assert(GitFileStatus::Ignored.label_text() =~= seq!['I']);
    assert(GitFileStatus::Deleted.label_text() =~= seq!['D']);
    assert(GitFileStatus::Renamed.label_text() =~= seq!['R']);
    assert(GitFileStatus::Conflict.label_text() =~= seq!['!']);
    if a.label_text() == b.label_text() {
        assert(a.label_text().len() == b.label_text().len());
        if a.label_text().len() > 0 {
            assert(a.label_text()[0] == b.label_text()[0]);
        }
    }
}

/// Every status but clean has a symbol of one character, and no two share one.
pub proof fn icons_tell_statuses_apart(a: GitFileStatus, b: GitFileStatus)
    ensures
        a.icon_text().len() == (if a == GitFileStatus::Clean {
            0int
        } else {
            1
        }),
        GitFileStatus::Modified.icon_text() == seq!['●'],
        GitFileStatus::Staged.icon_text() == seq!['✓'],
        GitFileStatus::StagedModified.icon_text() == seq!['◐'],
        GitFileStatus::Untracked.icon_text() == seq!['?'],
        GitFileStatus::Ignored.icon_text() == seq!['○'],
        GitFileStatus::Deleted.icon_text() == seq!['-'],
        GitFileStatus::Renamed.icon_text() == seq!['→'],
        GitFileStatus::Conflict.icon_text() == seq!['⚠'],
        a.icon_text() == b.icon_text() <==> a == b,
{
    reveal_strlit("");
    reveal_strlit("●");
    reveal_strlit("✓");
    reveal_strlit("◐");
    reveal_strlit("?");
    reveal_strlit("○");
    reveal_strlit("-");
    reveal_strlit("→");
    reveal_strlit("⚠");
    assert(GitFileStatus::Modified.icon_text() =~= seq!['●']);
    assert(GitFileStatus::Staged.icon_text() =~= seq!['✓']);
    assert(GitFileStatus::StagedModified.icon_text() =~= seq!['◐']);
    assert(GitFileStatus::Untracked.icon_text() =~= seq!['?']);
    assert(GitFileStatus::Ignored.icon_text() =~= seq!['○']);
    assert(GitFileStatus::Deleted.icon_text() =~= seq!['-']);
    assert(GitFileStatus::Renamed.icon_text() =~= seq!['→']);
    assert(GitFileStatus::Conflict.icon_text() =~= seq!['⚠']);
    if a.icon_text() == b.icon_text() {
        assert(a.icon_text().len() == b.icon_text().len());
        if a.icon_text().len() > 0 {
            assert(a.icon_text()[0] == b.icon_text()[0]);
        }
    }
}

/// A file is shown exactly where one of the ten flags that matter is set.
pub proof fn clean_files_have_none_of_the_flags(bits: u32)
    ensures
        classified(bits) == GitFileStatus::Clean <==> bits & 0xcb8f == 0,
{
    assert(bits & 0xcb8f == 0 <==> (bits & 0xc080 == 0 && bits & 0xb0f == 0)) by (bit_vector);
    assert(bits & 0xc080 == 0 <==> (bits & 0x8000 == 0 && bits & 0x4000 == 0 && bits & 0x80 == 0))
        by (bit_vector);
    conflict_ignored_and_untracked_have_flags(bits);
    if bits & 0xc080 == 0 {
        tracked_files_show_both_sides(bits);
    } else {
        assert(has(bits, CONFLICTED) || has(bits, IGNORED) || has(bits, WT_NEW));
    }
}

} // verus!
