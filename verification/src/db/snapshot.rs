//! Snapshot decisions: which branch is active, what a snapshot commit is
//! called, and when a commit, a branch creation or a branch switch goes on.
//! The git repository itself is driven by the caller, step by step.
use vstd::prelude::*;

use crate::error::{Result, WorldflowError};
use crate::text::{chars_of, push_decimal, push_str, string_of, trim, trim_chars, decimal};

verus! {

broadcast use vstd::string::group_string_axioms;

/// Where snapshots live and who signs their commits.
#[derive(Debug, Clone)]
pub struct SnapshotConfig {
    /// Directory of the CSV files and of the git repository.
    pub dir: String,
    pub author_name: String,
    pub author_email: String,
}

/// One snapshot: commit id, summary line, commit time in seconds.
#[derive(Debug, Clone)]
pub struct SnapshotInfo {
    pub id: String,
    pub message: String,
    pub timestamp: i64,
}

/// One snapshot branch.
#[derive(Debug, Clone)]
pub struct SnapshotBranchInfo {
    pub name: String,
    /// The commit the branch points to.
    pub head: Option<String>,
    /// Whether the repository's `HEAD` is this branch.
    pub is_current: bool,
    /// Whether the store writes its snapshots to this branch.
    pub is_active: bool,
}

/// The file, in the snapshot directory, that remembers the active branch.
pub fn active_branch_file_name() -> (r: &'static str)
    ensures
        r@ == ".worldflow-active-branch"@,
{
    ".worldflow-active-branch"
}

/// The branch that a repository without history starts on.
pub open spec fn default_branch() -> Seq<char> {
    "main"@
}

/// The full reference name of a branch.
pub open spec fn branch_ref(name: Seq<char>) -> Seq<char> {
    "refs/heads/"@ + name
}

/// `refs/heads/` followed by the branch name.
pub fn branch_ref_name(branch_name: &str) -> (r: String)
    ensures
        r@ == branch_ref(branch_name@),
{
    let mut r = String::from_str("refs/heads/");
    push_str(&mut r, branch_name);
    r
}

/// The active branch remembered in the branch file: its trimmed content, or
/// none when that is empty.
pub fn persisted_active_branch(content: &str) -> (r: Option<String>)
    ensures
        r is None <==> trim(content@).len() == 0,
        r matches Some(b) ==> b@ == trim(content@),
{
    let cs = chars_of(content);
    let t = trim_chars(cs.as_slice());
    if t.len() == 0 {
        None
    } else {
        Some(string_of(t.as_slice()))
    }
}

/// What the repository says about its `HEAD`.
#[derive(Debug, Clone, PartialEq, Eq)]
pub enum HeadState {
    /// There is no repository yet.
    NoRepository,
    /// The repository has no `HEAD` commit yet (new or unborn branch).
    NoHead,
    /// `HEAD` exists; its short name, if it has one.
    Head(Option<String>),
}

/// The branch the store writes to at start: the remembered one, else the
/// branch of `HEAD`, else `main` for a repository without history. A `HEAD`
/// without a short name cannot be used.
pub fn choose_active_branch(persisted: Option<String>, head: HeadState) -> (r: Result<String>)
    ensures
        persisted matches Some(p) ==> (r matches Ok(b) && b@ == p@),
        persisted is None ==> match head {
            HeadState::NoRepository => r matches Ok(b) && b@ == default_branch(),
            HeadState::NoHead => r matches Ok(b) && b@ == default_branch(),
            HeadState::Head(Some(s)) => r matches Ok(b) && b@ == s@,
            HeadState::Head(None) => r matches Err(e) && (e matches WorldflowError::InvalidInput(m)
                && m@ == "无法识别活动快照分支"@),
        },
{
    if let Some(p) = persisted {
        return Ok(p);
    }
    match head {
        HeadState::NoRepository => Ok(String::from_str("main")),
        HeadState::NoHead => Ok(String::from_str("main")),
        HeadState::Head(Some(s)) => Ok(s),
        HeadState::Head(None) => Err(WorldflowError::InvalidInput(String::from_str("无法识别活动快照分支"))),
    }
}

/// Whether a snapshot commit is made: not when the new tree is the tree of
/// the parent commit (nothing changed).
pub fn commit_has_changes(parent_tree: Option<&str>, tree: &str) -> (r: bool)
    ensures
        r == !(parent_tree matches Some(p) && p@ == tree@),
{
    match parent_tree {
        Some(p) => {
            let a = chars_of(p);
            let b = chars_of(tree);
            !crate::text::chars_eq(a.as_slice(), b.as_slice())
        },
        None => true,
    }
}

/// Whether a snapshot commit is made: always for a snapshot that must leave
/// a mark (the one taken before a rollback), otherwise only when the tree
/// changed.
pub fn commit_goes_ahead(parent_tree: Option<&str>, tree: &str, keep_unchanged: bool) -> (r: bool)
    ensures
        r == (keep_unchanged || !(parent_tree matches Some(p) && p@ == tree@)),
{
    keep_unchanged || commit_has_changes(parent_tree, tree)
}

/// The verdict on a snapshot: a commit that was not made means no changes.
pub fn snapshot_verdict(committed: bool) -> (r: Result<()>)
    ensures
        r is Ok <==> committed,
        r matches Err(e) ==> e is NoChanges,
{
    if committed {
        Ok(())
    } else {
        Err(WorldflowError::NoChanges)
    }
}

/// The safety snapshot taken before a switch or a rollback: having nothing
/// to save is fine, any other failure stops the operation.
pub fn safety_snapshot_verdict(r: Result<()>) -> (v: Result<()>)
    ensures
        v is Ok <==> (r is Ok || (r matches Err(e) && e is NoChanges)),
        v matches Err(e) ==> r == Err::<(), WorldflowError>(e),
{
    match r {
        Ok(()) => Ok(()),
        Err(WorldflowError::NoChanges) => Ok(()),
        Err(e) => Err(e),
    }
}

/// `prefix` followed by the decimal seconds.
pub open spec fn timed_message(prefix: Seq<char>, secs: u64) -> Seq<char> {
    prefix + decimal(secs as nat)
}

/// The message of a manual snapshot: `manual <seconds>`.
pub fn manual_snapshot_message(secs: u64) -> (r: String)
    ensures
        r@ == timed_message("manual "@, secs),
{
    let mut m = String::from_str("manual ");
    push_decimal(&mut m, secs);
    m
}

/// The message of the snapshot taken before switching: `pre-switch-to-<branch> <seconds>`.
pub fn pre_switch_message(branch_name: &str, secs: u64) -> (r: String)
    ensures
        r@ == timed_message("pre-switch-to-"@ + branch_name@ + " "@, secs),
{
    let mut m = String::from_str("pre-switch-to-");
    push_str(&mut m, branch_name);
    push_str(&mut m, " ");
    push_decimal(&mut m, secs);
    m
}

/// The message of the snapshot taken before a rollback: `pre-rollback <seconds>`.
pub fn pre_rollback_message(secs: u64) -> (r: String)
    ensures
        r@ == timed_message("pre-rollback "@, secs),
{
    let mut m = String::from_str("pre-rollback ");
    push_decimal(&mut m, secs);
    m
}

/// A branch as listed: active when it is the branch the store writes to.
pub fn branch_info(name: String, head: Option<String>, is_current: bool, active_branch: &str) -> (r: SnapshotBranchInfo)
    ensures
        r.name == name,
        r.head == head,
        r.is_current == is_current,
        r.is_active == (active_branch@ == name@),
{
    let a = chars_of(active_branch);
    let n = chars_of(name.as_str());
    let is_active = crate::text::chars_eq(a.as_slice(), n.as_slice());
    SnapshotBranchInfo { name, head, is_current, is_active }
}

/// Where a new branch starts: the given reference, else the tip of the
/// active branch.
pub fn create_branch_start_ref(from_ref: Option<&str>, active_branch: &str) -> (r: String)
    ensures
        from_ref matches Some(f) ==> r@ == f@,
        from_ref is None ==> r@ == branch_ref(active_branch@),
{
    match from_ref {
        Some(f) => String::from_str(f),
        None => branch_ref_name(active_branch),
    }
}

/// A branch can only start from a commit that exists.
pub fn start_ref_verdict(exists: bool) -> (r: Result<()>)
    ensures
        r is Ok <==> exists,
        r matches Err(e) ==> e matches WorldflowError::InvalidInput(m) && m@
            == "当前没有基线提交，不能创建分支"@,
{
    if exists {
        Ok(())
    } else {
        Err(WorldflowError::InvalidInput(String::from_str("当前没有基线提交，不能创建分支")))
    }
}

/// What a branch switch does first.
#[derive(Debug, Clone, Copy, PartialEq, Eq, Structural)]
pub enum SwitchStart {
    /// The branch is already active: nothing to do.
    AlreadyActive,
    /// Check that the branch exists, save a safety snapshot, load the branch.
    Switch,
}

/// A switch to the active branch does nothing.
pub fn switch_start(active_branch: &str, branch_name: &str) -> (r: SwitchStart)
    ensures
        r == (if active_branch@ == branch_name@ {
            SwitchStart::AlreadyActive
        } else {
            SwitchStart::Switch
        }),
{
    let a = chars_of(active_branch);
    let b = chars_of(branch_name);
    if crate::text::chars_eq(a.as_slice(), b.as_slice()) {
        SwitchStart::AlreadyActive
    } else {
        SwitchStart::Switch
    }
}

/// A switch needs the target branch to exist.
pub fn switch_target_verdict(exists: bool, branch_name: &str) -> (r: Result<()>)
    ensures
        r is Ok <==> exists,
        r matches Err(e) ==> e matches WorldflowError::NotFound(m) && m@ == "分支不存在: "@ + branch_name@,
{
    if exists {
        Ok(())
    } else {
        let mut m = String::from_str("分支不存在: ");
        push_str(&mut m, branch_name);
        Err(WorldflowError::NotFound(m))
    }
}

} // verus!
