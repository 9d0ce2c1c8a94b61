//! The pure decisions of the release-process glue: whether the publish tool
//! runs, with which switches, when a failed attempt is retried, and whether a
//! commit is created. Spelling the command lines and running them is the
//! caller's business.
use vstd::prelude::*;

verus! {

/// Flags that shape the publish and commit steps.
#[derive(Clone, Copy, Debug, PartialEq, Eq, Structural)]
pub struct Options {
    pub skip_publish: bool,
    pub dry_run: bool,
    pub dry_run_cargo_publish: bool,
    pub allow_dirty: bool,
    /// Skip the package tool's own pre-publish verification pass.
    pub skip_verification: bool,
    pub verbose: bool,
}

/// Whether the publish command must actually run: always outside a dry run,
/// and within one only when the dry run is delegated to the tool itself.
pub open spec fn spec_cargo_must_run(o: Options) -> bool {
    !o.dry_run || (o.dry_run && o.dry_run_cargo_publish)
}

pub fn cargo_must_run(o: Options) -> (r: bool)
    ensures
        r == spec_cargo_must_run(o),
{
    !o.dry_run || (o.dry_run && o.dry_run_cargo_publish)
}

/// One publish invocation, as data: which switches the tool is run with.
#[derive(Clone, Copy, Debug, PartialEq, Eq, Structural)]
pub struct PublishPlan {
    /// Whether the tool actually runs; when false the attempt counts as
    /// having succeeded without output.
    pub run_tool: bool,
    /// Whether the tool is asked to do a dry run itself.
    pub tool_dry_run: bool,
    pub allow_dirty: bool,
    pub skip_verification: bool,
    /// Whether the tool is pointed at the one package rather than the
    /// workspace's default members.
    pub select_package: bool,
}

/// The publish plan for one package, or `None` when publishing is skipped
/// altogether.
pub fn publish_plan(o: Options, prevent_default_members: bool) -> (r: Option<PublishPlan>)
    ensures
        r is Some <==> !o.skip_publish,
        (r matches Some(p) ==> p == (PublishPlan {
            run_tool: spec_cargo_must_run(o),
            tool_dry_run: o.dry_run && o.dry_run_cargo_publish,
            allow_dirty: o.allow_dirty,
            skip_verification: o.skip_verification,
            select_package: prevent_default_members,
        })),
{
    if o.skip_publish {
        return None;
    }
    let tool_dry_run = o.dry_run && o.dry_run_cargo_publish;
    Some(
        PublishPlan {
            run_tool: !o.dry_run || tool_dry_run,
            tool_dry_run,
            allow_dirty: o.allow_dirty,
            skip_verification: o.skip_verification,
            select_package: prevent_default_members,
        },
    )
}

/// What to do after one publish attempt.
#[derive(Clone, Copy, Debug, PartialEq, Eq, Structural)]
pub enum PublishStep {
    Done,
    Fail,
    Retry,
}

/// The decision after one publish attempt: success ends the loop; a failure
/// is fatal on the last allowed attempt or in a dry run, and is retried
/// otherwise to rule out flakiness.
pub fn publish_step(attempt: u8, max_attempts: u8, dry_run: bool, success: bool) -> (r: PublishStep)
    ensures
        r == (if success {
            PublishStep::Done
        } else if attempt == max_attempts || dry_run {
            PublishStep::Fail
        } else {
            PublishStep::Retry
        }),
{
    if success {
        PublishStep::Done
    } else if attempt == max_attempts || dry_run {
        PublishStep::Fail
    } else {
        PublishStep::Retry
    }
}

/// Whether a commit is created, and how.
#[derive(Clone, Copy, Debug, PartialEq, Eq, Structural)]
pub enum CommitDecision {
    /// A dry run creates no commit at all.
    NoCommit,
    Commit { allow_empty: bool },
}

/// Decides the version-control commit step: skipped entirely in a dry run,
/// otherwise one commit, allowed to be empty when requested.
pub fn commit_decision(dry_run: bool, empty_commit_possible: bool) -> (r: CommitDecision)
    ensures
        r == (if dry_run {
            CommitDecision::NoCommit
        } else {
            CommitDecision::Commit { allow_empty: empty_commit_possible }
        }),
{
    if dry_run {
        CommitDecision::NoCommit
    } else {
        CommitDecision::Commit { allow_empty: empty_commit_possible }
    }
}

} // verus!
