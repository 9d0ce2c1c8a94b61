use changelog::release::{
    cargo_must_run, commit_decision, publish_plan, publish_step, CommitDecision, Options,
    PublishStep,
};
use changelog::segment::Category;

fn options() -> Options {
    Options {
        skip_publish: false,
        dry_run: false,
        dry_run_cargo_publish: false,
        allow_dirty: false,
        skip_verification: false,
        verbose: false,
    }
}

#[test]
fn publish_skipped_when_asked() {
    let mut o = options();
    o.skip_publish = true;
    assert_eq!(publish_plan(o, false), None);
}

#[test]
fn dry_run_without_delegation_runs_nothing() {
    let mut o = options();
    o.dry_run = true;
    assert!(!cargo_must_run(o));
    let p = publish_plan(o, false).unwrap();
    assert!(!p.run_tool);
    assert!(!p.tool_dry_run);
}

#[test]
fn delegated_dry_run_runs_the_tool_with_its_own_dry_run() {
    let mut o = options();
    o.dry_run = true;
    o.dry_run_cargo_publish = true;
    assert!(cargo_must_run(o));
    let p = publish_plan(o, true).unwrap();
    assert!(p.run_tool);
    assert!(p.tool_dry_run);
    assert!(p.select_package);
}

#[test]
fn failed_publish_retried_up_to_three_times_but_not_in_dry_run() {
    assert_eq!(publish_step(1, 3, false, true), PublishStep::Done);
    assert_eq!(publish_step(1, 3, false, false), PublishStep::Retry);
    assert_eq!(publish_step(2, 3, false, false), PublishStep::Retry);
    assert_eq!(publish_step(3, 3, false, false), PublishStep::Fail);
    assert_eq!(publish_step(1, 3, true, false), PublishStep::Fail);
}

#[test]
fn no_commit_created_in_dry_run() {
    assert_eq!(commit_decision(true, true), CommitDecision::NoCommit);
    assert_eq!(commit_decision(false, false), CommitDecision::Commit { allow_empty: false });
    assert_eq!(commit_decision(false, true), CommitDecision::Commit { allow_empty: true });
}

#[test]
fn category_display_text() {
    assert_eq!(Category::Uncategorized.display_text(), "Uncategorized");
    assert_eq!(Category::Issue(String::from("42")).display_text(), "#42");
}
