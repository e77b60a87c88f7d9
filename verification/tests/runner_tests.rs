use cfuzz::runner::process::{artifact_dir, work_dir, ProcessRunner};
use cfuzz::runner::{
    collect_artifacts, supervise_step, ArtifactEntry, BackendAction, BackendEvent, BackendRun,
    ExecOutcome, SuperviseAction,
};

fn file(bytes: &[u8]) -> ArtifactEntry {
    ArtifactEntry {
        is_dir: false,
        content: Some(bytes.to_vec()),
    }
}

#[test]
fn supervise_checks_natural_end_before_cancellation() {
    assert_eq!(supervise_step(true, false), SuperviseAction::Collect);
    assert_eq!(supervise_step(true, true), SuperviseAction::Collect);
    assert_eq!(supervise_step(false, true), SuperviseAction::Kill);
    assert_eq!(supervise_step(false, false), SuperviseAction::Wait);
}

#[test]
fn collection_skips_directories_and_unreadable_entries() {
    let entries = vec![
        ArtifactEntry {
            is_dir: true,
            content: Some(vec![1]),
        },
        ArtifactEntry {
            is_dir: false,
            content: None,
        },
        file(&[2, 3]),
        file(&[]),
        file(&[4]),
    ];
    let collected = collect_artifacts(entries);
    assert_eq!(collected, vec![vec![2, 3], vec![], vec![4]]);
}

#[test]
fn run_to_natural_end_collects_and_cleans() {
    let mut run = BackendRun::new();
    assert_eq!(run.action(), BackendAction::Checkout);
    assert_eq!(
        run.step(BackendEvent::CheckedOut { ok: true }),
        BackendAction::Launch
    );
    assert_eq!(
        run.step(BackendEvent::Launched { ok: true }),
        BackendAction::Poll
    );
    assert_eq!(
        run.step(BackendEvent::Polled {
            child_done: false,
            cancel_requested: false
        }),
        BackendAction::Poll
    );
    assert_eq!(
        run.step(BackendEvent::Polled {
            child_done: true,
            cancel_requested: false
        }),
        BackendAction::Collect
    );
    assert_eq!(
        run.step(BackendEvent::Collected {
            entries: vec![file(&[9])]
        }),
        BackendAction::Clean
    );
    assert_eq!(run.step(BackendEvent::CleanedUp), BackendAction::Finish);
    match run.outcome() {
        ExecOutcome::Artifacts(arts) => assert_eq!(arts, vec![vec![9]]),
        _ => panic!("a run that ended naturally must report its artifacts"),
    }
}

#[test]
fn cancellation_kills_and_cleans_with_no_artifacts() {
    let mut run = BackendRun::new();
    run.step(BackendEvent::CheckedOut { ok: true });
    run.step(BackendEvent::Launched { ok: true });
    // The signal arrives while the child is still alive: the machine
    // asks for the kill and the workspace removal in one stroke.
    assert_eq!(
        run.step(BackendEvent::Polled {
            child_done: false,
            cancel_requested: true
        }),
        BackendAction::KillAndClean
    );
    assert_eq!(run.step(BackendEvent::CleanedUp), BackendAction::Finish);
    match run.outcome() {
        ExecOutcome::Cancelled => {}
        _ => panic!("a cancelled run must report no artifacts"),
    }
}

#[test]
fn checkout_failure_ends_without_workspace() {
    let mut run = BackendRun::new();
    assert_eq!(
        run.step(BackendEvent::CheckedOut { ok: false }),
        BackendAction::Finish
    );
    match run.outcome() {
        ExecOutcome::CheckoutFailed => {}
        _ => panic!("a failed checkout must be reported as such"),
    }
}

#[test]
fn launch_failure_is_distinct_and_still_cleans() {
    let mut run = BackendRun::new();
    run.step(BackendEvent::CheckedOut { ok: true });
    assert_eq!(
        run.step(BackendEvent::Launched { ok: false }),
        BackendAction::Clean
    );
    assert_eq!(run.step(BackendEvent::CleanedUp), BackendAction::Finish);
    match run.outcome() {
        ExecOutcome::LaunchFailed => {}
        _ => panic!("a failed launch must stay distinct from an empty run"),
    }
}

#[test]
fn zero_artifacts_still_reads_as_a_natural_end() {
    let mut run = BackendRun::new();
    run.step(BackendEvent::CheckedOut { ok: true });
    run.step(BackendEvent::Launched { ok: true });
    run.step(BackendEvent::Polled {
        child_done: true,
        cancel_requested: false,
    });
    run.step(BackendEvent::Collected {
        entries: Vec::new(),
    });
    run.step(BackendEvent::CleanedUp);
    match run.outcome() {
        ExecOutcome::Artifacts(arts) => assert!(arts.is_empty()),
        _ => panic!("a clean run with zero crashes is not a failure"),
    }
}

#[test]
fn paths_are_joined_as_documented() {
    let runner = ProcessRunner::new("./fuzzing".to_string());
    assert_eq!(runner.workspace_path("demo", "t1"), "./fuzzing/demo/t1");
    assert_eq!(work_dir("./fuzzing/demo/t1", "sub"), "./fuzzing/demo/t1/sub");
    assert_eq!(
        artifact_dir("./fuzzing/demo/t1/sub", "fuzz_1"),
        "./fuzzing/demo/t1/sub/fuzz/artifacts/fuzz_1"
    );
}
