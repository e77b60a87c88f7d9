use cfuzz::orchestrator::JobRun;
use cfuzz::registry::JobRegistry;
use cfuzz::runner::ExecOutcome;
use cfuzz::{Runner, RunRequest, State, TargetConfig};

fn make_request(pname: &str, name: &str, repeating: bool) -> RunRequest {
    RunRequest {
        pname: pname.to_string(),
        name: name.to_string(),
        runner: Runner::CargoFuzz {
            target: "fuzz_1".to_string(),
        },
        config: TargetConfig::Git {
            repo: "https://example/demo.git".to_string(),
            folder: "".to_string(),
        },
        repeating,
    }
}

fn contains(registry: &JobRegistry, name: &str) -> bool {
    registry.contains(&name.to_string())
}

#[test]
fn registry_rejects_duplicates_and_removes_cleanly() {
    let mut reg = JobRegistry::new();
    assert!(reg.insert("t1".to_string()));
    assert!(contains(&reg, "t1"));
    assert!(!reg.insert("t1".to_string()));
    assert_eq!(reg.names(), vec!["t1".to_string()]);
    assert!(reg.insert("t2".to_string()));
    assert!(reg.remove(&"t1".to_string()));
    assert!(!contains(&reg, "t1"));
    assert!(contains(&reg, "t2"));
    assert!(!reg.remove(&"t1".to_string()));
}

#[test]
fn job_visible_while_live_success_path() {
    let mut state = State::new();
    let mut job = JobRun::new(make_request("demo", "t1", false));

    assert!(job.register(&mut state.running));
    assert!(contains(&state.running, "t1"));

    let descriptor = job.descriptor();
    assert_eq!(descriptor.name(), "t1");
    assert_eq!(descriptor.project_name(), "demo");
    assert!(contains(&state.running, "t1"));

    job.collect(ExecOutcome::Artifacts(vec![vec![7, 8]]), &mut state.store);
    assert!(contains(&state.running, "t1"));

    assert!(!job.continue_run(false));
    job.deregister(&mut state.running);
    assert!(!contains(&state.running, "t1"));

    let results = state.store.load_results(&"demo".to_string());
    assert_eq!(results.len(), 1);
    assert_eq!(results[0].name, "t1");
    assert_eq!(results[0].content, vec![7, 8]);
}

#[test]
fn job_visible_while_live_failure_path() {
    let mut state = State::new();
    let mut job = JobRun::new(make_request("demo", "t1", false));

    assert!(job.register(&mut state.running));
    let _descriptor = job.descriptor();
    assert!(contains(&state.running, "t1"));

    // The iteration failed before anything ran: nothing is stored,
    // but the registry is still cleaned up.
    job.collect(ExecOutcome::CheckoutFailed, &mut state.store);
    assert!(contains(&state.running, "t1"));
    assert!(!job.continue_run(false));
    job.deregister(&mut state.running);

    assert!(!contains(&state.running, "t1"));
    assert!(state.store.load_results(&"demo".to_string()).is_empty());
}

#[test]
fn duplicate_job_names_refused_while_running() {
    let mut state = State::new();
    let mut first = JobRun::new(make_request("demo", "t1", false));
    let mut second = JobRun::new(make_request("demo", "t1", false));

    assert!(first.register(&mut state.running));
    assert!(!second.register(&mut state.running));

    let _d = first.descriptor();
    first.collect(ExecOutcome::Artifacts(Vec::new()), &mut state.store);
    assert!(!first.continue_run(false));
    first.deregister(&mut state.running);

    // Once the first run is over, the name is free again.
    assert!(second.register(&mut state.running));
    let _d = second.descriptor();
    second.collect(ExecOutcome::Cancelled, &mut state.store);
    assert!(!second.continue_run(false));
    second.deregister(&mut state.running);
    assert!(!contains(&state.running, "t1"));
}

#[test]
fn repeating_job_alternating_outcomes_deregisters_on_stop() {
    let mut state = State::new();
    let mut job = JobRun::new(make_request("demo", "t1", true));

    assert!(job.register(&mut state.running));

    // First iteration succeeds with one artifact.
    let _d = job.descriptor();
    job.collect(ExecOutcome::Artifacts(vec![vec![1]]), &mut state.store);
    assert!(job.continue_run(false));
    assert!(contains(&state.running, "t1"));

    // Second iteration fails to launch.
    let _d = job.descriptor();
    job.collect(ExecOutcome::LaunchFailed, &mut state.store);
    assert!(job.continue_run(false));
    assert!(contains(&state.running, "t1"));

    // Third iteration succeeds; then a stop is asked for.
    let _d = job.descriptor();
    job.collect(ExecOutcome::Artifacts(vec![vec![3]]), &mut state.store);
    assert!(!job.continue_run(true));
    job.deregister(&mut state.running);

    assert!(!contains(&state.running, "t1"));
    assert!(state.running.names().is_empty());

    // The store holds exactly the successful iterations' artifacts,
    // in order.
    let results = state.store.load_results(&"demo".to_string());
    assert_eq!(results.len(), 2);
    assert_eq!(results[0].content, vec![1]);
    assert_eq!(results[1].content, vec![3]);
}

#[test]
fn submitted_job_runs_and_leaves_status() {
    // Submit one non-repeating job for project "demo" under the name
    // "t1"; while it runs the status query shows "t1"; afterwards the
    // results of "demo" carry entries named "t1" and the status query
    // is empty again.
    let mut state = State::new();
    let request = RunRequest {
        pname: "demo".to_string(),
        name: "t1".to_string(),
        runner: Runner::CargoFuzz {
            target: "fuzz_1".to_string(),
        },
        config: TargetConfig::Git {
            repo: "https://example/demo.git".to_string(),
            folder: "".to_string(),
        },
        repeating: false,
    };
    let mut job = JobRun::new(request);

    assert!(job.register(&mut state.running));
    let descriptor = job.descriptor();
    assert_eq!(descriptor.name(), "t1");
    assert!(state.running.names().contains(&"t1".to_string()));

    job.collect(
        ExecOutcome::Artifacts(vec![vec![0xde], vec![0xad]]),
        &mut state.store,
    );
    assert!(!job.continue_run(false));
    job.deregister(&mut state.running);

    let results = state.store.load_results(&"demo".to_string());
    assert!(results.iter().all(|r| r.name == "t1"));
    assert_eq!(results.len(), 2);
    assert!(!state.running.names().contains(&"t1".to_string()));
    assert!(state.running.names().is_empty());
}

#[test]
fn cancelled_iteration_stores_nothing() {
    let mut state = State::new();
    let mut job = JobRun::new(make_request("demo", "t1", false));

    assert!(job.register(&mut state.running));
    let _d = job.descriptor();
    job.collect(ExecOutcome::Cancelled, &mut state.store);
    assert!(!job.continue_run(false));
    job.deregister(&mut state.running);

    assert!(state.store.load_results(&"demo".to_string()).is_empty());
    assert!(!contains(&state.running, "t1"));
}
