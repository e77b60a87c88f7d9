use cfuzz::project::{Project, RunTarget, Source, Target};
use cfuzz::storage::{Store, StorageRequest, StorageResult};
use cfuzz::FuzzResult;

fn make_target(name: &str, folder: &str, fuzz: &str) -> Target {
    Target {
        name: name.to_string(),
        folder: folder.to_string(),
        target: RunTarget::CargoFuzz { name: fuzz.to_string() },
        repeating: false,
    }
}

fn make_project(name: &str, repo: &str) -> Project {
    Project {
        name: name.to_string(),
        source: Source::Git { repo: repo.to_string() },
        targets: Vec::new(),
    }
}

#[test]
fn empty_store_reads_empty() {
    let store = Store::new();
    assert!(store.load_projects().is_empty());
    assert!(store.load_results(&"demo".to_string()).is_empty());
    assert!(store.load_project(&"demo".to_string()).is_none());
    assert!(store
        .load_target(&"demo".to_string(), &"t1".to_string())
        .is_none());
}

#[test]
fn store_then_load_returns_exactly_what_was_stored() {
    let mut store = Store::new();
    store.store_result(
        "demo".to_string(),
        FuzzResult::new("t1".to_string(), vec![1, 2, 3]),
    );
    store.store_result(
        "other".to_string(),
        FuzzResult::new("o1".to_string(), vec![9]),
    );
    store.store_result(
        "demo".to_string(),
        FuzzResult::new("t2".to_string(), vec![4]),
    );

    let demo = store.load_results(&"demo".to_string());
    assert_eq!(demo.len(), 2);
    assert_eq!(demo[0].name, "t1");
    assert_eq!(demo[0].content, vec![1, 2, 3]);
    assert_eq!(demo[1].name, "t2");
    assert_eq!(demo[1].content, vec![4]);

    let other = store.load_results(&"other".to_string());
    assert_eq!(other.len(), 1);
    assert_eq!(other[0].name, "o1");
    assert_eq!(other[0].content, vec![9]);
}

#[test]
fn identical_artifacts_are_not_deduplicated() {
    let mut store = Store::new();
    store.store_result(
        "demo".to_string(),
        FuzzResult::new("t1".to_string(), vec![7]),
    );
    store.store_result(
        "demo".to_string(),
        FuzzResult::new("t1".to_string(), vec![7]),
    );
    let rs = store.load_results(&"demo".to_string());
    assert_eq!(rs.len(), 2);
    assert_eq!(rs[0], rs[1]);
}

#[test]
fn remove_project_cascades() {
    let mut store = Store::new();
    store.update_project(make_project("demo", "https://example/demo.git"));
    store.update_project(make_project("keep", "https://example/keep.git"));
    store.add_project_target("demo".to_string(), make_target("t1", "f", "fuzz_1"));
    store.add_project_target("keep".to_string(), make_target("k1", "g", "fuzz_k"));
    store.store_result(
        "demo".to_string(),
        FuzzResult::new("t1".to_string(), vec![1]),
    );
    store.store_result(
        "keep".to_string(),
        FuzzResult::new("k1".to_string(), vec![2]),
    );

    store.remove_project(&"demo".to_string());

    let projects = store.load_projects();
    assert!(projects.iter().all(|p| p.name != "demo"));
    assert_eq!(projects.len(), 1);
    assert_eq!(projects[0].name, "keep");
    assert!(store.load_results(&"demo".to_string()).is_empty());
    assert!(store.load_project(&"demo".to_string()).is_none());
    assert!(store
        .load_target(&"demo".to_string(), &"t1".to_string())
        .is_none());

    // The other project kept everything it had.
    let keep = store.load_project(&"keep".to_string()).unwrap();
    assert_eq!(keep.targets.len(), 1);
    assert_eq!(keep.targets[0].name, "k1");
    let kept = store.load_results(&"keep".to_string());
    assert_eq!(kept.len(), 1);
    assert_eq!(kept[0].content, vec![2]);
}

#[test]
fn add_target_twice_replaces_not_doubles() {
    let mut store = Store::new();
    store.update_project(make_project("demo", "https://example/demo.git"));
    store.add_project_target("demo".to_string(), make_target("t1", "first", "fuzz_a"));
    store.add_project_target("demo".to_string(), make_target("t1", "second", "fuzz_b"));

    let projects = store.load_projects();
    assert_eq!(projects.len(), 1);
    let demo = &projects[0];
    let named: Vec<&Target> = demo.targets.iter().filter(|t| t.name == "t1").collect();
    assert_eq!(named.len(), 1);
    assert_eq!(named[0].folder, "second");
    assert_eq!(
        named[0].target,
        RunTarget::CargoFuzz {
            name: "fuzz_b".to_string()
        }
    );

    let t = store
        .load_target(&"demo".to_string(), &"t1".to_string())
        .unwrap();
    assert_eq!(t.folder, "second");
}

#[test]
fn upsert_project_replaces_row_and_keeps_targets() {
    let mut store = Store::new();
    store.update_project(make_project("demo", "https://example/old.git"));
    store.add_project_target("demo".to_string(), make_target("t1", "f", "fuzz_1"));
    store.update_project(make_project("demo", "https://example/new.git"));

    let projects = store.load_projects();
    assert_eq!(projects.len(), 1);
    assert_eq!(
        projects[0].source,
        Source::Git {
            repo: "https://example/new.git".to_string()
        }
    );
    // The upsert touched only the project row: its target survived.
    assert_eq!(projects[0].targets.len(), 1);
    assert_eq!(projects[0].targets[0].name, "t1");
}

#[test]
fn load_projects_joins_targets_in_order() {
    let mut store = Store::new();
    store.update_project(make_project("demo", "https://example/demo.git"));
    store.add_project_target("demo".to_string(), make_target("a", "fa", "fuzz_a"));
    store.add_project_target("demo".to_string(), make_target("b", "fb", "fuzz_b"));

    let demo = store.load_project(&"demo".to_string()).unwrap();
    assert_eq!(demo.targets.len(), 2);
    assert_eq!(demo.targets[0].name, "a");
    assert_eq!(demo.targets[1].name, "b");
}

#[test]
fn handle_answers_each_request_in_kind() {
    let mut store = Store::new();

    match store.handle(StorageRequest::StoreProject(make_project(
        "demo",
        "https://example/demo.git",
    ))) {
        StorageResult::StoreProject => {}
        _ => panic!("wrong reply kind for a project upsert"),
    }

    match store.handle(StorageRequest::AddProjectTarget {
        project_name: "demo".to_string(),
        target: make_target("t1", "f", "fuzz_1"),
    }) {
        StorageResult::AddProjectTarget => {}
        _ => panic!("wrong reply kind for a target add"),
    }

    match store.handle(StorageRequest::StoreResult {
        project_name: "demo".to_string(),
        result: FuzzResult::new("t1".to_string(), vec![5]),
    }) {
        StorageResult::Store => {}
        _ => panic!("wrong reply kind for a result store"),
    }

    match store.handle(StorageRequest::LoadResults {
        project: "demo".to_string(),
    }) {
        StorageResult::LoadResults(rs) => {
            assert_eq!(rs.len(), 1);
            assert_eq!(rs[0].name, "t1");
            assert_eq!(rs[0].content, vec![5]);
        }
        _ => panic!("wrong reply kind for a results load"),
    }

    match store.handle(StorageRequest::LoadProjects) {
        StorageResult::LoadProjects(ps) => {
            assert_eq!(ps.len(), 1);
            assert_eq!(ps[0].name, "demo");
            assert_eq!(ps[0].targets.len(), 1);
        }
        _ => panic!("wrong reply kind for a projects load"),
    }

    match store.handle(StorageRequest::LoadProject {
        name: "demo".to_string(),
    }) {
        StorageResult::LoadProject(Some(p)) => assert_eq!(p.name, "demo"),
        _ => panic!("a stored project must load back"),
    }

    match store.handle(StorageRequest::LoadProject {
        name: "absent".to_string(),
    }) {
        StorageResult::LoadProject(None) => {}
        _ => panic!("an absent project must load as none"),
    }

    match store.handle(StorageRequest::LoadTarget {
        project_name: "demo".to_string(),
        target_name: "t1".to_string(),
    }) {
        StorageResult::LoadTarget(Some(t)) => assert_eq!(t.folder, "f"),
        _ => panic!("a stored target must load back"),
    }

    match store.handle(StorageRequest::RemoveProject {
        name: "demo".to_string(),
    }) {
        StorageResult::RemoveProject => {}
        _ => panic!("wrong reply kind for a project removal"),
    }

    match store.handle(StorageRequest::LoadTarget {
        project_name: "demo".to_string(),
        target_name: "t1".to_string(),
    }) {
        StorageResult::LoadTarget(None) => {}
        _ => panic!("a removed project's target must be gone"),
    }
}
