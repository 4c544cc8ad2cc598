use orchestrator::error::ErrorKind;
use orchestrator::json::JsonValue;
use orchestrator::store::{RunRecord, RunStatus, RunStore};
use orchestrator::sweep_store::{SweepRecord, SweepStatus, SweepStore};

fn run(id: &str, created_at: i64) -> RunRecord {
    RunRecord {
        id: id.to_string(),
        created_at,
        sport: "F1".to_string(),
        project: "P".to_string(),
        status: RunStatus::Success,
        config: JsonValue::Null,
        result_path: Some(format!("/data/runs/{}/result.json", id)),
        stdout_path: None,
        stderr_path: None,
        duration_ms: Some(12),
        sweep_id: None,
    }
}

fn sweep(id: &str, created_at: i64, status: SweepStatus) -> SweepRecord {
    SweepRecord {
        id: id.to_string(),
        created_at,
        sport: "F1".to_string(),
        project: "P".to_string(),
        param: "year".to_string(),
        values: vec![JsonValue::Number("1".to_string())],
        base_config: JsonValue::Null,
        status,
    }
}

#[test]
fn get_twice_returns_the_same_record() {
    let mut store = RunStore::new();
    store.insert(run("a", 5)).unwrap();
    store.insert(run("b", 6)).unwrap();
    let first = format!("{:?}", store.get("a").unwrap());
    let second = format!("{:?}", store.get("a").unwrap());
    assert_eq!(first, second);
    assert_eq!(store.get("a").unwrap().id, "a");
    assert_eq!(store.get("a").unwrap().created_at, 5);
    assert_eq!(store.len(), 2);
}

#[test]
fn get_of_an_unknown_id_is_not_found() {
    let mut store = RunStore::new();
    store.insert(run("a", 5)).unwrap();
    let e = store.get("zz").unwrap_err();
    assert_eq!(e.kind, ErrorKind::NotFound);
    assert_eq!(e.message, "Run not found");
    assert!(!store.contains("zz"));
    assert!(store.contains("a"));
}

#[test]
fn list_is_most_recent_first() {
    let mut store = RunStore::new();
    store.insert(run("a", 20)).unwrap();
    store.insert(run("b", 10)).unwrap();
    store.insert(run("c", 30)).unwrap();
    store.insert(run("d", 20)).unwrap();
    let ids: Vec<String> = store.list().into_iter().map(|s| s.id).collect();
    assert_eq!(ids, vec!["c", "d", "a", "b"]);
    let times: Vec<i64> = store.list().into_iter().map(|s| s.created_at).collect();
    assert_eq!(times, vec![30, 20, 20, 10]);
    assert!(RunStore::new().list().is_empty());
}

#[test]
fn an_id_is_recorded_once() {
    let mut store = RunStore::new();
    store.insert(run("a", 1)).unwrap();
    let e = store.insert(run("a", 2)).unwrap_err();
    assert_eq!(e.kind, ErrorKind::Internal);
    assert_eq!(e.message, "Failed to persist run");
    assert_eq!(store.len(), 1);
    assert_eq!(store.get("a").unwrap().created_at, 1);
}

#[test]
fn create_stamps_and_keeps_what_was_handed_in() {
    let mut store = RunStore::new();
    let id = store
        .create(
            "r1".to_string(),
            "F1".to_string(),
            "P".to_string(),
            RunStatus::Failed,
            JsonValue::Bool(true),
            Some("/o".to_string()),
            Some("/out".to_string()),
            Some("/err".to_string()),
            77,
            Some("s1".to_string()),
        )
        .unwrap();
    assert_eq!(id, "r1");
    let r = store.get("r1").unwrap();
    assert_eq!(r.status, RunStatus::Failed);
    assert_eq!(r.config, JsonValue::Bool(true));
    assert_eq!(r.duration_ms, Some(77));
    assert_eq!(r.sweep_id.as_deref(), Some("s1"));
    assert_eq!(r.stderr_path.as_deref(), Some("/err"));
    assert!(r.created_at > 1_600_000_000_000_000);
    let again = store.create(
        "r1".to_string(), "F1".to_string(), "P".to_string(), RunStatus::Success,
        JsonValue::Null, None, None, None, 1, None,
    );
    assert_eq!(again.unwrap_err().kind, ErrorKind::Internal);
    assert_eq!(store.len(), 1);
}

#[test]
fn status_words() {
    assert_eq!(RunStatus::Success.as_str(), "success");
    assert_eq!(RunStatus::Failed.as_str(), "failed");
    assert_eq!(RunStatus::from_outcome(true), RunStatus::Success);
    assert_eq!(RunStatus::from_outcome(false), RunStatus::Failed);
    assert_eq!(SweepStatus::Running.as_str(), "running");
    assert_eq!(SweepStatus::Success.as_str(), "success");
    assert_eq!(SweepStatus::Partial.as_str(), "partial");
}

#[test]
fn a_sweep_is_finalized_once() {
    let mut store = SweepStore::new();
    store.insert(sweep("s", 1, SweepStatus::Running)).unwrap();
    assert_eq!(store.finalize("s", true).unwrap(), SweepStatus::Partial);
    assert_eq!(store.get("s").unwrap().status, SweepStatus::Partial);
    let e = store.finalize("s", false).unwrap_err();
    assert_eq!(e.kind, ErrorKind::Internal);
    assert_eq!(e.message, "Failed to finalize sweep");
    assert_eq!(store.get("s").unwrap().status, SweepStatus::Partial);
    assert_eq!(store.finalize("unknown", false).unwrap_err().kind, ErrorKind::Internal);
}

#[test]
fn finalize_without_failure_is_success() {
    let mut store = SweepStore::new();
    store.insert(sweep("a", 1, SweepStatus::Running)).unwrap();
    store.insert(sweep("b", 2, SweepStatus::Running)).unwrap();
    assert_eq!(store.finalize("a", false).unwrap(), SweepStatus::Success);
    assert_eq!(store.get("a").unwrap().status, SweepStatus::Success);
    assert_eq!(store.get("b").unwrap().status, SweepStatus::Running);
    assert_eq!(store.get("a").unwrap().param, "year");
}

#[test]
fn sweeps_are_listed_most_recent_first() {
    let mut store = SweepStore::new();
    store.insert(sweep("a", 3, SweepStatus::Running)).unwrap();
    store.insert(sweep("b", 9, SweepStatus::Success)).unwrap();
    store.insert(sweep("c", 1, SweepStatus::Partial)).unwrap();
    let ids: Vec<&str> = store.list().into_iter().map(|s| s.id.as_str()).collect();
    assert_eq!(ids, vec!["b", "a", "c"]);
    assert_eq!(store.insert(sweep("a", 4, SweepStatus::Running)).unwrap_err().message, "Failed to create sweep");
    assert_eq!(store.get("nope").unwrap_err().kind, ErrorKind::NotFound);
    assert_eq!(store.get("nope").unwrap_err().message, "Sweep not found");
}

#[test]
fn links_are_unique_and_kept_in_order() {
    let mut store = SweepStore::new();
    store.insert(sweep("s", 1, SweepStatus::Running)).unwrap();
    store.insert(sweep("t", 2, SweepStatus::Running)).unwrap();
    store.add_link("s".to_string(), "r1".to_string(), "10".to_string()).unwrap();
    store.add_link("t".to_string(), "r9".to_string(), "x".to_string()).unwrap();
    store.add_link("s".to_string(), "r2".to_string(), "20".to_string()).unwrap();
    let e = store.add_link("s".to_string(), "r1".to_string(), "again".to_string()).unwrap_err();
    assert_eq!(e.kind, ErrorKind::Internal);
    assert_eq!(e.message, "Failed to persist sweep run");
    let e = store.add_link("ghost".to_string(), "r3".to_string(), "1".to_string()).unwrap_err();
    assert_eq!(e.message, "Failed to persist sweep run");
    let mine: Vec<(&str, &str)> =
        store.links_of("s").into_iter().map(|l| (l.run_id.as_str(), l.param_value.as_str())).collect();
    assert_eq!(mine, vec![("r1", "10"), ("r2", "20")]);
    assert!(store.links_of("none").is_empty());
}

#[test]
fn creation_times_as_text() {
    assert_eq!(orchestrator::store::time_text(0), "1970-01-01T00:00:00+00:00");
    assert_eq!(orchestrator::store::time_text(1_662_921_288_000_000), "2022-09-11T18:34:48+00:00");
    assert_eq!(orchestrator::store::time_text(1_662_921_288_250_000), "2022-09-11T18:34:48.250+00:00");
    assert_eq!(orchestrator::store::time_text(-1_000_000), "1969-12-31T23:59:59+00:00");
    assert_eq!(orchestrator::store::time_text(i64::MAX), "");
}
