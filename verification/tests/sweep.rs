use orchestrator::error::ErrorKind;
use orchestrator::json::JsonValue;
use orchestrator::project::{ProjectInfo, ProjectKind};
use orchestrator::result::{summary_point, sweep_children};
use orchestrator::run::param_text;
use orchestrator::store::{RunStatus, RunStore};
use orchestrator::sweep::{contains_false, SweepCoordinator, SweepRequest};
use orchestrator::sweep_store::{SweepStatus, SweepStore};

fn project() -> ProjectInfo {
    ProjectInfo {
        sport: "F1".to_string(),
        name: "Rising Qualification Prediction".to_string(),
        python_dir: "/repo/F1/P/Python".to_string(),
        notebook: None,
        kind: ProjectKind::F1,
    }
}

fn number(s: &str) -> JsonValue {
    JsonValue::Number(s.to_string())
}

fn request(values: Vec<JsonValue>) -> SweepRequest {
    SweepRequest {
        sport: "f1".to_string(),
        project: "rising_qualification_prediction".to_string(),
        base_params: vec![
            ("mode".to_string(), JsonValue::Text("race".to_string())),
            ("year".to_string(), number("1999")),
        ],
        param: "year".to_string(),
        values,
    }
}

fn run_sweep(values: Vec<JsonValue>, fails: &[usize]) -> (RunStore, SweepStore, String, Vec<String>) {
    let mut runs = RunStore::new();
    let mut sweeps = SweepStore::new();
    let mut c = SweepCoordinator::begin(&mut sweeps, &project(), request(values)).unwrap();
    assert_eq!(sweeps.get(&c.sweep_id).unwrap().status, SweepStatus::Running);
    let mut i = 0;
    while let Some(plan) = c.next_run("/data") {
        let ok = !fails.contains(&i);
        c.record_child(&mut runs, &mut sweeps, plan, &project(), ok, 5).unwrap();
        i += 1;
    }
    let response = c.finish(&mut sweeps).unwrap();
    (runs, sweeps, response.sweep_id, response.run_ids)
}

#[test]
fn sweep_with_one_failure_is_partial() {
    let (runs, sweeps, sweep_id, run_ids) =
        run_sweep(vec![number("10"), number("20"), number("30")], &[1]);
    assert_eq!(run_ids.len(), 3);
    assert_eq!(sweeps.get(&sweep_id).unwrap().status, SweepStatus::Partial);
    let children = sweep_children(&sweeps, &runs, &sweep_id);
    let summary: Vec<String> =
        children.iter().map(|c| summary_point(c.param_value, &None).param_value).collect();
    assert_eq!(summary, vec!["10", "20", "30"]);
    let ids: Vec<&str> = children.iter().map(|c| c.run.id.as_str()).collect();
    assert_eq!(ids, run_ids.iter().map(|s| s.as_str()).collect::<Vec<_>>());
    let statuses: Vec<RunStatus> = children.iter().map(|c| c.run.status).collect();
    assert_eq!(statuses, vec![RunStatus::Success, RunStatus::Failed, RunStatus::Success]);
    for child in &children {
        assert_eq!(child.run.sweep_id.as_deref(), Some(sweep_id.as_str()));
    }
}

#[test]
fn sweep_where_all_succeed_is_success() {
    let (runs, sweeps, sweep_id, run_ids) = run_sweep(vec![number("1"), number("2")], &[]);
    assert_eq!(run_ids.len(), 2);
    assert_eq!(sweeps.get(&sweep_id).unwrap().status, SweepStatus::Success);
    assert_eq!(runs.len(), 2);
}

#[test]
fn sweep_without_values_is_success() {
    let (runs, sweeps, sweep_id, run_ids) = run_sweep(vec![], &[]);
    assert!(run_ids.is_empty());
    assert_eq!(runs.len(), 0);
    assert_eq!(sweeps.get(&sweep_id).unwrap().status, SweepStatus::Success);
}

#[test]
fn sweep_values_as_text() {
    assert_eq!(param_text(&JsonValue::parse("20").unwrap()), "20");
    assert_eq!(param_text(&JsonValue::parse("true").unwrap()), "true");
    assert_eq!(param_text(&JsonValue::parse("\"20\"").unwrap()), "20");
    assert_eq!(param_text(&JsonValue::parse("2e1").unwrap()), "20.0");
    assert_eq!(param_text(&JsonValue::parse("[1, {\"a\" : null}]").unwrap()), "[1,{\"a\":null}]");
    assert_eq!(param_text(&number("20")), "20");
    assert_eq!(param_text(&JsonValue::Bool(true)), "true");
    assert_eq!(param_text(&JsonValue::Bool(false)), "false");
    assert_eq!(param_text(&JsonValue::Text("epl".to_string())), "epl");
    assert_eq!(param_text(&number("0.5")), "0.5");
    assert_eq!(param_text(&JsonValue::Null), "null");
    let list = JsonValue::Array(vec![number("1"), JsonValue::Text("a\"b".to_string())]);
    assert_eq!(param_text(&list), "[1,\"a\\\"b\"]");
    let object = JsonValue::Object(vec![
        ("b".to_string(), number("2")),
        ("a".to_string(), JsonValue::Null),
    ]);
    assert_eq!(param_text(&object), "{\"a\":null,\"b\":2}");
}

#[test]
fn links_keep_the_text_of_each_value() {
    let (_, sweeps, sweep_id, run_ids) =
        run_sweep(vec![number("20"), JsonValue::Bool(true), JsonValue::Text("x".to_string())], &[]);
    let links = sweeps.links_of(&sweep_id);
    let texts: Vec<&str> = links.iter().map(|l| l.param_value.as_str()).collect();
    assert_eq!(texts, vec!["20", "true", "x"]);
    let linked: Vec<&str> = links.iter().map(|l| l.run_id.as_str()).collect();
    assert_eq!(linked, run_ids.iter().map(|s| s.as_str()).collect::<Vec<_>>());
}

#[test]
fn the_swept_value_overrides_the_shared_parameter() {
    let mut sweeps = SweepStore::new();
    let c = SweepCoordinator::begin(&mut sweeps, &project(), request(vec![number("2024")])).unwrap();
    let plan = c.next_run("/data").unwrap();
    let params = plan.config.get("params").unwrap();
    assert_eq!(params.get("year"), Some(&number("2024")));
    assert_eq!(params.get("mode"), Some(&JsonValue::Text("race".to_string())));
    assert_eq!(plan.config.get("sweep_id"), Some(&JsonValue::Text(c.sweep_id.clone())));
    assert_eq!(plan.config.get("sport"), Some(&JsonValue::Text("f1".to_string())));
    assert_eq!(plan.run_dir, format!("/data/runs/{}", plan.run_id));
    assert_eq!(plan.output_path, format!("/data/runs/{}/result.json", plan.run_id));
    assert_eq!(plan.config_path, format!("/data/runs/{}/config.json", plan.run_id));
    assert_eq!(plan.stdout_path, format!("/data/runs/{}/stdout.log", plan.run_id));
    assert_eq!(plan.stderr_path, format!("/data/runs/{}/stderr.log", plan.run_id));
    assert_eq!(plan.run_id.len(), 36);
    assert_ne!(plan.run_id, c.sweep_id);
}

#[test]
fn the_sweep_is_recorded_as_running_before_any_child() {
    let mut sweeps = SweepStore::new();
    let c = SweepCoordinator::begin(&mut sweeps, &project(), request(vec![number("1")])).unwrap();
    let record = sweeps.get(&c.sweep_id).unwrap();
    assert_eq!(record.status, SweepStatus::Running);
    assert_eq!(record.sport, "F1");
    assert_eq!(record.project, "Rising Qualification Prediction");
    assert_eq!(record.param, "year");
    assert_eq!(record.values, vec![number("1")]);
    assert_eq!(record.base_config.get("project"), Some(&JsonValue::Text("rising_qualification_prediction".to_string())));
    assert_eq!(
        record.base_config.get("params").unwrap().get("year"),
        Some(&number("1999"))
    );
    assert!(sweeps.links_of(&c.sweep_id).is_empty());
    assert_eq!(c.remaining(), 1);
}

#[test]
fn a_sweep_cannot_end_while_a_child_is_left() {
    let mut sweeps = SweepStore::new();
    let c = SweepCoordinator::begin(&mut sweeps, &project(), request(vec![number("1")])).unwrap();
    let id = c.sweep_id.clone();
    let e = c.finish(&mut sweeps).unwrap_err();
    assert_eq!(e.kind, ErrorKind::Internal);
    assert_eq!(e.message, "Failed to finalize sweep");
    assert_eq!(sweeps.get(&id).unwrap().status, SweepStatus::Running);
}

#[test]
fn a_child_is_recorded_once() {
    let mut runs = RunStore::new();
    let mut sweeps = SweepStore::new();
    let mut c = SweepCoordinator::begin_with("s".to_string(), &mut sweeps, &project(), request(vec![number("1"), number("2")])).unwrap();
    let plan = c.next_run_with("r".to_string(), "/data").unwrap();
    c.record_child(&mut runs, &mut sweeps, plan, &project(), true, 1).unwrap();
    let plan = c.next_run_with("r".to_string(), "/data").unwrap();
    let e = c.record_child(&mut runs, &mut sweeps, plan, &project(), true, 1).unwrap_err();
    assert_eq!(e.message, "Failed to persist run");
    assert_eq!(c.remaining(), 1);
    assert_eq!(runs.len(), 1);
    let again = SweepCoordinator::begin_with("s".to_string(), &mut sweeps, &project(), request(vec![]));
    assert_eq!(again.unwrap_err().message, "Failed to create sweep");
}

#[test]
fn failures_among_outcomes() {
    assert!(contains_false(&vec![true, false, true]));
    assert!(!contains_false(&vec![true, true]));
    assert!(!contains_false(&vec![]));
}

#[test]
fn a_sweep_that_the_store_no_longer_matches_is_refused() {
    let mut runs = RunStore::new();
    let mut sweeps = SweepStore::new();
    let mut c = SweepCoordinator::begin_with("s".to_string(), &mut sweeps, &project(), request(vec![number("1")])).unwrap();
    assert!(c.is_in_step(&sweeps));
    sweeps.add_link("s".to_string(), "stray".to_string(), "1".to_string()).unwrap();
    assert!(!c.is_in_step(&sweeps));
    let plan = c.next_run_with("r".to_string(), "/data").unwrap();
    let e = c.record_child(&mut runs, &mut sweeps, plan, &project(), true, 1).unwrap_err();
    assert_eq!(e.message, "Failed to persist sweep run");
    assert_eq!(runs.len(), 0);
    assert_eq!(c.remaining(), 1);
    let e = c.finish(&mut sweeps).unwrap_err();
    assert_eq!(e.message, "Failed to finalize sweep");
    assert_eq!(sweeps.get("s").unwrap().status, SweepStatus::Running);
}

#[test]
fn a_sweep_that_was_finalized_elsewhere_is_refused() {
    let mut runs = RunStore::new();
    let mut sweeps = SweepStore::new();
    let mut c = SweepCoordinator::begin_with("s".to_string(), &mut sweeps, &project(), request(vec![number("1")])).unwrap();
    sweeps.finalize("s", false).unwrap();
    let plan = c.next_run_with("r".to_string(), "/data").unwrap();
    let e = c.record_child(&mut runs, &mut sweeps, plan, &project(), true, 1).unwrap_err();
    assert_eq!(e.kind, ErrorKind::Internal);
    assert_eq!(runs.len(), 0);
}
