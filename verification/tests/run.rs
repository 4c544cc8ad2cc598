use orchestrator::error::ErrorKind;
use orchestrator::json::JsonValue;
use orchestrator::project::{ProjectInfo, ProjectKind};
use orchestrator::run::{
    copy_fields, plan_run, plan_with, prepare_python_run, record_run, run_config, run_succeeded, script_of,
    tags_document, ProcessOutcome, RunRequest,
};
use orchestrator::store::{RunStatus, RunStore};

fn project(kind: ProjectKind) -> ProjectInfo {
    ProjectInfo {
        sport: "Football".to_string(),
        name: "Match Result Prediction".to_string(),
        python_dir: "/repo/Football/MRP/Python".to_string(),
        notebook: None,
        kind,
    }
}

fn text(s: &str) -> JsonValue {
    JsonValue::Text(s.to_string())
}

fn request(cache_dir: Option<&str>, with_cache_param: bool) -> RunRequest {
    let mut params = vec![
        ("mode".to_string(), text("match_result")),
        ("league".to_string(), text("epl")),
        ("round_number".to_string(), JsonValue::Number("2".to_string())),
    ];
    if with_cache_param {
        params.push(("cache_dir".to_string(), text("mine")));
    }
    RunRequest {
        sport: "football".to_string(),
        project: "match_result_prediction".to_string(),
        params,
        cache_dir: cache_dir.map(|s| s.to_string()),
        tags: Some(vec!["a".to_string(), "b".to_string()]),
    }
}

#[test]
fn clean_exit_with_artifact_succeeds() {
    let ok = run_succeeded(ProcessOutcome::Exited { success: true, artifact_exists: true });
    assert_eq!(ok.unwrap(), true);
}

#[test]
fn clean_exit_without_artifact_fails() {
    let r = run_succeeded(ProcessOutcome::Exited { success: true, artifact_exists: false });
    assert_eq!(r.unwrap(), false);
}

#[test]
fn failed_exit_or_launch_is_a_failed_run_not_an_error() {
    assert_eq!(run_succeeded(ProcessOutcome::Exited { success: false, artifact_exists: true }).unwrap(), false);
    assert_eq!(run_succeeded(ProcessOutcome::Exited { success: false, artifact_exists: false }).unwrap(), false);
    assert_eq!(run_succeeded(ProcessOutcome::LaunchFailed).unwrap(), false);
}

#[test]
fn capture_files_that_cannot_be_made_are_internal_errors() {
    let e = run_succeeded(ProcessOutcome::StdoutUnavailable).unwrap_err();
    assert_eq!((e.kind, e.message.as_str()), (ErrorKind::Internal, "Failed to open stdout"));
    let e = run_succeeded(ProcessOutcome::StderrUnavailable).unwrap_err();
    assert_eq!((e.kind, e.message.as_str()), (ErrorKind::Internal, "Failed to open stderr"));
}

#[test]
fn a_plan_names_its_directory_by_the_run() {
    let plan = plan_run("/repo/platform/backend/data", &request(None, false));
    assert_eq!(plan.run_id.len(), 36);
    assert!(plan.run_id.chars().all(|c| c == '-' || c.is_ascii_digit() || ('a'..='f').contains(&c)));
    assert_eq!(plan.run_dir, format!("/repo/platform/backend/data/runs/{}", plan.run_id));
    assert_eq!(plan.config_path, format!("{}/config.json", plan.run_dir));
    assert_eq!(plan.output_path, format!("{}/result.json", plan.run_dir));
    assert_eq!(plan.stdout_path, format!("{}/stdout.log", plan.run_dir));
    assert_eq!(plan.stderr_path, format!("{}/stderr.log", plan.run_dir));
    let other = plan_run("/repo/platform/backend/data", &request(None, false));
    assert_ne!(plan.run_id, other.run_id);
    let fixed = plan_with("abc".to_string(), "/d", JsonValue::Null);
    assert_eq!(fixed.run_dir, "/d/runs/abc");
    assert_eq!(fixed.config, JsonValue::Null);
}

#[test]
fn the_configuration_freezes_the_request() {
    let config = run_config(&request(Some("/tmp/cache"), false));
    assert_eq!(config.get("sport"), Some(&text("football")));
    assert_eq!(config.get("project"), Some(&text("match_result_prediction")));
    assert_eq!(config.get("tags"), Some(&JsonValue::Array(vec![text("a"), text("b")])));
    let params = config.get("params").unwrap();
    assert_eq!(params.get("league"), Some(&text("epl")));
    assert_eq!(params.get("cache_dir"), Some(&text("/tmp/cache")));
    let config = run_config(&request(Some("/tmp/cache"), true));
    assert_eq!(config.get("params").unwrap().get("cache_dir"), Some(&text("mine")));
    let config = run_config(&request(None, false));
    assert_eq!(config.get("params").unwrap().get("cache_dir"), None);
    assert_eq!(tags_document(&None), JsonValue::Null);
    assert_eq!(tags_document(&Some(vec![])), JsonValue::Array(vec![]));
    let fields = vec![("k".to_string(), text("v"))];
    assert_eq!(copy_fields(&fields), fields);
}

#[test]
fn the_invocation_comes_from_the_frozen_configuration() {
    let config = run_config(&request(None, false));
    let command = prepare_python_run(&project(ProjectKind::Football), &config, "/d/result.json", true).unwrap();
    assert_eq!(command.program, "python");
    assert_eq!(command.args[0], "/repo/Football/MRP/Python/run_prediction.py");
    assert_eq!(&command.args[1..5], ["--mode", "match_result", "--league", "epl"]);
    assert_eq!(command.args.last().unwrap(), "--quiet");
    assert_eq!(script_of(&project(ProjectKind::Football)), "/repo/Football/MRP/Python/run_prediction.py");
}

#[test]
fn what_stops_an_invocation() {
    let config = run_config(&request(None, false));
    let e = prepare_python_run(&project(ProjectKind::Football), &config, "/d/r.json", false).unwrap_err();
    assert_eq!((e.kind, e.message.as_str()), (ErrorKind::Internal, "run_prediction.py not found"));
    let e = prepare_python_run(&project(ProjectKind::Unknown), &config, "/d/r.json", true).unwrap_err();
    assert_eq!((e.kind, e.message.as_str()), (ErrorKind::BadRequest, "Unknown project kind"));
    let e = prepare_python_run(&project(ProjectKind::Unknown), &config, "/d/r.json", false).unwrap_err();
    assert_eq!((e.kind, e.message.as_str()), (ErrorKind::BadRequest, "Unknown project kind"));
    let e = prepare_python_run(&project(ProjectKind::F1), &config, "/d/r.json", false).unwrap_err();
    assert_eq!((e.kind, e.message.as_str()), (ErrorKind::BadRequest, "Missing param: source"));
    let e = prepare_python_run(&project(ProjectKind::F1), &config, "/d/r.json", true).unwrap_err();
    assert_eq!((e.kind, e.message.as_str()), (ErrorKind::BadRequest, "Missing param: source"));
    let e = prepare_python_run(&project(ProjectKind::F1), &JsonValue::Null, "/d/r.json", true).unwrap_err();
    assert_eq!((e.kind, e.message.as_str()), (ErrorKind::BadRequest, "Params missing"));
    let no_map = JsonValue::Object(vec![("params".to_string(), JsonValue::Array(vec![]))]);
    let e = prepare_python_run(&project(ProjectKind::F1), &no_map, "/d/r.json", false).unwrap_err();
    assert_eq!(e.message, "Params missing");
}

#[test]
fn a_failed_run_is_recorded_and_answered() {
    let mut store = RunStore::new();
    let plan = plan_run("/data", &request(None, false));
    let id = plan.run_id.clone();
    let output = plan.output_path.clone();
    let response = record_run(&mut store, plan, &project(ProjectKind::Football), false, 1234, None).unwrap();
    assert_eq!(response.run_id, id);
    assert_eq!(response.status, "failed");
    let run = store.get(&id).unwrap();
    assert_eq!(run.status, RunStatus::Failed);
    assert_eq!(run.sport, "Football");
    assert_eq!(run.project, "Match Result Prediction");
    assert_eq!(run.duration_ms, Some(1234));
    assert_eq!(run.result_path.as_deref(), Some(output.as_str()));
    assert_eq!(run.sweep_id, None);
    assert_eq!(run.config.get("sport"), Some(&text("football")));
    let plan = plan_run("/data", &request(None, false));
    let response = record_run(&mut store, plan, &project(ProjectKind::Football), true, 1, None).unwrap();
    assert_eq!(response.status, "success");
    assert_eq!(store.len(), 2);
}
