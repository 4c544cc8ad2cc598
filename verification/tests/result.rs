use orchestrator::error::ErrorKind;
use orchestrator::json::JsonValue;
use orchestrator::result::{pred_values, read_json_path, read_text_path, run_detail, stored_path, summary_point, FileRead};
use orchestrator::store::{RunRecord, RunStatus};

fn score(text: &str) -> Option<f64> {
    let doc = read_json_path(FileRead::Content(text.to_string())).unwrap().unwrap();
    let terms = pred_values(&doc)?;
    let values: Vec<f64> = terms.iter().map(|t| t.parse::<f64>().unwrap()).collect();
    Some(values.iter().sum::<f64>() / values.len() as f64)
}

#[test]
fn score_is_the_mean_of_the_preds_that_are_there() {
    assert_eq!(score("{\"rows\":[{\"pred\":1.0},{\"pred\":3.0},{}]}"), Some(2.0));
    assert_eq!(score("{\"rows\":[]}"), None);
}

#[test]
fn rows_without_a_number_are_passed_over() {
    assert_eq!(score("{\"rows\":[{\"pred\":\"x\"},{\"pred\":null},{\"other\":1}]}"), None);
    assert_eq!(score("{\"rows\":[{\"pred\":4},7,{\"pred\":2.5}]}"), Some(3.25));
    assert_eq!(score("{\"rows\":{\"pred\":1}}"), None);
    assert_eq!(score("{\"other\":[]}"), None);
    assert_eq!(score("[1,2]"), None);
}

#[test]
fn preds_come_in_the_order_of_the_rows() {
    let doc = read_json_path(FileRead::Content(
        "{\"rows\":[{\"pred\":1.5},{\"pred\":-2},{\"pred\":1e3}]}".to_string(),
    ))
    .unwrap()
    .unwrap();
    assert_eq!(pred_values(&doc), Some(vec!["1.5".to_string(), "-2".to_string(), "1000.0".to_string()]));
}

#[test]
fn a_missing_file_is_absent_not_an_error() {
    assert_eq!(read_json_path(FileRead::Missing).unwrap(), None);
    assert_eq!(read_text_path(FileRead::Missing).unwrap(), None);
}

#[test]
fn unreadable_or_invalid_files_are_internal_errors() {
    let e = read_json_path(FileRead::Unreadable).unwrap_err();
    assert_eq!((e.kind, e.message.as_str()), (ErrorKind::Internal, "Failed to read result"));
    let e = read_json_path(FileRead::Content("{not json".to_string())).unwrap_err();
    assert_eq!((e.kind, e.message.as_str()), (ErrorKind::Internal, "Invalid JSON"));
    let e = read_text_path(FileRead::Unreadable).unwrap_err();
    assert_eq!((e.kind, e.message.as_str()), (ErrorKind::Internal, "Failed to read log"));
    assert_eq!(read_text_path(FileRead::Content("hello".to_string())).unwrap(), Some("hello".to_string()));
}

#[test]
fn parsed_documents_mirror_the_text() {
    let doc = read_json_path(FileRead::Content(
        "{\"b\":[true,null,\"t\"],\"a\":{\"n\":20}}".to_string(),
    ))
    .unwrap()
    .unwrap();
    assert_eq!(
        doc,
        JsonValue::Object(vec![
            ("a".to_string(), JsonValue::Object(vec![("n".to_string(), JsonValue::Number("20".to_string()))])),
            (
                "b".to_string(),
                JsonValue::Array(vec![JsonValue::Bool(true), JsonValue::Null, JsonValue::Text("t".to_string())])
            ),
        ])
    );
    assert_eq!(doc.get("a").unwrap().get("n"), Some(&JsonValue::Number("20".to_string())));
    assert_eq!(doc.get("zz"), None);
    assert_eq!(doc.duplicate(), doc);
    assert_eq!(doc.clone(), doc);
}

#[test]
fn summary_points() {
    let doc = read_json_path(FileRead::Content("{\"rows\":[{\"pred\":2}]}".to_string())).unwrap();
    let p = summary_point("10", &doc);
    assert_eq!(p.param_value, "10");
    assert_eq!(p.preds, Some(vec!["2".to_string()]));
    let p = summary_point("20", &None);
    assert_eq!(p.preds, None);
    let p = summary_point("30", &Some(JsonValue::Null));
    assert_eq!(p.preds, None);
}

#[test]
fn stored_paths_are_absolute_or_below_the_repository() {
    assert_eq!(stored_path("/repo", "/data/runs/x/result.json"), "/data/runs/x/result.json");
    assert_eq!(stored_path("/repo", "data/x.json"), "/repo/data/x.json");
}

#[test]
fn detail_shows_the_artifact_relative_to_the_repository() {
    let run = RunRecord {
        id: "r".to_string(),
        created_at: 9,
        sport: "F1".to_string(),
        project: "P".to_string(),
        status: RunStatus::Success,
        config: JsonValue::Object(vec![("sport".to_string(), JsonValue::Text("f1".to_string()))]),
        result_path: Some("/repo/platform/backend/data/runs/r/result.json".to_string()),
        stdout_path: None,
        stderr_path: None,
        duration_ms: Some(3),
        sweep_id: None,
    };
    let d = run_detail(&run, "/repo", Some(JsonValue::Null), Some("out".to_string()), None);
    assert_eq!(d.result_path.as_deref(), Some("platform/backend/data/runs/r/result.json"));
    assert_eq!(d.id, "r");
    assert_eq!(d.config, run.config);
    assert_eq!(d.result, Some(JsonValue::Null));
    assert_eq!(d.stdout.as_deref(), Some("out"));
    assert_eq!(d.stderr, None);
    assert_eq!(d.duration_ms, Some(3));
    let d = run_detail(&run, "/elsewhere", None, None, None);
    assert_eq!(d.result_path, None);
}

#[test]
fn documents_as_text() {
    let doc = JsonValue::Object(vec![
        ("sport".to_string(), JsonValue::Text("f1".to_string())),
        ("params".to_string(), JsonValue::Object(vec![("year".to_string(), JsonValue::Number("2024".to_string()))])),
        ("tags".to_string(), JsonValue::Null),
    ]);
    assert_eq!(doc.to_text(), "{\"params\":{\"year\":2024},\"sport\":\"f1\",\"tags\":null}");
    assert_eq!(
        doc.to_pretty_text(),
        "{\n  \"params\": {\n    \"year\": 2024\n  },\n  \"sport\": \"f1\",\n  \"tags\": null\n}"
    );
    assert_eq!(JsonValue::parse(&doc.to_text()).unwrap().get("sport"), Some(&JsonValue::Text("f1".to_string())));
    assert_eq!(JsonValue::Number("not a number".to_string()).to_text(), "null");
    assert_eq!(JsonValue::Number("not a number".to_string()).to_pretty_text(), "null");
    assert_eq!(JsonValue::number("not a number"), None);
    assert_eq!(JsonValue::number("1e999"), None);
    assert_eq!(JsonValue::number(""), None);
    assert_eq!(JsonValue::number("-12.5e3"), Some(JsonValue::Number("-12.5e3".to_string())));
    assert_eq!(JsonValue::number("20"), Some(JsonValue::Number("20".to_string())));
    assert_eq!(JsonValue::Number("1.50".to_string()).to_text(), "1.5");
    assert_eq!(JsonValue::parse("nope"), None);
    let twice = JsonValue::Object(vec![
        ("k".to_string(), JsonValue::Bool(false)),
        ("k".to_string(), JsonValue::Bool(true)),
    ]);
    assert_eq!(twice.to_text(), "{\"k\":true}");
    assert_eq!(twice.get("k"), Some(&JsonValue::Bool(true)));
}
