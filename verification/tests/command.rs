use orchestrator::command::{build_command, command_schema, get_bool, get_i64, get_str, ParamType};
use orchestrator::error::{AppError, ErrorKind, ValidationError};
use orchestrator::json::JsonValue;
use orchestrator::project::{ProjectInfo, ProjectKind};

fn project(kind: ProjectKind) -> ProjectInfo {
    ProjectInfo {
        sport: "F1".to_string(),
        name: "Rising Qualification Prediction".to_string(),
        python_dir: "/repo/F1/P/Python".to_string(),
        notebook: None,
        kind,
    }
}

fn text(s: &str) -> JsonValue {
    JsonValue::Text(s.to_string())
}

fn number(s: &str) -> JsonValue {
    JsonValue::Number(s.to_string())
}

fn params(fields: Vec<(&str, JsonValue)>) -> Vec<(String, JsonValue)> {
    fields.into_iter().map(|(k, v)| (k.to_string(), v)).collect()
}

fn count(args: &[String], x: &str) -> usize {
    args.iter().filter(|a| a.as_str() == x).count()
}

#[test]
fn f1_command_in_schema_order_with_trailer() {
    let p = params(vec![
        ("source", text("fastf1")),
        ("mode", text("qualifying")),
        ("round_number", number("3")),
        ("include_standings", JsonValue::Bool(true)),
        ("cache_dir", text(".cache")),
    ]);
    let c = build_command(&project(ProjectKind::F1), &p, "/data/runs/x/result.json").unwrap();
    assert_eq!(c.program, "python");
    assert_eq!(
        c.args,
        vec![
            "/repo/F1/P/Python/run_prediction.py",
            "--mode", "qualifying",
            "--source", "fastf1",
            "--year", "2026",
            "--round", "3",
            "--train-seasons", "auto",
            "--include-standings",
            "--cache-dir", ".cache",
            "--output-format", "json",
            "--output-path", "/data/runs/x/result.json",
            "--quiet",
        ]
    );
}

#[test]
fn football_command_with_defaults() {
    let p = params(vec![
        ("mode", text("match_result")),
        ("league", text("epl")),
        ("round_number", number("7")),
    ]);
    let c = build_command(&project(ProjectKind::Football), &p, "out.json").unwrap();
    assert_eq!(
        c.args,
        vec![
            "/repo/F1/P/Python/run_prediction.py",
            "--mode", "match_result",
            "--league", "epl",
            "--season", "2026",
            "--round", "7",
            "--data-source", "placeholder",
            "--train-seasons", "auto",
            "--output-format", "json",
            "--output-path", "out.json",
            "--quiet",
        ]
    );
}

#[test]
fn every_required_flag_exactly_once() {
    let p = params(vec![
        ("mode", text("race")),
        ("source", text("openf1")),
        ("year", number("2024")),
        ("round_number", text("12")),
        ("train_seasons", text("2021,2022")),
        ("meeting_name", text("Monza")),
    ]);
    let c = build_command(&project(ProjectKind::F1), &p, "o.json").unwrap();
    for rule in command_schema(ProjectKind::F1) {
        if rule.required {
            assert_eq!(count(&c.args, rule.flag), 1, "{}", rule.flag);
        }
    }
    assert_eq!(count(&c.args, "--year"), 1);
    let at = c.args.iter().position(|a| a == "--year").unwrap();
    assert_eq!(c.args[at + 1], "2024");
    let at = c.args.iter().position(|a| a == "--round").unwrap();
    assert_eq!(c.args[at + 1], "12");
}

#[test]
fn false_switch_never_appears() {
    let p = params(vec![
        ("mode", text("race")),
        ("source", text("openf1")),
        ("round_number", number("1")),
        ("include_standings", JsonValue::Bool(false)),
    ]);
    let c = build_command(&project(ProjectKind::F1), &p, "o.json").unwrap();
    assert_eq!(count(&c.args, "--include-standings"), 0);
    assert!(!c.args.iter().any(|a| a == "false"));
    let p = params(vec![("mode", text("race")), ("source", text("openf1")), ("round_number", number("1"))]);
    let c = build_command(&project(ProjectKind::F1), &p, "o.json").unwrap();
    assert_eq!(count(&c.args, "--include-standings"), 0);
}

#[test]
fn a_value_that_spells_a_flag_is_still_a_value() {
    let p = params(vec![
        ("mode", text("--year")),
        ("source", text("openf1")),
        ("round_number", number("1")),
    ]);
    let c = build_command(&project(ProjectKind::F1), &p, "o.json").unwrap();
    assert_eq!(count(&c.args, "--year"), 2);
    assert_eq!(&c.args[1..3], ["--mode", "--year"]);
}

#[test]
fn unknown_kind_is_rejected_first() {
    let r = build_command(&project(ProjectKind::Unknown), &params(vec![]), "o.json");
    assert_eq!(r.unwrap_err(), ValidationError::UnknownProjectKind);
}

#[test]
fn missing_required_parameter() {
    let r = build_command(&project(ProjectKind::F1), &params(vec![]), "o.json");
    assert_eq!(r.unwrap_err(), ValidationError::MissingParameter("mode"));
    let p = params(vec![("mode", text("race"))]);
    let r = build_command(&project(ProjectKind::F1), &p, "o.json");
    assert_eq!(r.unwrap_err(), ValidationError::MissingParameter("source"));
    let p = params(vec![("mode", text("race")), ("source", text("s"))]);
    let r = build_command(&project(ProjectKind::F1), &p, "o.json");
    assert_eq!(r.unwrap_err(), ValidationError::MissingParameter("round_number"));
}

#[test]
fn invalid_numeric_text() {
    let p = params(vec![("mode", text("race")), ("source", text("s")), ("year", text("next"))]);
    let r = build_command(&project(ProjectKind::F1), &p, "o.json");
    assert_eq!(r.unwrap_err(), ValidationError::InvalidParameter("year"));
}

#[test]
fn first_error_in_schema_order_wins() {
    let p = params(vec![("year", text("next")), ("source", text("s"))]);
    let r = build_command(&project(ProjectKind::F1), &p, "o.json");
    assert_eq!(r.unwrap_err(), ValidationError::MissingParameter("mode"));
}

#[test]
fn legacy_key_only_where_the_key_is_absent() {
    let base = || params(vec![("mode", text("race")), ("source", text("s"))]);
    let mut p = base();
    p.push(("round".to_string(), number("4")));
    let c = build_command(&project(ProjectKind::F1), &p, "o.json").unwrap();
    let at = c.args.iter().position(|a| a == "--round").unwrap();
    assert_eq!(c.args[at + 1], "4");

    let mut p = base();
    p.push(("round".to_string(), number("4")));
    p.push(("round_number".to_string(), number("9")));
    let c = build_command(&project(ProjectKind::F1), &p, "o.json").unwrap();
    let at = c.args.iter().position(|a| a == "--round").unwrap();
    assert_eq!(c.args[at + 1], "9");

    let mut p = base();
    p.push(("round".to_string(), number("4")));
    p.push(("round_number".to_string(), JsonValue::Bool(true)));
    let r = build_command(&project(ProjectKind::F1), &p, "o.json");
    assert_eq!(r.unwrap_err(), ValidationError::InvalidParameter("round_number"));

    let mut p = base();
    p.push(("round".to_string(), text("4")));
    let c = build_command(&project(ProjectKind::F1), &p, "o.json").unwrap();
    let at = c.args.iter().position(|a| a == "--round").unwrap();
    assert_eq!(c.args[at + 1], "4");

    let mut p = base();
    p.push(("round".to_string(), JsonValue::Bool(false)));
    let r = build_command(&project(ProjectKind::F1), &p, "o.json");
    assert_eq!(r.unwrap_err(), ValidationError::InvalidParameter("round_number"));
}

#[test]
fn empty_text_counts_as_absent_for_optional_parameters() {
    let p = params(vec![
        ("mode", text("race")),
        ("source", text("s")),
        ("round_number", number("1")),
        ("train_seasons", text("")),
        ("cache_dir", text("")),
    ]);
    let c = build_command(&project(ProjectKind::F1), &p, "o.json").unwrap();
    let at = c.args.iter().position(|a| a == "--train-seasons").unwrap();
    assert_eq!(c.args[at + 1], "auto");
    assert_eq!(count(&c.args, "--cache-dir"), 0);
}

#[test]
fn text_entries_take_no_other_type() {
    let p = params(vec![
        ("mode", number("3")),
        ("source", text("s")),
        ("round_number", number("1")),
    ]);
    let r = build_command(&project(ProjectKind::F1), &p, "o.json");
    assert_eq!(r.unwrap_err(), ValidationError::InvalidParameter("mode"));
    let p = params(vec![
        ("mode", text("race")),
        ("source", text("s")),
        ("round_number", number("1")),
        ("cache_dir", JsonValue::Null),
    ]);
    let r = build_command(&project(ProjectKind::F1), &p, "o.json");
    assert_eq!(r.unwrap_err(), ValidationError::InvalidParameter("cache_dir"));
}

#[test]
fn a_wrong_typed_number_never_falls_back_on_the_default() {
    let with_year = |year: JsonValue| {
        params(vec![
            ("mode", text("race")),
            ("source", text("s")),
            ("year", year),
            ("round_number", number("1")),
        ])
    };
    for year in [
        JsonValue::Bool(true),
        number("2024.5"),
        number("18446744073709551615"),
        JsonValue::Null,
        JsonValue::Array(vec![number("2024")]),
        text("next"),
    ] {
        let r = build_command(&project(ProjectKind::F1), &with_year(year), "o.json");
        assert_eq!(r.unwrap_err(), ValidationError::InvalidParameter("year"));
    }
    let e = AppError::from_validation(ValidationError::InvalidParameter("year"));
    assert_eq!(e.status_code(), 400);
    let c = build_command(&project(ProjectKind::F1), &with_year(text("2031")), "o.json").unwrap();
    let at = c.args.iter().position(|a| a == "--year").unwrap();
    assert_eq!(c.args[at + 1], "2031");
}

#[test]
fn an_absent_number_falls_back_on_the_default() {
    let p = params(vec![("mode", text("race")), ("source", text("s")), ("round_number", number("1"))]);
    let c = build_command(&project(ProjectKind::F1), &p, "o.json").unwrap();
    let at = c.args.iter().position(|a| a == "--year").unwrap();
    assert_eq!(c.args[at + 1], "2026");
}

#[test]
fn a_switch_takes_a_boolean_only() {
    let with_switch = |value: JsonValue| {
        params(vec![
            ("mode", text("race")),
            ("source", text("s")),
            ("round_number", number("1")),
            ("include_standings", value),
        ])
    };
    for value in [text("true"), number("1"), JsonValue::Null] {
        let r = build_command(&project(ProjectKind::F1), &with_switch(value), "o.json");
        assert_eq!(r.unwrap_err(), ValidationError::InvalidParameter("include_standings"));
    }
    let c = build_command(&project(ProjectKind::F1), &with_switch(JsonValue::Bool(true)), "o.json").unwrap();
    assert_eq!(count(&c.args, "--include-standings"), 1);
}

#[test]
fn the_last_of_two_equal_keys_counts() {
    let p = params(vec![
        ("mode", text("race")),
        ("source", text("s")),
        ("round_number", number("1")),
        ("mode", text("qualifying")),
    ]);
    let c = build_command(&project(ProjectKind::F1), &p, "o.json").unwrap();
    assert_eq!(&c.args[1..3], ["--mode", "qualifying"]);
}

#[test]
fn resolvers_by_type() {
    let rules = command_schema(ProjectKind::F1);
    let p = params(vec![("mode", text("race")), ("year", text("2030")), ("include_standings", JsonValue::Bool(true))]);
    assert_eq!(rules[0].kind, ParamType::Text);
    assert_eq!(get_str(&p, &rules[0]), Ok(Some("race".to_string())));
    assert_eq!(get_str(&p, &rules[1]), Err(ValidationError::MissingParameter("source")));
    assert_eq!(get_str(&p, &rules[6]), Ok(None));
    assert_eq!(get_i64(&p, &rules[2]), Ok(Some(2030)));
    assert_eq!(get_i64(&p, &rules[3]), Err(ValidationError::MissingParameter("round_number")));
    assert_eq!(rules[5].kind, ParamType::Flag);
    assert_eq!(get_bool(&p, &rules[5]), Ok(true));
    assert_eq!(get_bool(&params(vec![]), &rules[5]), Ok(false));
    assert_eq!(
        get_bool(&params(vec![("include_standings", text("yes"))]), &rules[5]),
        Err(ValidationError::InvalidParameter("include_standings"))
    );
    assert_eq!(
        get_i64(&params(vec![("year", JsonValue::Bool(true))]), &rules[2]),
        Err(ValidationError::InvalidParameter("year"))
    );
    assert_eq!(get_i64(&params(vec![]), &rules[2]), Ok(Some(2026)));
    assert_eq!(
        get_str(&params(vec![("mode", number("5"))]), &rules[0]),
        Err(ValidationError::InvalidParameter("mode"))
    );
}

#[test]
fn validation_errors_are_bad_requests() {
    let e = AppError::from_validation(ValidationError::MissingParameter("mode"));
    assert_eq!(e.kind, ErrorKind::BadRequest);
    assert_eq!(e.message, "Missing param: mode");
    assert_eq!(e.status_code(), 400);
    let e = AppError::from_validation(ValidationError::InvalidParameter("year"));
    assert_eq!(e.message, "Invalid param: year");
    let e = AppError::from_validation(ValidationError::UnknownProjectKind);
    assert_eq!(e.message, "Unknown project kind");
    assert_eq!(AppError::not_found("x").status_code(), 404);
    assert_eq!(AppError::forbidden("x").status_code(), 403);
    assert_eq!(AppError::internal("x").status_code(), 500);
    assert_eq!(AppError::bad_request("x").message, "x");
}
