use orchestrator::catalog::{
    catalog_project, describe_project, is_hidden, is_sport_dir, params_for_project, project_kind,
    resolve_project, should_skip, DirEntryInfo,
};
use orchestrator::command::ParamDefault;
use orchestrator::error::ErrorKind;
use orchestrator::project::{ProjectInfo, ProjectKind};

fn entry(name: &str, is_dir: bool, has_python: bool, has_jupyter: bool) -> DirEntryInfo {
    DirEntryInfo { name: name.to_string(), is_dir, has_python, has_jupyter }
}

fn info(sport: &str, name: &str) -> ProjectInfo {
    describe_project(sport, name, &format!("/repo/{}/{}", sport, name), false)
}

#[test]
fn kinds_by_sport_and_project() {
    assert_eq!(project_kind("F1", "Rising Qualification Prediction"), ProjectKind::F1);
    assert_eq!(project_kind("Football", "Match Result Prediction"), ProjectKind::Football);
    assert_eq!(project_kind("F1", "Match Result Prediction"), ProjectKind::Unknown);
    assert_eq!(project_kind("f1", "Rising Qualification Prediction"), ProjectKind::Unknown);
}

#[test]
fn a_project_is_described_by_its_directory() {
    let p = describe_project("F1", "Rising Qualification Prediction", "/repo/F1/RQP", true);
    assert_eq!(p.python_dir, "/repo/F1/RQP/Python");
    assert_eq!(p.notebook.as_deref(), Some("/repo/F1/RQP/Jupyter/model-research.ipynb"));
    assert_eq!(p.kind, ProjectKind::F1);
    assert_eq!(p.sport, "F1");
    let p = describe_project("Golf", "Putting", "/repo/Golf/Putting", false);
    assert_eq!(p.notebook, None);
    assert_eq!(p.kind, ProjectKind::Unknown);
}

#[test]
fn a_request_names_the_first_project_that_answers() {
    let projects = vec![
        info("Football", "Match Result Prediction"),
        info("F1", "Rising Qualification Prediction"),
        info("f1", "rising qualification prediction"),
    ];
    let found = resolve_project(&projects, " f1 ", "rising_qualification_PREDICTION").unwrap();
    assert_eq!(found.sport, "F1");
    assert_eq!(found.kind, ProjectKind::F1);
    let e = resolve_project(&projects, "f1", "other").unwrap_err();
    assert_eq!(e.kind, ErrorKind::NotFound);
    assert_eq!(e.message, "Project not found");
    assert_eq!(resolve_project(&vec![], "f1", "x").unwrap_err().kind, ErrorKind::NotFound);
}

#[test]
fn sport_directories() {
    let children = vec![entry("readme.md", false, false, false), entry("Proj", true, true, false)];
    assert!(is_sport_dir(true, "F1", &children));
    assert!(!is_sport_dir(false, "F1", &children));
    assert!(!is_sport_dir(true, ".hidden", &children));
    for reserved in ["Research", "research", "platform", "papers", "projects", ".git"] {
        assert!(!is_sport_dir(true, reserved, &children));
    }
    assert!(!is_sport_dir(true, "F1", &vec![]));
    assert!(!is_sport_dir(true, "F1", &vec![entry("Proj", true, false, false)]));
    assert!(!is_sport_dir(true, "F1", &vec![entry(".Proj", true, true, true)]));
    assert!(!is_sport_dir(true, "F1", &vec![entry("Proj", false, true, true)]));
    assert!(is_sport_dir(true, "F1", &vec![entry("Proj", true, false, true)]));
    assert!(is_hidden(".x"));
    assert!(!is_hidden("x."));
    assert!(!is_hidden(""));
}

#[test]
fn directories_that_the_walk_passes_over() {
    for name in [".git", "node_modules", ".next", "target", "data", ".turbo", "platform", "papers"] {
        assert!(should_skip(false, name));
        assert!(!should_skip(true, name));
    }
    assert!(!should_skip(false, "F1"));
}

#[test]
fn the_form_of_each_kind() {
    let f1 = params_for_project(ProjectKind::F1);
    let names: Vec<&str> = f1.iter().map(|p| p.name).collect();
    assert_eq!(
        names,
        vec![
            "mode", "source", "year", "round_number", "train_seasons", "include_standings",
            "cache_dir", "meeting_name", "country_name"
        ]
    );
    assert_eq!(f1[0].label, "Mode");
    assert_eq!(f1[0].kind, "select");
    assert!(f1[0].required);
    assert_eq!(f1[0].default, ParamDefault::Text("qualifying"));
    assert_eq!(f1[0].options, Some(vec!["qualifying", "race"]));
    assert_eq!(f1[1].options, Some(vec!["fastf1", "openf1"]));
    assert_eq!(f1[2].default, ParamDefault::Integer(2026));
    assert_eq!(f1[3].default, ParamDefault::Integer(1));
    assert_eq!(f1[5].kind, "bool");
    assert_eq!(f1[5].default, ParamDefault::Flag(false));
    assert_eq!(f1[6].default, ParamDefault::Text(".cache/fastf1"));
    assert_eq!(f1[7].default, ParamDefault::Absent);
    assert_eq!(f1[7].options, None);
    let football = params_for_project(ProjectKind::Football);
    let names: Vec<&str> = football.iter().map(|p| p.name).collect();
    assert_eq!(
        names,
        vec!["mode", "league", "season", "round_number", "data_source", "train_seasons", "cache_dir"]
    );
    assert_eq!(football[0].options, Some(vec!["match_result", "scoreline"]));
    assert_eq!(football[1].default, ParamDefault::Text("epl"));
    assert!(!football[4].required);
    assert!(params_for_project(ProjectKind::Unknown).is_empty());
}

#[test]
fn the_catalog_shows_paths_below_the_repository() {
    let p = describe_project("F1", "Rising Qualification Prediction", "/repo/F1/RQP", true);
    let shown = catalog_project("/repo", &p);
    assert_eq!(shown.python_dir, "F1/RQP/Python");
    assert_eq!(shown.notebook.as_deref(), Some("F1/RQP/Jupyter/model-research.ipynb"));
    assert_eq!(shown.params.len(), 9);
    let shown = catalog_project("/other", &p);
    assert_eq!(shown.python_dir, "/repo/F1/RQP/Python");
    assert_eq!(shown.notebook, None);
}
