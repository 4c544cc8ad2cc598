use orchestrator::roots::{
    ancestors, data_file_candidate, data_file_status, data_file_status_raw, find_repo_root, first_hit,
    papers_root_candidates, parent_of, projects_root_candidates, repo_markers, resolve_papers_root,
    resolve_projects_root,
};

fn formats() -> Vec<String> {
    vec!["parquet".to_string(), "csv".to_string()]
}

#[test]
fn projects_root_by_preference() {
    assert_eq!(resolve_projects_root("/repo", true, true), "/repo/research/projects");
    assert_eq!(resolve_projects_root("/repo", false, true), "/repo/projects");
    assert_eq!(resolve_projects_root("/repo", false, false), "/repo");
    let (a, b) = projects_root_candidates("/repo");
    assert_eq!((a.as_str(), b.as_str()), ("/repo/research/projects", "/repo/projects"));
}

#[test]
fn papers_root_by_preference() {
    assert_eq!(resolve_papers_root("/repo", true, false), "/repo/research/papers");
    assert_eq!(resolve_papers_root("/repo", false, true), "/repo/Research");
    assert_eq!(resolve_papers_root("/repo", false, false), "/repo/papers");
    let (a, b) = papers_root_candidates("/repo");
    assert_eq!((a.as_str(), b.as_str()), ("/repo/research/papers", "/repo/Research"));
}

#[test]
fn ancestors_innermost_first() {
    assert_eq!(ancestors("/a/b/c"), vec!["/a/b/c", "/a/b", "/a", "/"]);
    assert_eq!(ancestors("a/b"), vec!["a/b", "a", ""]);
    assert_eq!(ancestors("/"), vec!["/"]);
    assert_eq!(ancestors(""), vec![""]);
    assert_eq!(parent_of("/a/b"), Some("/a".to_string()));
    assert_eq!(parent_of("/a/b/"), Some("/a".to_string()));
    assert_eq!(parent_of("/a//b"), Some("/a".to_string()));
    assert_eq!(parent_of("/a"), Some("/".to_string()));
    assert_eq!(parent_of("/"), None);
    assert_eq!(parent_of("a"), Some(String::new()));
    assert_eq!(parent_of(""), None);
}

#[test]
fn repo_root_is_the_innermost_marked_ancestor() {
    assert_eq!(find_repo_root("/a/b/c", &vec![false, true, true, false]), "/a/b");
    assert_eq!(find_repo_root("/a/b/c", &vec![true, false, false, false]), "/a/b/c");
    assert_eq!(find_repo_root("/a/b/c", &vec![false, false, false, true]), "/");
    assert_eq!(find_repo_root("/a/b/c", &vec![false, false, false, false]), "/a/b/c");
    assert_eq!(find_repo_root("/a/b/c", &vec![]), "/a/b/c");
    assert_eq!(find_repo_root("/a", &vec![false, false, false, true]), "/a");
    assert_eq!(repo_markers("/a"), vec!["/a/research", "/a/Research", "/a/.git"]);
    assert_eq!(first_hit(&vec![false, false, true, true]), 2);
    assert_eq!(first_hit(&vec![false]), 1);
}

#[test]
fn data_file_in_the_first_format_that_exists() {
    let (path, format, exists) = data_file_status_raw("/data", "fixtures", &formats(), &vec![false, true]);
    assert_eq!((path.as_str(), format.as_str(), exists), ("/data/fixtures.csv", "csv", true));
    let (path, format, exists) = data_file_status_raw("/data", "teams", &formats(), &vec![true, true]);
    assert_eq!((path.as_str(), format.as_str(), exists), ("/data/teams.parquet", "parquet", true));
}

#[test]
fn data_file_that_is_missing_is_reported_in_the_first_format() {
    let (path, format, exists) = data_file_status_raw("/data", "teams", &formats(), &vec![false, false]);
    assert_eq!((path.as_str(), format.as_str(), exists), ("/data/teams.parquet", "parquet", false));
    let (path, format, exists) = data_file_status_raw("/data", "teams", &vec![], &vec![]);
    assert_eq!((path.as_str(), format.as_str(), exists), ("/data/teams.csv", "csv", false));
    let status = data_file_status("/data", "matches", &formats(), &vec![false, true]);
    assert_eq!(status.path, "/data/matches.csv");
    assert_eq!(status.format, "csv");
    assert!(status.exists);
    assert_eq!(data_file_candidate("/data", "teams", "csv"), "/data/teams.csv");
}
