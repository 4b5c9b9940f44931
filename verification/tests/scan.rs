//! Scanning whole walk snapshots: the scenarios the scanner is built for.

use stevio_code::config::Config;
use stevio_code::errors::ScError;
use stevio_code::scanner::ProjectManager;
use stevio_code::types::ProjectType;
use stevio_code::walk::{EntryKind, WalkEntry, WalkItem};

fn entry(path: &str, name: &str, depth: usize, kind: EntryKind) -> WalkItem {
    WalkItem::Entry(WalkEntry {
        path: path.to_string(),
        name: name.to_string(),
        depth,
        kind,
    })
}

fn dir(path: &str, name: &str, depth: usize) -> WalkItem {
    entry(path, name, depth, EntryKind::Dir)
}

fn file(path: &str, name: &str, depth: usize) -> WalkItem {
    entry(path, name, depth, EntryKind::File)
}

fn test_config() -> Config {
    Config::new("/projects".to_string())
}

/// The walk of a root holding one project of every kind, one git worktree
/// of nested markers, and one directory matching two detectors at once.
fn test_project_structure() -> Vec<WalkItem> {
    vec![
        dir("/projects", "projects", 0),
        dir("/projects/rust_project", "rust_project", 1),
        file("/projects/rust_project/Cargo.toml", "Cargo.toml", 2),
        dir("/projects/git_project", "git_project", 1),
        dir("/projects/git_project/.git", ".git", 2),
        dir("/projects/go_project", "go_project", 1),
        file("/projects/go_project/go.mod", "go.mod", 2),
        dir("/projects/maven_project", "maven_project", 1),
        file("/projects/maven_project/pom.xml", "pom.xml", 2),
        dir("/projects/gradle_project", "gradle_project", 1),
        file("/projects/gradle_project/build.gradle", "build.gradle", 2),
        dir("/projects/multi_project", "multi_project", 1),
        file("/projects/multi_project/Cargo.toml", "Cargo.toml", 2),
        dir("/projects/multi_project/.git", ".git", 2),
    ]
}

#[test]
fn test_list_projects_basic() {
    let pm = ProjectManager::new(test_config());
    let result = pm.scan_projects(&test_project_structure());
    assert!(result.is_ok(), "list_projects should succeed");

    let projects = result.unwrap();
    assert!(!projects.is_empty(), "Should find at least one project");

    let project_paths: Vec<String> = projects.iter().map(|p| p.path.clone()).collect();

    assert!(project_paths.contains(&"/projects/rust_project".to_string()));
    assert!(project_paths.contains(&"/projects/git_project".to_string()));
    assert!(project_paths.contains(&"/projects/go_project".to_string()));
    assert!(project_paths.contains(&"/projects/maven_project".to_string()));
    assert!(project_paths.contains(&"/projects/gradle_project".to_string()));
    assert!(project_paths.contains(&"/projects/multi_project".to_string()));
}

#[test]
fn test_list_projects_with_types() {
    let pm = ProjectManager::new(test_config());
    let projects = pm
        .scan_projects(&test_project_structure())
        .expect("list_projects should succeed");

    let multi_project = projects
        .iter()
        .find(|p| p.path == "/projects/multi_project")
        .expect("Should find multi_project");

    assert!(multi_project.has_type(&ProjectType::Rust));
    assert!(multi_project.has_type(&ProjectType::Git));

    let rust_project = projects
        .iter()
        .find(|p| p.path == "/projects/rust_project")
        .expect("Should find rust_project");

    assert!(rust_project.has_type(&ProjectType::Rust));
    assert!(!rust_project.has_type(&ProjectType::Git));
}

#[test]
fn test_list_projects_nonexistent_directory() {
    let config = Config::new("/not/existent/directory".to_string());
    let pm = ProjectManager::new(config);
    let walk = vec![WalkItem::Error(
        "IO error for operation on /not/existent/directory: No such file or directory".to_string(),
    )];

    let result = pm.scan_projects(&walk);
    assert!(
        result.is_err(),
        "Should return error for nonexistent directory"
    );
    match result.unwrap_err() {
        ScError::Traversal(msg) => assert!(msg.contains("/not/existent/directory")),
        other => panic!("expected a traversal error, got {:?}", other),
    }
}

#[test]
fn test_scenario_six_records_in_discovery_order() {
    let mut walk = test_project_structure();
    walk.push(dir("/projects/git_project/tools", "tools", 2));
    walk.push(file(
        "/projects/git_project/tools/Cargo.toml",
        "Cargo.toml",
        3,
    ));
    walk.push(dir("/projects/multi_project/sub", "sub", 2));
    walk.push(file("/projects/multi_project/sub/go.mod", "go.mod", 3));

    let pm = ProjectManager::new(test_config());
    let projects = pm.scan_projects(&walk).unwrap();

    let summary: Vec<(String, Vec<ProjectType>)> = projects
        .iter()
        .map(|p| (p.path.clone(), p.project_types.clone()))
        .collect();
    assert_eq!(
        summary,
        vec![
            (
                "/projects/rust_project".to_string(),
                vec![ProjectType::Rust]
            ),
            ("/projects/git_project".to_string(), vec![ProjectType::Git]),
            ("/projects/go_project".to_string(), vec![ProjectType::Go]),
            (
                "/projects/maven_project".to_string(),
                vec![ProjectType::Java]
            ),
            (
                "/projects/gradle_project".to_string(),
                vec![ProjectType::Java]
            ),
            (
                "/projects/multi_project".to_string(),
                vec![ProjectType::Git, ProjectType::Rust]
            ),
        ]
    );
}

#[test]
fn test_git_subtree_is_pruned_but_sibling_is_not() {
    let walk = vec![
        dir("/r", "r", 0),
        dir("/r/repo", "repo", 1),
        dir("/r/repo/.git", ".git", 2),
        dir("/r/repo/vendored", "vendored", 2),
        file("/r/repo/vendored/Cargo.toml", "Cargo.toml", 3),
        dir("/r/after", "after", 1),
        file("/r/after/go.mod", "go.mod", 2),
    ];
    let pm = ProjectManager::new(test_config());
    let projects = pm.scan_projects(&walk).unwrap();
    let paths: Vec<String> = projects.iter().map(|p| p.path.clone()).collect();
    assert_eq!(paths, vec!["/r/repo".to_string(), "/r/after".to_string()]);
    assert!(projects[1].has_type(&ProjectType::Go));
}

#[test]
fn test_root_itself_is_classified() {
    let walk = vec![
        dir("/r", "r", 0),
        file("/r/Cargo.toml", "Cargo.toml", 1),
        dir("/r/sub", "sub", 1),
        file("/r/sub/go.mod", "go.mod", 2),
    ];
    let pm = ProjectManager::new(test_config());
    let projects = pm.scan_projects(&walk).unwrap();
    let paths: Vec<String> = projects.iter().map(|p| p.path.clone()).collect();
    assert_eq!(paths, vec!["/r".to_string(), "/r/sub".to_string()]);
    assert_eq!(projects[0].project_types, vec![ProjectType::Rust]);
}

#[test]
fn test_root_git_repository_prunes_everything_below() {
    let walk = vec![
        dir("/r", "r", 0),
        dir("/r/.git", ".git", 1),
        dir("/r/member", "member", 1),
        file("/r/member/Cargo.toml", "Cargo.toml", 2),
    ];
    let pm = ProjectManager::new(test_config());
    let projects = pm.scan_projects(&walk).unwrap();
    assert_eq!(projects.len(), 1);
    assert_eq!(projects[0].path, "/r");
    assert!(projects[0].has_type(&ProjectType::Git));
}

#[test]
fn test_git_marker_may_be_a_file() {
    let walk = vec![
        dir("/r", "r", 0),
        dir("/r/worktree", "worktree", 1),
        file("/r/worktree/.git", ".git", 2),
    ];
    let pm = ProjectManager::new(test_config());
    let projects = pm.scan_projects(&walk).unwrap();
    assert_eq!(projects.len(), 1);
    assert_eq!(projects[0].path, "/r/worktree");
    assert!(projects[0].has_type(&ProjectType::Git));
}

#[test]
fn test_hidden_directories_are_never_reported() {
    let walk = vec![
        dir("/r", "r", 0),
        dir("/r/.cache", ".cache", 1),
        file("/r/.cache/Cargo.toml", "Cargo.toml", 2),
        dir("/r/.cache/deep", "deep", 2),
        file("/r/.cache/deep/go.mod", "go.mod", 3),
        dir("/r/visible", "visible", 1),
        file("/r/visible/go.mod", "go.mod", 2),
    ];
    let pm = ProjectManager::new(test_config());
    let projects = pm.scan_projects(&walk).unwrap();
    let paths: Vec<String> = projects.iter().map(|p| p.path.clone()).collect();
    assert_eq!(paths, vec!["/r/visible".to_string()]);
}

#[test]
fn test_dot_git_directory_is_not_itself_a_project() {
    let walk = vec![
        dir("/r", "r", 0),
        dir("/r/plain", "plain", 1),
        dir("/r/plain/.git", ".git", 2),
        file("/r/plain/.git/Cargo.toml", "Cargo.toml", 3),
    ];
    let pm = ProjectManager::new(test_config());
    let projects = pm.scan_projects(&walk).unwrap();
    let paths: Vec<String> = projects.iter().map(|p| p.path.clone()).collect();
    assert_eq!(paths, vec!["/r/plain".to_string()]);
}

#[test]
fn test_marker_directories_do_not_count_as_files() {
    let walk = vec![
        dir("/r", "r", 0),
        dir("/r/odd", "odd", 1),
        dir("/r/odd/Cargo.toml", "Cargo.toml", 2),
        dir("/r/odd/go.mod", "go.mod", 3),
    ];
    let pm = ProjectManager::new(test_config());
    let projects = pm.scan_projects(&walk).unwrap();
    assert!(projects.is_empty());
}

#[test]
fn test_symlinked_git_entry_is_not_a_marker() {
    let walk = vec![
        dir("/r", "r", 0),
        dir("/r/linked", "linked", 1),
        entry("/r/linked/.git", ".git", 2, EntryKind::Other),
    ];
    let pm = ProjectManager::new(test_config());
    let projects = pm.scan_projects(&walk).unwrap();
    assert!(projects.is_empty());
}

#[test]
fn test_error_after_some_entries_discards_partial_results() {
    let walk = vec![
        dir("/r", "r", 0),
        dir("/r/rusty", "rusty", 1),
        file("/r/rusty/Cargo.toml", "Cargo.toml", 2),
        WalkItem::Error("permission denied: /r/locked".to_string()),
        dir("/r/other", "other", 1),
    ];
    let pm = ProjectManager::new(test_config());
    let result = pm.scan_projects(&walk);
    match result {
        Err(ScError::Traversal(msg)) => assert_eq!(msg, "permission denied: /r/locked"),
        other => panic!("expected a traversal error, got {:?}", other),
    }
}

#[test]
fn test_empty_walk_yields_no_projects() {
    let pm = ProjectManager::new(test_config());
    let projects = pm.scan_projects(&Vec::new()).unwrap();
    assert!(projects.is_empty());
}
