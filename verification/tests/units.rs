//! The smaller pieces: detectors, the registry, records and labels.

use stevio_code::config::Config;
use stevio_code::detectors::{default_detectors, ProjectDetector};
use stevio_code::scanner::ProjectManager;
use stevio_code::types::{ProjectInfo, ProjectType};
use stevio_code::walk::{EntryKind, WalkEntry, WalkItem};

fn child(name: &str, kind: EntryKind) -> WalkEntry {
    WalkEntry {
        path: format!("/d/{}", name),
        name: name.to_string(),
        depth: 1,
        kind,
    }
}

#[test]
fn test_default_detectors_cover_all_types_in_order() {
    let dets = default_detectors();
    assert_eq!(
        dets,
        vec![
            ProjectDetector::Git,
            ProjectDetector::Rust,
            ProjectDetector::Java,
            ProjectDetector::Go,
        ]
    );
    let types: Vec<ProjectType> = dets.iter().map(|d| d.project_type()).collect();
    assert_eq!(
        types,
        vec![
            ProjectType::Git,
            ProjectType::Rust,
            ProjectType::Java,
            ProjectType::Go,
        ]
    );
}

#[test]
fn test_detectors_match_their_markers() {
    let listing = vec![
        child(".git", EntryKind::Dir),
        child("Cargo.toml", EntryKind::File),
        child("go.mod", EntryKind::File),
        child("pom.xml", EntryKind::File),
    ];
    assert!(ProjectDetector::Git.detect(&listing));
    assert!(ProjectDetector::Rust.detect(&listing));
    assert!(ProjectDetector::Java.detect(&listing));
    assert!(ProjectDetector::Go.detect(&listing));
    assert!(!ProjectDetector::Git.detect(&Vec::new()));
}

#[test]
fn test_java_detector_accepts_each_gradle_marker() {
    for marker in ["pom.xml", "build.gradle", "build.gradle.kts"] {
        let listing = vec![child(marker, EntryKind::File)];
        assert!(ProjectDetector::Java.detect(&listing), "marker {}", marker);
    }
    let listing = vec![child("build.xml", EntryKind::File)];
    assert!(!ProjectDetector::Java.detect(&listing));
}

#[test]
fn test_detector_ignores_unrelated_names() {
    let listing = vec![
        child("README.md", EntryKind::File),
        child("src", EntryKind::Dir),
    ];
    for d in default_detectors() {
        assert!(!d.detect(&listing));
    }
}

#[test]
fn test_project_info_add_type_deduplicates() {
    let mut info = ProjectInfo::new("/p".to_string());
    assert!(!info.has_type(&ProjectType::Rust));
    info.add_type(ProjectType::Rust);
    info.add_type(ProjectType::Rust);
    info.add_type(ProjectType::Git);
    assert!(info.has_type(&ProjectType::Rust));
    assert!(info.has_type(&ProjectType::Git));
    assert!(!info.has_type(&ProjectType::Go));
    assert_eq!(info.project_types, vec![ProjectType::Rust, ProjectType::Git]);
    assert_eq!(info.path, "/p");
}

#[test]
fn test_project_type_labels() {
    assert_eq!(ProjectType::Git.label(), "Git");
    assert_eq!(ProjectType::Rust.label(), "Rust");
    assert_eq!(ProjectType::Java.label(), "Java");
    assert_eq!(ProjectType::Go.label(), "Go");
}

#[test]
fn test_with_detectors_restricts_the_registry() {
    let walk = vec![
        WalkItem::Entry(WalkEntry {
            path: "/r".to_string(),
            name: "r".to_string(),
            depth: 0,
            kind: EntryKind::Dir,
        }),
        WalkItem::Entry(WalkEntry {
            path: "/r/a".to_string(),
            name: "a".to_string(),
            depth: 1,
            kind: EntryKind::Dir,
        }),
        WalkItem::Entry(WalkEntry {
            path: "/r/a/.git".to_string(),
            name: ".git".to_string(),
            depth: 2,
            kind: EntryKind::Dir,
        }),
        WalkItem::Entry(WalkEntry {
            path: "/r/b".to_string(),
            name: "b".to_string(),
            depth: 1,
            kind: EntryKind::Dir,
        }),
        WalkItem::Entry(WalkEntry {
            path: "/r/b/Cargo.toml".to_string(),
            name: "Cargo.toml".to_string(),
            depth: 2,
            kind: EntryKind::File,
        }),
    ];
    let pm = ProjectManager::with_detectors(
        Config::new("/r".to_string()),
        vec![ProjectDetector::Rust],
    );
    let projects = pm.scan_projects(&walk).unwrap();
    assert_eq!(projects.len(), 1);
    assert_eq!(projects[0].path, "/r/b");
    assert!(!projects[0].has_type(&ProjectType::Git));
}

#[test]
fn test_duplicate_detectors_still_yield_one_category() {
    let walk = vec![
        WalkItem::Entry(WalkEntry {
            path: "/r".to_string(),
            name: "r".to_string(),
            depth: 0,
            kind: EntryKind::Dir,
        }),
        WalkItem::Entry(WalkEntry {
            path: "/r/Cargo.toml".to_string(),
            name: "Cargo.toml".to_string(),
            depth: 1,
            kind: EntryKind::File,
        }),
    ];
    let pm = ProjectManager::with_detectors(
        Config::new("/r".to_string()),
        vec![ProjectDetector::Rust, ProjectDetector::Rust],
    );
    let projects = pm.scan_projects(&walk).unwrap();
    assert_eq!(projects.len(), 1);
    assert_eq!(projects[0].project_types, vec![ProjectType::Rust]);
}

#[test]
fn test_hidden_name_rule() {
    assert!(stevio_code::walk::is_hidden_name(&".cache".to_string()));
    assert!(stevio_code::walk::is_hidden_name(&".config".to_string()));
    assert!(!stevio_code::walk::is_hidden_name(&".git".to_string()));
    assert!(!stevio_code::walk::is_hidden_name(&"src".to_string()));
    assert!(!stevio_code::walk::is_hidden_name(&"".to_string()));
}

#[test]
fn test_config_keeps_the_given_path() {
    let config = Config::new("/home/someone/code".to_string());
    assert_eq!(config.projects_path, "/home/someone/code");
}

#[test]
fn test_projects_path_reports_the_configured_root() {
    let pm = ProjectManager::new(Config::new("/somewhere/code".to_string()));
    assert_eq!(pm.projects_path().as_str(), "/somewhere/code");
}
