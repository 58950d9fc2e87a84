use tarpaulin::config::{manifest_location, Args, Config};
use tarpaulin::path::{join_path, strip_manifest};

fn conf(manifest: &str) -> Config {
    Config::from_args(Args::new(manifest.to_string()))
}

#[test]
fn strip_under_manifest_dir() {
    let c = conf("/home/user/project/Cargo.toml");
    assert_eq!(c.strip_project_path("/home/user/project/src/lib.rs"), "src/lib.rs");
    assert_eq!(c.strip_project_path("/home/user/projects/a.rs"), "/home/user/projects/a.rs");
    assert_eq!(c.strip_project_path("src/lib.rs"), "src/lib.rs");
}

#[test]
fn strip_by_components() {
    let c = conf("/proj/Cargo.toml");
    assert_eq!(c.strip_project_path("/proj//src/lib.rs"), "src/lib.rs");
    assert_eq!(c.strip_project_path("/proj/./src/lib.rs"), "src/lib.rs");
    assert_eq!(c.strip_project_path("/proj/src/lib.rs"), "src/lib.rs");
    let doubled = conf("/home//proj/Cargo.toml");
    assert_eq!(doubled.strip_project_path("/home/proj/src/a.rs"), "src/a.rs");
    let trailing = conf("/proj/sub/");
    assert_eq!(trailing.strip_project_path("/proj/x.rs"), "x.rs");
}

#[test]
fn strip_without_manifest_dir() {
    assert_eq!(strip_manifest("/a/b.rs", ""), "/a/b.rs");
    assert_eq!(strip_manifest("/a/b.rs", "/"), "/a/b.rs");
    assert_eq!(strip_manifest("b.rs", "Cargo.toml"), "b.rs");
}

#[test]
fn joins() {
    assert_eq!(join_path("/a", "b"), "/a/b");
    assert_eq!(join_path("/a/", "b"), "/a/b");
    assert_eq!(join_path("/a", "/b"), "/b");
    assert_eq!(join_path("", "b"), "b");
    assert_eq!(manifest_location("/w", Some("proj")), "/w/proj/Cargo.toml");
    assert_eq!(manifest_location("/w", Some("/abs")), "/abs/Cargo.toml");
    assert_eq!(manifest_location("/w", None), "/w/Cargo.toml");
}
