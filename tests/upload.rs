use tarpaulin::aggregate::{aggregate, HitRecord};
use tarpaulin::config::{Args, Ci, Config};
use tarpaulin::text::replace_text;
use tarpaulin::upload::{
    export, git_fields, report_url, resolve_identity, wire_json, ExportError, RemoteIdentity,
    Transport,
};

fn rec(path: &str, line: u64, hits: u64) -> HitRecord {
    HitRecord { path: path.to_string(), line, hits }
}

fn conf(key: Option<&str>, ci: Option<&str>, globs: &[&str]) -> Config {
    let mut args = Args::new("/proj/Cargo.toml".to_string());
    args.coveralls = key.map(|k| k.to_string());
    args.ci_server = ci.map(|c| c.to_string());
    args.exclude_files = globs.iter().map(|g| g.to_string()).collect();
    Config::from_args(args)
}

#[test]
fn aggregation_keeps_first_seen_order() {
    let recs = vec![rec("/proj/b.rs", 1, 1), rec("/proj/a.rs", 2, 1), rec("/proj/b.rs", 3, 2), rec("/proj/c.rs", 1, 0)];
    let files = aggregate(&recs, &conf(None, None, &[]));
    let paths: Vec<&str> = files.iter().map(|f| f.path.as_str()).collect();
    assert_eq!(paths, vec!["/proj/b.rs", "/proj/a.rs", "/proj/c.rs"]);
    assert_eq!(files[0].relative_path, "b.rs");
    assert_eq!(files[0].lines.len(), 2);
    assert_eq!(files[0].lines[&3], 2);
    assert_eq!(files[2].lines[&1], 0);
}

#[test]
fn aggregation_last_write_wins() {
    let recs = vec![rec("/proj/f.rs", 10, 3), rec("/proj/f.rs", 10, 7)];
    let files = aggregate(&recs, &conf(None, None, &[]));
    assert_eq!(files.len(), 1);
    assert_eq!(files[0].lines[&10], 7);
}

#[test]
fn aggregation_drops_excluded_files() {
    let recs = vec![rec("/proj/src/gen/x.rs", 1, 1), rec("/proj/src/y.rs", 1, 1)];
    let files = aggregate(&recs, &conf(None, None, &["*gen*"]));
    assert_eq!(files.len(), 1);
    assert_eq!(files[0].relative_path, "src/y.rs");
}

#[test]
fn aggregation_of_nothing() {
    assert!(aggregate(&[], &conf(None, None, &[])).is_empty());
}

#[test]
fn identity_without_ci_is_repo_token() {
    match resolve_identity(&conf(Some("k1"), None, &[])) {
        RemoteIdentity::RepoToken(k) => assert_eq!(k, "k1"),
        _ => panic!("expected a repository token"),
    }
}

#[test]
fn identity_with_ci_is_service_token() {
    match resolve_identity(&conf(Some("k2"), Some("circle-ci"), &[])) {
        RemoteIdentity::ServiceToken { service, job_id } => {
            assert!(matches!(service, Ci::Circle));
            assert_eq!(job_id, "k2");
        }
        _ => panic!("expected a service token"),
    }
}

#[test]
fn export_without_key_fails() {
    let recs = vec![rec("/proj/a.rs", 1, 1)];
    assert!(matches!(export(&recs, &conf(None, None, &[])), Err(ExportError::MissingKey)));
}

#[test]
fn export_default_transport() {
    let recs = vec![rec("/proj/a.rs", 1, 1)];
    let plan = export(&recs, &conf(Some("k"), None, &[])).ok().unwrap();
    assert!(matches!(plan.transport, Transport::Service));
    assert_eq!(plan.files.len(), 1);
    assert!(matches!(plan.identity, RemoteIdentity::RepoToken(_)));
}

#[test]
fn export_custom_endpoint_with_metadata() {
    let mut args = Args::new("/proj/Cargo.toml".to_string());
    args.coveralls = Some("k".to_string());
    args.report_uri = Some("https://cov.example/api/v1/jobs".to_string());
    args.commit = Some("abc".to_string());
    args.branch_name = Some("main".to_string());
    let config = Config::from_args(args);
    let plan = export(&[], &config).ok().unwrap();
    match plan.transport {
        Transport::Endpoint { uri, git } => {
            assert_eq!(uri, "https://cov.example/api/v1/jobs");
            assert_eq!(git.len(), 3);
            assert_eq!(git[0].keys, vec!["git", "head", "message"]);
            assert_eq!(git[0].value, "abc");
            assert_eq!(git[1].keys, vec!["git", "head", "id"]);
            assert_eq!(git[2].keys, vec!["git", "branch"]);
            assert_eq!(git[2].value, "main");
        }
        Transport::Service => panic!("expected the endpoint"),
    }
}

#[test]
fn git_fields_only_where_given() {
    assert!(git_fields(&None, &None).is_empty());
    let only_branch = git_fields(&None, &Some("dev".to_string()));
    assert_eq!(only_branch.len(), 1);
    assert_eq!(only_branch[0].value, "dev");
}

#[test]
fn source_key_renamed() {
    assert_eq!(
        wire_json(r#"{"source_files":[{"name":"a","source_digest":"x"},{"source_digest":"y"}]}"#),
        r#"{"source_files":[{"name":"a","source":"x"},{"source":"y"}]}"#
    );
    assert_eq!(wire_json("{}"), "{}");
}

#[test]
fn report_url_from_build_id() {
    assert_eq!(report_url("https://cov.example/api/v1/jobs", "42"), "https://cov.example/builds/42");
    assert_eq!(report_url("https://cov.example/other", "42"), "https://cov.example/other");
}

#[test]
fn replacement_is_left_to_right() {
    assert_eq!(replace_text("aaa", "aa", "b"), "ba");
    assert_eq!(replace_text("xyz", "", "q"), "xyz");
    assert_eq!(replace_text("", "a", "b"), "");
}
