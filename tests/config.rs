use tarpaulin::config::{output_files, Args, Ci, Config, OutputFile};
use tarpaulin::filter::{glob_to_regex, Matcher};

fn conf_with(globs: &[&str]) -> Config {
    let mut args = Args::new("/home/user/project/Cargo.toml".to_string());
    args.exclude_files = globs.iter().map(|g| g.to_string()).collect();
    Config::from_args(args)
}

#[test]
fn exclude_paths() {
    let conf = conf_with(&["*module*"]);
    assert!(conf.exclude_path("src/module/file.rs"));
    assert!(!conf.exclude_path("src/mod.rs"));
    assert!(!conf.exclude_path("unrelated.rs"));
    assert!(conf.exclude_path("module.rs"));
}

#[test]
fn no_exclusions() {
    let conf = conf_with(&[]);
    assert!(!conf.exclude_path("src/module/file.rs"));
    assert!(!conf.exclude_path("src/mod.rs"));
    assert!(!conf.exclude_path("unrelated.rs"));
    assert!(!conf.exclude_path("module.rs"));
}

#[test]
fn exclude_exact_file() {
    let conf = conf_with(&["*/lib.rs"]);
    assert!(conf.exclude_path("src/lib.rs"));
    assert!(!conf.exclude_path("src/mod.rs"));
    assert!(!conf.exclude_path("src/notlib.rs"));
    assert!(!conf.exclude_path("lib.rs"));
}

#[test]
fn excludes_relative_to_manifest_dir() {
    let conf = conf_with(&["src/*"]);
    assert!(conf.exclude_path("/home/user/project/src/main.rs"));
    assert!(!conf.exclude_path("/home/user/project/tests/src.rs"));
    let anchored = conf_with(&["*/lib.rs"]);
    assert!(!anchored.exclude_path("/home/user/project/lib.rs"));
    assert!(anchored.exclude_path("/elsewhere/lib.rs"));
}

#[test]
fn plain_pattern_is_substring_search() {
    let conf = conf_with(&["lib.rs"]);
    assert!(conf.exclude_path("ssrc/lib.rs"));
    assert!(!conf.exclude_path("src/librs"));
}

#[test]
fn no_mode_flags_enable_both() {
    let conf = Config::from_args(Args::new("/p/Cargo.toml".to_string()));
    assert!(conf.line_coverage);
    assert!(conf.branch_coverage);
}

#[test]
fn one_mode_flag_keeps_only_it() {
    let mut args = Args::new("/p/Cargo.toml".to_string());
    args.branch = true;
    let conf = Config::from_args(args);
    assert!(!conf.line_coverage);
    assert!(conf.branch_coverage);
}

#[test]
fn settings_carry_through() {
    let mut args = Args::new("/p/Cargo.toml".to_string());
    args.verbose = true;
    args.out = vec![OutputFile::Xml, OutputFile::Json];
    args.features = vec!["a".to_string()];
    args.coveralls = Some("key".to_string());
    let conf = Config::from_args(args);
    assert!(conf.verbose);
    assert_eq!(conf.generate, vec![OutputFile::Xml, OutputFile::Json]);
    assert_eq!(conf.features, vec!["a".to_string()]);
    assert!(conf.is_coveralls());
    assert_eq!(conf.manifest, "/p/Cargo.toml");
}

#[test]
fn no_key_is_not_coveralls() {
    let conf = Config::from_args(Args::new("/p/Cargo.toml".to_string()));
    assert!(!conf.is_coveralls());
}

#[test]
fn malformed_glob_is_set_aside() {
    let conf = conf_with(&["(src", "*module*"]);
    assert_eq!(conf.rejected_patterns, vec!["(src".to_string()]);
    assert_eq!(conf.excluded_files.len(), 1);
    assert_eq!(conf.excluded_files[0].as_str(), ".*module.*");
    assert!(conf.exclude_path("a/module.rs"));
    assert!(!conf.exclude_path("(src/x.rs"));
}

#[test]
fn glob_translation() {
    assert_eq!(glob_to_regex("*/lib.rs"), r".*/lib\.rs");
    assert_eq!(glob_to_regex("a.b*c"), r"a\.b.*c");
    assert_eq!(glob_to_regex(""), "");
    assert!(Matcher::from_glob("[").is_none());
    let m = Matcher::from_glob("*.rs").unwrap();
    assert!(m.is_match("x/y.rs"));
    assert!(!m.is_match("x/yrs"));
}

#[test]
fn ci_names() {
    assert!(matches!(Ci::from_str("travis-ci"), Ci::Travis));
    assert!(matches!(Ci::from_str("travis-pro"), Ci::TravisPro));
    assert!(matches!(Ci::from_str("circle-ci"), Ci::Circle));
    assert!(matches!(Ci::from_str("semaphore"), Ci::Semaphore));
    assert!(matches!(Ci::from_str("jenkins"), Ci::Jenkins));
    assert!(matches!(Ci::from_str("codeship"), Ci::Codeship));
    match Ci::from_str("buildkite") {
        Ci::Other(s) => assert_eq!(s, "buildkite"),
        _ => panic!("expected another service"),
    }
}

#[test]
fn ci_server_sets_tool() {
    let mut args = Args::new("/p/Cargo.toml".to_string());
    args.ci_server = Some("jenkins".to_string());
    let conf = Config::from_args(args);
    assert!(matches!(conf.ci_tool, Some(Ci::Jenkins)));
    let conf = Config::from_args(Args::new("/p/Cargo.toml".to_string()));
    assert!(conf.ci_tool.is_none());
}

#[test]
fn output_names() {
    assert_eq!(OutputFile::from_name("json"), Some(OutputFile::Json));
    assert_eq!(OutputFile::from_name("Xml"), Some(OutputFile::Xml));
    assert_eq!(OutputFile::from_name("STDOUT"), Some(OutputFile::Stdout));
    assert_eq!(OutputFile::from_name("hTmL"), Some(OutputFile::Html));
    assert_eq!(OutputFile::from_name("toml"), Some(OutputFile::Toml));
    assert_eq!(OutputFile::from_name("yaml"), None);
    assert_eq!(OutputFile::from_name("jsonx"), None);
}

#[test]
fn output_lists_all_or_nothing() {
    let names = vec!["json".to_string(), "Html".to_string()];
    assert_eq!(output_files(&names), vec![OutputFile::Json, OutputFile::Html]);
    let bad = vec!["json".to_string(), "pdf".to_string()];
    assert!(output_files(&bad).is_empty());
    assert!(output_files(&vec![]).is_empty());
}
