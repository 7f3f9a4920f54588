use magento_static_deploy::copier::{
    check_cancelled, plan_copy, relative_path, should_exclude_file, tally_outcomes, FileOutcome,
};
use magento_static_deploy::error::DeployError;

#[test]
fn test_should_exclude_file_typescript_extension() {
    let path = "/some/path/file.ts";
    assert!(should_exclude_file(path, false));
    assert!(!should_exclude_file(path, true));
}

#[test]
fn test_should_exclude_file_less_extension() {
    let path = "/some/path/styles.less";
    assert!(should_exclude_file(path, false));
}

#[test]
fn test_should_exclude_file_scss_extension() {
    let path = "/some/path/styles.scss";
    assert!(should_exclude_file(path, false));
}

#[test]
fn test_should_exclude_file_markdown_extension() {
    let path = "/some/path/README.md";
    assert!(should_exclude_file(path, false));
}

#[test]
fn test_should_exclude_file_package_json() {
    let path = "/some/path/package.json";
    assert!(should_exclude_file(path, false));
}

#[test]
fn test_should_exclude_file_tsconfig() {
    let path = "/some/path/tsconfig.json";
    assert!(should_exclude_file(path, false));
}

#[test]
fn test_should_exclude_file_node_modules_directory() {
    let path = "/some/node_modules/package/index.js";
    assert!(should_exclude_file(path, false));
}

#[test]
fn test_should_exclude_file_git_directory() {
    let path = "/some/.git/config";
    assert!(should_exclude_file(path, false));
}

#[test]
fn test_should_exclude_file_allowed_js() {
    let path = "/some/path/app.js";
    assert!(!should_exclude_file(path, false));
}

#[test]
fn test_should_exclude_file_allowed_css() {
    let path = "/some/path/styles.css";
    assert!(!should_exclude_file(path, false));
}

#[test]
fn test_should_exclude_file_allowed_html() {
    let path = "/some/path/index.html";
    assert!(!should_exclude_file(path, false));
}

#[test]
fn test_should_exclude_file_include_dev_allows_all() {
    let ts_path = "/some/path/file.ts";
    let md_path = "/some/path/README.md";
    let node_path = "/some/node_modules/pkg/index.js";

    assert!(!should_exclude_file(ts_path, true));
    assert!(!should_exclude_file(md_path, true));
    assert!(!should_exclude_file(node_path, true));
}

#[test]
fn test_should_exclude_file_case_insensitive_extension() {
    let path = "/some/path/file.TS";
    assert!(should_exclude_file(path, false));
}

#[test]
fn exclusion_rules_on_names_and_components() {
    assert!(should_exclude_file("web/package.json", false));
    assert!(!should_exclude_file("web/package.js", false));
    assert!(should_exclude_file("web/app.Ts", false));
    assert!(!should_exclude_file("web/app.js", false));
    assert!(!should_exclude_file("web/my_node_modules/app.js", false));
    assert!(!should_exclude_file("web/node_modules_x/app.js", false));
    assert!(should_exclude_file("node_modules/app.js", false));
    assert!(should_exclude_file("a/.hg/b/c.css", false));
    assert!(!should_exclude_file("web/types.ts/app.js", false));
    assert!(should_exclude_file("web/.gitignore", false));
    assert!(!should_exclude_file("web/.ts", false));
    assert!(should_exclude_file("web/archive.tar.yml", false));
    assert!(should_exclude_file("Makefile", false));
    assert!(!should_exclude_file("makefile", false));
    assert!(!should_exclude_file("", false));
}

#[test]
fn relative_path_strips_root_and_separator() {
    assert_eq!(relative_path("/src/a/b.js", "/src"), "a/b.js");
    assert_eq!(relative_path("/src/a/b.js", "/src/"), "a/b.js");
    assert_eq!(relative_path("/other/b.js", "/src"), "/other/b.js");
    assert_eq!(relative_path("/srcx/b.js", "/src"), "/srcx/b.js");
}

#[test]
fn plan_copy_filters_and_maps_destinations() {
    let files = vec![
        "/src/app.js".to_string(),
        "/src/app.ts".to_string(),
        "/src/package.json".to_string(),
        "/src/css/site.css".to_string(),
        "/src/node_modules/x/y.js".to_string(),
    ];
    let plan = plan_copy("/src", "/dst/out", &files, false);
    assert_eq!(plan.len(), 2);
    assert_eq!(plan[0].src, "/src/app.js");
    assert_eq!(plan[0].dst, "/dst/out/app.js");
    assert_eq!(plan[1].src, "/src/css/site.css");
    assert_eq!(plan[1].dst, "/dst/out/css/site.css");

    let all = plan_copy("/src", "/dst/out", &files, true);
    assert_eq!(all.len(), 5);
    assert_eq!(all[4].dst, "/dst/out/node_modules/x/y.js");
}

#[test]
fn tally_counts_copied_files_only() {
    let outcomes = vec![
        FileOutcome::Copied { bytes: 10 },
        FileOutcome::AlreadyPresent,
        FileOutcome::Copied { bytes: 6 },
    ];
    assert_eq!(tally_outcomes(outcomes).unwrap(), (2, 16));
    assert_eq!(tally_outcomes(vec![]).unwrap(), (0, 0));
    assert_eq!(tally_outcomes(vec![FileOutcome::AlreadyPresent]).unwrap(), (0, 0));
}

#[test]
fn tally_saturates_bytes() {
    let outcomes = vec![FileOutcome::Copied { bytes: u64::MAX }, FileOutcome::Copied { bytes: 5 }];
    assert_eq!(tally_outcomes(outcomes).unwrap(), (2, u64::MAX));
}

#[test]
fn tally_reports_first_failure() {
    let outcomes = vec![
        FileOutcome::Copied { bytes: 1 },
        FileOutcome::Failed(DeployError::DiskFull { path: "/first".to_string() }),
        FileOutcome::Failed(DeployError::Cancelled),
    ];
    match tally_outcomes(outcomes) {
        Err(DeployError::DiskFull { path }) => assert_eq!(path, "/first"),
        other => panic!("unexpected {:?}", other),
    }
}

#[test]
fn check_cancelled_reports_cancellation() {
    assert!(check_cancelled(false).is_ok());
    assert!(matches!(check_cancelled(true), Err(DeployError::Cancelled)));
}
