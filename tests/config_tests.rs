use magento_static_deploy::config::{Cli, Config};
use magento_static_deploy::error::DeployError;
use magento_static_deploy::theme::Area;

fn make_cli(
    area: Vec<String>,
    locale: Vec<String>,
    theme: Option<Vec<String>>,
    jobs: usize,
    verbose: bool,
    include_dev: bool,
) -> Cli {
    Cli {
        magento_root: "/tmp".to_string(),
        area,
        theme,
        locale,
        jobs,
        verbose,
        include_dev,
    }
}

#[test]
fn test_cli_debug() {
    let cli = make_cli(
        vec!["frontend".to_string()],
        vec!["en_US".to_string()],
        None,
        4,
        false,
        false,
    );
    let debug = format!("{:?}", cli);
    assert!(debug.contains("Cli"));
}

#[test]
fn test_config_from_cli_basic() {
    let cli = make_cli(
        vec!["frontend".to_string()],
        vec!["en_US".to_string()],
        None,
        4,
        false,
        false,
    );

    let config = Config::from_cli(cli).unwrap();

    assert_eq!(config.areas, vec![Area::Frontend]);
    assert_eq!(config.locales.len(), 1);
    assert_eq!(config.locales[0].as_str(), "en_US");
    assert_eq!(config.jobs, 4);
    assert!(!config.verbose);
    assert!(!config.include_dev);
}

#[test]
fn test_config_from_cli_multiple_areas() {
    let cli = make_cli(
        vec!["frontend".to_string(), "adminhtml".to_string()],
        vec!["en_US".to_string()],
        None,
        4,
        false,
        false,
    );

    let config = Config::from_cli(cli).unwrap();

    assert_eq!(config.areas, vec![Area::Frontend, Area::Adminhtml]);
}

#[test]
fn test_config_from_cli_multiple_locales() {
    let cli = make_cli(
        vec!["frontend".to_string()],
        vec!["en_US".to_string(), "nl_NL".to_string(), "de_DE".to_string()],
        None,
        4,
        false,
        false,
    );

    let config = Config::from_cli(cli).unwrap();

    assert_eq!(config.locales.len(), 3);
    assert_eq!(config.locales[0].as_str(), "en_US");
    assert_eq!(config.locales[1].as_str(), "nl_NL");
    assert_eq!(config.locales[2].as_str(), "de_DE");
}

#[test]
fn test_config_from_cli_with_themes() {
    let cli = make_cli(
        vec!["frontend".to_string()],
        vec!["en_US".to_string()],
        Some(vec!["Hyva/default".to_string(), "Magento/blank".to_string()]),
        4,
        false,
        false,
    );

    let config = Config::from_cli(cli).unwrap();

    assert!(config.themes.is_some());
    let themes = config.themes.unwrap();
    assert_eq!(themes.len(), 2);
    assert_eq!(themes[0], "Hyva/default");
    assert_eq!(themes[1], "Magento/blank");
}

#[test]
fn test_config_from_cli_verbose() {
    let cli = make_cli(
        vec!["frontend".to_string()],
        vec!["en_US".to_string()],
        None,
        4,
        true,
        false,
    );

    let config = Config::from_cli(cli).unwrap();

    assert!(config.verbose);
}

#[test]
fn test_config_from_cli_include_dev() {
    let cli = make_cli(
        vec!["frontend".to_string()],
        vec!["en_US".to_string()],
        None,
        4,
        false,
        true,
    );

    let config = Config::from_cli(cli).unwrap();

    assert!(config.include_dev);
}

#[test]
fn test_config_from_cli_jobs_minimum_one() {
    let cli = make_cli(
        vec!["frontend".to_string()],
        vec!["en_US".to_string()],
        None,
        0,
        false,
        false,
    );

    let config = Config::from_cli(cli).unwrap();

    assert_eq!(config.jobs, 1);
}

#[test]
fn test_config_from_cli_invalid_locale_format() {
    let cli = make_cli(
        vec!["frontend".to_string()],
        vec!["invalid".to_string()],
        None,
        4,
        false,
        false,
    );

    let result = Config::from_cli(cli);
    assert!(result.is_err());
}

#[test]
fn test_config_from_cli_invalid_area_ignored() {
    let cli = make_cli(
        vec!["invalid".to_string(), "frontend".to_string()],
        vec!["en_US".to_string()],
        None,
        4,
        false,
        false,
    );

    let config = Config::from_cli(cli).unwrap();

    assert_eq!(config.areas, vec![Area::Frontend]);
}

#[test]
fn test_config_from_cli_lowercase_locale() {
    let cli = make_cli(
        vec!["frontend".to_string()],
        vec!["en_us".to_string()],
        None,
        4,
        false,
        false,
    );

    let result = Config::from_cli(cli);
    assert!(result.is_err());
}

#[test]
fn test_config_clone() {
    let cli = make_cli(
        vec!["frontend".to_string()],
        vec!["en_US".to_string()],
        Some(vec!["Hyva/default".to_string()]),
        8,
        true,
        true,
    );

    let config = Config::from_cli(cli).unwrap();
    let cloned = config.clone();

    assert_eq!(config.areas, cloned.areas);
    assert_eq!(config.locales, cloned.locales);
    assert_eq!(config.jobs, cloned.jobs);
    assert_eq!(config.verbose, cloned.verbose);
    assert_eq!(config.include_dev, cloned.include_dev);
}

#[test]
fn test_config_debug() {
    let cli = make_cli(
        vec!["frontend".to_string()],
        vec!["en_US".to_string()],
        None,
        4,
        false,
        false,
    );

    let config = Config::from_cli(cli).unwrap();
    let debug = format!("{:?}", config);

    assert!(debug.contains("Config"));
    assert!(debug.contains("Frontend"));
}

#[test]
fn from_cli_reports_first_invalid_locale() {
    let cli = make_cli(
        vec!["frontend".to_string()],
        vec!["en_US".to_string(), "bad".to_string(), "worse".to_string()],
        None,
        2,
        false,
        false,
    );
    match Config::from_cli(cli) {
        Err(DeployError::InvalidLocale { locale }) => assert_eq!(locale, "bad"),
        other => panic!("unexpected {:?}", other),
    }
}

#[test]
fn from_cli_keeps_root_and_area_order() {
    let cli = make_cli(
        vec!["adminhtml".to_string(), "nope".to_string(), "frontend".to_string(), "adminhtml".to_string()],
        vec![],
        None,
        3,
        false,
        false,
    );
    let config = Config::from_cli(cli).unwrap();
    assert_eq!(config.magento_root, "/tmp");
    assert_eq!(config.areas, vec![Area::Adminhtml, Area::Frontend, Area::Adminhtml]);
    assert!(config.locales.is_empty());
    assert_eq!(config.jobs, 3);
}
