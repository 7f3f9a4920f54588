use std::path::Path;

use magento_static_deploy::copier::{plan_copy, tally_outcomes, FileOutcome};
use magento_static_deploy::deployer::{
    output_path_for_theme, plan_layers, DeployStats, DeployStatus, JobRun,
};
use magento_static_deploy::scanner::{collect_file_sources, FileSource, SourceFacts, ThemeLayout};
use magento_static_deploy::theme::{resolve_parent_chain, Area, LocaleCode, Theme, ThemeType};

#[test]
fn one_theme_one_file_end_to_end() {
    let root = "/srv/shop";
    let theme = Theme {
        vendor: "Acme".to_string(),
        name: "shop".to_string(),
        area: Area::Frontend,
        path: "/srv/shop/app/design/frontend/Acme/shop".to_string(),
        parent: None,
        theme_type: ThemeType::Hyva,
    };
    let all = vec![theme.clone()];
    let chain = resolve_parent_chain(&theme, &all);
    assert!(chain.is_empty());
    let facts = SourceFacts {
        layouts: vec![ThemeLayout { has_web: true, subdirs: vec![] }],
        packages: vec![],
        library: false,
    };
    let sources = collect_file_sources(&theme, &chain, root, &facts);
    assert_eq!(sources.len(), 1);
    let output = output_path_for_theme(root, &theme, &LocaleCode::new("en_US"));
    let stats = DeployStats::new();
    let mut run = JobRun::new(plan_layers(&output, &sources));
    let mut copied = Vec::new();
    while let Some(layer) = run.next_layer(false) {
        let files = vec![format!("{}/js/app.js", layer.src)];
        let plan = plan_copy(&layer.src, &layer.dest, &files, false);
        let outcomes = plan.iter().map(|_| FileOutcome::Copied { bytes: 8 }).collect();
        copied.extend(plan.into_iter().map(|item| item.dst));
        run.layer_done(tally_outcomes(outcomes), &stats);
    }
    let (status, files) = run.finish();
    assert!(matches!(status, DeployStatus::Success));
    assert_eq!(files, 1);
    assert_eq!(copied.len(), 1);
    assert!(Path::new(&copied[0]).ends_with("pub/static/frontend/Acme/shop/en_US/js/app.js"));
    assert_eq!(copied[0], "/srv/shop/pub/static/frontend/Acme/shop/en_US/js/app.js");
}

#[test]
fn skip_existing_counts_only_new_files() {
    let outcomes = vec![FileOutcome::AlreadyPresent, FileOutcome::Copied { bytes: 8 }];
    assert_eq!(tally_outcomes(outcomes).unwrap(), (1, 8));
    assert_eq!(tally_outcomes(vec![FileOutcome::AlreadyPresent]).unwrap(), (0, 0));
}

#[test]
fn cancellation_before_copy_copies_nothing() {
    let layers = plan_layers("/out", &vec![FileSource::Library { path: "/lib/web".to_string() }]);
    let mut run = JobRun::new(layers);
    assert!(run.next_layer(true).is_none());
    let (status, files) = run.finish();
    assert!(matches!(status, DeployStatus::Cancelled));
    assert_eq!(files, 0);
}
