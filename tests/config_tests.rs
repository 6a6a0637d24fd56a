use ts_unused_finder::{
    check_config_format, merge_configs, monorepo_search_dirs, resolve_config_path,
    with_default_search_dirs, CiConfig, Config, DetectionTypes, DetectorError,
};

fn custom_config(search_dirs: Vec<&str>, exclude_patterns: Vec<&str>, ci: Option<CiConfig>) -> Config {
    Config {
        search_dirs: search_dirs.into_iter().map(|s| s.to_string()).collect(),
        exclude_patterns: exclude_patterns.into_iter().map(|s| s.to_string()).collect(),
        detection_types: DetectionTypes::default(),
        ci,
    }
}

#[test]
fn test_merge_configs() {
    let base = Config::default();
    let custom = Config {
        search_dirs: vec!["custom/src".to_string()],
        exclude_patterns: vec![],
        detection_types: DetectionTypes::default(),
        ci: None,
    };

    let merged = merge_configs(base.clone(), custom);
    assert_eq!(merged.search_dirs, vec!["custom/src"]);
}

#[test]
fn merge_keeps_base_when_custom_is_empty() {
    let base = Config::default();
    let custom = custom_config(vec![], vec![], None);
    let merged = merge_configs(base.clone(), custom);
    assert_eq!(merged.search_dirs, base.search_dirs);
    assert_eq!(merged.exclude_patterns, base.exclude_patterns);
    assert_eq!(merged.ci.unwrap().max_unused_elements, 5);
}

#[test]
fn merge_joins_patterns_sorted_without_duplicates() {
    let base = Config::default();
    let custom = custom_config(vec![], vec!["generated", "dist", "generated"], None);
    let merged = merge_configs(base, custom);
    let patterns = merged.exclude_patterns;
    assert_eq!(patterns.len(), 28);
    assert!(patterns.contains(&"generated".to_string()));
    assert!(patterns.contains(&"node_modules".to_string()));
    for w in patterns.windows(2) {
        assert!(w[0] < w[1]);
    }
}

#[test]
fn merge_prefers_custom_ci_and_detection_types() {
    let base = Config::default();
    let mut custom = custom_config(
        vec![],
        vec![],
        Some(CiConfig { max_unused_elements: 9, fail_on_exceed: false, log_level: "info".to_string() }),
    );
    custom.detection_types.enums = false;
    let merged = merge_configs(base, custom);
    let ci = merged.ci.unwrap();
    assert_eq!(ci.max_unused_elements, 9);
    assert!(!ci.fail_on_exceed);
    assert!(!merged.detection_types.enums);
    assert!(merged.detection_types.components);
}

#[test]
fn config_path_choice() {
    assert_eq!(
        resolve_config_path(Some("a.json".to_string()), Some("tuc.config.json".to_string())),
        Some("a.json".to_string())
    );
    assert_eq!(
        resolve_config_path(None, Some("tuc.config.json".to_string())),
        Some("tuc.config.json".to_string())
    );
    assert_eq!(resolve_config_path(Some(String::new()), Some("x.json".to_string())), None);
    assert_eq!(resolve_config_path(None, None), None);
}

#[test]
fn config_format_must_be_json() {
    assert!(check_config_format("dir/config.json").is_ok());
    match check_config_format("tuc.config.js") {
        Err(DetectorError::Config { message }) => assert!(!message.is_empty()),
        other => panic!("expected a configuration error, got {:?}", other),
    }
    assert!(check_config_format("json").is_err());
}

#[test]
fn monorepo_roots_under_each_app() {
    let apps = vec!["web".to_string(), "admin".to_string()];
    let dirs = vec!["src".to_string(), "lib".to_string()];
    let roots = monorepo_search_dirs(&apps, &dirs);
    assert_eq!(roots, vec!["apps/web/src", "apps/web/lib", "apps/admin/src", "apps/admin/lib"]);
    assert!(monorepo_search_dirs(&Vec::new(), &dirs).is_empty());
}

#[test]
fn empty_search_roots_fall_back_to_src() {
    let config = with_default_search_dirs(custom_config(vec![], vec!["x"], None));
    assert_eq!(config.search_dirs, vec!["src"]);
    assert_eq!(config.exclude_patterns, vec!["x"]);
    let kept = with_default_search_dirs(custom_config(vec!["lib", "app"], vec![], None));
    assert_eq!(kept.search_dirs, vec!["lib", "app"]);
}
