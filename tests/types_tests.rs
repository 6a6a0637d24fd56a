use ts_unused_finder::{
    default_exclude_patterns, Config, DetectionResult, DetectionTypes, ElementInfo, ElementType,
};

#[test]
fn test_default_config() {
    let config = Config::default();
    assert_eq!(config.search_dirs, vec!["src"]);
    assert!(!config.exclude_patterns.is_empty());
    assert!(config.exclude_patterns.contains(&"node_modules".to_string()));
    assert!(config.exclude_patterns.contains(&"*.test.ts".to_string()));
    assert!(config.detection_types.components);
    assert!(config.detection_types.types);
    assert!(config.detection_types.interfaces);
    assert!(config.detection_types.functions);
    assert!(config.detection_types.variables);
    assert!(config.detection_types.enums);
}

#[test]
fn test_default_exclude_patterns() {
    let patterns = default_exclude_patterns();
    assert!(patterns.contains(&"node_modules".to_string()));
    assert!(patterns.contains(&"*.test.ts".to_string()));
    assert!(patterns.contains(&"*.test.tsx".to_string()));
    assert!(patterns.contains(&"*.spec.ts".to_string()));
    assert!(patterns.contains(&"*.stories.ts".to_string()));
    assert!(patterns.contains(&"dist".to_string()));
    assert!(patterns.contains(&".next".to_string()));
}

#[test]
fn test_element_type_display() {
    assert_eq!(ElementType::Component.to_string(), "Component");
    assert_eq!(ElementType::Type.to_string(), "Type");
    assert_eq!(ElementType::Interface.to_string(), "Interface");
    assert_eq!(ElementType::Function.to_string(), "Function");
    assert_eq!(ElementType::Variable.to_string(), "Variable");
    assert_eq!(ElementType::Enum.to_string(), "Enum");
}

#[test]
fn test_detection_types_default() {
    let detection_types = DetectionTypes::default();
    assert!(detection_types.components);
    assert!(detection_types.types);
    assert!(detection_types.interfaces);
    assert!(detection_types.functions);
    assert!(detection_types.variables);
    assert!(detection_types.enums);
}

#[test]
fn test_usage_rate_calculation() {
    let result = DetectionResult {
        unused: vec![],
        used: vec![ElementInfo {
            name: "UsedComponent".to_string(),
            element_type: ElementType::Component,
            definition_files: vec!["src/used.tsx".to_string()],
            usages: None,
        }],
        total: 1,
        by_type: Vec::new(),
    };

    assert_eq!(result.used.len(), 1);
    assert_eq!(result.total, 1);
}

#[test]
fn default_config_ci_policy() {
    let config = Config::default();
    let ci = config.ci.expect("the default configuration has a CI policy");
    assert_eq!(ci.max_unused_elements, 5);
    assert!(ci.fail_on_exceed);
    assert_eq!(ci.log_level, "warn");
}

#[test]
fn default_exclude_patterns_full_list() {
    let patterns = default_exclude_patterns();
    assert_eq!(patterns.len(), 27);
    assert_eq!(patterns[0], "node_modules");
    assert_eq!(patterns[19], "*.d.ts");
    assert_eq!(patterns[26], "*.min.css");
}
