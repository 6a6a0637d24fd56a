use ts_unused_finder::{
    definitions_by_patterns, references_by_patterns, Config, DetectionTypes, ElementDefinition,
    ElementMap, ElementType, TextFile, UnusedElementDetector,
};

fn text_file(path: &str, content: &str) -> TextFile {
    TextFile { path: path.to_string(), content: content.to_string() }
}

fn definition(name: &str, element_type: ElementType, file: &str) -> ElementDefinition {
    ElementDefinition { name: name.to_string(), element_type, file: file.to_string(), should_ignore: false }
}

#[test]
fn pattern_definitions_by_kind() {
    let content = "export default function Page() {}\n\
export const Card = memo(Inner);\n\
export const Row = (props) => null;\n\
export type Props = { a: number };\n\
export interface Shape {}\n\
export function helper() {}\n\
export const format = (x) => x;\n\
export const MAX_SIZE = 10;\n\
export enum Mode { A }\n";
    let defs = definitions_by_patterns("a.tsx", content, DetectionTypes::default()).unwrap();
    let seen: Vec<(&str, ElementType)> = defs.iter().map(|d| (d.name.as_str(), d.element_type)).collect();
    assert_eq!(
        seen,
        vec![
            ("Page", ElementType::Component),
            ("Card", ElementType::Component),
            ("Row", ElementType::Component),
            ("Props", ElementType::Type),
            ("Shape", ElementType::Interface),
            ("helper", ElementType::Function),
            ("format", ElementType::Function),
            ("MAX_SIZE", ElementType::Variable),
            ("Mode", ElementType::Enum),
        ]
    );
    assert!(defs.iter().all(|d| d.file == "a.tsx" && !d.should_ignore));
}

#[test]
fn pattern_definitions_respect_suppression_and_kinds() {
    let content = "// @ts-unused-ignore\nexport type Hidden = string;\nexport type Shown = number;\nexport enum Mode { A }\n";
    let mut types = DetectionTypes::default();
    types.enums = false;
    let defs = definitions_by_patterns("t.ts", content, types).unwrap();
    assert_eq!(defs.len(), 2);
    assert_eq!(defs[0].name, "Hidden");
    assert!(defs[0].should_ignore);
    assert_eq!(defs[1].name, "Shown");
    assert!(!defs[1].should_ignore);
}

#[test]
fn element_map_groups_by_name() {
    let defs = vec![
        definition("Button", ElementType::Component, "a.tsx"),
        definition("helper", ElementType::Function, "a.ts"),
        definition("Button", ElementType::Type, "b.ts"),
    ];
    let map = ElementMap::from_definitions(&defs);
    assert_eq!(map.definitions.len(), 2);
    assert_eq!(map.definitions[0].0, "Button");
    assert_eq!(map.definitions[0].1, ElementType::Component);
    assert_eq!(map.definitions[0].2, vec!["a.tsx", "b.ts"]);
    assert_eq!(map.definitions[1].0, "helper");
    assert_eq!(map.definitions[1].2, vec!["a.ts"]);
}

#[test]
fn pattern_references_with_lines_and_context() {
    let defs = vec![
        definition("Widget", ElementType::Component, "a.tsx"),
        definition("helper", ElementType::Function, "a.ts"),
    ];
    let map = ElementMap::from_definitions(&defs);
    let content = "import { Widget } from './a';\n\nconst x = <Widget />;\nhelper(1);\n";
    let refs = references_by_patterns(&map, "b.tsx", content).unwrap();
    let seen: Vec<(&str, usize, &str)> =
        refs.iter().map(|r| (r.name.as_str(), r.line, r.context.as_str())).collect();
    assert_eq!(
        seen,
        vec![
            ("Widget", 3, "<Widget"),
            ("Widget", 1, "import { Widget }"),
            ("helper", 4, "helper("),
        ]
    );
    assert!(refs.iter().all(|r| r.file == "b.tsx"));
}

#[test]
fn pattern_strategy_end_to_end() {
    let config = Config {
        search_dirs: vec![".".to_string()],
        exclude_patterns: vec![],
        detection_types: DetectionTypes::default(),
        ci: None,
    };
    let detector = UnusedElementDetector::new(config).unwrap();
    let a = text_file("a.tsx", "export const Widget = () => <div/>;\nexport function helper() {}\n");
    let b = text_file("b.tsx", "import { Widget } from './a';\nexport const App = () => <Widget/>;\n");
    let result = detector
        .detect_by_patterns(&vec![a], &vec![text_file("a.tsx", "helper();\n"), b])
        .unwrap();
    let used: Vec<&str> = result.used.iter().map(|e| e.name.as_str()).collect();
    let unused: Vec<&str> = result.unused.iter().map(|e| e.name.as_str()).collect();
    assert_eq!(used, vec!["Widget"]);
    assert_eq!(unused, vec!["helper"]);
    assert_eq!(result.total, 2);
    let usages = result.used[0].usages.as_ref().unwrap();
    assert_eq!(usages.len(), 1);
    assert_eq!(usages[0].file, "b.tsx");
    assert_eq!(usages[0].usages.len(), 2);
}
