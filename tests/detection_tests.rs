use ts_unused_finder::{
    analyze_usage, is_source_file, references_of_module, select_files, should_exclude,
    usage_rate, Callee, Config, Decl, DetectionStats, DetectionTypes, ElementDefinition,
    ElementReference, ElementType, Expr, ImportSpecifier, JsxElement, JsxElementChild,
    JsxElementName, Module, ModuleDecl, ModuleItem, Pat, SourceFile, Stmt, UnusedElementDetector,
    VarDeclarator,
};

fn config() -> Config {
    Config {
        search_dirs: vec![".".to_string()],
        exclude_patterns: vec![],
        detection_types: DetectionTypes::default(),
        ci: None,
    }
}

fn source(path: &str, content: &str, body: Vec<ModuleItem>) -> SourceFile {
    SourceFile { path: path.to_string(), content: content.to_string(), module: Module { body } }
}

fn export(decl: Decl) -> ModuleItem {
    ModuleItem::ModuleDecl(ModuleDecl::ExportDecl(decl))
}

fn import_named(names: &[&str]) -> ModuleItem {
    ModuleItem::ModuleDecl(ModuleDecl::Import(
        names
            .iter()
            .map(|n| ImportSpecifier::Named { local: n.to_string(), imported: None })
            .collect(),
    ))
}

fn jsx(name: &str, children: Vec<JsxElementChild>) -> JsxElement {
    JsxElement { name: JsxElementName::Ident(name.to_string()), children }
}

fn call(name: &str, args: Vec<Expr>) -> Expr {
    Expr::Call { callee: Callee::Expr(Box::new(Expr::Ident(name.to_string()))), args }
}

fn definition(name: &str, element_type: ElementType, file: &str, should_ignore: bool) -> ElementDefinition {
    ElementDefinition { name: name.to_string(), element_type, file: file.to_string(), should_ignore }
}

fn reference(name: &str, file: &str, context: &str) -> ElementReference {
    ElementReference { name: name.to_string(), file: file.to_string(), line: 1, context: context.to_string() }
}

#[test]
fn unreferenced_function_is_unused() {
    let a = source(
        "a.ts",
        "export function helper() {}\n",
        vec![export(Decl::Fn { ident: "helper".to_string(), pos: 7 })],
    );
    let b = source("b.ts", "console.log(1);\n", vec![ModuleItem::Stmt(Stmt::Expr(call("log", vec![])))]);
    let detector = UnusedElementDetector::new(config()).unwrap();
    let result = detector.detect(&vec![a], &vec![b]);
    assert_eq!(result.unused.len(), 1);
    assert_eq!(result.unused[0].name, "helper");
    assert_eq!(result.unused[0].element_type, ElementType::Function);
    assert!(result.unused[0].usages.is_none());
    assert!(result.used.is_empty());
    assert_eq!(result.total, 1);
    assert_eq!(
        result.by_type,
        vec![(ElementType::Function, DetectionStats { total: 1, used: 0, unused: 1 })]
    );
}

#[test]
fn imported_and_rendered_component_is_used_once_per_file() {
    let a_content = "export const Widget = () => <div/>\n";
    let a = source(
        "a.tsx",
        a_content,
        vec![export(Decl::Var(vec![VarDeclarator {
            name: Pat::Ident("Widget".to_string()),
            init: Some(Expr::Arrow),
            pos: 13,
        }]))],
    );
    let b_content = "import { Widget } from './a'; <Widget/>\n";
    let b_body = vec![
        import_named(&["Widget"]),
        ModuleItem::Stmt(Stmt::Expr(Expr::JsxElement(jsx("Widget", vec![])))),
    ];
    let b = source("b.tsx", b_content, b_body);
    let a_again = source("a.tsx", a_content, a.module.body.iter().map(|_| ModuleItem::Stmt(Stmt::Other)).collect());
    let detector = UnusedElementDetector::new(config()).unwrap();
    let result = detector.detect(&vec![a], &vec![a_again, b]);
    assert!(result.unused.is_empty());
    assert_eq!(result.used.len(), 1);
    let widget = &result.used[0];
    assert_eq!(widget.name, "Widget");
    assert_eq!(widget.element_type, ElementType::Component);
    assert_eq!(widget.definition_files, vec!["a.tsx"]);
    let usages = widget.usages.as_ref().unwrap();
    assert_eq!(usages.len(), 1);
    assert_eq!(usages[0].file, "b.tsx");
    let contexts: Vec<&str> = usages[0].usages.iter().map(|u| u.context.as_str()).collect();
    assert_eq!(contexts, vec!["import", "jsx"]);
    assert_eq!(result.total, 1);
}

#[test]
fn same_file_references_do_not_count() {
    let content = "export function helper() {}\nhelper();\n";
    let body = vec![
        export(Decl::Fn { ident: "helper".to_string(), pos: 7 }),
        ModuleItem::Stmt(Stmt::Expr(call("helper", vec![]))),
    ];
    let defs_file = source("a.ts", content, body);
    let refs_file = source(
        "a.ts",
        content,
        vec![ModuleItem::Stmt(Stmt::Expr(call("helper", vec![])))],
    );
    let detector = UnusedElementDetector::new(config()).unwrap();
    let result = detector.detect(&vec![defs_file], &vec![refs_file]);
    assert_eq!(result.unused.len(), 1);
    assert_eq!(result.unused[0].name, "helper");
    assert!(result.used.is_empty());
}

#[test]
fn suppressed_definitions_are_never_reported() {
    let content = "// @ts-unused-ignore\nexport type Hidden = string;\nexport type Inline = number; // @ts-unused-ignore\nexport type Shown = boolean;\n";
    let body = vec![
        export(Decl::TsTypeAlias { id: "Hidden".to_string(), pos: content.find("type Hidden").unwrap() }),
        export(Decl::TsTypeAlias { id: "Inline".to_string(), pos: content.find("type Inline").unwrap() }),
        export(Decl::TsTypeAlias { id: "Shown".to_string(), pos: content.find("type Shown").unwrap() }),
    ];
    let detector = UnusedElementDetector::new(config()).unwrap();
    let result = detector.detect(&vec![source("types.ts", content, body)], &vec![]);
    assert_eq!(result.total, 1);
    assert_eq!(result.unused.len(), 1);
    assert_eq!(result.unused[0].name, "Shown");
    assert!(result.used.is_empty());
}

#[test]
fn classification_counts_add_up() {
    let defs = vec![
        definition("A", ElementType::Type, "a.ts", false),
        definition("B", ElementType::Interface, "a.ts", false),
        definition("C", ElementType::Enum, "a.ts", true),
        definition("d", ElementType::Function, "b.ts", false),
    ];
    let refs = vec![
        reference("A", "c.ts", "import"),
        reference("A", "c.ts", "usage"),
        reference("A", "d.ts", "import"),
        reference("B", "a.ts", "usage"),
        reference("C", "c.ts", "import"),
        reference("d", "a.ts", "import"),
    ];
    let (unused, used) = analyze_usage(&defs, &refs);
    let used_names: Vec<&str> = used.iter().map(|e| e.name.as_str()).collect();
    let unused_names: Vec<&str> = unused.iter().map(|e| e.name.as_str()).collect();
    assert_eq!(used_names, vec!["A", "d"]);
    assert_eq!(unused_names, vec!["B"]);
    let a_usages = used[0].usages.as_ref().unwrap();
    assert_eq!(a_usages.len(), 2);
    assert_eq!(a_usages[0].file, "c.ts");
    assert_eq!(a_usages[0].usages.len(), 2);
    assert_eq!(a_usages[1].file, "d.ts");
    assert_eq!(a_usages[1].usages.len(), 1);
}

#[test]
fn statistics_by_kind() {
    let defs = vec![
        definition("A", ElementType::Type, "a.ts", false),
        definition("B", ElementType::Type, "a.ts", false),
        definition("Card", ElementType::Component, "a.tsx", false),
    ];
    let refs = vec![reference("A", "b.ts", "import")];
    let (unused, used) = analyze_usage(&defs, &refs);
    let stats = ts_unused_finder::generate_statistics(&unused, &used);
    assert_eq!(
        stats,
        vec![
            (ElementType::Component, DetectionStats { total: 1, used: 0, unused: 1 }),
            (ElementType::Type, DetectionStats { total: 2, used: 1, unused: 1 }),
        ]
    );
}

#[test]
fn usage_rate_rounds_half_up() {
    assert_eq!(usage_rate(0, 0), 0);
    assert_eq!(usage_rate(1, 1), 100);
    assert_eq!(usage_rate(1, 8), 13);
    assert_eq!(usage_rate(1, 3), 33);
    assert_eq!(usage_rate(2, 3), 67);
    assert_eq!(usage_rate(0, 5), 0);
}

#[test]
fn excluded_files_still_provide_references() {
    let detector = UnusedElementDetector::new(Config::default()).unwrap();
    let paths = vec![
        "src/a.ts".to_string(),
        "src/a.test.ts".to_string(),
        "src/view.tsx".to_string(),
        "src/readme.md".to_string(),
        "node_modules/x/index.ts".to_string(),
    ];
    assert_eq!(detector.definition_files(&paths), vec!["src/a.ts", "src/view.tsx"]);
    assert_eq!(
        detector.reference_files(&paths),
        vec!["src/a.ts", "src/a.test.ts", "src/view.tsx", "node_modules/x/index.ts"]
    );
}

#[test]
fn exclusion_pattern_forms() {
    let patterns = vec!["*.spec.ts".to_string(), "gen/**".to_string(), "vendor".to_string()];
    assert!(should_exclude("src/a.spec.ts", &patterns));
    assert!(!should_exclude("src/a.spec.tsx", &patterns));
    assert!(should_exclude("gen/types/a.ts", &patterns));
    assert!(!should_exclude("src/gen/a.ts", &patterns));
    assert!(should_exclude("lib/vendor/a.ts", &patterns));
    assert!(!should_exclude("lib/a.ts", &patterns));
    let prefix = vec!["src/*.ts".to_string()];
    assert!(should_exclude("src/deep/a.ts", &prefix));
    assert!(!should_exclude("lib/a.ts", &prefix));
    assert!(!should_exclude("anything", &Vec::new()));
}

#[test]
fn source_file_extensions() {
    assert!(is_source_file("src/a.ts"));
    assert!(is_source_file("src/a.b.tsx"));
    assert!(!is_source_file("src/.ts"));
    assert!(!is_source_file("src/a.js"));
    assert!(!is_source_file("src/ts"));
    assert!(!is_source_file("src.ts/readme"));
    let all = vec!["x.ts".to_string(), "y.css".to_string()];
    assert_eq!(select_files(&all, &vec!["x".to_string()], false), vec!["x.ts"]);
    assert!(select_files(&all, &vec!["x".to_string()], true).is_empty());
}

#[test]
fn references_from_imports_calls_and_jsx() {
    let body = vec![
        ModuleItem::ModuleDecl(ModuleDecl::Import(vec![
            ImportSpecifier::Named { local: "Alias".to_string(), imported: Some("Original".to_string()) },
            ImportSpecifier::Default { local: "Main".to_string() },
            ImportSpecifier::Namespace { local: "Utils".to_string() },
        ])),
        ModuleItem::Stmt(Stmt::Expr(call("render", vec![Expr::Ident("value".to_string()), Expr::Arrow]))),
        ModuleItem::Stmt(Stmt::Expr(Expr::JsxElement(jsx(
            "Layout",
            vec![JsxElementChild::JsxElement(jsx("Item", vec![])), JsxElementChild::Other],
        )))),
        ModuleItem::Stmt(Stmt::Decl(Decl::Fn { ident: "local".to_string(), pos: 0 })),
    ];
    let refs = references_of_module("b.tsx", &Module { body });
    let seen: Vec<(&str, &str)> = refs.iter().map(|r| (r.name.as_str(), r.context.as_str())).collect();
    assert_eq!(
        seen,
        vec![
            ("Original", "import"),
            ("Main", "import"),
            ("Utils", "import"),
            ("render", "usage"),
            ("value", "usage"),
            ("Layout", "jsx"),
            ("Item", "jsx"),
        ]
    );
    assert!(refs.iter().all(|r| r.file == "b.tsx" && r.line == 1));
}
