use ts_unused_finder::{
    definitions_of_module, Callee, Decl, DefaultDecl, DetectionTypes, ElementDefinition,
    ElementType, Expr, MemberProp, Module, ModuleDecl, ModuleItem, Pat, VarDeclarator,
};

fn all_types() -> DetectionTypes {
    DetectionTypes {
        components: true,
        types: true,
        interfaces: true,
        functions: true,
        variables: true,
        enums: true,
    }
}

fn at(content: &str, needle: &str) -> usize {
    content.find(needle).expect("the declaration is in the content")
}

fn export(decl: Decl) -> ModuleItem {
    ModuleItem::ModuleDecl(ModuleDecl::ExportDecl(decl))
}

fn binding(name: &str, init: Expr, pos: usize) -> ModuleItem {
    export(Decl::Var(vec![VarDeclarator {
        name: Pat::Ident(name.to_string()),
        init: Some(init),
        pos,
    }]))
}

fn find<'a>(defs: &'a [ElementDefinition], name: &str) -> &'a ElementDefinition {
    defs.iter().find(|def| def.name == name).unwrap()
}

#[test]
fn test_ignore_comment_detection() {
    let content = r#"// @ts-unused-ignore
export type UnusedType = string;

export type UsedType = number;
"#;
    let module = Module {
        body: vec![
            export(Decl::TsTypeAlias { id: "UnusedType".to_string(), pos: at(content, "type UnusedType") }),
            export(Decl::TsTypeAlias { id: "UsedType".to_string(), pos: at(content, "type UsedType") }),
        ],
    };
    let result = definitions_of_module("test.ts", content, all_types(), &module);

    let unused_type = find(&result, "UnusedType");
    let used_type = find(&result, "UsedType");

    assert!(unused_type.should_ignore, "UnusedType should be marked for ignore");
    assert!(!used_type.should_ignore, "UsedType should not be marked for ignore");
}

#[test]
fn test_ignore_comment_interface() {
    let content = r#"// @ts-unused-ignore
export interface UnusedInterface {
    prop: string;
}

export interface UsedInterface {
    prop: number;
}
"#;
    let module = Module {
        body: vec![
            export(Decl::TsInterface {
                id: "UnusedInterface".to_string(),
                pos: at(content, "interface UnusedInterface"),
            }),
            export(Decl::TsInterface {
                id: "UsedInterface".to_string(),
                pos: at(content, "interface UsedInterface"),
            }),
        ],
    };
    let result = definitions_of_module("test.ts", content, all_types(), &module);

    assert!(find(&result, "UnusedInterface").should_ignore);
    assert!(!find(&result, "UsedInterface").should_ignore);
}

#[test]
fn test_ignore_comment_function() {
    let content = r#"// @ts-unused-ignore
export function unusedFunction() {
    return "hello";
}

export function usedFunction() {
    return "world";
}
"#;
    let module = Module {
        body: vec![
            export(Decl::Fn { ident: "unusedFunction".to_string(), pos: at(content, "function unusedFunction") }),
            export(Decl::Fn { ident: "usedFunction".to_string(), pos: at(content, "function usedFunction") }),
        ],
    };
    let result = definitions_of_module("test.ts", content, all_types(), &module);

    let unused_function = find(&result, "unusedFunction");
    let used_function = find(&result, "usedFunction");
    assert!(unused_function.should_ignore);
    assert!(!used_function.should_ignore);
    assert_eq!(unused_function.element_type, ElementType::Function);
}

#[test]
fn test_ignore_comment_component() {
    let content = r#"// @ts-unused-ignore
export const UnusedComponent = () => {
    return <div>Unused</div>;
};

export const UsedComponent = () => {
    return <div>Used</div>;
};
"#;
    let module = Module {
        body: vec![
            binding("UnusedComponent", Expr::Arrow, at(content, "UnusedComponent =")),
            binding("UsedComponent", Expr::Arrow, at(content, "UsedComponent =")),
        ],
    };
    let result = definitions_of_module("test.tsx", content, all_types(), &module);

    let unused_component = find(&result, "UnusedComponent");
    let used_component = find(&result, "UsedComponent");
    assert!(unused_component.should_ignore);
    assert!(!used_component.should_ignore);
    assert_eq!(used_component.element_type, ElementType::Component);
    assert_eq!(used_component.file, "test.tsx");
}

#[test]
fn test_ignore_comment_enum() {
    let content = r#"// @ts-unused-ignore
export enum UnusedEnum {
    VALUE1 = "value1",
    VALUE2 = "value2"
}

export enum UsedEnum {
    VALUE3 = "value3",
    VALUE4 = "value4"
}
"#;
    let module = Module {
        body: vec![
            export(Decl::TsEnum { id: "UnusedEnum".to_string(), pos: at(content, "enum UnusedEnum") }),
            export(Decl::TsEnum { id: "UsedEnum".to_string(), pos: at(content, "enum UsedEnum") }),
        ],
    };
    let result = definitions_of_module("test.ts", content, all_types(), &module);

    assert!(find(&result, "UnusedEnum").should_ignore);
    assert!(!find(&result, "UsedEnum").should_ignore);
}

#[test]
fn test_inline_ignore_comment() {
    let content = r#"export type UnusedType = string; // @ts-unused-ignore
export type UsedType = number;
"#;
    let module = Module {
        body: vec![
            export(Decl::TsTypeAlias { id: "UnusedType".to_string(), pos: at(content, "type UnusedType") }),
            export(Decl::TsTypeAlias { id: "UsedType".to_string(), pos: at(content, "type UsedType") }),
        ],
    };
    let result = definitions_of_module("test.ts", content, all_types(), &module);

    let unused_type = find(&result, "UnusedType");
    let used_type = find(&result, "UsedType");
    assert!(unused_type.should_ignore, "UnusedType should be marked for ignore with inline comment");
    assert!(!used_type.should_ignore, "UsedType should not be marked for ignore");
}

#[test]
fn naming_convention_decides_binding_kind() {
    let content = "export const myHelper = () => {}\nexport const MyHelper = () => {}\nexport const MY_CONST = 1\n";
    let module = Module {
        body: vec![
            binding("myHelper", Expr::Arrow, at(content, "myHelper")),
            binding("MyHelper", Expr::Arrow, at(content, "MyHelper")),
            binding("MY_CONST", Expr::Other, at(content, "MY_CONST")),
        ],
    };
    let result = definitions_of_module("a.ts", content, all_types(), &module);
    assert_eq!(result.len(), 3);
    assert_eq!(find(&result, "myHelper").element_type, ElementType::Function);
    assert_eq!(find(&result, "MyHelper").element_type, ElementType::Component);
    assert_eq!(find(&result, "MY_CONST").element_type, ElementType::Variable);
}

#[test]
fn component_wrapper_calls() {
    let content = "export const Card = memo(Inner)\nexport const Field = React.forwardRef(Inner)\nexport const Other = wrap(Inner)\n";
    let memo_call = Expr::Call {
        callee: Callee::Expr(Box::new(Expr::Ident("memo".to_string()))),
        args: vec![Expr::Ident("Inner".to_string())],
    };
    let forward_ref_call = Expr::Call {
        callee: Callee::Expr(Box::new(Expr::Member {
            obj: Box::new(Expr::Ident("React".to_string())),
            prop: MemberProp::Ident("forwardRef".to_string()),
        })),
        args: vec![Expr::Ident("Inner".to_string())],
    };
    let other_call = Expr::Call {
        callee: Callee::Expr(Box::new(Expr::Ident("wrap".to_string()))),
        args: vec![],
    };
    let module = Module {
        body: vec![
            binding("Card", memo_call, at(content, "Card")),
            binding("Field", forward_ref_call, at(content, "Field")),
            binding("Other", other_call, at(content, "Other")),
        ],
    };
    let result = definitions_of_module("a.tsx", content, all_types(), &module);
    assert_eq!(result.len(), 2);
    assert_eq!(find(&result, "Card").element_type, ElementType::Component);
    assert_eq!(find(&result, "Field").element_type, ElementType::Component);
}

#[test]
fn naming_rules_for_declarations() {
    let content = "export function Helper() {}\nexport type lower = string;\nexport default function Page() {}\n";
    let module = Module {
        body: vec![
            export(Decl::Fn { ident: "Helper".to_string(), pos: 0 }),
            export(Decl::TsTypeAlias { id: "lower".to_string(), pos: at(content, "type lower") }),
            ModuleItem::ModuleDecl(ModuleDecl::ExportDefaultDecl {
                decl: DefaultDecl::Fn { ident: Some("Page".to_string()) },
                pos: at(content, "export default"),
            }),
        ],
    };
    let result = definitions_of_module("a.tsx", content, all_types(), &module);
    assert_eq!(result.len(), 1);
    assert_eq!(result[0].name, "Page");
    assert_eq!(result[0].element_type, ElementType::Component);
}

#[test]
fn disabled_kinds_are_not_scanned() {
    let content = "export function helper() {}\nexport enum Mode { A }\n";
    let module = Module {
        body: vec![
            export(Decl::Fn { ident: "helper".to_string(), pos: 0 }),
            export(Decl::TsEnum { id: "Mode".to_string(), pos: at(content, "enum Mode") }),
        ],
    };
    let mut types = all_types();
    types.functions = false;
    let result = definitions_of_module("a.ts", content, types, &module);
    assert_eq!(result.len(), 1);
    assert_eq!(result[0].name, "Mode");
    assert_eq!(result[0].element_type, ElementType::Enum);
}

#[test]
fn marker_with_surrounding_space_and_other_lines() {
    let content = "   // @ts-unused-ignore  \r\nexport type A = 1;\n// a comment\nexport type B = 2;\n// @ts-unused-ignore\n\nexport type C = 3;\n";
    let module = Module {
        body: vec![
            export(Decl::TsTypeAlias { id: "A".to_string(), pos: at(content, "type A") }),
            export(Decl::TsTypeAlias { id: "B".to_string(), pos: at(content, "type B") }),
            export(Decl::TsTypeAlias { id: "C".to_string(), pos: at(content, "type C") }),
        ],
    };
    let result = definitions_of_module("a.ts", content, all_types(), &module);
    assert!(find(&result, "A").should_ignore);
    assert!(!find(&result, "B").should_ignore);
    assert!(!find(&result, "C").should_ignore);
}

#[test]
fn marker_lines_after_multibyte_text() {
    let content = "// \u{65e5}\u{672c}\u{8a9e} comment\n// @ts-unused-ignore\nexport type Wide = string;\nexport type Next = number;\n";
    let module = Module {
        body: vec![
            export(Decl::TsTypeAlias { id: "Wide".to_string(), pos: at(content, "type Wide") }),
            export(Decl::TsTypeAlias { id: "Next".to_string(), pos: at(content, "type Next") }),
        ],
    };
    let result = definitions_of_module("a.ts", content, all_types(), &module);
    assert!(find(&result, "Wide").should_ignore);
    assert!(!find(&result, "Next").should_ignore);
}
