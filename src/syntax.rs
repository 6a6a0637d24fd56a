//! The outline of a parsed module: the parts of the syntax tree that
//! definition and reference extraction read. A parser outside the library
//! builds it, one node for each node of its own tree; every construct that
//! extraction does not look into is `Other`.

use vstd::prelude::*;

verus! {

/// A parsed source file: its top-level items in source order.
pub struct Module {
    pub body: Vec<ModuleItem>,
}

/// A top-level item.
pub enum ModuleItem {
    ModuleDecl(ModuleDecl),
    Stmt(Stmt),
}

/// An import or export item.
pub enum ModuleDecl {
    /// An import declaration with its specifiers.
    Import(Vec<ImportSpecifier>),
    /// `export` followed by a declaration.
    ExportDecl(Decl),
    /// `export default` followed by a declaration; `pos` is the byte offset at
    /// which the item starts.
    ExportDefaultDecl { decl: DefaultDecl, pos: usize },
    Other,
}

/// One name brought in by an import declaration.
pub enum ImportSpecifier {
    /// `{ imported as local }`, or `{ local }` when `imported` is `None`.
    Named { local: String, imported: Option<String> },
    /// `import local from ...`
    Default { local: String },
    /// `import * as local from ...`
    Namespace { local: String },
}

/// A declaration; `pos` is the byte offset at which it starts.
pub enum Decl {
    Fn { ident: String, pos: usize },
    Var(Vec<VarDeclarator>),
    TsTypeAlias { id: String, pos: usize },
    TsInterface { id: String, pos: usize },
    TsEnum { id: String, pos: usize },
    Other,
}

/// One binding of a `const`, `let` or `var` declaration.
pub struct VarDeclarator {
    pub name: Pat,
    pub init: Option<Expr>,
    pub pos: usize,
}

/// The target of a binding.
pub enum Pat {
    Ident(String),
    Other,
}

/// The declaration after `export default`.
pub enum DefaultDecl {
    /// A function expression, with its name if it has one.
    Fn { ident: Option<String> },
    Other,
}

/// A statement.
pub enum Stmt {
    Expr(Expr),
    Decl(Decl),
    Other,
}

/// An expression.
pub enum Expr {
    Ident(String),
    Call { callee: Callee, args: Vec<Expr> },
    Member { obj: Box<Expr>, prop: MemberProp },
    Arrow,
    JsxElement(JsxElement),
    Other,
}

/// What a call expression calls.
pub enum Callee {
    Expr(Box<Expr>),
    Other,
}

/// The property named by a member expression.
pub enum MemberProp {
    Ident(String),
    Other,
}

/// A JSX element: its tag name and its children.
pub struct JsxElement {
    pub name: JsxElementName,
    pub children: Vec<JsxElementChild>,
}

/// The tag name of a JSX element.
pub enum JsxElementName {
    Ident(String),
    Other,
}

/// A child of a JSX element.
pub enum JsxElementChild {
    JsxElement(JsxElement),
    Other,
}

} // verus!
