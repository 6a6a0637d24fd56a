//! Extraction of candidate references from the outline of a module.
//!
//! Imported names, bare identifiers in expression statements (looking through
//! calls into callees and arguments) and JSX tag names are references. Line
//! numbers are not tracked: every reference is recorded on line 1, since only
//! the file a reference occurs in matters for classification.

use vstd::prelude::*;

use crate::syntax::{
    Callee, Expr, ImportSpecifier, JsxElement, JsxElementChild, JsxElementName, Module, ModuleDecl,
    ModuleItem, Stmt,
};
use crate::types::{reference_views, ElementReference, ReferenceView};

verus! {

/// The reference to `name` in `file`, occurring as `context`.
pub open spec fn occurrence(name: Seq<char>, context: Seq<char>, file: Seq<char>) -> ReferenceView {
    ReferenceView { name, file, line: 1, context }
}

/// The references in an expression, in source order.
pub open spec fn expr_references(file: Seq<char>, e: Expr) -> Seq<ReferenceView>
    decreases e,
{
    match e {
        Expr::Ident(n) => seq![occurrence(n@, "usage"@, file)],
        Expr::Call { callee, args } => callee_references(file, callee) + exprs_references(
            file,
            args@,
        ),
        Expr::JsxElement(j) => jsx_references(file, j),
        _ => Seq::empty(),
    }
}

/// The references in what a call calls.
pub open spec fn callee_references(file: Seq<char>, c: Callee) -> Seq<ReferenceView>
    decreases c,
{
    match c {
        Callee::Expr(b) => expr_references(file, *b),
        Callee::Other => Seq::empty(),
    }
}

/// The references in a list of expressions, in order.
pub open spec fn exprs_references(file: Seq<char>, es: Seq<Expr>) -> Seq<ReferenceView>
    decreases es,
{
    if es.len() == 0 {
        Seq::empty()
    } else {
        exprs_references(file, es.drop_last()) + expr_references(file, es[es.len() - 1])
    }
}

/// The references in a JSX element: its tag name, then its descendants.
pub open spec fn jsx_references(file: Seq<char>, j: JsxElement) -> Seq<ReferenceView>
    decreases j,
{
    let own = match j.name {
        JsxElementName::Ident(n) => seq![occurrence(n@, "jsx"@, file)],
        JsxElementName::Other => Seq::empty(),
    };
    own + children_references(file, j.children@)
}

/// The references in the children of a JSX element, in order.
pub open spec fn children_references(file: Seq<char>, cs: Seq<JsxElementChild>) -> Seq<
    ReferenceView,
>
    decreases cs,
{
    if cs.len() == 0 {
        Seq::empty()
    } else {
        children_references(file, cs.drop_last()) + match cs[cs.len() - 1] {
            JsxElementChild::JsxElement(j) => jsx_references(file, j),
            JsxElementChild::Other => Seq::empty(),
        }
    }
}

/// The name that an import specifier brings in under its exported name.
pub open spec fn imported_name(s: ImportSpecifier) -> Seq<char> {
    match s {
        ImportSpecifier::Named { local, imported } => match imported {
            Some(i) => i@,
            None => local@,
        },
        ImportSpecifier::Default { local } => local@,
        ImportSpecifier::Namespace { local } => local@,
    }
}

/// The references of an import declaration, in order.
pub open spec fn import_references(file: Seq<char>, specs: Seq<ImportSpecifier>) -> Seq<
    ReferenceView,
> {
    specs.map_values(|s: ImportSpecifier| occurrence(imported_name(s), "import"@, file))
}

/// The references that a top-level item contributes.
pub open spec fn item_references(file: Seq<char>, item: ModuleItem) -> Seq<ReferenceView> {
    match item {
        ModuleItem::ModuleDecl(ModuleDecl::Import(specs)) => import_references(file, specs@),
        ModuleItem::Stmt(Stmt::Expr(e)) => expr_references(file, e),
        _ => Seq::empty(),
    }
}

/// The references in the top-level items of `file`, in source order.
pub open spec fn module_references(file: Seq<char>, items: Seq<ModuleItem>) -> Seq<ReferenceView>
    decreases items.len(),
{
    if items.len() == 0 {
        Seq::empty()
    } else {
        module_references(file, items.drop_last()) + item_references(file, items.last())
    }
}

/// Collects the references of one file.
struct ReferenceVisitor {
    file: String,
    references: Vec<ElementReference>,
}

impl ReferenceVisitor {
    /// Records a reference to `name` occurring as `context`.
    fn push(&mut self, name: &String, context: &str)
        ensures
            final(self).file == old(self).file,
            reference_views(final(self).references@) == reference_views(
                old(self).references@,
            ).push(occurrence(name@, context@, old(self).file@)),
    {
        let r = ElementReference {
            name: name.clone(),
            file: self.file.clone(),
            line: 1,
            context: String::from_str(context),
        };
        self.references.push(r);
        assert(reference_views(self.references@) =~= reference_views(old(self).references@).push(
            occurrence(name@, context@, old(self).file@),
        ));
    }

    fn visit_module(&mut self, module: &Module)
        ensures
            final(self).file == old(self).file,
            reference_views(final(self).references@) == reference_views(old(self).references@)
                + module_references(old(self).file@, module.body@),
    {
        let ghost before = reference_views(self.references@);
        let mut i: usize = 0;
        assert(before + module_references(old(self).file@, module.body@.subrange(0, 0)) =~= before);
        while i < module.body.len()
            invariant
                i <= module.body.len(),
                self.file == old(self).file,
                reference_views(self.references@) == before + module_references(
                    old(self).file@,
                    module.body@.subrange(0, i as int),
                ),
            decreases module.body.len() - i,
        {
            assert(module.body@.subrange(0, i + 1).drop_last() =~= module.body@.subrange(
                0,
                i as int,
            ));
            self.visit_module_item(&module.body[i]);
            i = i + 1;
            assert(reference_views(self.references@) =~= before + module_references(
                old(self).file@,
                module.body@.subrange(0, i as int),
            ));
        }
        assert(module.body@.subrange(0, i as int) =~= module.body@);
    }

    fn visit_module_item(&mut self, item: &ModuleItem)
        ensures
            final(self).file == old(self).file,
            reference_views(final(self).references@) == reference_views(old(self).references@)
                + item_references(old(self).file@, *item),
    {
        match item {
            ModuleItem::ModuleDecl(ModuleDecl::Import(specs)) => self.visit_import(specs),
            ModuleItem::Stmt(Stmt::Expr(e)) => self.visit_expr(e),
            _ => {
                assert(reference_views(self.references@) =~= reference_views(self.references@)
                    + Seq::empty());
            },
        }
    }

    /// Records the names that an import declaration brings in.
    fn visit_import(&mut self, specs: &Vec<ImportSpecifier>)
        ensures
            final(self).file == old(self).file,
            reference_views(final(self).references@) == reference_views(old(self).references@)
                + import_references(old(self).file@, specs@),
    {
        let ghost before = reference_views(self.references@);
        let mut i: usize = 0;
        while i < specs.len()
            invariant
                i <= specs.len(),
                self.file == old(self).file,
                reference_views(self.references@) == before + import_references(
                    old(self).file@,
                    specs@.subrange(0, i as int),
                ),
            decreases specs.len() - i,
        {
            let name = match &specs[i] {
                ImportSpecifier::Named { local, imported } => match imported {
                    Some(n) => n,
                    None => local,
                },
                ImportSpecifier::Default { local } => local,
                ImportSpecifier::Namespace { local } => local,
            };
            self.push(name, "import");
            i = i + 1;
            assert(reference_views(self.references@) =~= before + import_references(
                old(self).file@,
                specs@.subrange(0, i as int),
            ));
        }
        assert(specs@.subrange(0, i as int) =~= specs@);
    }

    fn visit_expr(&mut self, e: &Expr)
        ensures
            final(self).file == old(self).file,
            reference_views(final(self).references@) == reference_views(old(self).references@)
                + expr_references(old(self).file@, *e),
        decreases *e,
    {
        let ghost before = reference_views(self.references@);
        match e {
            Expr::Ident(n) => {
                self.push(n, "usage");
            },
            Expr::Call { callee, args } => {
                if let Callee::Expr(c) = callee {
                    self.visit_expr(c);
                }
                let ghost mid = reference_views(self.references@);
                assert(mid == before + callee_references(old(self).file@, *callee));
                let mut i: usize = 0;
                assert(exprs_references(old(self).file@, args@.subrange(0, 0)) =~= Seq::empty());
                while i < args.len()
                    invariant
                        i <= args.len(),
                        *e is Call,
                        (*e)->args == *args,
                        self.file == old(self).file,
                        reference_views(self.references@) == mid + exprs_references(
                            old(self).file@,
                            args@.subrange(0, i as int),
                        ),
                    decreases args.len() - i,
                {
                    assert(args@.subrange(0, i + 1).drop_last() =~= args@.subrange(0, i as int));
                    assert(decreases_to!(*e => (*e)->args));
                    self.visit_expr(&args[i]);
                    i = i + 1;
                    assert(reference_views(self.references@) =~= mid + exprs_references(
                        old(self).file@,
                        args@.subrange(0, i as int),
                    ));
                }
                assert(args@.subrange(0, i as int) =~= args@);
            },
            Expr::JsxElement(j) => {
                self.visit_jsx_element(j);
            },
            _ => {},
        }
        assert(reference_views(self.references@) =~= before + expr_references(
            old(self).file@,
            *e,
        ));
    }

    fn visit_jsx_element(&mut self, j: &JsxElement)
        ensures
            final(self).file == old(self).file,
            reference_views(final(self).references@) == reference_views(old(self).references@)
                + jsx_references(old(self).file@, *j),
        decreases *j,
    {
        let ghost before = reference_views(self.references@);
        if let JsxElementName::Ident(n) = &j.name {
            self.push(n, "jsx");
        }
        let ghost mid = reference_views(self.references@);
        let mut i: usize = 0;
        assert(children_references(old(self).file@, j.children@.subrange(0, 0)) =~= Seq::empty());
        while i < j.children.len()
            invariant
                i <= j.children.len(),
                self.file == old(self).file,
                reference_views(self.references@) == mid + children_references(
                    old(self).file@,
                    j.children@.subrange(0, i as int),
                ),
            decreases j.children.len() - i,
        {
            assert(j.children@.subrange(0, i + 1).drop_last() =~= j.children@.subrange(
                0,
                i as int,
            ));
            if let JsxElementChild::JsxElement(child) = &j.children[i] {
                assert(decreases_to!(*j => *child));
                self.visit_jsx_element(child);
            }
            i = i + 1;
            assert(reference_views(self.references@) =~= mid + children_references(
                old(self).file@,
                j.children@.subrange(0, i as int),
            ));
        }
        assert(j.children@.subrange(0, i as int) =~= j.children@);
        assert(reference_views(self.references@) =~= before + jsx_references(old(self).file@, *j));
    }
}

/// Returns the references that the outline `module` of `file` holds, in source
/// order.
pub fn references_of_module(file: &str, module: &Module) -> (r: Vec<ElementReference>)
    ensures
        reference_views(r@) == module_references(file@, module.body@),
{
    let mut visitor = ReferenceVisitor { file: String::from_str(file), references: Vec::new() };
    assert(reference_views(visitor.references@) =~= Seq::empty());
    visitor.visit_module(module);
    assert(reference_views(visitor.references@) =~= module_references(file@, module.body@));
    visitor.references
}

} // verus!
