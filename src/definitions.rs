//! Extraction of candidate definitions from the outline of a module.
//!
//! Only top-level exported declarations are considered. Their kind follows
//! from the declaration form and the naming convention of the declared name;
//! the first rule that matches decides.

use vstd::prelude::*;

use crate::syntax::{Callee, Decl, DefaultDecl, Expr, MemberProp, Module, ModuleDecl, ModuleItem, Pat, VarDeclarator};
use crate::text::{
    camel_case, chars_of, constant_case, has_ignore_comment, ignore_marked, is_camel_case,
    is_constant_case, is_pascal_case, pascal_case,
};
use crate::types::{definition_views, DefinitionView, DetectionTypes, ElementDefinition, ElementType};

verus! {

/// The names of the wrappers that turn a function into a UI component.
pub open spec fn component_wrapper_name(n: Seq<char>) -> bool {
    n == "memo"@ || n == "forwardRef"@
}

/// A call of `memo`, `forwardRef`, `React.memo` or `React.forwardRef`.
pub open spec fn component_wrapper_call(e: Expr) -> bool {
    match e {
        Expr::Call { callee: Callee::Expr(c), .. } => match *c {
            Expr::Ident(n) => component_wrapper_name(n@),
            Expr::Member { obj, prop } => match (*obj, prop) {
                (Expr::Ident(o), MemberProp::Ident(p)) => o@ == "React"@ && component_wrapper_name(
                    p@,
                ),
                _ => false,
            },
            _ => false,
        },
        _ => false,
    }
}

/// The kind of an exported binding `name = init`, if it has one.
pub open spec fn binding_kind(types: DetectionTypes, name: Seq<char>, init: Expr) -> Option<
    ElementType,
> {
    if types.components && pascal_case(name) && (init is Arrow || component_wrapper_call(init)) {
        Some(ElementType::Component)
    } else if types.functions && init is Arrow && camel_case(name) {
        Some(ElementType::Function)
    } else if types.variables && constant_case(name) {
        Some(ElementType::Variable)
    } else {
        None
    }
}

/// The definition of `name`, of kind `kind`, declared at byte offset `pos` of
/// `text`, the content of `file`.
pub open spec fn found(
    name: Seq<char>,
    kind: ElementType,
    file: Seq<char>,
    text: Seq<char>,
    pos: usize,
) -> DefinitionView {
    DefinitionView {
        name,
        element_type: kind,
        file,
        should_ignore: ignore_marked(text, pos as int),
    }
}

/// The definition that one exported binding contributes.
pub open spec fn binding_definitions(
    types: DetectionTypes,
    file: Seq<char>,
    text: Seq<char>,
    d: VarDeclarator,
) -> Seq<DefinitionView> {
    match (d.name, d.init) {
        (Pat::Ident(n), Some(init)) => match binding_kind(types, n@, init) {
            Some(k) => seq![found(n@, k, file, text, d.pos)],
            None => Seq::empty(),
        },
        _ => Seq::empty(),
    }
}

/// The definitions that the bindings of an exported variable declaration
/// contribute, in order.
pub open spec fn bindings_definitions(
    types: DetectionTypes,
    file: Seq<char>,
    text: Seq<char>,
    ds: Seq<VarDeclarator>,
) -> Seq<DefinitionView>
    decreases ds.len(),
{
    if ds.len() == 0 {
        Seq::empty()
    } else {
        bindings_definitions(types, file, text, ds.drop_last()) + binding_definitions(
            types,
            file,
            text,
            ds.last(),
        )
    }
}

/// The definitions that `export <decl>` contributes.
pub open spec fn export_decl_definitions(
    types: DetectionTypes,
    file: Seq<char>,
    text: Seq<char>,
    decl: Decl,
) -> Seq<DefinitionView> {
    match decl {
        Decl::Fn { ident, pos } => if types.functions && camel_case(ident@) {
            seq![found(ident@, ElementType::Function, file, text, pos)]
        } else {
            Seq::empty()
        },
        Decl::Var(ds) => bindings_definitions(types, file, text, ds@),
        Decl::TsTypeAlias { id, pos } => if types.types && pascal_case(id@) {
            seq![found(id@, ElementType::Type, file, text, pos)]
        } else {
            Seq::empty()
        },
        Decl::TsInterface { id, pos } => if types.interfaces && pascal_case(id@) {
            seq![found(id@, ElementType::Interface, file, text, pos)]
        } else {
            Seq::empty()
        },
        Decl::TsEnum { id, pos } => if types.enums && pascal_case(id@) {
            seq![found(id@, ElementType::Enum, file, text, pos)]
        } else {
            Seq::empty()
        },
        Decl::Other => Seq::empty(),
    }
}

/// The definitions that `export default <decl>` at byte offset `pos`
/// contributes.
pub open spec fn export_default_definitions(
    types: DetectionTypes,
    file: Seq<char>,
    text: Seq<char>,
    decl: DefaultDecl,
    pos: usize,
) -> Seq<DefinitionView> {
    match decl {
        DefaultDecl::Fn { ident: Some(n) } => if types.components && pascal_case(n@) {
            seq![found(n@, ElementType::Component, file, text, pos)]
        } else {
            Seq::empty()
        },
        _ => Seq::empty(),
    }
}

/// The definitions that a top-level item contributes.
pub open spec fn item_definitions(
    types: DetectionTypes,
    file: Seq<char>,
    text: Seq<char>,
    item: ModuleItem,
) -> Seq<DefinitionView> {
    match item {
        ModuleItem::ModuleDecl(ModuleDecl::ExportDecl(d)) => export_decl_definitions(
            types,
            file,
            text,
            d,
        ),
        ModuleItem::ModuleDecl(ModuleDecl::ExportDefaultDecl { decl, pos }) => export_default_definitions(types, file, text, decl, pos),
        _ => Seq::empty(),
    }
}

/// The definitions that the top-level items `items` of `file`, whose content
/// is `text`, contribute, in source order.
pub open spec fn module_definitions(
    types: DetectionTypes,
    file: Seq<char>,
    text: Seq<char>,
    items: Seq<ModuleItem>,
) -> Seq<DefinitionView>
    decreases items.len(),
{
    if items.len() == 0 {
        Seq::empty()
    } else {
        module_definitions(types, file, text, items.drop_last()) + item_definitions(
            types,
            file,
            text,
            items.last(),
        )
    }
}

/// Whether `a` holds the text `b`.
pub fn same_text(a: &String, b: &str) -> (r: bool)
    ensures
        r == (a@ == b@),
{
    let t = String::from_str(b);
    *a == t
}

/// Whether `n` names a component wrapper.
fn is_component_wrapper_name(n: &String) -> (r: bool)
    ensures
        r == component_wrapper_name(n@),
{
    same_text(n, "memo") || same_text(n, "forwardRef")
}

/// Collects the definitions of one file.
struct DefinitionVisitor {
    file: String,
    detection_types: DetectionTypes,
    text: Vec<char>,
    definitions: Vec<ElementDefinition>,
}

impl DefinitionVisitor {
    /// Whether `other` visits the same file as `self`.
    spec fn same_file(&self, other: &DefinitionVisitor) -> bool {
        &&& self.file == other.file
        &&& self.detection_types == other.detection_types
        &&& self.text == other.text
    }

    /// Records the definition of `name`, of kind `kind`, at byte offset `pos`.
    fn push(&mut self, name: &String, kind: ElementType, pos: usize)
        ensures
            final(self).same_file(old(self)),
            definition_views(final(self).definitions@) == definition_views(
                old(self).definitions@,
            ).push(found(name@, kind, old(self).file@, old(self).text@, pos)),
    {
        let should_ignore = has_ignore_comment(&self.text, pos);
        let d = ElementDefinition {
            name: name.clone(),
            element_type: kind,
            file: self.file.clone(),
            should_ignore,
        };
        self.definitions.push(d);
        assert(definition_views(self.definitions@) =~= definition_views(old(self).definitions@).push(
            found(name@, kind, old(self).file@, old(self).text@, pos),
        ));
    }

    fn visit_module(&mut self, module: &Module)
        ensures
            final(self).same_file(old(self)),
            definition_views(final(self).definitions@) == definition_views(old(self).definitions@)
                + module_definitions(
                old(self).detection_types,
                old(self).file@,
                old(self).text@,
                module.body@,
            ),
    {
        let mut i: usize = 0;
        while i < module.body.len()
            invariant
                i <= module.body.len(),
                self.same_file(old(self)),
                definition_views(self.definitions@) == definition_views(old(self).definitions@)
                    + module_definitions(
                    old(self).detection_types,
                    old(self).file@,
                    old(self).text@,
                    module.body@.subrange(0, i as int),
                ),
            decreases module.body.len() - i,
        {
            assert(module.body@.subrange(0, i + 1).drop_last() =~= module.body@.subrange(
                0,
                i as int,
            ));
            self.visit_module_item(&module.body[i]);
            i = i + 1;
        }
        assert(module.body@.subrange(0, i as int) =~= module.body@);
    }

    fn visit_module_item(&mut self, item: &ModuleItem)
        ensures
            final(self).same_file(old(self)),
            definition_views(final(self).definitions@) == definition_views(old(self).definitions@)
                + item_definitions(old(self).detection_types, old(self).file@, old(self).text@, *item),
    {
        match item {
            ModuleItem::ModuleDecl(ModuleDecl::ExportDecl(decl)) => self.visit_export_decl(decl),
            ModuleItem::ModuleDecl(ModuleDecl::ExportDefaultDecl { decl, pos }) => {
                self.visit_export_default_decl(decl, *pos)
            },
            _ => {
                assert(definition_views(self.definitions@) =~= definition_views(
                    self.definitions@,
                ) + Seq::empty());
            },
        }
    }

    fn visit_export_decl(&mut self, decl: &Decl)
        ensures
            final(self).same_file(old(self)),
            definition_views(final(self).definitions@) == definition_views(old(self).definitions@)
                + export_decl_definitions(
                old(self).detection_types,
                old(self).file@,
                old(self).text@,
                *decl,
            ),
    {
        let ghost before = definition_views(self.definitions@);
        match decl {
            Decl::Fn { ident, pos } => {
                if self.detection_types.functions && is_camel_case(ident.as_str()) {
                    self.push(ident, ElementType::Function, *pos);
                }
            },
            Decl::Var(ds) => {
                let mut i: usize = 0;
                while i < ds.len()
                    invariant
                        i <= ds.len(),
                        self.same_file(old(self)),
                        definition_views(self.definitions@) == before + bindings_definitions(
                            old(self).detection_types,
                            old(self).file@,
                            old(self).text@,
                            ds@.subrange(0, i as int),
                        ),
                    decreases ds.len() - i,
                {
                    assert(ds@.subrange(0, i + 1).drop_last() =~= ds@.subrange(0, i as int));
                    self.visit_binding(&ds[i]);
                    assert(definition_views(self.definitions@) =~= before + bindings_definitions(
                        old(self).detection_types,
                        old(self).file@,
                        old(self).text@,
                        ds@.subrange(0, i + 1),
                    ));
                    i = i + 1;
                }
                assert(ds@.subrange(0, i as int) =~= ds@);
            },
            Decl::TsTypeAlias { id, pos } => {
                if self.detection_types.types && is_pascal_case(id.as_str()) {
                    self.push(id, ElementType::Type, *pos);
                }
            },
            Decl::TsInterface { id, pos } => {
                if self.detection_types.interfaces && is_pascal_case(id.as_str()) {
                    self.push(id, ElementType::Interface, *pos);
                }
            },
            Decl::TsEnum { id, pos } => {
                if self.detection_types.enums && is_pascal_case(id.as_str()) {
                    self.push(id, ElementType::Enum, *pos);
                }
            },
            Decl::Other => {},
        }
        assert(definition_views(self.definitions@) =~= before + export_decl_definitions(
            old(self).detection_types,
            old(self).file@,
            old(self).text@,
            *decl,
        ));
    }

    /// Visits one binding of an exported variable declaration.
    fn visit_binding(&mut self, d: &VarDeclarator)
        ensures
            final(self).same_file(old(self)),
            definition_views(final(self).definitions@) == definition_views(old(self).definitions@)
                + binding_definitions(old(self).detection_types, old(self).file@, old(self).text@, *d),
    {
        let ghost before = definition_views(self.definitions@);
        if let Pat::Ident(name) = &d.name {
            if let Some(init) = &d.init {
                let types = self.detection_types;
                if types.components && is_pascal_case(name.as_str()) && (matches!(init, Expr::Arrow)
                    || is_react_component_call(init)) {
                    self.push(name, ElementType::Component, d.pos);
                } else if types.functions && matches!(init, Expr::Arrow) && is_camel_case(
                    name.as_str(),
                ) {
                    self.push(name, ElementType::Function, d.pos);
                } else if types.variables && is_constant_case(name.as_str()) {
                    self.push(name, ElementType::Variable, d.pos);
                }
            }
        }
        assert(definition_views(self.definitions@) =~= before + binding_definitions(
            old(self).detection_types,
            old(self).file@,
            old(self).text@,
            *d,
        ));
    }

    fn visit_export_default_decl(&mut self, decl: &DefaultDecl, pos: usize)
        ensures
            final(self).same_file(old(self)),
            definition_views(final(self).definitions@) == definition_views(old(self).definitions@)
                + export_default_definitions(
                old(self).detection_types,
                old(self).file@,
                old(self).text@,
                *decl,
                pos,
            ),
    {
        let ghost before = definition_views(self.definitions@);
        if let DefaultDecl::Fn { ident: Some(name) } = decl {
            if self.detection_types.components && is_pascal_case(name.as_str()) {
                self.push(name, ElementType::Component, pos);
            }
        }
        assert(definition_views(self.definitions@) =~= before + export_default_definitions(
            old(self).detection_types,
            old(self).file@,
            old(self).text@,
            *decl,
            pos,
        ));
    }
}

/// Whether `e` calls `memo`, `forwardRef`, `React.memo` or `React.forwardRef`.
pub fn is_react_component_call(e: &Expr) -> (r: bool)
    ensures
        r == component_wrapper_call(*e),
{
    match e {
        Expr::Call { callee: Callee::Expr(c), .. } => match &**c {
            Expr::Ident(n) => is_component_wrapper_name(n),
            Expr::Member { obj, prop } => match (&**obj, prop) {
                (Expr::Ident(o), MemberProp::Ident(p)) => same_text(o, "React")
                    && is_component_wrapper_name(p),
                _ => false,
            },
            _ => false,
        },
        _ => false,
    }
}

/// Returns the definitions that the outline `module` of `file`, whose content
/// is `content`, declares, in source order.
pub fn definitions_of_module(
    file: &str,
    content: &str,
    detection_types: DetectionTypes,
    module: &Module,
) -> (r: Vec<ElementDefinition>)
    ensures
        definition_views(r@) == module_definitions(detection_types, file@, content@, module.body@),
{
    let mut visitor = DefinitionVisitor {
        file: String::from_str(file),
        detection_types,
        text: chars_of(content),
        definitions: Vec::new(),
    };
    assert(definition_views(visitor.definitions@) =~= Seq::empty());
    visitor.visit_module(module);
    assert(definition_views(visitor.definitions@) =~= module_definitions(
        detection_types,
        file@,
        content@,
        module.body@,
    ));
    visitor.definitions
}

} // verus!
