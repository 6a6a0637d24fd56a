//! The data model shared by the engine and its callers.

use vstd::prelude::*;
use vstd::string::*;

verus! {

/// The closed set of program-element kinds that the engine reports on.
#[derive(Clone, Copy, Debug, PartialEq, Eq, Hash, Structural)]
pub enum ElementType {
    Component,
    Type,
    Interface,
    Function,
    Variable,
    Enum,
}

impl ElementType {
    /// The display name of the kind.
    pub open spec fn label(self) -> Seq<char> {
        match self {
            ElementType::Component => "Component"@,
            ElementType::Type => "Type"@,
            ElementType::Interface => "Interface"@,
            ElementType::Function => "Function"@,
            ElementType::Variable => "Variable"@,
            ElementType::Enum => "Enum"@,
        }
    }

    /// Returns the display name of the kind.
    pub fn to_string(&self) -> (r: String)
        ensures
            r@ == self.label(),
    {
        match self {
            ElementType::Component => String::from_str("Component"),
            ElementType::Type => String::from_str("Type"),
            ElementType::Interface => String::from_str("Interface"),
            ElementType::Function => String::from_str("Function"),
            ElementType::Variable => String::from_str("Variable"),
            ElementType::Enum => String::from_str("Enum"),
        }
    }
}

/// The exclusion patterns used when a configuration names none.
pub open spec fn default_exclude_pattern_list() -> Seq<Seq<char>> {
    seq![
        "node_modules"@, ".next"@, "dist"@, ".turbo"@, "build"@, "out"@, "__tests__"@,
        "*.test.ts"@, "*.test.tsx"@, "*.test.js"@, "*.test.jsx"@,
        "*.spec.ts"@, "*.spec.tsx"@, "*.spec.js"@, "*.spec.jsx"@,
        "*.stories.ts"@, "*.stories.tsx"@, "*.stories.js"@, "*.stories.jsx"@,
        "*.d.ts"@, ".git"@, ".vscode"@, ".idea"@, "coverage"@, ".nyc_output"@,
        "*.min.js"@, "*.min.css"@,
    ]
}

/// The views of a list of strings.
pub open spec fn string_views(v: Seq<String>) -> Seq<Seq<char>> {
    v.map_values(|s: String| s@)
}

/// Returns the built-in exclusion patterns: build output, test, spec and
/// story files, declaration files, and version-control and editor folders.
pub fn default_exclude_patterns() -> (r: Vec<String>)
    ensures
        string_views(r@) == default_exclude_pattern_list(),
{
    let mut r: Vec<String> = Vec::new();
    r.push(String::from_str("node_modules"));
    r.push(String::from_str(".next"));
    r.push(String::from_str("dist"));
    r.push(String::from_str(".turbo"));
    r.push(String::from_str("build"));
    r.push(String::from_str("out"));
    r.push(String::from_str("__tests__"));
    r.push(String::from_str("*.test.ts"));
    r.push(String::from_str("*.test.tsx"));
    r.push(String::from_str("*.test.js"));
    r.push(String::from_str("*.test.jsx"));
    r.push(String::from_str("*.spec.ts"));
    r.push(String::from_str("*.spec.tsx"));
    r.push(String::from_str("*.spec.js"));
    r.push(String::from_str("*.spec.jsx"));
    r.push(String::from_str("*.stories.ts"));
    r.push(String::from_str("*.stories.tsx"));
    r.push(String::from_str("*.stories.js"));
    r.push(String::from_str("*.stories.jsx"));
    r.push(String::from_str("*.d.ts"));
    r.push(String::from_str(".git"));
    r.push(String::from_str(".vscode"));
    r.push(String::from_str(".idea"));
    r.push(String::from_str("coverage"));
    r.push(String::from_str(".nyc_output"));
    r.push(String::from_str("*.min.js"));
    r.push(String::from_str("*.min.css"));
    assert(string_views(r@) =~= default_exclude_pattern_list());
    r
}


/// Which element kinds are scanned.
#[derive(Clone, Copy, Debug, PartialEq, Eq, Structural)]
pub struct DetectionTypes {
    pub components: bool,
    pub types: bool,
    pub interfaces: bool,
    pub functions: bool,
    pub variables: bool,
    pub enums: bool,
}

impl Default for DetectionTypes {
    /// Every kind is scanned.
    fn default() -> (r: DetectionTypes)
        ensures
            r == (DetectionTypes {
                components: true,
                types: true,
                interfaces: true,
                functions: true,
                variables: true,
                enums: true,
            }),
    {
        DetectionTypes {
            components: true,
            types: true,
            interfaces: true,
            functions: true,
            variables: true,
            enums: true,
        }
    }
}

/// The policy a continuous-integration run applies to the result.
#[derive(Clone, Debug)]
pub struct CiConfig {
    /// How many unused elements are tolerated.
    pub max_unused_elements: usize,
    /// Whether exceeding the tolerance fails the run.
    pub fail_on_exceed: bool,
    pub log_level: String,
}

/// A resolved configuration of the engine.
#[derive(Clone, Debug)]
pub struct Config {
    /// The roots that are scanned, in order.
    pub search_dirs: Vec<String>,
    /// Paths matching one of these contribute no definitions.
    pub exclude_patterns: Vec<String>,
    pub detection_types: DetectionTypes,
    pub ci: Option<CiConfig>,
}

impl Default for Config {
    /// Scans `src` with the built-in exclusions and every kind enabled; tolerates
    /// five unused elements and fails above that.
    fn default() -> (r: Config)
        ensures
            string_views(r.search_dirs@) == seq!["src"@],
            string_views(r.exclude_patterns@) == default_exclude_pattern_list(),
            r.detection_types == (DetectionTypes {
                components: true,
                types: true,
                interfaces: true,
                functions: true,
                variables: true,
                enums: true,
            }),
            r.ci is Some,
            r.ci->0.max_unused_elements == 5,
            r.ci->0.fail_on_exceed,
            r.ci->0.log_level@ == "warn"@,
    {
        let mut search_dirs: Vec<String> = Vec::new();
        search_dirs.push(String::from_str("src"));
        assert(string_views(search_dirs@) =~= seq!["src"@]);
        Config {
            search_dirs,
            exclude_patterns: default_exclude_patterns(),
            detection_types: DetectionTypes::default(),
            ci: Some(
                CiConfig {
                    max_unused_elements: 5,
                    fail_on_exceed: true,
                    log_level: String::from_str("warn"),
                },
            ),
        }
    }
}

/// A top-level exported declaration that is a candidate for reporting.
#[derive(Clone, Debug)]
pub struct ElementDefinition {
    pub name: String,
    pub element_type: ElementType,
    /// The file that declares it.
    pub file: String,
    /// Whether the suppression directive exempts it.
    pub should_ignore: bool,
}

/// An occurrence of an identifier that may refer to a definition.
#[derive(Clone, Debug)]
pub struct ElementReference {
    pub name: String,
    pub file: String,
    pub line: usize,
    /// How the identifier occurs: `import`, `usage` or `jsx`.
    pub context: String,
}

/// One occurrence of a definition's name in a file.
#[derive(Clone, Debug)]
pub struct Usage {
    pub line: usize,
    pub context: String,
}

/// The occurrences of a definition's name in one file.
#[derive(Clone, Debug)]
pub struct ElementUsage {
    pub file: String,
    pub usages: Vec<Usage>,
}

/// A classified definition, as reported.
#[derive(Clone, Debug)]
pub struct ElementInfo {
    pub name: String,
    pub element_type: ElementType,
    pub definition_files: Vec<String>,
    /// The evidence of use, grouped by file; present only for used elements.
    pub usages: Option<Vec<ElementUsage>>,
}

/// Counts of the classified definitions of one kind.
#[derive(Clone, Copy, Debug, PartialEq, Eq, Structural)]
pub struct DetectionStats {
    pub total: usize,
    pub used: usize,
    pub unused: usize,
}

/// The outcome of a detection run.
#[derive(Clone, Debug)]
pub struct DetectionResult {
    pub unused: Vec<ElementInfo>,
    pub used: Vec<ElementInfo>,
    /// How many definitions were classified.
    pub total: usize,
    /// The counts of each kind that has at least one classified definition.
    pub by_type: Vec<(ElementType, DetectionStats)>,
}

/// The kinds of failure that the engine and its callers report.
#[derive(Clone, Debug)]
pub enum DetectorError {
    Io(String),
    Regex(String),
    Json(String),
    Config { message: String },
    FileNotFound { path: String },
    ParseError(String),
}

/// The view of an [`ElementDefinition`].
pub struct DefinitionView {
    pub name: Seq<char>,
    pub element_type: ElementType,
    pub file: Seq<char>,
    pub should_ignore: bool,
}

impl View for ElementDefinition {
    type V = DefinitionView;

    open spec fn view(&self) -> DefinitionView {
        DefinitionView {
            name: self.name@,
            element_type: self.element_type,
            file: self.file@,
            should_ignore: self.should_ignore,
        }
    }
}

/// The view of an [`ElementReference`].
pub struct ReferenceView {
    pub name: Seq<char>,
    pub file: Seq<char>,
    pub line: usize,
    pub context: Seq<char>,
}

impl View for ElementReference {
    type V = ReferenceView;

    open spec fn view(&self) -> ReferenceView {
        ReferenceView {
            name: self.name@,
            file: self.file@,
            line: self.line,
            context: self.context@,
        }
    }
}

/// The view of a [`Usage`].
pub struct UsageView {
    pub line: usize,
    pub context: Seq<char>,
}

impl View for Usage {
    type V = UsageView;

    open spec fn view(&self) -> UsageView {
        UsageView { line: self.line, context: self.context@ }
    }
}

/// The view of an [`ElementUsage`].
pub struct ElementUsageView {
    pub file: Seq<char>,
    pub usages: Seq<UsageView>,
}

impl View for ElementUsage {
    type V = ElementUsageView;

    open spec fn view(&self) -> ElementUsageView {
        ElementUsageView { file: self.file@, usages: usage_views(self.usages@) }
    }
}

/// The view of an [`ElementInfo`].
pub struct ElementInfoView {
    pub name: Seq<char>,
    pub element_type: ElementType,
    pub definition_files: Seq<Seq<char>>,
    pub usages: Option<Seq<ElementUsageView>>,
}

impl View for ElementInfo {
    type V = ElementInfoView;

    open spec fn view(&self) -> ElementInfoView {
        ElementInfoView {
            name: self.name@,
            element_type: self.element_type,
            definition_files: string_views(self.definition_files@),
            usages: match self.usages {
                Some(u) => Some(usage_entry_views(u@)),
                None => None,
            },
        }
    }
}

/// The views of a list of definitions.
pub open spec fn definition_views(v: Seq<ElementDefinition>) -> Seq<DefinitionView> {
    v.map_values(|d: ElementDefinition| d@)
}

/// The views of a list of references.
pub open spec fn reference_views(v: Seq<ElementReference>) -> Seq<ReferenceView> {
    v.map_values(|r: ElementReference| r@)
}

/// The views of a list of occurrences.
pub open spec fn usage_views(v: Seq<Usage>) -> Seq<UsageView> {
    v.map_values(|u: Usage| u@)
}

/// The views of a list of per-file evidence entries.
pub open spec fn usage_entry_views(v: Seq<ElementUsage>) -> Seq<ElementUsageView> {
    v.map_values(|e: ElementUsage| e@)
}

/// The views of a list of reported elements.
pub open spec fn info_views(v: Seq<ElementInfo>) -> Seq<ElementInfoView> {
    v.map_values(|e: ElementInfo| e@)
}

} // verus!
