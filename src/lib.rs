//! Dead-export detection for TypeScript and JSX source trees.
//!
//! The library holds the detection engine: which files are scanned, which
//! exported declarations are candidate definitions, which identifiers count as
//! references, and how each definition is classified as used or unused.
//! Reading files, walking directories and parsing source text happen outside
//! it; they hand the engine plain values.

pub mod config;
pub mod definitions;
pub mod detector;
pub mod references;
pub mod resolver;
pub mod files;
pub mod laws;
pub mod patterns;
pub mod stats;
pub mod syntax;
pub mod text;
pub mod types;

pub use config::{
    check_config_format, merge_configs, monorepo_search_dirs, resolve_config_path,
    with_default_search_dirs,
};
pub use definitions::definitions_of_module;
pub use detector::{SourceFile, UnusedElementDetector};
pub use patterns::{definitions_by_patterns, references_by_patterns, ElementMap, RegexMatch, TextFile};
pub use files::{is_source_file, select_files, should_exclude};
pub use references::references_of_module;
pub use resolver::analyze_usage;
pub use stats::{generate_statistics, usage_rate};
pub use syntax::{
    Callee, Decl, DefaultDecl, Expr, ImportSpecifier, JsxElement, JsxElementChild,
    JsxElementName, MemberProp, Module, ModuleDecl, ModuleItem, Pat, Stmt, VarDeclarator,
};
pub use types::{
    default_exclude_patterns, CiConfig, Config, DetectionResult, DetectionStats, DetectionTypes,
    DetectorError, ElementDefinition, ElementInfo, ElementReference, ElementType, ElementUsage,
    Usage,
};
