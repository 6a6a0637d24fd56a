//! The detection engine: file selection, extraction from every file, and
//! classification of the definitions found.

use vstd::prelude::*;

use crate::definitions::{definitions_of_module, module_definitions};
use crate::files::{select_files, selected, should_exclude, excluded_by};
use crate::patterns::{
    definitions_in_texts, element_map, references_in_texts, texts_definitions, texts_references,
    ElementMap, TextFile, definition_patterns_compile, usage_patterns_compile,
};
use crate::references::{module_references, references_of_module};
use crate::resolver::{analyze_usage, classified};
use crate::laws::law_kind_totals_add_up;
use crate::stats::{generate_statistics, rows_total, stats_table};
use crate::syntax::Module;
use crate::types::{
    definition_views, info_views, reference_views, string_views, Config, DefinitionView,
    DetectionResult, DetectionTypes, DetectorError, ElementDefinition, ElementReference,
    ReferenceView,
};

verus! {

/// A source file read and parsed: its path, its content and the outline of its
/// syntax tree.
pub struct SourceFile {
    pub path: String,
    pub content: String,
    pub module: Module,
}

/// The definitions that `files` declare, file by file.
pub open spec fn sources_definitions(types: DetectionTypes, files: Seq<SourceFile>) -> Seq<
    DefinitionView,
>
    decreases files.len(),
{
    if files.len() == 0 {
        Seq::empty()
    } else {
        let f = files.last();
        sources_definitions(types, files.drop_last()) + module_definitions(
            types,
            f.path@,
            f.content@,
            f.module.body@,
        )
    }
}

/// The references that `files` hold, file by file.
pub open spec fn sources_references(files: Seq<SourceFile>) -> Seq<ReferenceView>
    decreases files.len(),
{
    if files.len() == 0 {
        Seq::empty()
    } else {
        let f = files.last();
        sources_references(files.drop_last()) + module_references(f.path@, f.module.body@)
    }
}

/// The number of definitions in `defs` that are not suppressed.
pub open spec fn unsuppressed_count(defs: Seq<DefinitionView>) -> nat
    decreases defs.len(),
{
    if defs.len() == 0 {
        0
    } else {
        unsuppressed_count(defs.drop_last()) + if defs.last().should_ignore { 0nat } else { 1nat }
    }
}

/// Every definition that is not suppressed is reported exactly once, as used or
/// as unused.
pub proof fn lemma_classified_lengths(defs: Seq<DefinitionView>, refs: Seq<ReferenceView>)
    ensures
        classified(defs, refs, false).len() + classified(defs, refs, true).len()
            == unsuppressed_count(defs),
        unsuppressed_count(defs) <= defs.len(),
    decreases defs.len(),
{
    if defs.len() > 0 {
        lemma_classified_lengths(defs.drop_last(), refs);
    }
}

/// Finds the exported elements that no other file refers to.
pub struct UnusedElementDetector {
    pub config: Config,
}

impl UnusedElementDetector {
    /// Creates a detector for `config`.
    pub fn new(config: Config) -> (r: Result<Self, DetectorError>)
        ensures
            r matches Ok(d) && d.config == config,
    {
        Ok(UnusedElementDetector { config })
    }

    /// Whether an exclusion pattern of the configuration matches `path`.
    pub fn should_exclude(&self, path: &str) -> (r: bool)
        ensures
            r == excluded_by(path@, string_views(self.config.exclude_patterns@)),
    {
        should_exclude(path, &self.config.exclude_patterns)
    }

    /// Returns the source files of `paths` that are scanned for definitions:
    /// those that no exclusion pattern matches.
    pub fn definition_files(&self, paths: &Vec<String>) -> (r: Vec<String>)
        ensures
            string_views(r@) == selected(
                string_views(paths@),
                string_views(self.config.exclude_patterns@),
                true,
            ),
    {
        select_files(paths, &self.config.exclude_patterns, true)
    }

    /// Returns the source files of `paths` that are scanned for references: all
    /// of them, whatever the exclusion patterns.
    pub fn reference_files(&self, paths: &Vec<String>) -> (r: Vec<String>)
        ensures
            string_views(r@) == selected(
                string_views(paths@),
                string_views(self.config.exclude_patterns@),
                false,
            ),
    {
        select_files(paths, &self.config.exclude_patterns, false)
    }

    /// Returns the definitions that `sources` declare, file by file.
    pub fn extract_definitions(&self, sources: &Vec<SourceFile>) -> (r: Vec<ElementDefinition>)
        ensures
            definition_views(r@) == sources_definitions(self.config.detection_types, sources@),
    {
        let types = self.config.detection_types;
        let mut all: Vec<ElementDefinition> = Vec::new();
        let mut i: usize = 0;
        assert(definition_views(all@) =~= sources_definitions(types, sources@.subrange(0, 0)));
        while i < sources.len()
            invariant
                i <= sources.len(),
                types == self.config.detection_types,
                definition_views(all@) == sources_definitions(types, sources@.subrange(0, i as int)),
            decreases sources.len() - i,
        {
            let f = &sources[i];
            assert(sources@.subrange(0, i + 1).drop_last() =~= sources@.subrange(0, i as int));
            let mut found = definitions_of_module(f.path.as_str(), f.content.as_str(), types, &f.module);
            all.append(&mut found);
            i = i + 1;
            assert(definition_views(all@) =~= sources_definitions(
                types,
                sources@.subrange(0, i as int),
            ));
        }
        assert(sources@.subrange(0, i as int) =~= sources@);
        all
    }

    /// Returns the references that `sources` hold, file by file.
    pub fn extract_references(&self, sources: &Vec<SourceFile>) -> (r: Vec<ElementReference>)
        ensures
            reference_views(r@) == sources_references(sources@),
    {
        let mut all: Vec<ElementReference> = Vec::new();
        let mut i: usize = 0;
        assert(reference_views(all@) =~= sources_references(sources@.subrange(0, 0)));
        while i < sources.len()
            invariant
                i <= sources.len(),
                reference_views(all@) == sources_references(sources@.subrange(0, i as int)),
            decreases sources.len() - i,
        {
            let f = &sources[i];
            assert(sources@.subrange(0, i + 1).drop_last() =~= sources@.subrange(0, i as int));
            let mut found = references_of_module(f.path.as_str(), &f.module);
            all.append(&mut found);
            i = i + 1;
            assert(reference_views(all@) =~= sources_references(sources@.subrange(0, i as int)));
        }
        assert(sources@.subrange(0, i as int) =~= sources@);
        all
    }

    /// Classifies the definitions of `definition_sources` against the
    /// references in `reference_sources`.
    pub fn detect(&self, definition_sources: &Vec<SourceFile>, reference_sources: &Vec<SourceFile>) -> (r:
        DetectionResult)
        ensures
            info_views(r.unused@) == classified(
                sources_definitions(self.config.detection_types, definition_sources@),
                sources_references(reference_sources@),
                false,
            ),
            info_views(r.used@) == classified(
                sources_definitions(self.config.detection_types, definition_sources@),
                sources_references(reference_sources@),
                true,
            ),
            r.total == r.unused.len() + r.used.len(),
            r.total == unsuppressed_count(
                sources_definitions(self.config.detection_types, definition_sources@),
            ),
            r.by_type@ == stats_table(info_views(r.unused@), info_views(r.used@)),
            rows_total(r.by_type@) == r.total,
    {
        let definitions = self.extract_definitions(definition_sources);
        let references = self.extract_references(reference_sources);
        let (unused, used) = analyze_usage(&definitions, &references);
        proof {
            lemma_classified_lengths(definition_views(definitions@), reference_views(references@));
            assert(definition_views(definitions@).len() == definitions.len());
            assert(info_views(unused@).len() == unused.len());
            assert(info_views(used@).len() == used.len());
            law_kind_totals_add_up(info_views(unused@), info_views(used@));
        }
        let by_type = generate_statistics(&unused, &used);
        let total = unused.len() + used.len();
        DetectionResult { unused, used, total, by_type }
    }

    /// Classifies the definitions that the pattern-matching strategy finds in
    /// `definition_texts` against the uses it finds in `reference_texts`.
    pub fn detect_by_patterns(
        &self,
        definition_texts: &Vec<TextFile>,
        reference_texts: &Vec<TextFile>,
    ) -> (r: Result<DetectionResult, DetectorError>)
        ensures
            r is Ok <==> (definition_texts.len() == 0 || definition_patterns_compile(
                self.config.detection_types,
            )) && (reference_texts.len() == 0 || usage_patterns_compile(
                element_map(texts_definitions(self.config.detection_types, definition_texts@)),
            )),
            r matches Ok(res) ==> {
                let defs = texts_definitions(self.config.detection_types, definition_texts@);
                let refs = texts_references(element_map(defs), reference_texts@);
                &&& info_views(res.unused@) == classified(defs, refs, false)
                &&& info_views(res.used@) == classified(defs, refs, true)
                &&& res.total == res.unused.len() + res.used.len()
                &&& res.total == unsuppressed_count(defs)
                &&& res.by_type@ == stats_table(info_views(res.unused@), info_views(res.used@))
                &&& rows_total(res.by_type@) == res.total
            },
            r matches Err(e) ==> e is Regex,
    {
        let definitions = definitions_in_texts(definition_texts, self.config.detection_types)?;
        let map = ElementMap::from_definitions(&definitions);
        let references = references_in_texts(&map, reference_texts)?;
        let (unused, used) = analyze_usage(&definitions, &references);
        proof {
            lemma_classified_lengths(definition_views(definitions@), reference_views(references@));
            assert(definition_views(definitions@).len() == definitions.len());
            assert(info_views(unused@).len() == unused.len());
            assert(info_views(used@).len() == used.len());
            law_kind_totals_add_up(info_views(unused@), info_views(used@));
        }
        let by_type = generate_statistics(&unused, &used);
        let total = unused.len() + used.len();
        Ok(DetectionResult { unused, used, total, by_type })
    }
}

} // verus!
