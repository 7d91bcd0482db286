pub mod decorators;
pub mod graph;

use vstd::prelude::*;

use crate::ast::Program;
use crate::di::graph::DiGraph;

verus! {

/// What one analysis pass yields: the injection metadata the decorators
/// declare.
pub struct AnalysisResult {
    pub graph: DiGraph,
}

pub struct Analyzer;

impl Analyzer {
    /// Extracts the injection metadata of one parsed file.
    pub fn analyze(program: &Program) -> (r: AnalysisResult)
        ensures
            r.graph.wf(),
            decorators::mods_match(
                r.graph.modules_view(),
                decorators::modules_fold(program.items@),
            ),
            decorators::injs_match(
                r.graph.injectables_view(),
                decorators::injectables_fold(program.items@),
            ),
    {
        AnalysisResult { graph: decorators::scan_program(program) }
    }
}

} // verus!
