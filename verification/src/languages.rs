//! What parsers of all languages have in common.

pub mod flow;
pub mod go;
pub mod laws;
pub mod metrics;

use vstd::prelude::*;

use crate::scan::ContentKind;

verus! {

/// A file whose content has been looked at.
#[derive(Debug, Clone, PartialEq, Eq)]
pub struct AnalyzedFile {
    pub path: String,
    pub window: ContentWindow,
}

/// The first part of a file.
#[derive(Debug, Clone, PartialEq, Eq)]
pub struct ContentWindow {
    pub content_kind: ContentKind,
    /// Whether the file goes on behind it.
    pub truncated: bool,
    pub bytes: Vec<u8>,
}

/// A symbol, in whatever language.
#[derive(Debug, Clone, PartialEq, Eq)]
pub struct UniversalSymbol {
    pub name: String,
    pub kind: String,
}

/// A reference, in whatever language.
#[derive(Debug, Clone, PartialEq, Eq)]
pub struct UniversalReference {
    pub target: String,
    pub kind: String,
}

/// Something that is wrong with a source.
#[derive(Debug, Clone, PartialEq, Eq)]
pub struct ParserDiagnostic {
    pub code: String,
    pub message: String,
}

/// Something that a parser does not do.
#[derive(Debug, Clone, PartialEq, Eq)]
pub struct ParserLimitation {
    pub code: String,
    pub message: String,
}

/// Whether a parser takes a file.
#[derive(Debug, Clone, Copy, PartialEq, Eq, Structural)]
pub enum ParserRecognition {
    Recognized,
    NotRecognized,
}

/// What a function is.
#[derive(Debug, Clone, Copy, PartialEq, Eq, Structural)]
pub enum UniversalFunctionKind {
    Function,
    Method,
}

/// What a node of control flow does.
#[derive(Debug, Clone, Copy, PartialEq, Eq, Structural)]
pub enum UniversalControlFlowKind {
    Branch,
    Loop,
    Switch,
    Case,
    BooleanChain,
    Jump,
}

/// A node of control flow, and the nodes inside it.
#[derive(Debug)]
pub struct UniversalControlFlowNode {
    pub kind: UniversalControlFlowKind,
    pub children: Vec<UniversalControlFlowNode>,
}

/// A function and its control flow.
#[derive(Debug)]
pub struct UniversalFunction {
    pub name: String,
    pub kind: UniversalFunctionKind,
    pub control_flow: Vec<UniversalControlFlowNode>,
}

/// What metrics are computed from.
#[derive(Debug)]
pub struct UniversalCodeMetricsInput {
    pub functions: Vec<UniversalFunction>,
}

/// What a parser makes of a file.
#[derive(Debug)]
pub struct ParserOutput {
    pub language_id: String,
    pub symbols: Vec<UniversalSymbol>,
    pub references: Vec<UniversalReference>,
    pub metrics_input: UniversalCodeMetricsInput,
    pub diagnostics: Vec<ParserDiagnostic>,
    pub limitations: Vec<ParserLimitation>,
}

/// A parser of some language.
pub trait LanguageParser {
    fn language_id(&self) -> &'static str;

    fn recognize(&self, file: &AnalyzedFile) -> ParserRecognition;

    fn parse(&self, file: &AnalyzedFile) -> ParserOutput;
}

/// What [`AnalyzedFile`] stands for.
#[verifier::ext_equal]
pub struct AnalyzedFileView {
    pub path: Seq<char>,
    pub window: ContentWindowView,
}

impl DeepView for AnalyzedFile {
    type V = AnalyzedFileView;

    open spec fn deep_view(&self) -> AnalyzedFileView {
        AnalyzedFileView {
            path: self.path@,
            window: self.window.deep_view(),
        }
    }
}

/// What [`ContentWindow`] stands for.
#[verifier::ext_equal]
pub struct ContentWindowView {
    pub content_kind: ContentKind,
    pub truncated: bool,
    pub bytes: Seq<u8>,
}

impl DeepView for ContentWindow {
    type V = ContentWindowView;

    open spec fn deep_view(&self) -> ContentWindowView {
        ContentWindowView {
            content_kind: self.content_kind,
            truncated: self.truncated,
            bytes: self.bytes.deep_view(),
        }
    }
}

/// What [`UniversalSymbol`] stands for.
#[verifier::ext_equal]
pub struct UniversalSymbolView {
    pub name: Seq<char>,
    pub kind: Seq<char>,
}

impl DeepView for UniversalSymbol {
    type V = UniversalSymbolView;

    open spec fn deep_view(&self) -> UniversalSymbolView {
        UniversalSymbolView {
            name: self.name@,
            kind: self.kind@,
        }
    }
}

/// What [`UniversalReference`] stands for.
#[verifier::ext_equal]
pub struct UniversalReferenceView {
    pub target: Seq<char>,
    pub kind: Seq<char>,
}

impl DeepView for UniversalReference {
    type V = UniversalReferenceView;

    open spec fn deep_view(&self) -> UniversalReferenceView {
        UniversalReferenceView {
            target: self.target@,
            kind: self.kind@,
        }
    }
}

/// What [`ParserDiagnostic`] stands for.
#[verifier::ext_equal]
pub struct ParserDiagnosticView {
    pub code: Seq<char>,
    pub message: Seq<char>,
}

impl DeepView for ParserDiagnostic {
    type V = ParserDiagnosticView;

    open spec fn deep_view(&self) -> ParserDiagnosticView {
        ParserDiagnosticView {
            code: self.code@,
            message: self.message@,
        }
    }
}

/// What [`ParserLimitation`] stands for.
#[verifier::ext_equal]
pub struct ParserLimitationView {
    pub code: Seq<char>,
    pub message: Seq<char>,
}

impl DeepView for ParserLimitation {
    type V = ParserLimitationView;

    open spec fn deep_view(&self) -> ParserLimitationView {
        ParserLimitationView {
            code: self.code@,
            message: self.message@,
        }
    }
}

/// What a [`UniversalControlFlowNode`] stands for.
#[verifier::ext_equal]
pub struct FlowView {
    pub kind: UniversalControlFlowKind,
    pub children: Seq<FlowView>,
}

/// What a [`UniversalFunction`] stands for.
#[verifier::ext_equal]
pub struct FunctionView {
    pub name: Seq<char>,
    pub kind: UniversalFunctionKind,
    pub control_flow: Seq<FlowView>,
}

/// What a [`ParserOutput`] stands for.
#[verifier::ext_equal]
pub struct ParserOutputView {
    pub language_id: Seq<char>,
    pub symbols: Seq<UniversalSymbolView>,
    pub references: Seq<UniversalReferenceView>,
    pub functions: Seq<FunctionView>,
    pub diagnostics: Seq<ParserDiagnosticView>,
    pub limitations: Seq<ParserLimitationView>,
}

/// Whether a node of control flow is the one that is described.
pub open spec fn is_node(node: UniversalControlFlowNode, view: FlowView) -> bool
    decreases view,
{
    &&& node.kind == view.kind
    &&& node.children@.len() == view.children.len()
    &&& forall|i: int|
        0 <= i < view.children.len() ==> is_node(#[trigger] node.children@[i], view.children[i])
}

/// Whether nodes of control flow are those that are described.
pub open spec fn are_nodes(nodes: Seq<UniversalControlFlowNode>, views: Seq<FlowView>) -> bool {
    &&& nodes.len() == views.len()
    &&& forall|i: int| 0 <= i < views.len() ==> is_node(#[trigger] nodes[i], views[i])
}

/// Whether a function is the one that is described.
pub open spec fn is_function(function: UniversalFunction, view: FunctionView) -> bool {
    &&& function.name@ == view.name
    &&& function.kind == view.kind
    &&& are_nodes(function.control_flow@, view.control_flow)
}

/// Whether functions are those that are described.
pub open spec fn are_functions(functions: Seq<UniversalFunction>, views: Seq<FunctionView>) -> bool {
    &&& functions.len() == views.len()
    &&& forall|i: int| 0 <= i < views.len() ==> is_function(#[trigger] functions[i], views[i])
}

/// Whether an output is the one that is described.
pub open spec fn is_output(output: ParserOutput, view: ParserOutputView) -> bool {
    &&& output.language_id@ == view.language_id
    &&& output.symbols.deep_view() == view.symbols
    &&& output.references.deep_view() == view.references
    &&& are_functions(output.metrics_input.functions@, view.functions)
    &&& output.diagnostics.deep_view() == view.diagnostics
    &&& output.limitations.deep_view() == view.limitations
}

} // verus!
