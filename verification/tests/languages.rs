use hotpath::languages::go::GoParser;
use hotpath::languages::metrics::CodeMetricsAnalyzer;
use hotpath::languages::{
    AnalyzedFile, ContentWindow, LanguageParser, ParserOutput, ParserRecognition,
    UniversalCodeMetricsInput, UniversalControlFlowKind, UniversalControlFlowNode,
    UniversalFunction, UniversalFunctionKind, UniversalReference, UniversalSymbol,
};
use hotpath::ContentKind;

struct MockParser;

impl LanguageParser for MockParser {
    fn language_id(&self) -> &'static str {
        "mock"
    }

    fn recognize(&self, file: &AnalyzedFile) -> ParserRecognition {
        if file.path.ends_with("main.mock") {
            ParserRecognition::Recognized
        } else {
            ParserRecognition::NotRecognized
        }
    }

    fn parse(&self, _file: &AnalyzedFile) -> ParserOutput {
        ParserOutput {
            language_id: self.language_id().to_owned(),
            symbols: vec![UniversalSymbol {
                name: "main".to_owned(),
                kind: "function".to_owned(),
            }],
            references: vec![UniversalReference {
                target: "fmt".to_owned(),
                kind: "import".to_owned(),
            }],
            metrics_input: UniversalCodeMetricsInput {
                functions: Vec::new(),
            },
            diagnostics: Vec::new(),
            limitations: Vec::new(),
        }
    }
}

fn analyzed(path: &str, source: &str) -> AnalyzedFile {
    AnalyzedFile {
        path: path.to_owned(),
        window: ContentWindow {
            content_kind: ContentKind::Text,
            truncated: false,
            bytes: source.as_bytes().to_vec(),
        },
    }
}

#[test]
fn parser_abstraction_receives_file_object_and_returns_universal_output() {
    let parser = MockParser;
    let file = analyzed("main.mock", "");

    assert_eq!(parser.recognize(&file), ParserRecognition::Recognized);
    let output = parser.parse(&file);

    assert_eq!(output.language_id, "mock");
    assert_eq!(output.symbols[0].name, "main");
    assert_eq!(output.references[0].kind, "import");
}

#[test]
fn recognizes_go_files_only() {
    let go = analyzed("main.go", "package main\n");
    let rust = analyzed("main.rs", "fn main() {}\n");
    let parser = GoParser::new();

    assert_eq!(parser.recognize(&go), ParserRecognition::Recognized);
    assert_eq!(parser.recognize(&rust), ParserRecognition::NotRecognized);
}

#[test]
fn extensions_count_as_they_are_written() {
    let parser = GoParser::new();

    for path in ["main.GO", "main.Go", ".go", "go", "main.go.txt", "main.go/..", "maingo"] {
        assert_eq!(
            parser.recognize(&analyzed(path, "package main\n")),
            ParserRecognition::NotRecognized,
            "{path}"
        );
    }
    assert_eq!(
        parser.recognize(&analyzed("a.GO/main_test.go", "package main\n")),
        ParserRecognition::Recognized
    );
}

#[test]
fn parses_go_symbols_imports_and_metric_input() {
    let file = analyzed(
        "main.go",
        r#"
package main

import (
    "fmt"
    alias "strings"
)

type Service struct{}
type Runner interface { Run() }

func main() {
    if true && false {
        for i := 0; i < 1; i++ {
            continue
        }
    }
}

func (s Service) Run() {
    switch 1 {
    case 1:
        fmt.Println(alias.TrimSpace("x"))
    default:
    }
}
"#,
    );

    let output = GoParser::new().parse(&file);
    let complexity = CodeMetricsAnalyzer::new().analyze(&output.metrics_input);

    assert_eq!(output.language_id, "go");
    assert_eq!(output.references.len(), 2);
    assert_eq!(output.metrics_input.functions.len(), 2);
    assert!(output
        .symbols
        .iter()
        .any(|symbol| symbol.kind == "function" && symbol.name == "main"));
    assert!(output
        .symbols
        .iter()
        .any(|symbol| symbol.kind == "method" && symbol.name == "Run"));
    assert!(output
        .symbols
        .iter()
        .any(|symbol| symbol.kind == "struct" && symbol.name == "Service"));
    assert!(output
        .symbols
        .iter()
        .any(|symbol| symbol.kind == "interface" && symbol.name == "Runner"));
    assert!(complexity.cognitive_complexity > 0);
    assert_eq!(complexity.cognitive_complexity, 10);
    assert_eq!(complexity.max_function_complexity, 5);
}

#[test]
fn truncated_and_broken_sources_are_reported() {
    let parser = GoParser::new();
    let mut truncated = analyzed("main.go", "package main\n");
    truncated.window.truncated = true;
    let broken = analyzed("main.go", "package main\nfunc main( {\n");

    assert_eq!(parser.recognize(&truncated), ParserRecognition::NotRecognized);
    assert_eq!(parser.parse(&truncated).limitations[0].code, "truncated_source");
    assert_eq!(parser.parse(&broken).diagnostics.len(), 1);
    assert_eq!(parser.language_id(), "go");
}

fn flow(
    kind: UniversalControlFlowKind,
    children: Vec<UniversalControlFlowNode>,
) -> UniversalControlFlowNode {
    UniversalControlFlowNode { kind, children }
}

fn function(control_flow: Vec<UniversalControlFlowNode>) -> UniversalFunction {
    UniversalFunction {
        name: "f".to_owned(),
        kind: UniversalFunctionKind::Function,
        control_flow,
    }
}

#[test]
fn nested_control_flow_counts_for_more() {
    let input = UniversalCodeMetricsInput {
        functions: vec![
            function(vec![flow(
                UniversalControlFlowKind::Switch,
                vec![flow(
                    UniversalControlFlowKind::Case,
                    vec![
                        flow(UniversalControlFlowKind::Loop, Vec::new()),
                        flow(UniversalControlFlowKind::Jump, Vec::new()),
                    ],
                )],
            )]),
            function(vec![flow(
                UniversalControlFlowKind::BooleanChain,
                vec![flow(UniversalControlFlowKind::Branch, Vec::new())],
            )]),
            function(Vec::new()),
        ],
    };

    let metrics = CodeMetricsAnalyzer::new().analyze(&input);

    assert_eq!(metrics.cognitive_complexity, 9);
    assert_eq!(metrics.max_function_complexity, 7);
}
