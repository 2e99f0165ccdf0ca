use move_mutator::ast::{BinOp, CallOp, Expr, Function, Module};
use move_mutator::cli::{CLIOptions, FunctionFilter, ModuleFilter};
use move_mutator::configuration::Configuration;
use move_mutator::coverage::compute_function_covered_spans;
use move_mutator::mutate::mutate;
use move_mutator::span::Span;

fn var(start: usize, end: usize) -> Expr {
    Expr::Other {
        loc: Span { start, end },
        children: vec![],
    }
}

fn call_body() -> Expr {
    Expr::Call {
        loc: Span { start: 0, end: 5 },
        op: CallOp::Binary(BinOp::Sub),
        args: vec![var(0, 1), var(4, 5)],
    }
}

fn module_with(attrs: Vec<String>, fn_attrs: Vec<String>) -> Module {
    Module {
        name: "m".to_string(),
        source_path: "file.move".to_string(),
        in_project: true,
        attrs,
        functions: vec![Function {
            name: "f".to_string(),
            attrs: fn_attrs,
            body: Some(call_body()),
        }],
    }
}

#[test]
fn selector_emits_candidates_for_a_plain_function() {
    let conf = Configuration::new(CLIOptions::default(), None).unwrap();
    let cands = mutate(&vec![module_with(vec![], vec![])], &conf);
    assert_eq!(cands.len(), 2);
    assert_eq!(cands[0].module_name.as_deref(), Some("m"));
    assert_eq!(cands[0].function_name.as_deref(), Some("f"));
    assert_eq!(cands[0].file_path.as_deref(), Some("file.move"));
}

#[test]
fn selector_skips_modules_tagged_skip_mutation() {
    let conf = Configuration::new(CLIOptions::default(), None).unwrap();
    let m = module_with(vec!["mutation::skip".to_string()], vec![]);
    assert_eq!(mutate(&vec![m], &conf).len(), 0);
}

#[test]
fn selector_skips_test_functions() {
    let conf = Configuration::new(CLIOptions::default(), None).unwrap();
    let m = module_with(vec![], vec!["test".to_string()]);
    assert_eq!(mutate(&vec![m], &conf).len(), 0);
}

#[test]
fn selector_skips_functions_outside_the_allow_list() {
    let mut options = CLIOptions::default();
    options.mutate_functions = FunctionFilter::Selected(vec!["other".to_string()]);
    let conf = Configuration::new(options, None).unwrap();
    assert_eq!(mutate(&vec![module_with(vec![], vec![])], &conf).len(), 0);
    let mut options = CLIOptions::default();
    options.mutate_functions = FunctionFilter::Selected(vec!["f".to_string()]);
    let conf = Configuration::new(options, None).unwrap();
    assert_eq!(mutate(&vec![module_with(vec![], vec![])], &conf).len(), 2);
}

#[test]
fn selector_skips_modules_outside_the_module_filter() {
    let mut options = CLIOptions::default();
    options.mutate_modules = ModuleFilter::Selected(vec!["other".to_string()]);
    let conf = Configuration::new(options, None).unwrap();
    assert_eq!(mutate(&vec![module_with(vec![], vec![])], &conf).len(), 0);
}

#[test]
fn selector_skips_modules_outside_the_project() {
    let conf = Configuration::new(CLIOptions::default(), None).unwrap();
    let mut m = module_with(vec![], vec![]);
    m.in_project = false;
    assert_eq!(mutate(&vec![m], &conf).len(), 0);
}

#[test]
fn selector_never_descends_into_spec_blocks() {
    let conf = Configuration::new(CLIOptions::default(), None).unwrap();
    let body = Expr::SpecBlock {
        loc: Span { start: 0, end: 5 },
        children: vec![call_body()],
    };
    let m = Module {
        name: "m".to_string(),
        source_path: "file.move".to_string(),
        in_project: true,
        attrs: vec![],
        functions: vec![Function {
            name: "f".to_string(),
            attrs: vec![],
            body: Some(body),
        }],
    };
    assert_eq!(mutate(&vec![m], &conf).len(), 0);
}

/// With coverage filtering active, a node whose location is uncovered gets
/// no candidates, and a function without coverage data gets none at all.
#[test]
fn selector_respects_the_coverage_filter() {
    let mut options = CLIOptions::default();
    options.apply_coverage = true;
    let mut conf = Configuration::new(options, None).unwrap();
    // No entry for m::f at all: fail closed, nothing is mutated.
    assert_eq!(mutate(&vec![module_with(vec![], vec![])], &conf).len(), 0);
    // A covered span overlapping the node: candidates come back.
    conf.coverage
        .add_function("m::f".to_string(), vec![Span { start: 0, end: 5 }]);
    assert_eq!(mutate(&vec![module_with(vec![], vec![])], &conf).len(), 2);
    // A covered span elsewhere in the file: the node stays skipped.
    let mut options = CLIOptions::default();
    options.apply_coverage = true;
    let mut conf = Configuration::new(options, None).unwrap();
    conf.coverage
        .add_function("m::f".to_string(), vec![Span { start: 40, end: 50 }]);
    assert_eq!(mutate(&vec![module_with(vec![], vec![])], &conf).len(), 0);
}

#[test]
fn covered_spans_are_merged_and_whitespace_gaps_bridged() {
    // offsets 0 and 1 executed, translating to two spans separated by a
    // whitespace-only gap; offset 2 never executed.
    let counts = vec![1u64, 5u64, 0u64];
    let spans = vec![
        Some(Span { start: 0, end: 3 }),
        Some(Span { start: 5, end: 8 }),
        Some(Span { start: 10, end: 12 }),
    ];
    let source = b"abc  def  gh".to_vec();
    let covered = compute_function_covered_spans(&counts, &spans, &source);
    assert_eq!(covered.len(), 1);
    assert_eq!(covered[0], Span { start: 0, end: 8 });
}

#[test]
fn covered_spans_with_code_between_them_stay_split() {
    let counts = vec![1u64, 1u64];
    let spans = vec![
        Some(Span { start: 0, end: 3 }),
        Some(Span { start: 5, end: 8 }),
    ];
    let source = b"abc; def".to_vec();
    let covered = compute_function_covered_spans(&counts, &spans, &source);
    assert_eq!(covered.len(), 2);
    assert_eq!(covered[0], Span { start: 0, end: 3 });
    assert_eq!(covered[1], Span { start: 5, end: 8 });
}

#[test]
fn coverage_check_location_is_fail_closed() {
    let mut cov = move_mutator::coverage::Coverage::new();
    assert!(!cov.check_location("m::f", Span { start: 0, end: 5 }));
    cov.add_function("m::f".to_string(), vec![Span { start: 2, end: 4 }]);
    assert!(cov.check_location("m::f", Span { start: 3, end: 6 }));
    assert!(!cov.check_location("m::f", Span { start: 4, end: 6 }));
    assert!(!cov.check_location("m::g", Span { start: 2, end: 4 }));
}
