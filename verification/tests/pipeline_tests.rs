use move_mutator::ast::{BinOp, CallOp, Expr, Function, LitValue, Module};
use move_mutator::cli::CLIOptions;
use move_mutator::configuration::Configuration;
use move_mutator::generate::{
    apply_candidates, downsample_mutants, generate_mutants, retain_compiling, GeneratedMutant,
};
use move_mutator::mutation_test::{classify_outcome, summarize_mutation_results};
use move_mutator::mutation::Mutation;
use move_mutator::report::{MiniReport, MutantStatus};
use move_mutator::span::Span;

fn var(start: usize, end: usize) -> Expr {
    Expr::Other {
        loc: Span { start, end },
        children: vec![],
    }
}

fn simple_module(name: &str, source_path: &str, body: Expr) -> Module {
    Module {
        name: name.to_string(),
        source_path: source_path.to_string(),
        in_project: true,
        attrs: vec![],
        functions: vec![Function {
            name: "f".to_string(),
            attrs: vec![],
            body: Some(body),
        }],
    }
}

fn plain_conf() -> Configuration {
    Configuration::new(CLIOptions::default(), None).unwrap()
}

/// Scenario: `x + y` with non-zero-literal plain-variable operands.
#[test]
fn addition_of_variables_yields_four_replacements_and_no_swap() {
    let source = b"x + y".to_vec();
    let body = Expr::Call {
        loc: Span { start: 0, end: 5 },
        op: CallOp::Binary(BinOp::Add),
        args: vec![var(0, 1), var(4, 5)],
    };
    let module = simple_module("m", "file.move", body);
    let conf = plain_conf();
    let files = vec![("file.move".to_string(), source)];
    let generated = generate_mutants(&vec![module], &conf, &files);
    let replacement: Vec<&GeneratedMutant> = generated
        .iter()
        .filter(|g| g.mutation.operator_name == "binary_operator_replacement")
        .collect();
    let swaps: Vec<&GeneratedMutant> = generated
        .iter()
        .filter(|g| g.mutation.operator_name == "binary_operator_swap")
        .collect();
    assert_eq!(replacement.len(), 4);
    assert_eq!(swaps.len(), 0);
    let texts: Vec<&[u8]> = replacement
        .iter()
        .map(|g| g.mutated_source.as_slice())
        .collect();
    assert!(texts.contains(&b"x - y".as_slice()));
    assert!(texts.contains(&b"x * y".as_slice()));
    assert!(texts.contains(&b"x / y".as_slice()));
    assert!(texts.contains(&b"x % y".as_slice()));
}

/// Scenario: a conditional's branches are exchanged verbatim.
#[test]
fn if_else_yields_exactly_one_swap_of_the_branches() {
    let source = b"if (x > 0) { a } else { b }".to_vec();
    let body = Expr::IfElse {
        loc: Span { start: 0, end: 27 },
        cond: Box::new(var(4, 9)),
        then_branch: Box::new(var(11, 16)),
        else_branch: Box::new(var(22, 27)),
    };
    let module = simple_module("m", "file.move", body);
    let conf = plain_conf();
    let files = vec![("file.move".to_string(), source)];
    let generated = generate_mutants(&vec![module], &conf, &files);
    let swaps: Vec<&GeneratedMutant> = generated
        .iter()
        .filter(|g| g.mutation.operator_name == "if_else_replacement")
        .collect();
    assert_eq!(swaps.len(), 1);
    assert_eq!(swaps[0].mutated_source, b"if (x > 0) { b } else { a }");
}

/// Scenario: a failing baseline aborts the run before any report entry.
#[test]
fn failing_baseline_aborts_with_an_error() {
    let r = summarize_mutation_results("pkg".to_string(), false, &vec![]);
    assert!(r.is_err());
    assert!(r.err().unwrap().contains("failing for the original code"));
}

#[test]
fn passing_baseline_with_no_mutants_yields_a_valid_empty_report() {
    let r = summarize_mutation_results("pkg".to_string(), true, &vec![]).unwrap();
    assert_eq!(r.entries().len(), 0);
    assert_eq!(r.mutants_tested(), 0);
    assert_eq!(r.get_package_dir(), "pkg");
}

fn dummy_mutant(tag: u8) -> GeneratedMutant {
    GeneratedMutant {
        file_path: "file.move".to_string(),
        module_name: "m".to_string(),
        function_name: "f".to_string(),
        mutated_source: vec![tag],
        mutation: Mutation {
            span: Span { start: 0, end: 1 },
            operator_name: "literal_replacement".to_string(),
            original: vec![0],
            replacement: vec![tag],
        },
        diff: String::new(),
    }
}

/// Scenario: with verification enabled a mutant that fails to compile is
/// silently dropped; with it disabled the same mutant is kept.
#[test]
fn non_compiling_mutants_are_dropped_only_when_verification_is_enabled() {
    let gs = vec![dummy_mutant(1), dummy_mutant(2), dummy_mutant(3)];
    let verdicts = vec![true, false, true];
    let kept = retain_compiling(gs, &verdicts, true);
    assert_eq!(kept.len(), 2);
    assert_eq!(kept[0].mutated_source, vec![1]);
    assert_eq!(kept[1].mutated_source, vec![3]);

    let gs = vec![dummy_mutant(1), dummy_mutant(2), dummy_mutant(3)];
    let kept = retain_compiling(gs, &verdicts, false);
    assert_eq!(kept.len(), 3);
}

/// Scenario: downsampling at one hundred percent keeps no mutants, and an
/// empty result set still yields a valid, empty report.
#[test]
fn downsampling_everything_yields_zero_tested_mutants() {
    let gs: Vec<GeneratedMutant> = (0..10).map(|i| dummy_mutant(i)).collect();
    let kept = downsample_mutants(gs, 100);
    assert_eq!(kept.len(), 0);
    let report = summarize_mutation_results("pkg".to_string(), true, &vec![]).unwrap();
    assert_eq!(report.mutants_tested(), 0);
    assert_eq!(report.entries().len(), 0);
}

#[test]
fn downsampling_keeps_the_exact_count() {
    // keep = n - ceil(n*p/100)
    let gs: Vec<GeneratedMutant> = (0..10).map(|i| dummy_mutant(i)).collect();
    assert_eq!(downsample_mutants(gs, 0).len(), 10);
    let gs: Vec<GeneratedMutant> = (0..10).map(|i| dummy_mutant(i)).collect();
    assert_eq!(downsample_mutants(gs, 25).len(), 7);
    let gs: Vec<GeneratedMutant> = (0..10).map(|i| dummy_mutant(i)).collect();
    assert_eq!(downsample_mutants(gs, 33).len(), 6);
    let gs: Vec<GeneratedMutant> = (0..7).map(|i| dummy_mutant(i)).collect();
    assert_eq!(downsample_mutants(gs, 50).len(), 3);
}

#[test]
fn downsampling_keeps_only_given_mutants() {
    let gs: Vec<GeneratedMutant> = (0..10).map(|i| dummy_mutant(i)).collect();
    let kept = downsample_mutants(gs, 40);
    assert_eq!(kept.len(), 6);
    for g in &kept {
        assert!(g.mutated_source[0] < 10);
    }
}

/// Re-running generation on identical input yields identical mutation
/// records.
#[test]
fn generation_is_deterministic() {
    let make = || {
        let body = Expr::Call {
            loc: Span { start: 0, end: 5 },
            op: CallOp::Binary(BinOp::Sub),
            args: vec![var(0, 1), var(4, 5)],
        };
        let module = simple_module("m", "file.move", body);
        let conf = plain_conf();
        let files = vec![("file.move".to_string(), b"x - y".to_vec())];
        generate_mutants(&vec![module], &conf, &files)
    };
    let r1 = make();
    let r2 = make();
    assert_eq!(r1.len(), r2.len());
    for (a, b) in r1.iter().zip(r2.iter()) {
        assert_eq!(a.mutated_source, b.mutated_source);
        assert_eq!(a.mutation.operator_name, b.mutation.operator_name);
        assert_eq!(a.mutation.replacement, b.mutation.replacement);
    }
}

#[test]
fn classify_outcome_kills_on_oracle_failure() {
    assert!(matches!(classify_outcome(false), MutantStatus::Killed));
    assert!(matches!(classify_outcome(true), MutantStatus::Alive));
}

#[test]
fn summarize_counts_killed_and_alive_mutants() {
    let minis = vec![
        MiniReport::new(
            "file.move".to_string(),
            "m::f".to_string(),
            MutantStatus::Killed,
            "diff-k".to_string(),
            "delete_statement".to_string(),
        ),
        MiniReport::new(
            "file.move".to_string(),
            "m::f".to_string(),
            MutantStatus::Alive,
            "diff-a".to_string(),
            "delete_statement".to_string(),
        ),
    ];
    let report = summarize_mutation_results("pkg".to_string(), true, &minis).unwrap();
    assert_eq!(report.mutants_tested(), 2);
    assert_eq!(report.mutants_killed(), 1);
}

#[test]
fn generated_mutants_carry_a_real_diff() {
    let source = b"x - y\n".to_vec();
    let body = Expr::Call {
        loc: Span { start: 0, end: 5 },
        op: CallOp::Binary(BinOp::Sub),
        args: vec![var(0, 1), var(4, 5)],
    };
    let module = simple_module("m", "file.move", body);
    let conf = plain_conf();
    let files = vec![("file.move".to_string(), source)];
    let cands = move_mutator::mutate::mutate(&vec![module], &conf);
    let generated = apply_candidates(&cands, &files);
    assert!(!generated.is_empty());
    // The diff of a changed file mentions both the old and the new text.
    let swap = generated
        .iter()
        .find(|g| g.mutation.operator_name == "binary_operator_swap")
        .unwrap();
    assert!(swap.diff.contains("-x - y"));
    assert!(swap.diff.contains("+y - x"));
}

#[test]
fn literal_candidates_are_generated_for_number_nodes() {
    let source = b"42".to_vec();
    let body = Expr::Value {
        loc: Span { start: 0, end: 2 },
        value: LitValue::Number(42),
    };
    let module = simple_module("m", "file.move", body);
    let conf = plain_conf();
    let files = vec![("file.move".to_string(), source)];
    let generated = generate_mutants(&vec![module], &conf, &files);
    assert_eq!(generated.len(), 4);
    assert_eq!(generated[0].module_name, "m");
    assert_eq!(generated[0].function_name, "f");
}
