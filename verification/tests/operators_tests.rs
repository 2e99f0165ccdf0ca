use move_mutator::ast::BinOp;
use move_mutator::operators::binary::Binary;
use move_mutator::operators::binary_swap::BinarySwap;
use move_mutator::operators::break_continue::BreakContinue;
use move_mutator::operators::delete_stmt::DeleteStmt;
use move_mutator::operators::ifelse::IfElse;
use move_mutator::operators::literal::Literal;
use move_mutator::operators::unary::Unary;
use move_mutator::operators::ExpLoc;
use move_mutator::span::Span;

fn exp(start: usize, end: usize) -> ExpLoc {
    ExpLoc {
        loc: Span { start, end },
        is_zero_literal: false,
        has_call: false,
    }
}

fn zero_exp(start: usize, end: usize) -> ExpLoc {
    ExpLoc {
        loc: Span { start, end },
        is_zero_literal: true,
        has_call: false,
    }
}

#[test]
fn test_apply_binary_operator() {
    let operator = Binary::new(BinOp::Add, Span::new(0, 3), exp(0, 1), exp(2, 3));
    let source = b"5+2".to_vec();
    let expected = ["5-2", "5*2", "5/2", "5%2"];
    let result = operator.apply(&source);
    assert_eq!(result.len(), expected.len());
    for (i, r) in result.iter().enumerate() {
        assert_eq!(r.mutated_source, expected[i].as_bytes());
    }
}

#[test]
fn binary_replacement_skips_suppressed_pairs_for_zero_literals() {
    // x == 0 never mutates to x <= 0
    let operator = Binary::new(BinOp::Eq, Span::new(0, 6), exp(0, 1), zero_exp(5, 6));
    let source = b"x == 0".to_vec();
    let result = operator.apply(&source);
    let replacements: Vec<&[u8]> = result
        .iter()
        .map(|m| m.mutation.replacement.as_slice())
        .collect();
    assert!(!replacements.contains(&b"<=".as_slice()));
    assert_eq!(result.len(), 4);
    // 0 == x never mutates to 0 >= x
    let operator = Binary::new(BinOp::Eq, Span::new(0, 6), zero_exp(0, 1), exp(5, 6));
    let result = operator.apply(&source);
    let replacements: Vec<&[u8]> = result
        .iter()
        .map(|m| m.mutation.replacement.as_slice())
        .collect();
    assert!(!replacements.contains(&b">=".as_slice()));
}

#[test]
fn binary_replacement_keeps_compound_assignments_compound() {
    let operator = Binary::new(BinOp::Add, Span::new(0, 6), exp(0, 1), exp(5, 6));
    let source = b"x += 2".to_vec();
    let result = operator.apply(&source);
    assert_eq!(result.len(), 4);
    assert_eq!(result[0].mutated_source, b"x -= 2");
}

#[test]
fn binary_swap_with_identical_spans_generates_nothing() {
    let operator = BinarySwap::new(BinOp::Sub, Span::new(0, 5), exp(0, 1), exp(0, 1));
    let source = b"i - 1".to_vec();
    assert_eq!(operator.apply(&source).len(), 0);
}

#[test]
fn binary_swap_of_commutative_pure_operands_generates_nothing() {
    let operator = BinarySwap::new(BinOp::Add, Span::new(0, 5), exp(0, 1), exp(4, 5));
    let source = b"x + y".to_vec();
    assert_eq!(operator.apply(&source).len(), 0);
}

#[test]
fn binary_swap_exchanges_operands_of_a_subtraction() {
    let operator = BinarySwap::new(BinOp::Sub, Span::new(0, 5), exp(0, 1), exp(4, 5));
    let source = b"x - y".to_vec();
    let result = operator.apply(&source);
    assert_eq!(result.len(), 1);
    assert_eq!(result[0].mutated_source, b"y - x");
}

#[test]
fn binary_swap_of_commutative_operands_with_a_call_is_kept() {
    let left = ExpLoc {
        loc: Span { start: 0, end: 4 },
        is_zero_literal: false,
        has_call: true,
    };
    let operator = BinarySwap::new(BinOp::Add, Span::new(0, 8), left, exp(7, 8));
    let source = b"f(x) + y".to_vec();
    let result = operator.apply(&source);
    assert_eq!(result.len(), 1);
    assert_eq!(result[0].mutated_source, b"y + f(x)");
}

#[test]
fn unary_replacement_removes_the_negation() {
    let operator = Unary::new(Span::new(0, 2), exp(1, 2));
    let source = b"!x".to_vec();
    let result = operator.apply(&source);
    assert_eq!(result.len(), 1);
    assert_eq!(result[0].mutated_source, b"x");
}

#[test]
fn if_else_swap_exchanges_the_branches() {
    let source = b"if (x > 0) { a } else { b }".to_vec();
    let operator = IfElse::new(Span::new(0, 27), exp(4, 9), exp(11, 16), exp(22, 27));
    let result = operator.apply(&source);
    assert_eq!(result.len(), 1);
    assert_eq!(result[0].mutated_source, b"if (x > 0) { b } else { a }");
}

#[test]
fn literal_replacement_negates_a_boolean() {
    let operator = Literal::new(move_mutator::ast::LitValue::Bool(true), Span::new(0, 4));
    let source = b"true".to_vec();
    let result = operator.apply(&source);
    assert_eq!(result.len(), 1);
    assert_eq!(result[0].mutated_source, b"false");
}

#[test]
fn literal_replacement_tries_the_boundary_values_of_a_number() {
    let operator = Literal::new(move_mutator::ast::LitValue::Number(7), Span::new(4, 5));
    let source = b"x + 7".to_vec();
    let result = operator.apply(&source);
    let texts: Vec<&[u8]> = result.iter().map(|m| m.mutated_source.as_slice()).collect();
    assert_eq!(
        texts,
        vec![
            b"x + 0".as_slice(),
            b"x + 1".as_slice(),
            b"x + 6".as_slice(),
            b"x + 8".as_slice()
        ]
    );
}

#[test]
fn break_continue_replacement_flips_the_statement() {
    let operator = BreakContinue::new(Span::new(0, 5), true);
    let source = b"break".to_vec();
    let result = operator.apply(&source);
    assert_eq!(result.len(), 1);
    assert_eq!(result[0].mutated_source, b"continue");
}

#[test]
fn delete_statement_removes_the_statement_text() {
    let operator = DeleteStmt::new(Span::new(5, 13));
    let source = b"a(); abort 1; b();".to_vec();
    let result = operator.apply(&source);
    assert_eq!(result.len(), 1);
    assert_eq!(result[0].mutated_source, b"a();  b();");
    assert_eq!(result[0].mutation.operator_name, "delete_statement");
}

#[test]
fn literal_replacement_at_the_largest_number_skips_the_overflowing_neighbour() {
    let operator = Literal::new(
        move_mutator::ast::LitValue::Number(u128::MAX),
        Span::new(0, 39),
    );
    let source = b"340282366920938463463374607431768211455".to_vec();
    let result = operator.apply(&source);
    let texts: Vec<&[u8]> = result.iter().map(|m| m.mutated_source.as_slice()).collect();
    assert_eq!(texts.len(), 3);
    assert_eq!(texts[0], b"0");
    assert_eq!(texts[1], b"1");
    assert_eq!(texts[2], b"340282366920938463463374607431768211454");
}

#[test]
fn binary_replacement_with_identical_operand_spans_generates_nothing() {
    let operator = Binary::new(BinOp::Add, Span::new(0, 5), exp(0, 1), exp(0, 1));
    let source = b"i + 1".to_vec();
    assert_eq!(operator.apply(&source).len(), 0);
}
