use std::str::FromStr;

use move_mutator::operator_filter::{Operator, OperatorMode};

#[test]
fn test_operator_as_str() {
    assert_eq!(
        Operator::UnaryOperatorReplacement.as_str(),
        "unary_operator_replacement"
    );
    assert_eq!(Operator::DeleteStatement.as_str(), "delete_statement");
    assert_eq!(
        Operator::BinaryOperatorSwap.as_str(),
        "binary_operator_swap"
    );
}

#[test]
fn test_operator_from_str() {
    assert_eq!(
        Operator::from_str("unary_operator_replacement").unwrap(),
        Operator::UnaryOperatorReplacement
    );
    assert_eq!(
        Operator::from_str("delete_statement").unwrap(),
        Operator::DeleteStatement
    );
    assert!(Operator::from_str("invalid").is_err());
}

#[test]
fn test_operator_all() {
    let all = Operator::all();
    assert_eq!(all.len(), 7);
}

#[test]
fn test_light_mode_operators() {
    let mode = OperatorMode::Light;
    let ops = mode.get_operators();
    assert_eq!(ops.len(), 3);
    assert!(ops.contains(&Operator::UnaryOperatorReplacement.as_str()));
    assert!(ops.contains(&Operator::DeleteStatement.as_str()));
    assert!(ops.contains(&Operator::BreakContinueReplacement.as_str()));
}

#[test]
fn test_medium_mode_operators() {
    let mode = OperatorMode::Medium;
    let ops = mode.get_operators();
    assert_eq!(ops.len(), 5);
    assert!(ops.contains(&Operator::UnaryOperatorReplacement.as_str()));
    assert!(ops.contains(&Operator::DeleteStatement.as_str()));
    assert!(ops.contains(&Operator::BreakContinueReplacement.as_str()));
    assert!(ops.contains(&Operator::BinaryOperatorReplacement.as_str()));
    assert!(ops.contains(&Operator::IfElseReplacement.as_str()));
}

#[test]
fn test_heavy_mode_operators() {
    let mode = OperatorMode::Heavy;
    let ops = mode.get_operators();
    assert_eq!(ops.len(), 7);
    // All operators should be present
    assert!(ops.contains(&Operator::UnaryOperatorReplacement.as_str()));
    assert!(ops.contains(&Operator::DeleteStatement.as_str()));
    assert!(ops.contains(&Operator::BreakContinueReplacement.as_str()));
    assert!(ops.contains(&Operator::BinaryOperatorReplacement.as_str()));
    assert!(ops.contains(&Operator::IfElseReplacement.as_str()));
    assert!(ops.contains(&Operator::LiteralReplacement.as_str()));
    assert!(ops.contains(&Operator::BinaryOperatorSwap.as_str()));
}

#[test]
fn test_custom_mode() {
    let mode = OperatorMode::Custom(vec![
        Operator::DeleteStatement,
        Operator::BinaryOperatorReplacement,
    ]);
    let ops = mode.get_operators();
    assert_eq!(ops.len(), 2);
    assert!(ops.contains(&Operator::DeleteStatement.as_str()));
    assert!(ops.contains(&Operator::BinaryOperatorReplacement.as_str()));
}

#[test]
fn test_should_apply() {
    let mode = OperatorMode::Light;
    assert!(mode.should_apply(Operator::UnaryOperatorReplacement));
    assert!(mode.should_apply(Operator::DeleteStatement));
    assert!(!mode.should_apply(Operator::LiteralReplacement));
    assert!(!mode.should_apply(Operator::BinaryOperatorSwap));
}

#[test]
fn test_validate_operators_valid() {
    let operators = vec![
        Operator::DeleteStatement.as_str().to_string(),
        Operator::BinaryOperatorReplacement.as_str().to_string(),
    ];
    assert!(OperatorMode::validate_operators(&operators).is_ok());
}

#[test]
fn test_validate_operators_invalid() {
    let operators = vec![
        "invalid_operator".to_string(),
        "another_invalid".to_string(),
    ];
    let result = OperatorMode::validate_operators(&operators);
    assert!(result.is_err());
    let err_msg = result.unwrap_err().to_string();
    assert!(err_msg.contains("invalid_operator"));
    assert!(err_msg.contains("another_invalid"));
}

#[test]
fn test_validate_operators_mixed() {
    let operators = vec![
        Operator::DeleteStatement.as_str().to_string(),
        "invalid_operator".to_string(),
    ];
    let result = OperatorMode::validate_operators(&operators);
    assert!(result.is_err());
    let err_msg = result.unwrap_err().to_string();
    // Error message should mention the invalid operator
    assert!(err_msg.contains("invalid_operator"));
    // Error message will also list all valid operators (including delete_statement)
    assert!(err_msg.contains("Invalid operator name"));
}

#[test]
fn test_parse_operators() {
    let operators = vec![
        Operator::DeleteStatement.as_str().to_string(),
        Operator::BinaryOperatorReplacement.as_str().to_string(),
    ];
    let result = OperatorMode::parse_operators(&operators);
    assert!(result.is_ok());
    let parsed = result.unwrap();
    assert_eq!(parsed.len(), 2);
    assert_eq!(parsed[0], Operator::DeleteStatement);
    assert_eq!(parsed[1], Operator::BinaryOperatorReplacement);
}

#[test]
fn test_default_mode() {
    let mode = OperatorMode::default();
    assert_eq!(mode, OperatorMode::Heavy);
}

#[test]
fn test_display_name() {
    assert_eq!(OperatorMode::Light.display_name(), "LIGHT");
    assert_eq!(OperatorMode::Medium.display_name(), "MEDIUM");
    assert_eq!(OperatorMode::Heavy.display_name(), "HEAVY");
    assert_eq!(OperatorMode::Custom(vec![]).display_name(), "CUSTOM");
}

#[test]
fn list_all_operators_names_every_operator() {
    let listing = OperatorMode::list_all_operators();
    for op in Operator::all() {
        assert!(listing.contains(op.as_str()));
    }
    assert_eq!(listing.lines().count(), 7);
}
