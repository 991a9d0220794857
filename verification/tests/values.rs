use juno_ast::{
    AssignmentExpressionOperator, BinaryExpressionOperator, ExportKind, ImportKind,
    LogicalExpressionOperator, MethodDefinitionKind, NodeLabel, NodeNumber, NodeString,
    PropertyKind, UnaryExpressionOperator, UpdateExpressionOperator, VariableDeclarationKind,
};

#[test]
fn test_number_accepts_decimal_grammar() {
    for ok in ["0", "7", "42", "1.0", "3.25", "-12.5", "-0", "1e9", "2E-4", "-0.5e+12", "10.25e3"] {
        let n = NodeNumber::new(String::from(ok));
        assert!(n.is_some(), "{} should be accepted", ok);
        assert_eq!(n.unwrap().as_str(), ok);
    }
}

#[test]
fn test_number_rejects_malformed_text() {
    for bad in ["", "-", "01", "1.", ".5", "+1", "1e", "1e+", "--1", "0x10", "1.2.3", "a", "1 "] {
        assert!(NodeNumber::new(String::from(bad)).is_none(), "{} should be rejected", bad);
    }
}

#[test]
fn test_label_character_set() {
    for ok in ["foo", "Bar_9", "$tmp", "_", ""] {
        assert!(NodeLabel::new(String::from(ok)).is_some(), "{} should be accepted", ok);
    }
    for bad in ["a b", "a-b", "q\"", "\u{e9}"] {
        assert!(NodeLabel::new(String::from(bad)).is_none(), "{} should be rejected", bad);
    }
    assert_eq!(NodeLabel::new(String::from("foo")).unwrap().as_str(), "foo");
}

#[test]
fn test_node_string_keeps_content() {
    let s = NodeString::new(String::from("any \"text\" at all\n"));
    assert_eq!(s.as_str(), "any \"text\" at all\n");
}

#[test]
fn test_operator_spellings() {
    assert_eq!(UnaryExpressionOperator::Typeof.as_str(), "typeof");
    assert_eq!(UnaryExpressionOperator::Not.as_str(), "!");
    assert_eq!(BinaryExpressionOperator::StrictEquals.as_str(), "===");
    assert_eq!(BinaryExpressionOperator::Instanceof.as_str(), "instanceof");
    assert_eq!(LogicalExpressionOperator::NullishCoalesce.as_str(), "??");
    assert_eq!(UpdateExpressionOperator::Decrement.as_str(), "--");
    assert_eq!(AssignmentExpressionOperator::RShift3Assign.as_str(), ">>>=");
    assert_eq!(VariableDeclarationKind::Const.as_str(), "const");
    assert_eq!(PropertyKind::Getter.as_str(), "get");
    assert_eq!(MethodDefinitionKind::Constructor.as_str(), "constructor");
    assert_eq!(ImportKind::Typeof.as_str(), "typeof");
    assert_eq!(ExportKind::Value.as_str(), "value");
}
