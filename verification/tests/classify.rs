use magik::classify::{classify, expr_has_return_value, is_block_returning_value, ValueKind};
use magik::shape::{BlockShape, ExprShape, StmtShape};
use magik::syntax::{parse_expression, parse_fragment};

fn block(code: &str) -> BlockShape {
    parse_fragment(code).expect("the fragment is a block")
}

fn tail(stmts: Vec<StmtShape>) -> BlockShape {
    BlockShape { stmts }
}

fn value() -> BlockShape {
    tail(vec![StmtShape::Expr(ExprShape::Other, false)])
}

fn effect() -> BlockShape {
    tail(vec![StmtShape::Expr(ExprShape::Other, true)])
}

#[test]
fn test_is_block_returning_value() {
    let code = block("{ let x = 5; x }");
    assert!(is_block_returning_value(&code));

    let code = block("{ let x = 5; }");
    assert!(!is_block_returning_value(&code));

    let code = block("{ if true { 1 } else { 2 } }");
    assert!(is_block_returning_value(&code));
}

fn expression(code: &str) -> ExprShape {
    parse_expression(code).expect("the text is an expression")
}

#[test]
fn test_expr_has_return_value() {
    let expr = expression("if true { 1 } else { 2 }");
    assert!(expr_has_return_value(&expr));

    let expr = expression("let x = 5");
    assert!(!expr_has_return_value(&expr));
}

#[test]
fn parsed_expressions_have_their_shapes() {
    assert!(matches!(expression("let x = 5"), ExprShape::Let));
    assert!(matches!(expression("x + 1"), ExprShape::Other));
    assert!(matches!(expression("while a { }"), ExprShape::Other));
    assert!(matches!(expression("break"), ExprShape::Break { carries_value: false }));
    assert!(matches!(expression("break 5"), ExprShape::Break { carries_value: true }));
    assert!(matches!(expression("f()?"), ExprShape::Try(_)));
    assert!(matches!(expression("loop { }"), ExprShape::Loop(_)));
    assert!(matches!(expression("unsafe { 1 }"), ExprShape::Unsafe(_)));
    assert!(matches!(expression("async { 1 }"), ExprShape::Async(_)));
    assert!(matches!(expression("{ 1 }"), ExprShape::Block(_)));
    match expression("match x { A => 1, B => { 2 } }") {
        ExprShape::Match { arms } => {
            assert_eq!(arms.len(), 2);
            assert!(matches!(arms[0], ExprShape::Other));
            assert!(matches!(arms[1], ExprShape::Block(_)));
        }
        _ => panic!("the expression is a match"),
    }
    let error = parse_expression("1 +").unwrap_err();
    assert!(error.to_string().starts_with("Invalid syntax: Error parsing code `1 +`: "));
}

#[test]
fn parsed_conditional_has_the_shape_written_by_hand() {
    let code = block("{ if true { 1 } else { 2 } }");
    assert_eq!(code.stmts.len(), 1);
    match &code.stmts[0] {
        StmtShape::Expr(ExprShape::If { then_branch, else_branch }, false) => {
            assert!(matches!(then_branch.stmts[..], [StmtShape::Expr(ExprShape::Other, false)]));
            match else_branch.as_deref() {
                Some(ExprShape::Block(other)) => {
                    assert!(matches!(other.stmts[..], [StmtShape::Expr(ExprShape::Other, false)]))
                }
                _ => panic!("the else branch is a block"),
            }
        }
        _ => panic!("the statement is a conditional without a semicolon"),
    }
}

#[test]
fn empty_fragment_has_no_value() {
    assert!(!is_block_returning_value(&block("{}")));
    assert!(!is_block_returning_value(&block("{   }")));
    assert_eq!(classify(&block("{ }")), ValueKind::NoValue);
}

#[test]
fn classify_names_the_kind() {
    assert_eq!(classify(&block("{ name }")), ValueKind::ProducesValue);
    assert_eq!(classify(&block("{ let x = 5; }")), ValueKind::NoValue);
    assert_eq!(classify(&block("{ use std::fmt::Write; }")), ValueKind::NoValue);
}

#[test]
fn trailing_semicolon_means_no_value() {
    assert!(!is_block_returning_value(&block("{ x; }")));
    assert!(!is_block_returning_value(&block("{ if a { 1 } else { 2 }; }")));
    assert!(is_block_returning_value(&block("{ x; y }")));
}

#[test]
fn item_and_macro_statements_have_no_value() {
    assert!(!is_block_returning_value(&block("{ fn f() {} }")));
    assert!(!is_block_returning_value(&block("{ println!(\"x\"); }")));
}

#[test]
fn conditional_follows_its_branches() {
    assert!(is_block_returning_value(&block("{ if a { 1 } }")));
    assert!(!is_block_returning_value(&block("{ if a { f(); } }")));
    assert!(is_block_returning_value(&block("{ if a { f(); } else { 2 } }")));
    assert!(is_block_returning_value(&block("{ if a { f(); } else if b { g(); } else { 3 } }")));
    assert!(!is_block_returning_value(&block("{ if a { f(); } else { g(); } }")));
}

#[test]
fn match_yields_if_any_arm_does() {
    assert!(is_block_returning_value(&block("{ match x { Some(v) => v, None => 0 } }")));
    assert!(is_block_returning_value(&block("{ match x { Some(v) => { f(); } None => 0 } }")));
    assert!(!is_block_returning_value(&block("{ match x { Some(v) => { f(); } None => { g(); } } }")));
    assert!(!is_block_returning_value(&block("{ match x {} }")));
}

#[test]
fn break_yields_only_with_a_value() {
    assert!(is_block_returning_value(&block("{ break 'a 5 }")));
    assert!(!is_block_returning_value(&block("{ break }")));
}

#[test]
fn loop_follows_its_body() {
    assert!(is_block_returning_value(&block("{ loop { 1 } }")));
    assert!(!is_block_returning_value(&block("{ loop { f(); } }")));
}

#[test]
fn wrappers_follow_what_they_wrap() {
    assert!(is_block_returning_value(&block("{ f()? }")));
    assert!(!is_block_returning_value(&block("{ { f(); }? }")));
    assert!(is_block_returning_value(&block("{ { 1 } }")));
    assert!(!is_block_returning_value(&block("{ { f(); } }")));
    assert!(is_block_returning_value(&block("{ unsafe { 1 } }")));
    assert!(!is_block_returning_value(&block("{ unsafe { f(); } }")));
    assert!(is_block_returning_value(&block("{ async { 1 } }")));
    assert!(!is_block_returning_value(&block("{ async { f(); } }")));
}

#[test]
fn shapes_written_by_hand_classify_alike() {
    assert!(expr_has_return_value(&ExprShape::Other));
    assert!(expr_has_return_value(&ExprShape::Break { carries_value: true }));
    assert!(!expr_has_return_value(&ExprShape::Break { carries_value: false }));
    assert!(expr_has_return_value(&ExprShape::Loop(value())));
    assert!(!expr_has_return_value(&ExprShape::Loop(effect())));
    assert!(expr_has_return_value(&ExprShape::Try(Box::new(ExprShape::Other))));
    assert!(!expr_has_return_value(&ExprShape::Try(Box::new(ExprShape::Let))));
    assert!(expr_has_return_value(&ExprShape::Unsafe(value())));
    assert!(!expr_has_return_value(&ExprShape::Async(effect())));
    assert!(expr_has_return_value(&ExprShape::Match {
        arms: vec![ExprShape::Block(effect()), ExprShape::Other],
    }));
    assert!(!expr_has_return_value(&ExprShape::Match { arms: vec![] }));
    assert!(!is_block_returning_value(&tail(vec![StmtShape::Local])));
    assert!(!is_block_returning_value(&tail(vec![StmtShape::Item])));
    assert!(!is_block_returning_value(&tail(vec![StmtShape::Macro])));
    assert!(!is_block_returning_value(&tail(vec![])));
    assert!(is_block_returning_value(&tail(vec![StmtShape::Local, StmtShape::Expr(ExprShape::Other, false)])));
}

#[test]
fn malformed_fragment_is_refused() {
    let error = parse_fragment("{ let = ; }").unwrap_err();
    assert!(matches!(error, magik::Error::InvalidSyntax(_)));
    assert!(error.to_string().starts_with("Invalid syntax: Error parsing code `{ let = ; }`: "));
    assert!(parse_fragment("no braces").is_err());
    assert!(parse_fragment("{ a } { b }").is_err());
}
