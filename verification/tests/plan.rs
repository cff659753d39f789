use magik::parser::parse_template;
use magik::plan::{
    build_plan, compile_template, count_expressions, operation_for, plan_from, render_plan,
    Operation,
};
use magik::shape::{BlockShape, ExprShape, StmtShape};
use magik::syntax::{parse_fragment, syntax_error};
use magik::{Error, Renderable, TemplateData};

fn literal(text: &str) -> Operation {
    Operation::EmitLiteral(text.to_string())
}

fn expression(code: &str) -> Operation {
    Operation::EmitExpression(code.to_string())
}

fn statement(code: &str) -> Operation {
    Operation::ExecuteStatement(code.to_string())
}

#[test]
fn interpolation_end_to_end() {
    let plan = build_plan("Hello, {{ name }}!").expect("the template is well formed");
    assert_eq!(plan, vec![literal("Hello, "), expression("{ name }"), literal("!")]);
    let name = "World";
    let out = render_plan(&plan, &vec![name.render()]).expect("one value for one expression");
    assert_eq!(out, "Hello, World!");
}

fn render_conditional(active: bool) -> String {
    let plan = build_plan("{{ if active { \"Yes\" } else { \"No\" } }} done")
        .expect("the template is well formed");
    assert_eq!(
        plan,
        vec![expression("{ if active { \"Yes\" } else { \"No\" } }"), literal(" done")]
    );
    let value = if active { "Yes" } else { "No" };
    render_plan(&plan, &vec![value.render()]).expect("one value for one expression")
}

#[test]
fn conditional_end_to_end() {
    assert_eq!(render_conditional(true), "Yes done");
    assert_eq!(render_conditional(false), "No done");
}

#[test]
fn rendering_twice_gives_the_same_output() {
    let plan = build_plan("<b>{{ a }}</b>{{ let n = 1; }}<i>{{ b }}</i>")
        .expect("the template is well formed");
    let values = vec!["x".to_string(), "y".to_string()];
    let first = render_plan(&plan, &values).expect("two values for two expressions");
    let second = render_plan(&plan, &values).expect("two values for two expressions");
    assert_eq!(first, "<b>x</b><i>y</i>");
    assert_eq!(first, second);
}

#[test]
fn plan_keeps_source_order() {
    let tokens = parse_template("a{{ let x = 1; }}b{{ x }}c{{ }}d").expect("well formed");
    let plan = compile_template(&tokens).expect("every fragment parses");
    assert_eq!(
        plan,
        vec![
            literal("a"),
            statement("{ let x = 1; }"),
            literal("b"),
            expression("{ x }"),
            literal("c"),
            literal("d"),
        ]
    );
    assert_eq!(count_expressions(&plan), 1);
}

#[test]
fn empty_fragment_gives_no_operation() {
    assert_eq!(build_plan("{{}}").expect("well formed"), vec![]);
    assert_eq!(build_plan("{{   }}").expect("well formed"), vec![]);
    assert_eq!(build_plan("").expect("well formed"), vec![]);
}

#[test]
fn operation_follows_the_parsed_block() {
    let value = parse_fragment("{ x }").expect("a block");
    assert_eq!(operation_for("{ x }", &value), Some(expression("{ x }")));
    let effect = parse_fragment("{ x; }").expect("a block");
    assert_eq!(operation_for("{ x; }", &effect), Some(statement("{ x; }")));
    let empty = parse_fragment("{ }").expect("a block");
    assert_eq!(operation_for("{ }", &empty), None);
}

#[test]
fn refused_fragment_gives_no_plan() {
    let tokens = vec![
        TemplateData::String("a".to_string()),
        TemplateData::Code("{ ok }".to_string()),
        TemplateData::Code("{ let = }".to_string()),
        TemplateData::Code("{ also bad ( }".to_string()),
    ];
    let error = compile_template(&tokens).unwrap_err();
    assert!(matches!(error, Error::InvalidSyntax(_)));
    assert!(error.to_string().starts_with("Invalid syntax: Error parsing code `{ let = }`: "));
}

#[test]
fn unterminated_source_gives_no_plan() {
    let error = build_plan("Hello {{ unclosed").unwrap_err();
    assert!(matches!(error, Error::ParseError(_)));
}

#[test]
fn syntax_error_names_fragment_and_cause() {
    let error = syntax_error("{ x", "expected `}`");
    assert_eq!(error.to_string(), "Invalid syntax: Error parsing code `{ x`: expected `}`");
}

#[test]
fn wrong_number_of_values_is_a_render_error() {
    let plan = build_plan("{{ a }} and {{ b }}").expect("well formed");
    let too_few = render_plan(&plan, &vec!["1".to_string()]).unwrap_err();
    assert_eq!(
        too_few.to_string(),
        "Render error: The number of values does not match the number of expressions"
    );
    let too_many = render_plan(
        &plan,
        &vec!["1".to_string(), "2".to_string(), "3".to_string()],
    );
    assert!(matches!(too_many, Err(Error::RenderError(_))));
    let exact = render_plan(&plan, &vec!["1".to_string(), "2".to_string()]);
    assert_eq!(exact.expect("two values"), "1 and 2");
}

#[test]
fn statements_put_out_nothing() {
    let plan = vec![statement("{ let x = 1; }"), literal("a"), statement("{ f(); }")];
    assert_eq!(render_plan(&plan, &vec![]).expect("no value needed"), "a");
    assert_eq!(render_plan(&vec![], &vec![]).expect("no value needed"), "");
}

fn value_block() -> BlockShape {
    BlockShape { stmts: vec![StmtShape::Expr(ExprShape::Other, false)] }
}

fn effect_block() -> BlockShape {
    BlockShape { stmts: vec![StmtShape::Local] }
}

fn empty_block() -> BlockShape {
    BlockShape { stmts: vec![] }
}

fn four_tokens() -> Vec<TemplateData> {
    vec![
        TemplateData::String("a".to_string()),
        TemplateData::Code("{ x }".to_string()),
        TemplateData::Code("{ let y = 1; }".to_string()),
        TemplateData::Code("{ }".to_string()),
    ]
}

#[test]
fn plan_follows_the_parsed_forms() {
    let parsed = vec![None, Some(value_block()), Some(effect_block()), Some(empty_block())];
    assert_eq!(
        plan_from(&four_tokens(), &parsed),
        Ok(vec![literal("a"), expression("{ x }"), statement("{ let y = 1; }")])
    );
    let swapped = vec![None, Some(effect_block()), Some(value_block()), Some(value_block())];
    assert_eq!(
        plan_from(&four_tokens(), &swapped),
        Ok(vec![
            literal("a"),
            statement("{ x }"),
            expression("{ let y = 1; }"),
            expression("{ }"),
        ])
    );
}

#[test]
fn plan_fails_at_the_first_refused_fragment() {
    let parsed = vec![None, Some(value_block()), None, None];
    assert_eq!(plan_from(&four_tokens(), &parsed), Err(2));
    let parsed = vec![None, None, Some(value_block()), None];
    assert_eq!(plan_from(&four_tokens(), &parsed), Err(1));
}

#[test]
fn plan_of_literals_asks_for_no_parsed_form() {
    let tokens = vec![
        TemplateData::String("a".to_string()),
        TemplateData::String("b".to_string()),
    ];
    assert_eq!(plan_from(&tokens, &vec![None, None]), Ok(vec![literal("a"), literal("b")]));
    assert_eq!(
        plan_from(&tokens, &vec![Some(value_block()), None]),
        Ok(vec![literal("a"), literal("b")])
    );
    assert_eq!(compile_template(&tokens).expect("no fragment to refuse"), vec![literal("a"), literal("b")]);
    assert_eq!(plan_from(&vec![], &vec![]), Ok(vec![]));
}

#[test]
fn blank_code_token_given_by_hand_is_skipped() {
    let tokens = vec![
        TemplateData::Code("{ }".to_string()),
        TemplateData::String("a".to_string()),
    ];
    assert_eq!(compile_template(&tokens).expect("every fragment parses"), vec![literal("a")]);
}
