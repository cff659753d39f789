use magik::parser::{is_blank_fragment, parse_template};
use magik::{Error, Parser, TemplateData};

fn next_text(parser: &mut Parser) -> String {
    let token = parser
        .next()
        .expect("Expected more tokens from parser")
        .expect("Token should parse without errors");
    token.as_str().to_string()
}

#[test]
fn test_parser() {
    let input = "<h1>Hello, {{ name }}!</h1> {{ test }}";
    let mut parser = Parser::new(input);

    assert_eq!(next_text(&mut parser), "<h1>Hello, ");
    assert_eq!(next_text(&mut parser), "{ name }");
    assert_eq!(next_text(&mut parser), "!</h1> ");
    assert_eq!(next_text(&mut parser), "{ test }");

    assert!(parser.next().is_none());
}

#[test]
fn test_parser_error_handling() {
    let input = "Hello {{ unclosed";
    let mut parser = Parser::new(input);

    assert_eq!(next_text(&mut parser), "Hello ");

    // This should return an error
    let result = parser
        .next()
        .expect("Should have next token (even if error)");
    assert!(result.is_err());
    assert!(result
        .unwrap_err()
        .to_string()
        .contains("Unexpected end of input while parsing key"));
}

#[test]
fn test_parser_collect_success() {
    let input = "Hello {{ name }}!";

    let results: Result<Vec<TemplateData>, Error> = parse_template(input);
    assert!(results.is_ok());

    let data = results.expect("Collection should succeed");
    assert_eq!(data.len(), 3);
}

#[test]
fn test_parser_collect_error() {
    let input = "Hello {{ unclosed";

    let results: Result<Vec<TemplateData>, Error> = parse_template(input);
    assert!(results.is_err());
}

fn raw_of(token: &TemplateData) -> String {
    match token {
        TemplateData::String(text) => text.clone(),
        TemplateData::Code(code) => format!("{{{}}}", code),
    }
}

fn round_trip(source: &str) -> String {
    let tokens = parse_template(source).expect("the source is well formed");
    tokens.iter().map(raw_of).collect::<Vec<String>>().concat()
}

fn raw_tokens(source: &str) -> Vec<TemplateData> {
    let mut parser = Parser::new(source);
    let mut tokens = Vec::new();
    while let Some(token) = parser.next_impl().expect("the source is well formed") {
        tokens.push(token);
    }
    tokens
}

fn raw_round_trip(source: &str) -> String {
    raw_tokens(source).iter().map(raw_of).collect::<Vec<String>>().concat()
}

#[test]
fn tokens_reconstruct_the_source() {
    for source in [
        "",
        "plain text",
        "<h1>Hello, {{ name }}!</h1> {{ test }}",
        "{{ a }}{{ b }}",
        "a {{{ x }}} b",
        "tail {",
        "caf\u{e9} {{ \u{3bb} }} \u{1f600}",
        "}} before {{ x }}",
    ] {
        assert_eq!(round_trip(source), source);
    }
}

#[test]
fn raw_tokens_reconstruct_every_source() {
    for source in [
        "",
        "plain text",
        "<h1>Hello, {{ name }}!</h1> {{ test }}",
        "{{ a }}{{ b }}",
        "{{}}",
        "{{   }}",
        "a{{ }}b",
        "{{ }}{{\t\n}}{{ x }}{{\u{a0}}}",
        "a {{{ x }}} b",
        "caf\u{e9} {{ \u{3bb} }} \u{1f600}",
    ] {
        assert_eq!(raw_round_trip(source), source);
    }
}

#[test]
fn raw_tokens_keep_what_is_dropped_later() {
    assert_eq!(
        raw_tokens("{{ }}b"),
        vec![
            TemplateData::String("".to_string()),
            TemplateData::Code("{ }".to_string()),
            TemplateData::String("b".to_string()),
        ]
    );
    let mut parser = Parser::new("{{ x");
    assert_eq!(parser.next_impl().expect("a literal"), Some(TemplateData::String("".to_string())));
    assert!(parser.next_impl().is_err());
}

#[test]
fn blank_fragment_gives_no_token() {
    assert_eq!(
        parse_template("a{{ }}b").expect("the source is well formed"),
        vec![TemplateData::String("a".to_string()), TemplateData::String("b".to_string())]
    );
    assert_eq!(parse_template("{{ }}").expect("the source is well formed"), vec![]);
    assert_eq!(parse_template("{{}}").expect("the source is well formed"), vec![]);
    assert_eq!(parse_template("{{ \t\n\u{3000}}}").expect("the source is well formed"), vec![]);
    assert_eq!(
        parse_template("{{ }}{{ x }}{{   }}").expect("the source is well formed"),
        vec![TemplateData::Code("{ x }".to_string())]
    );
    let mut parser = Parser::new("a{{ }}b");
    assert_eq!(next_text(&mut parser), "a");
    assert_eq!(next_text(&mut parser), "b");
    assert!(parser.next().is_none());
}

#[test]
fn blank_fragment_is_told_from_one_with_text() {
    assert!(is_blank_fragment("{}"));
    assert!(is_blank_fragment("{ }"));
    assert!(is_blank_fragment("{\t\n \u{a0}}"));
    assert!(!is_blank_fragment("{ x }"));
    assert!(!is_blank_fragment("{{}"));
    assert!(!is_blank_fragment("{ } }"));
    assert!(!is_blank_fragment(""));
    assert!(!is_blank_fragment(" "));
}

#[test]
fn unterminated_blank_fragment_is_an_error() {
    assert!(parse_template("a{{   ").is_err());
    assert!(parse_template("{{ }}{{").is_err());
}

#[test]
fn no_token_is_empty() {
    for source in [
        "{{ a }}{{ b }}",
        "{{ a }} {{ b }}",
        "x{{ y }}",
        "{{ y }}x",
        "{{   }}",
        "a{{ }}b",
        "{{}}{{ z }}",
    ] {
        for token in parse_template(source).expect("the source is well formed") {
            match token {
                TemplateData::String(text) => assert!(!text.is_empty()),
                TemplateData::Code(code) => {
                    assert!(code.starts_with('{') && code.ends_with('}') && code.len() >= 2);
                    assert!(!code[1..code.len() - 1].trim().is_empty());
                }
            }
        }
    }
}

#[test]
fn adjacent_fragments_give_no_literal_between() {
    let tokens = parse_template("{{ a }}{{ b }}").expect("the source is well formed");
    assert_eq!(
        tokens,
        vec![
            TemplateData::Code("{ a }".to_string()),
            TemplateData::Code("{ b }".to_string()),
        ]
    );
}

#[test]
fn empty_source_has_no_tokens() {
    assert_eq!(parse_template("").expect("nothing to refuse"), vec![]);
    let mut parser = Parser::new("");
    assert!(parser.next().is_none());
    assert!(parser.next().is_none());
}

#[test]
fn lone_braces_are_literal_text() {
    let tokens = parse_template("a { b } c").expect("the source is well formed");
    assert_eq!(tokens, vec![TemplateData::String("a { b } c".to_string())]);
}

#[test]
fn fragment_ends_at_the_first_closing_pair() {
    let tokens = parse_template("{{{ x }}}").expect("the source is well formed");
    assert_eq!(
        tokens,
        vec![
            TemplateData::Code("{{ x }".to_string()),
            TemplateData::String("}".to_string()),
        ]
    );
}

#[test]
fn unterminated_fragment_reports_where_it_opens() {
    let error = parse_template("Hello {{ unclosed").unwrap_err();
    assert!(matches!(error, Error::ParseError(_)));
    assert_eq!(
        error.to_string(),
        "Parse error: Unexpected end of input while parsing key (fragment opened at offset 6)"
    );
    let at_start = parse_template("{{").unwrap_err();
    assert_eq!(
        at_start.to_string(),
        "Parse error: Unexpected end of input while parsing key (fragment opened at offset 0)"
    );
    let later = parse_template("0123456789ab{{ x }").unwrap_err();
    assert_eq!(
        later.to_string(),
        "Parse error: Unexpected end of input while parsing key (fragment opened at offset 12)"
    );
}

#[test]
fn offsets_count_bytes() {
    let error = parse_template("\u{e9}{{ x").unwrap_err();
    assert_eq!(
        error.to_string(),
        "Parse error: Unexpected end of input while parsing key (fragment opened at offset 2)"
    );
    let source = "\u{1f600}a\u{20ac}{{ x }";
    let error = parse_template(source).unwrap_err();
    assert_eq!(
        error.to_string(),
        format!(
            "Parse error: Unexpected end of input while parsing key (fragment opened at offset {})",
            source.find("{{").expect("the delimiter is there")
        )
    );
    assert_eq!(source.find("{{"), Some(8));
}

#[test]
fn error_repeats_after_the_end() {
    let mut parser = Parser::new("{{ x");
    assert!(parser.next().expect("an error").is_err());
    assert!(parser.next().expect("the same error").is_err());
}

#[test]
fn as_str_gives_the_text_of_both_kinds() {
    assert_eq!(TemplateData::String("abc".to_string()).as_str(), "abc");
    assert_eq!(TemplateData::Code("{ x }".to_string()).as_str(), "{ x }");
}

#[test]
fn errors_show_their_kind() {
    assert_eq!(Error::ParseError("p".to_string()).to_string(), "Parse error: p");
    assert_eq!(Error::RenderError("r".to_string()).to_string(), "Render error: r");
    assert_eq!(
        Error::TemplateNotFound("n".to_string()).to_string(),
        "Template not found: n"
    );
    assert_eq!(
        Error::TemplateReadError("e".to_string()).to_string(),
        "Template read error: e"
    );
    assert_eq!(Error::InvalidSyntax("s".to_string()).to_string(), "Invalid syntax: s");
}
