use deimos::mimi::parse::{parse, Node};
use deimos::mimi::style::{Color, Modifier, ModifierSet, Style};

fn children(input: &str) -> Vec<Node> {
    let result = parse(input);
    if let Ok(Node::Formatted { children, .. }) = result {
        return children;
    } else {
        panic!("bad parse result {:?}", result);
    }
}

#[test]
fn no_identifier() {
    assert!(parse("foo$").is_err());
    assert!(parse("$ ").is_err());
}

#[test]
fn literal_and_variable() {
    assert_eq!(
        children("foo$bar"),
        vec![Node::Literal("foo".into()), Node::Variable("bar".into())]
    )
}

#[test]
fn variable_then_literal() {
    assert_eq!(
        children("$foo!bar"),
        vec![Node::Variable("foo".into()), Node::Literal("!bar".into())],
    )
}

#[test]
fn consecutive_variables() {
    assert_eq!(
        children("$foo$bar"),
        vec![Node::Variable("foo".into()), Node::Variable("bar".into())],
    )
}

#[test]
fn braced_variable_name() {
    assert_eq!(
        children("${foo}bar"),
        vec![Node::Variable("foo".into()), Node::Literal("bar".into())]
    )
}

#[test]
fn square_braces_dont_need_escape() {
    assert_eq!(children("[foo]"), vec![Node::Literal("[foo]".into())])
}

#[test]
fn curly_braces_need_escape() {
    assert!(parse("{foo}").is_err());
}

#[test]
fn escaped_variable() {
    assert_eq!(children("\\$foo"), vec![Node::Literal("$foo".into())])
}

#[test]
fn escaped_closing_brace() {
    let style = Style { foreground: Some(Color::Red), ..Style::default() };
    assert_eq!(
        children("%[red]{foo\\}bar}"),
        vec![Node::Formatted { style, children: vec![Node::Literal("foo}bar".into())] }]
    );
}

#[test]
fn format_string() {
    let style = Style { foreground: Some(Color::Red), ..Style::default() };
    assert_eq!(
        children("%[red]{text}"),
        vec![Node::Formatted { style, children: vec![Node::Literal("text".into())] }],
    );
}

#[test]
fn background() {
    let style = Style { background: Some(Color::White), ..Style::default() };
    assert_eq!(
        children("%[bg_white]{text}"),
        vec![Node::Formatted { style, children: vec![Node::Literal("text".into())] }]
    );
}

#[test]
fn light_color() {
    let style = Style {
        foreground: Some(Color::LightRed),
        background: Some(Color::LightGreen),
        ..Style::default()
    };
    assert_eq!(
        children("%[light_red, bg_light_green]{foo}"),
        vec![Node::Formatted { style, children: vec![Node::Literal("foo".into())] }]
    )
}

#[test]
fn multiple_colors() {
    let style = Style { foreground: Some(Color::Black), ..Style::default() };
    assert_eq!(
        children("%[red, black]{text}"),
        vec![Node::Formatted { style, children: vec![Node::Literal("text".into())] }]
    );
}

#[test]
fn attribute_spaces() {
    let style = Style {
        foreground: Some(Color::Black),
        background: Some(Color::White),
        ..Style::default()
    };
    assert_eq!(
        children("%[     bg_white,    black   ]{text}"),
        vec![Node::Formatted { style, children: vec![Node::Literal("text".into())] }]
    );
}

#[test]
fn modifiers() {
    let mut modifiers = ModifierSet::new();
    modifiers.insert(Modifier::Bold);
    let style = Style { modifiers, ..Style::default() };
    assert_eq!(
        children("%[bold]{text}"),
        vec![Node::Formatted { style, children: vec![Node::Literal("text".into())] }]
    );
}

#[test]
fn reverse_and_reset_are_attributes() {
    let mut modifiers = ModifierSet::new();
    modifiers.insert(Modifier::Reverse);
    let style = Style {
        foreground: Some(Color::Reset),
        background: Some(Color::Reset),
        modifiers,
    };
    assert_eq!(
        children("%[reverse, reset, bg_reset]{x}"),
        vec![Node::Formatted { style, children: vec![Node::Literal("x".into())] }]
    );
}

#[test]
fn nested_sections() {
    let red = Style { foreground: Some(Color::Red), ..Style::default() };
    let mut modifiers = ModifierSet::new();
    modifiers.insert(Modifier::Underline);
    let underline = Style { modifiers, ..Style::default() };
    assert_eq!(
        children("a%[red]{b%[underline]{$c}}d"),
        vec![
            Node::Literal("a".into()),
            Node::Formatted {
                style: red,
                children: vec![
                    Node::Literal("b".into()),
                    Node::Formatted { style: underline, children: vec![Node::Variable("c".into())] },
                ],
            },
            Node::Literal("d".into()),
        ]
    );
}

#[test]
fn root_has_default_style() {
    match parse("x") {
        Ok(Node::Formatted { style, .. }) => assert_eq!(style, Style::default()),
        other => panic!("unexpected {:?}", other),
    }
}

#[test]
fn error_positions() {
    assert_eq!(parse("foo$").unwrap_err().position, 4);
    assert_eq!(parse("ab}").unwrap_err().position, 2);
    assert_eq!(parse("%[nope]{x}").unwrap_err().position, 2);
    assert_eq!(parse("%[red]{x").unwrap_err().position, 8);
    assert_eq!(parse("a\\b").unwrap_err().position, 1);
    assert_eq!(parse("${foo").unwrap_err().position, 5);
}

#[test]
fn empty_and_unicode() {
    assert_eq!(children(""), vec![]);
    assert_eq!(children("héllo ✓"), vec![Node::Literal("héllo ✓".into())]);
    assert_eq!(children("\\\\\\%\\{"), vec![Node::Literal("\\%{".into())]);
}
