use std::collections::HashSet;

use deimos::mimi::format::Formatter;
use deimos::mimi::style::{Color, Modifier, ModifierSet, Style};

fn key_set(f: &Formatter) -> HashSet<String> {
    f.keys().iter().cloned().collect()
}

#[test]
fn nested() {
    let f = "$foo %[red]{$bar %[black]{$baz} %[white]{$quux}}".parse::<Formatter>().unwrap();
    let expected: HashSet<String> =
        ["foo", "bar", "baz", "quux"].iter().map(|s| s.to_string()).collect();
    assert_eq!(key_set(&f), expected);
}

#[test]
fn repeated_variable() {
    let f = "$foo $foo".parse::<Formatter>().unwrap();
    let expected: HashSet<String> = ["foo".to_owned()].into_iter().collect();
    assert_eq!(key_set(&f), expected);
    assert_eq!(f.keys().len(), 1);
}

#[test]
fn none() {
    let f = "foo bar %[red]{baz}".parse::<Formatter>().unwrap();
    assert_eq!(key_set(&f), HashSet::new());
}

fn values() -> Vec<(String, String)> {
    vec![
        ("artist".to_owned(), "Some Artist".to_owned()),
        ("title".to_owned(), "The One Good Song".to_owned()),
    ]
}

#[test]
fn spans_combine_nested_styles() {
    let f = Formatter::new("%[red]{$title %[bold, bg_blue]{by}} $artist").unwrap();
    let red = Style { foreground: Some(Color::Red), ..Style::default() };
    let mut modifiers = ModifierSet::new();
    modifiers.insert(Modifier::Bold);
    let inner = Style { foreground: Some(Color::Red), background: Some(Color::Blue), modifiers };
    assert_eq!(
        f.spans(&values()),
        vec![
            ("The One Good Song".to_owned(), red),
            (" ".to_owned(), red),
            ("by".to_owned(), inner),
            (" ".to_owned(), Style::default()),
            ("Some Artist".to_owned(), Style::default()),
        ]
    );
}

#[test]
fn ansi_output() {
    let f = Formatter::new("%[red, bold]{$title}!").unwrap();
    assert_eq!(
        f.ansi(&values()),
        "\x1b[38;5;1m\x1b[1mThe One Good Song\x1b[m!\x1b[m".to_owned()
    );
}

#[test]
fn style_ansi_sequences() {
    let s = Style {
        foreground: Some(Color::LightWhite),
        background: Some(Color::Reset),
        modifiers: ModifierSet { bold: false, underline: true, reverse: true },
    };
    assert_eq!(s.ansi(), "\x1b[38;5;15m\x1b[49m\x1b[4m\x1b[7m");
    assert_eq!(Style::default().ansi(), "");
    let bg = Style { background: Some(Color::Cyan), ..Style::default() };
    assert_eq!(bg.ansi(), "\x1b[48;5;6m");
    let reset = Style { foreground: Some(Color::Reset), ..Style::default() };
    assert_eq!(reset.ansi(), "\x1b[39m");
}

#[test]
fn parse_error_is_reported() {
    let err = "foo$".parse::<Formatter>().unwrap_err();
    assert_eq!(err.0.position, 4);
}
