use deimos::mimi::style::{Color, Modifier, ModifierSet, Style};

#[test]
fn color_override() {
    let red_foreground = Style { foreground: Some(Color::Red), ..Style::default() };
    let green_background = Style { background: Some(Color::Green), ..Style::default() };

    assert_eq!(
        red_foreground.combine(&green_background),
        Style {
            foreground: Some(Color::Red),
            background: Some(Color::Green),
            ..Style::default()
        }
    );
    assert_eq!(
        red_foreground.combine(&green_background),
        green_background.combine(&red_foreground)
    )
}

#[test]
fn later_color_wins() {
    let red = Style { foreground: Some(Color::Red), ..Style::default() };
    let blue = Style { foreground: Some(Color::Blue), ..Style::default() };
    assert_eq!(red.combine(&blue).foreground, Some(Color::Blue));
    assert_eq!(blue.combine(&red).foreground, Some(Color::Red));
}

#[test]
fn combine_is_associative_and_has_identity() {
    let mut m = ModifierSet::new();
    m.insert(Modifier::Bold);
    let a = Style { foreground: Some(Color::Red), background: None, modifiers: m };
    let b = Style { foreground: None, background: Some(Color::Blue), ..Style::default() };
    let mut m2 = ModifierSet::new();
    m2.insert(Modifier::Underline);
    let c = Style { foreground: Some(Color::Cyan), background: None, modifiers: m2 };
    assert_eq!(a.combine(&b.combine(&c)), a.combine(&b).combine(&c));
    assert_eq!(a.combine(&Style::default()), a);
    assert_eq!(Style::default().combine(&a), a);
}

#[test]
fn two_reverses_do_not_cancel() {
    let mut m = ModifierSet::new();
    m.insert(Modifier::Reverse);
    let r = Style { modifiers: m, ..Style::default() };
    assert!(r.combine(&r).modifiers.contains(Modifier::Reverse));
}

#[test]
fn modifier_set_operations() {
    let mut m = ModifierSet::new();
    assert!(!m.contains(Modifier::Bold));
    assert!(m.insert(Modifier::Bold));
    assert!(!m.insert(Modifier::Bold));
    assert!(m.contains(Modifier::Bold));
    let mut n = ModifierSet::new();
    n.insert(Modifier::Underline);
    let u = m.union(&n);
    assert!(u.contains(Modifier::Bold) && u.contains(Modifier::Underline));
    assert!(!u.contains(Modifier::Reverse));
}
