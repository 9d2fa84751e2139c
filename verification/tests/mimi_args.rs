use deimos::mimi::args::split_assignment;
use deimos::mimi::format::Formatter;

#[test]
fn splits_at_the_first_equals() {
    assert_eq!(split_assignment("foo=bar"), Some(("foo".to_owned(), "bar".to_owned())));
    assert_eq!(split_assignment("a=b=c"), Some(("a".to_owned(), "b=c".to_owned())));
    assert_eq!(split_assignment("=x"), Some(("".to_owned(), "x".to_owned())));
    assert_eq!(split_assignment("novalue"), None);
}

#[test]
fn parse_error_describes_itself() {
    let err = Formatter::new("%[red]{x").unwrap_err();
    assert_eq!(err.description(), "format string error");
    assert_eq!(err.position(), 8);
}
