use std::borrow::Cow;

use pundoc::cskvp::{Cskvp, Diagnostic, Parser, Spanned, Value};
use pundoc::error::DiagnosticCode;
use pundoc::range::SourceRange;
use quoted_string::test_utils::TestSpec;

fn span(start: usize, end: usize) -> SourceRange {
    SourceRange { start, end }
}

#[test]
fn test_parser() {
    let s = r#"foo, bar = " baz, \"qux\"", quux, corge="grault"#;
    let mut diagnostics = Vec::new();
    let mut parser = Parser::new(s.to_string(), span(0, s.len()));
    assert_eq!(
        parser.next(&mut diagnostics).unwrap(),
        Some(Spanned::new(Value::Single("foo".to_string()), span(0, 3)))
    );
    assert_eq!(
        parser.next(&mut diagnostics).unwrap(),
        Some(Spanned::new(
            Value::Double("bar".to_string(), r#" baz, "qux""#.to_string()),
            span(5, 26)
        ))
    );
    assert_eq!(
        parser.next(&mut diagnostics).unwrap(),
        Some(Spanned::new(Value::Single("quux".to_string()), span(28, 32)))
    );
    assert_eq!(parser.next(&mut diagnostics), Err(Diagnostic));
}

#[test]
fn test_quoted_string() {
    let parsed = quoted_string::parse::<TestSpec>(r#""foo = \"bar\"" tail"#).unwrap();
    assert_eq!(parsed.quoted_string, r#""foo = \"bar\"""#);
    assert_eq!(parsed.tail, " tail");
    let content = quoted_string::to_content::<TestSpec>(parsed.quoted_string).unwrap();
    let expected: Cow<'_, str> = Cow::Owned(r#"foo = "bar""#.to_string());
    assert_eq!(content, expected);
    let content = quoted_string::to_content::<TestSpec>(r#""foo = bar""#).unwrap();
    assert_eq!(content, Cow::Borrowed("foo = bar"));
}

#[test]
fn invalid_quoted_string_is_reported() {
    let s = r#"a, "unterminated"#;
    let mut diagnostics = Vec::new();
    let mut parser = Parser::new(s.to_string(), span(0, s.len()));
    assert_eq!(
        parser.next(&mut diagnostics).unwrap(),
        Some(Spanned::new(Value::Single("a".to_string()), span(0, 1)))
    );
    assert_eq!(parser.next(&mut diagnostics), Err(Diagnostic));
    assert_eq!(diagnostics.len(), 1);
    assert!(matches!(diagnostics[0], DiagnosticCode::InvalidDoubleQuotedString));
}

#[test]
fn misplaced_delimiter_ends_parsing() {
    let s = "a b";
    let mut diagnostics = Vec::new();
    let mut parser = Parser::new(s.to_string(), span(0, s.len()));
    assert_eq!(
        parser.next(&mut diagnostics).unwrap(),
        Some(Spanned::new(Value::Single("a b".to_string()), span(0, 3)))
    );
    let s = r#"k="v" w"#;
    let mut parser = Parser::new(s.to_string(), span(0, s.len()));
    assert_eq!(parser.next(&mut diagnostics), Ok(None));
    assert!(matches!(diagnostics[0], DiagnosticCode::InvalidCskvp));
    let s = r#""a" b"#;
    let mut parser = Parser::new(s.to_string(), span(0, s.len()));
    assert_eq!(parser.next(&mut diagnostics), Ok(None));
    assert!(matches!(diagnostics[1], DiagnosticCode::InvalidCskv));
}

#[test]
fn element_config_takes_label_caption_and_figure() {
    let s = r#"#Fig, caption="A caption", figure=false, width=3cm, other"#;
    let mut diagnostics = Vec::new();
    let mut cskvp = Cskvp::new(s.to_string(), span(0, s.len() + 2), span(1, s.len() + 1), &mut diagnostics);
    assert!(diagnostics.is_empty());
    assert!(cskvp.has_label());
    let label = cskvp.take_label().unwrap();
    assert_eq!(label.value, "Fig");
    assert_eq!(label.span, span(1, 5));
    assert_eq!(cskvp.take_caption().unwrap().value, "A caption");
    assert_eq!(cskvp.take_figure().unwrap().value, false);
    assert_eq!(cskvp.take_double("width").unwrap().value, "3cm");
    assert_eq!(cskvp.take_double("width"), None);
    let notes = cskvp.unused_attributes();
    assert_eq!(notes.len(), 1);
    assert_eq!(notes[0].value, "unknown attribute `other`");
}

#[test]
fn several_figure_settings_are_refused() {
    let s = "figure, nofigure";
    let mut diagnostics = Vec::new();
    let mut cskvp = Cskvp::new(s.to_string(), span(0, 16), span(0, 16), &mut diagnostics);
    assert_eq!(cskvp.take_figure(), None);
    assert_eq!(diagnostics.len(), 1);
    assert!(matches!(diagnostics[0], DiagnosticCode::MultipleFigureKeys));
}

#[test]
fn two_labels_keep_the_last() {
    let s = "#a, #b";
    let mut diagnostics = Vec::new();
    let mut cskvp = Cskvp::new(s.to_string(), span(0, 6), span(0, 6), &mut diagnostics);
    assert_eq!(cskvp.take_label().unwrap().value, "b");
    assert!(matches!(diagnostics[0], DiagnosticCode::FoundTwoLabels));
}

#[test]
fn invalid_figure_value_is_reported() {
    let s = "figure=maybe";
    let mut diagnostics = Vec::new();
    let mut cskvp = Cskvp::new(s.to_string(), span(0, 12), span(0, 12), &mut diagnostics);
    assert_eq!(cskvp.take_figure(), None);
    assert!(matches!(diagnostics[0], DiagnosticCode::InvalidFigureValue));
}
