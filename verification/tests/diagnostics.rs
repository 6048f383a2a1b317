use template_parse::{ParseError, ParseErrorKind, ParseErrorLevel, Position};
use template_parse::position::{is_whitespace_char, span_is_at_or_before};

fn all_kinds() -> Vec<ParseErrorKind> {
    vec![
        ParseErrorKind::UnexpectedCharacter,
        ParseErrorKind::UnexpectedExpressionCharacter,
        ParseErrorKind::UnrecognizedTag,
        ParseErrorKind::MissingExpressionEnd,
        ParseErrorKind::IllegalEntity,
        ParseErrorKind::IncompleteTag,
        ParseErrorKind::MissingEndTag,
        ParseErrorKind::IllegalNamePrefix,
        ParseErrorKind::InvalidAttributePrefix,
        ParseErrorKind::InvalidAttributeName,
        ParseErrorKind::InvalidAttributeValue,
        ParseErrorKind::InvalidAttribute,
        ParseErrorKind::DuplicatedAttribute,
        ParseErrorKind::DuplicatedName,
        ParseErrorKind::AvoidUppercaseLetters,
        ParseErrorKind::UnexpectedWhitespace,
        ParseErrorKind::MissingAttributeValue,
        ParseErrorKind::DataBindingNotAllowed,
        ParseErrorKind::InvalidIdentifier,
        ParseErrorKind::InvalidScopeName,
        ParseErrorKind::ChildNodesNotAllowed,
        ParseErrorKind::IllegalEscapeSequence,
        ParseErrorKind::IncompleteConditionExpression,
        ParseErrorKind::UnmatchedBracket,
        ParseErrorKind::UnmatchedParenthesis,
        ParseErrorKind::MissingModuleName,
        ParseErrorKind::MissingSourcePath,
        ParseErrorKind::UnsupportedSyntax,
    ]
}

fn err_at(kind: ParseErrorKind, a: (u32, u32), b: (u32, u32)) -> ParseError {
    ParseError {
        path: String::from("TEST"),
        kind,
        location: Position { line: a.0, utf16_col: a.1 }..Position { line: b.0, utf16_col: b.1 },
    }
}

#[test]
fn severity_totality() {
    for kind in all_kinds() {
        let level = kind.level();
        assert!(matches!(
            level,
            ParseErrorLevel::Note
                | ParseErrorLevel::Warn
                | ParseErrorLevel::Error
                | ParseErrorLevel::Fatal
        ));
        let err = err_at(kind, (0, 0), (0, 0));
        let prevents = err.prevent_success();
        let is_error_or_fatal =
            matches!(level, ParseErrorLevel::Error | ParseErrorLevel::Fatal);
        assert_eq!(prevents, is_error_or_fatal);
    }
}

#[test]
fn stable_codes() {
    for (i, kind) in all_kinds().into_iter().enumerate() {
        assert_eq!(kind.code(), 0x10001 + i as u32);
        assert_eq!(err_at(kind, (0, 0), (0, 0)).code(), 0x10001 + i as u32);
    }
}

#[test]
fn severity_table_spot_checks() {
    assert_eq!(ParseErrorKind::UnexpectedCharacter.level(), ParseErrorLevel::Fatal);
    assert_eq!(ParseErrorKind::UnrecognizedTag.level(), ParseErrorLevel::Warn);
    assert_eq!(ParseErrorKind::InvalidAttributeValue.level(), ParseErrorLevel::Note);
    assert_eq!(ParseErrorKind::MissingEndTag.level(), ParseErrorLevel::Error);
    assert_eq!(ParseErrorKind::UnsupportedSyntax.level(), ParseErrorLevel::Error);
    assert_eq!(ParseErrorKind::UnmatchedParenthesis.level(), ParseErrorLevel::Fatal);
}

#[test]
fn severity_scale_is_ordered() {
    assert!(ParseErrorLevel::Note < ParseErrorLevel::Warn);
    assert!(ParseErrorLevel::Warn < ParseErrorLevel::Error);
    assert!(ParseErrorLevel::Error < ParseErrorLevel::Fatal);
    assert!(ParseErrorLevel::Note < ParseErrorLevel::Fatal);
    assert!(ParseErrorLevel::Warn <= ParseErrorLevel::Warn);
    assert!(!(ParseErrorLevel::Fatal < ParseErrorLevel::Note));
}

#[test]
fn static_messages() {
    assert_eq!(
        ParseErrorKind::UnexpectedCharacter.static_message(),
        "unexpected character"
    );
    assert_eq!(
        ParseErrorKind::DataBindingNotAllowed.static_message(),
        "data bindings are not allowed for this attribute"
    );
    assert_eq!(
        ParseErrorKind::UnsupportedSyntax.static_message(),
        "this syntax has not been supported yet"
    );
    for kind in all_kinds() {
        assert!(!kind.static_message().is_empty());
    }
}

#[test]
fn display_format() {
    let err = err_at(ParseErrorKind::UnexpectedCharacter, (0, 0), (0, 0));
    assert_eq!(
        err.display_string(),
        "template parsing error at TEST:1:1-1:1: unexpected character"
    );
    let err = err_at(ParseErrorKind::MissingEndTag, (9, 99), (12, 0));
    assert_eq!(
        err.display_string(),
        "template parsing error at TEST:10:100-13:1: missing end tag"
    );
}

#[test]
fn error_level_via_kind() {
    let err = err_at(ParseErrorKind::IllegalEntity, (1, 2), (1, 4));
    assert_eq!(err.level(), ParseErrorLevel::Error);
    assert_eq!(err.kind, ParseErrorKind::IllegalEntity);
    let copy = err.clone();
    assert_eq!(copy, err);
}

#[test]
fn span_ordering() {
    let span = |a: (u32, u32), b: (u32, u32)| {
        Position { line: a.0, utf16_col: a.1 }..Position { line: b.0, utf16_col: b.1 }
    };
    assert!(span_is_at_or_before(&span((0, 0), (0, 5)), &span((0, 1), (0, 2))));
    assert!(span_is_at_or_before(&span((0, 1), (0, 2)), &span((0, 1), (0, 3))));
    assert!(!span_is_at_or_before(&span((0, 1), (0, 3)), &span((0, 1), (0, 2))));
    assert!(span_is_at_or_before(&span((1, 9), (2, 0)), &span((2, 0), (2, 0))));
    assert!(span_is_at_or_before(&span((1, 1), (1, 2)), &span((1, 1), (1, 2))));
}

#[test]
fn whitespace_classification_matches_unicode() {
    for u in 0u32..=0x3001 {
        if let Some(c) = char::from_u32(u) {
            assert_eq!(is_whitespace_char(c), c.is_whitespace(), "mismatch at U+{:04X}", u);
        }
    }
    assert!(!is_whitespace_char('\u{FEFF}'));
    assert!(!is_whitespace_char('😀'));
}

#[test]
fn position_accessors() {
    let pos = Position { line: 3, utf16_col: 7 };
    assert_eq!(pos.line_col_utf16(), (3, 7));
    let earlier = Position { line: 3, utf16_col: 6 };
    let later = Position { line: 4, utf16_col: 0 };
    assert!(earlier.is_at_or_before(&pos));
    assert!(pos.is_at_or_before(&later));
    assert!(pos.is_at_or_before(&pos));
    assert!(!later.is_at_or_before(&pos));
}
