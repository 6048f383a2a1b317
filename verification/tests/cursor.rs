use template_parse::state::ParseState;
use template_parse::{parse, ParseErrorKind, Position};

fn pos(line: u32, utf16_col: u32) -> Position {
    Position { line, utf16_col }
}

/// Re-derive the zero-based line and UTF-16 column from scratch, byte by
/// byte, as an independent reference for the engine's incremental tracking.
fn rederive(prefix: &str) -> (u32, u32) {
    let mut line: u32 = 0;
    let mut col: u32 = 0;
    for c in prefix.chars() {
        if c == '\n' {
            line += 1;
            col = 0;
        } else {
            col += c.encode_utf16(&mut [0u16; 2]).len() as u32;
        }
    }
    (line, col)
}

#[test]
fn position_monotonicity_and_rederivation() {
    let src = "ab\ncd😀e\n\nf🌍";
    let mut ps = ParseState::new("TEST", src);
    let mut consumed = String::new();
    let mut last = ps.position();
    assert_eq!((last.line, last.utf16_col), (0, 0));
    while let Some(c) = ps.next() {
        consumed.push(c);
        let now = ps.position();
        // non-decreasing in (line, column) order
        assert!(last.is_at_or_before(&now));
        // aligned with a from-scratch re-derivation
        assert_eq!((now.line, now.utf16_col), rederive(&consumed));
        last = now;
    }
    assert!(ps.ended());
}

#[test]
fn utf16_column_counting() {
    // An astral-plane character counts as two UTF-16 units: the ASCII text
    // after it sits at the cumulative UTF-16 count, not the char count (2)
    // and not the byte count (5).
    let src = "a😀b";
    let mut ps = ParseState::new("TEST", src);
    assert_eq!(ps.next(), Some('a'));
    assert_eq!(ps.next(), Some('😀'));
    assert_eq!(ps.position(), pos(0, 3));
    assert_eq!(ps.next(), Some('b'));
    assert_eq!(ps.position(), pos(0, 4));
}

#[test]
fn backtracking_purity() {
    let src = "hello\nworld";
    let ps = ParseState::new("TEST", src);
    let (mut ps, _) = ps.try_parse(|mut st: ParseState| -> (ParseState, Option<()>) {
        st.skip_until_before("world");
        (st, None)
    });
    assert_eq!(ps.cur_index, 0);
    assert_eq!(ps.position(), pos(0, 0));
    assert_eq!(ps.cur_str(), src);
    // a successful step keeps the advanced cursor
    let (ps, r) = ps.try_parse(|mut st: ParseState| {
        let skipped = st.skip_until_before("world").map(str::to_string);
        (st, skipped)
    });
    assert_eq!(r.as_deref(), Some("hello\n"));
    assert_eq!(ps.position(), pos(1, 0));
}

#[test]
fn diagnostic_survival_under_backtracking() {
    let src = "ABC";
    let ps = ParseState::new("TEST", src);
    let (ps, r) = ps.try_parse(|mut st: ParseState| -> (ParseState, Option<()>) {
        st.next();
        st.add_warning_at_current_position(ParseErrorKind::AvoidUppercaseLetters);
        (st, None)
    });
    assert_eq!(r, None);
    assert_eq!(ps.position(), pos(0, 0));
    let warnings = ps.warnings();
    assert_eq!(warnings.len(), 1);
    assert_eq!(warnings[0].kind, ParseErrorKind::AvoidUppercaseLetters);
    assert_eq!(warnings[0].location, pos(0, 1)..pos(0, 1));
}

#[test]
fn negative_lookahead_disambiguation() {
    let mut ps = ParseState::new("TEST", "{{{");
    assert_eq!(ps.consume_str_except_followed("{{", &["{"]), None);
    assert_eq!(ps.cur_index, 0);
    assert_eq!(ps.position(), pos(0, 0));

    let mut ps = ParseState::new("TEST", "{{x");
    let span = ps.consume_str_except_followed("{{", &["{"]);
    assert_eq!(span, Some(pos(0, 0)..pos(0, 2)));
    assert_eq!(ps.cur_index, 2);
    assert_eq!(ps.cur_str(), "x");
}

#[test]
fn negative_lookahead_char_predicate() {
    let mut ps = ParseState::new("TEST", "{{{");
    assert_eq!(ps.consume_str_except_followed_char("{{", |c| c == '{'), None);
    assert_eq!(ps.cur_index, 0);

    let mut ps = ParseState::new("TEST", "{{x");
    let span = ps.consume_str_except_followed_char("{{", |c| c == '{');
    assert_eq!(span, Some(pos(0, 0)..pos(0, 2)));

    // a match at the exact end of input has no follower to reject
    let mut ps = ParseState::new("TEST", "{{");
    let span = ps.consume_str_except_followed_char("{{", |c| c == '{');
    assert_eq!(span, Some(pos(0, 0)..pos(0, 2)));
    assert!(ps.ended());
}

#[test]
fn end_of_input_safety() {
    let mut ps = ParseState::new("TEST", "ab");
    assert_eq!(ps.peek_n(3), None);
    assert_eq!(ps.peek_n(2), Some(vec!['a', 'b']));
    assert_eq!(ps.peek(5), None);
    ps.next();
    ps.next();
    assert!(ps.ended());
    assert_eq!(ps.next_char_as_str(), "");
    assert_eq!(ps.next(), None);
    assert_eq!(ps.position(), pos(0, 2));
}

#[test]
fn skip_until_before_scenario() {
    let mut ps = ParseState::new("TEST", "  abc{{until}}");
    let skipped = ps.skip_until_before("{{");
    assert_eq!(skipped, Some("  abc"));
    assert_eq!(ps.cur_str(), "{{until}}");
    assert_eq!(ps.position(), pos(0, 5));
}

#[test]
fn skip_until_before_not_found() {
    let mut ps = ParseState::new("TEST", "abc");
    assert_eq!(ps.skip_until_before("{{"), None);
    assert!(ps.ended());
    assert_eq!(ps.position(), pos(0, 3));
}

#[test]
fn skip_until_after_walks_delimiters() {
    let mut ps = ParseState::new("TEST", "a|b|c");
    assert_eq!(ps.skip_until_after("|"), Some("a"));
    assert_eq!(ps.cur_str(), "b|c");
    assert_eq!(ps.skip_until_after("|"), Some("b"));
    assert_eq!(ps.cur_str(), "c");
    assert_eq!(ps.skip_until_after("|"), None);
    assert!(ps.ended());
}

#[test]
fn skip_bytes_lands_on_char_boundaries() {
    let mut ps = ParseState::new("TEST", "héllo");
    // 'h' is one byte, 'é' two: three bytes make two characters
    ps.skip_bytes(3);
    assert_eq!(ps.cur_index, 2);
    assert_eq!(ps.position(), pos(0, 2));
    assert_eq!(ps.cur_str(), "llo");
}

#[test]
fn skip_whitespace_spans() {
    let mut ps = ParseState::new("TEST", "  \na b");
    assert_eq!(ps.skip_whitespace(), Some(pos(0, 0)..pos(1, 0)));
    assert_eq!(ps.next(), Some('a'));
    assert_eq!(ps.skip_whitespace(), Some(pos(1, 1)..pos(1, 2)));
    assert_eq!(ps.next(), Some('b'));
    assert_eq!(ps.skip_whitespace(), None);
    assert!(ps.ended());
}

#[test]
fn consume_str_and_peeks() {
    let mut ps = ParseState::new("TEST", "abcd");
    assert!(ps.peek_str("ab"));
    assert!(!ps.peek_str("bc"));
    assert_eq!(ps.peek(0), Some('a'));
    assert_eq!(ps.peek(2), Some('c'));
    assert_eq!(ps.consume_str("zz"), None);
    assert_eq!(ps.consume_str("ab"), Some(pos(0, 0)..pos(0, 2)));
    assert_eq!(ps.cur_str(), "cd");
}

#[test]
fn auto_whitespace_toggle() {
    let ps = ParseState::new("TEST", "  x  y");
    assert!(!ps.auto_skip_whitespace);
    let (ps, c) = ps.parse_on_auto_whitespace(|mut st: ParseState| {
        assert!(st.auto_skip_whitespace);
        let c = st.next();
        (st, c)
    });
    assert_eq!(c, Some('x'));
    assert!(!ps.auto_skip_whitespace);
    // with the toggle off, whitespace is significant again
    let (mut ps, c) = ps.parse_off_auto_whitespace(|mut st: ParseState| {
        let c = st.next();
        (st, c)
    });
    assert_eq!(c, Some(' '));
    assert_eq!(ps.next(), Some(' '));
    assert_eq!(ps.next(), Some('y'));
}

#[test]
fn peek_applies_auto_whitespace_permanently() {
    let mut ps = ParseState::new("TEST", "  ab");
    ps.auto_skip_whitespace = true;
    assert!(ps.peek_str("ab"));
    // the whitespace skip is applied to the cursor, not undone
    assert_eq!(ps.cur_index, 2);
    assert_eq!(ps.position(), pos(0, 2));
}

#[test]
fn scope_stack_shadowing() {
    let mut ps = ParseState::new("TEST", "");
    let span = pos(0, 0)..pos(0, 0);
    ps.push_scope(String::from("item"), span.clone());
    ps.push_scope(String::from("index"), span.clone());
    ps.push_scope(String::from("item"), span.clone());
    assert_eq!(ps.lookup_scope("item"), Some(2));
    assert_eq!(ps.lookup_scope("index"), Some(1));
    assert_eq!(ps.lookup_scope("other"), None);
    let popped = ps.pop_scope();
    assert_eq!(popped.map(|entry| entry.0), Some(String::from("item")));
    assert_eq!(ps.lookup_scope("item"), Some(0));
    ps.pop_scope();
    ps.pop_scope();
    assert_eq!(ps.pop_scope(), None);
}

#[test]
fn dynamic_tree_counter() {
    let mut ps = ParseState::new("TEST", "");
    assert_eq!(ps.inside_dynamic_tree(), 0);
    ps.enter_dynamic_tree();
    ps.enter_dynamic_tree();
    assert_eq!(ps.inside_dynamic_tree(), 2);
    ps.exit_dynamic_tree();
    assert_eq!(ps.inside_dynamic_tree(), 1);
    ps.exit_dynamic_tree();
    assert_eq!(ps.inside_dynamic_tree(), 0);
}

#[test]
fn warnings_are_ordered_and_drainable() {
    let mut ps = ParseState::new("TEST", "abc");
    ps.add_warning(
        ParseErrorKind::UnrecognizedTag,
        pos(0, 0)..pos(0, 1),
    );
    ps.next();
    ps.add_warning_at_current_position(ParseErrorKind::MissingEndTag);
    let listed = ps.warnings();
    assert_eq!(listed.len(), 2);
    assert_eq!(listed[0].kind, ParseErrorKind::UnrecognizedTag);
    assert_eq!(listed[1].kind, ParseErrorKind::MissingEndTag);
    assert_eq!(listed[1].location, pos(0, 1)..pos(0, 1));
    assert_eq!(listed[0].path, "TEST");
    let drained = ps.take_warnings();
    assert_eq!(drained.len(), 2);
    assert_eq!(drained[0].kind, ParseErrorKind::UnrecognizedTag);
    assert!(ps.warnings().is_empty());
}

#[test]
fn code_slice_and_cur_index() {
    let mut ps = ParseState::new("TEST", "hello");
    ps.next();
    ps.next();
    assert_eq!(ps.cur_index(), 2);
    assert_eq!(ps.code_slice(1..4), "ell");
    assert_eq!(ps.cur_str(), "llo");
    assert!(!ps.ended());
}

#[test]
fn parse_entry_point() {
    let (skipped, ps) = parse("TEST", "  abc{{until}}", |mut st: ParseState| {
        let skipped = st.skip_until_before("{{").map(str::to_string);
        (st, skipped)
    });
    assert_eq!(skipped.as_deref(), Some("  abc"));
    assert_eq!(ps.position(), pos(0, 5));
    assert_eq!(ps.path, "TEST");
    assert!(ps.warnings().is_empty());
}

#[test]
fn fresh_session_shape() {
    let ps = ParseState::new("some/path", "body");
    assert_eq!(ps.path, "some/path");
    assert_eq!(ps.cur_index, 0);
    assert_eq!(ps.position(), pos(0, 0));
    assert!(ps.scopes.is_empty());
    assert_eq!(ps.inside_dynamic_tree, 0);
    assert!(!ps.auto_skip_whitespace);
    assert!(ps.warnings().is_empty());
    assert_eq!(ps.cur_str(), "body");
}
