use faithful_display::faithful_display;
use faithful_display::Delimiter;
use faithful_display::InconsistentSpan;
use faithful_display::Position;
use faithful_display::Span;
use faithful_display::Token;
use faithful_display::TokenStream;

fn span(l1: usize, c1: usize, l2: usize, c2: usize) -> Span {
    Span {
        start: Position { line: l1, column: c1 },
        end: Position { line: l2, column: c2 },
    }
}

fn ident(text: &str, l1: usize, c1: usize, l2: usize, c2: usize) -> Token {
    Token::Ident { text: text.to_string(), span: span(l1, c1, l2, c2) }
}

fn literal(text: &str, l1: usize, c1: usize, l2: usize, c2: usize) -> Token {
    Token::Literal { text: text.to_string(), span: span(l1, c1, l2, c2) }
}

fn punct(ch: char, l1: usize, c1: usize, l2: usize, c2: usize) -> Token {
    Token::Punct { ch, span: span(l1, c1, l2, c2) }
}

fn stream(tokens: Vec<Token>) -> TokenStream {
    TokenStream { tokens }
}

#[test]
fn empty_stream_renders_empty() {
    let s = stream(vec![]);
    assert_eq!(faithful_display(&s).unwrap(), "");
}

#[test]
fn same_line_spacing_two_idents() {
    let s = stream(vec![ident("foo", 1, 0, 1, 3), ident("bar", 1, 5, 1, 8)]);
    assert_eq!(faithful_display(&s).unwrap(), "foo  bar");
}

#[test]
fn cross_line_spacing_two_idents() {
    let s = stream(vec![ident("foo", 1, 0, 1, 3), ident("bar", 2, 2, 2, 5)]);
    assert_eq!(faithful_display(&s).unwrap(), "foo\n  bar");
}

#[test]
fn adjacent_tokens_no_space() {
    let s = stream(vec![ident("foo", 1, 0, 1, 3), punct('!', 1, 3, 1, 4)]);
    assert_eq!(faithful_display(&s).unwrap(), "foo!");
}

#[test]
fn several_blank_lines_kept() {
    let s = stream(vec![ident("a", 1, 0, 1, 1), ident("b", 4, 0, 4, 1)]);
    assert_eq!(faithful_display(&s).unwrap(), "a\n\n\nb");
}

#[test]
fn first_token_indentation_is_its_own() {
    // The cursor is seeded at the first token's start, so a token that sits
    // at column 7 gets no leading spaces at the top level.
    let s = stream(vec![ident("deep", 3, 7, 3, 11)]);
    assert_eq!(faithful_display(&s).unwrap(), "deep");
}

#[test]
fn literal_text_kept_verbatim() {
    let s = stream(vec![literal("3.14", 1, 0, 1, 4), literal("\"str\"", 1, 6, 1, 11)]);
    assert_eq!(faithful_display(&s).unwrap(), "3.14  \"str\"");
}

#[test]
fn parenthesis_group_spacing() {
    let inner = vec![
        ident("a", 1, 2, 1, 3),
        punct(',', 1, 3, 1, 4),
        ident("b", 1, 5, 1, 6),
    ];
    let s = stream(vec![Token::Group {
        delimiter: Delimiter::Parenthesis,
        open: span(1, 0, 1, 1),
        close: span(1, 7, 1, 8),
        inner: stream(inner),
    }]);
    assert_eq!(faithful_display(&s).unwrap(), "( a, b )");
}

#[test]
fn brace_group_across_lines() {
    let inner = vec![ident("bar", 2, 2, 2, 5), punct(';', 2, 5, 2, 6)];
    let s = stream(vec![
        ident("foo", 1, 0, 1, 3),
        Token::Group {
            delimiter: Delimiter::Brace,
            open: span(1, 4, 1, 5),
            close: span(3, 0, 3, 1),
            inner: stream(inner),
        },
    ]);
    assert_eq!(faithful_display(&s).unwrap(), "foo {\n  bar;\n}");
}

#[test]
fn bracket_group() {
    let inner = vec![literal("1", 1, 1, 1, 2)];
    let s = stream(vec![Token::Group {
        delimiter: Delimiter::Bracket,
        open: span(1, 0, 1, 1),
        close: span(1, 2, 1, 3),
        inner: stream(inner),
    }]);
    assert_eq!(faithful_display(&s).unwrap(), "[1]");
}

#[test]
fn empty_group() {
    let s = stream(vec![Token::Group {
        delimiter: Delimiter::Parenthesis,
        open: span(1, 0, 1, 1),
        close: span(1, 1, 1, 2),
        inner: stream(vec![]),
    }]);
    assert_eq!(faithful_display(&s).unwrap(), "()");
}

#[test]
fn invisible_group_adds_no_brackets() {
    // The group is invisible, but its contents still reconcile positions:
    // the two identifiers keep their recorded spacing.
    let inner = vec![ident("a", 1, 0, 1, 1), ident("b", 1, 3, 1, 4)];
    let s = stream(vec![Token::Group {
        delimiter: Delimiter::Invisible,
        open: span(1, 0, 1, 0),
        close: span(1, 4, 1, 4),
        inner: stream(inner),
    }]);
    assert_eq!(faithful_display(&s).unwrap(), "a  b");
}

#[test]
fn nested_groups() {
    let innermost = vec![ident("x", 1, 2, 1, 3)];
    let inner = vec![Token::Group {
        delimiter: Delimiter::Bracket,
        open: span(1, 1, 1, 2),
        close: span(1, 3, 1, 4),
        inner: stream(innermost),
    }];
    let s = stream(vec![Token::Group {
        delimiter: Delimiter::Parenthesis,
        open: span(1, 0, 1, 1),
        close: span(1, 5, 1, 6),
        inner: stream(inner),
    }]);
    assert_eq!(faithful_display(&s).unwrap(), "([x] )");
}

#[test]
fn round_trip_of_tokenized_source() {
    // Hand-tokenized from the source text below, the way a span-recording
    // tokenizer would: rendering reproduces the slice of the source from the
    // first token through the last, byte for byte.
    let source = "fn main() {\n    let x = 1;\n    x\n}";
    let args = Token::Group {
        delimiter: Delimiter::Parenthesis,
        open: span(1, 7, 1, 8),
        close: span(1, 8, 1, 9),
        inner: stream(vec![]),
    };
    let body = Token::Group {
        delimiter: Delimiter::Brace,
        open: span(1, 10, 1, 11),
        close: span(4, 0, 4, 1),
        inner: stream(vec![
            ident("let", 2, 4, 2, 7),
            ident("x", 2, 8, 2, 9),
            punct('=', 2, 10, 2, 11),
            literal("1", 2, 12, 2, 13),
            punct(';', 2, 13, 2, 14),
            ident("x", 3, 4, 3, 5),
        ]),
    };
    let s = stream(vec![
        ident("fn", 1, 0, 1, 2),
        ident("main", 1, 3, 1, 7),
        args,
        body,
    ]);
    assert_eq!(faithful_display(&s).unwrap(), source);
}

#[test]
fn render_twice_same_output() {
    let s = stream(vec![ident("foo", 1, 0, 1, 3), ident("bar", 2, 2, 2, 5)]);
    let first = faithful_display(&s).unwrap();
    let second = faithful_display(&s).unwrap();
    assert_eq!(first, second);
    assert_eq!(first, "foo\n  bar");
}

#[test]
fn explicit_cursor_render() {
    // The embedding variant: rendering with an explicit starting cursor
    // emits the whitespace from the cursor up to the first token too.
    let s = stream(vec![ident("bar", 1, 4, 1, 7)]);
    let mut sink = String::new();
    let end = s
        .faithful_fmt(&mut sink, Position { line: 1, column: 0 })
        .unwrap();
    assert_eq!(sink, "    bar");
    assert_eq!(end, Position { line: 1, column: 7 });
}

#[test]
fn explicit_cursor_empty_stream_returns_cursor() {
    let s = stream(vec![]);
    let mut sink = String::new();
    let cur = Position { line: 2, column: 5 };
    let end = s.faithful_fmt(&mut sink, cur).unwrap();
    assert_eq!(sink, "");
    assert_eq!(end, cur);
}

#[test]
fn backward_column_is_inconsistent_span() {
    // The second token starts before the first one ends on the same line.
    let s = stream(vec![ident("foo", 1, 0, 1, 3), ident("bar", 1, 2, 1, 5)]);
    let err = faithful_display(&s).unwrap_err();
    assert_eq!(
        err,
        InconsistentSpan {
            from: Position { line: 1, column: 3 },
            to: Position { line: 1, column: 2 },
        }
    );
}

#[test]
fn backward_line_is_inconsistent_span() {
    let s = stream(vec![ident("foo", 3, 0, 3, 3), ident("bar", 2, 0, 2, 3)]);
    let err = faithful_display(&s).unwrap_err();
    assert_eq!(
        err,
        InconsistentSpan {
            from: Position { line: 3, column: 3 },
            to: Position { line: 2, column: 0 },
        }
    );
}

#[test]
fn inconsistent_span_inside_group_propagates() {
    let inner = vec![ident("a", 1, 3, 1, 4), ident("b", 1, 2, 1, 3)];
    let s = stream(vec![Token::Group {
        delimiter: Delimiter::Brace,
        open: span(1, 0, 1, 1),
        close: span(1, 8, 1, 9),
        inner: stream(inner),
    }]);
    let err = faithful_display(&s).unwrap_err();
    assert_eq!(
        err,
        InconsistentSpan {
            from: Position { line: 1, column: 4 },
            to: Position { line: 1, column: 2 },
        }
    );
}

#[test]
fn close_delimiter_before_contents_is_inconsistent_span() {
    // The closing delimiter's recorded start precedes the end of the last
    // inner token.
    let inner = vec![ident("abc", 1, 1, 1, 4)];
    let s = stream(vec![Token::Group {
        delimiter: Delimiter::Parenthesis,
        open: span(1, 0, 1, 1),
        close: span(1, 2, 1, 3),
        inner: stream(inner),
    }]);
    let err = faithful_display(&s).unwrap_err();
    assert_eq!(
        err,
        InconsistentSpan {
            from: Position { line: 1, column: 4 },
            to: Position { line: 1, column: 2 },
        }
    );
}

#[test]
fn error_aborts_but_does_not_roll_back_explicit_sink() {
    // With a caller-supplied sink, the bytes written before the failure
    // stay; the render itself reports the error.
    let s = stream(vec![ident("foo", 1, 0, 1, 3), ident("bar", 1, 1, 1, 4)]);
    let mut sink = String::new();
    let r = s.faithful_fmt(&mut sink, Position { line: 1, column: 0 });
    assert!(r.is_err());
    assert_eq!(sink, "foo");
}

#[test]
fn punctuation_renders_as_single_character() {
    let s = stream(vec![
        punct(':', 1, 0, 1, 1),
        punct(':', 1, 1, 1, 2),
        ident("x", 1, 2, 1, 3),
    ]);
    assert_eq!(faithful_display(&s).unwrap(), "::x");
}

#[test]
fn start_position_of_tokens() {
    let t = ident("foo", 2, 3, 2, 6);
    assert_eq!(t.start_position(), Position { line: 2, column: 3 });
    let g = Token::Group {
        delimiter: Delimiter::Brace,
        open: span(1, 4, 1, 5),
        close: span(3, 0, 3, 1),
        inner: stream(vec![]),
    };
    assert_eq!(g.start_position(), Position { line: 1, column: 4 });
}
