//! The span-aware recursive renderer.
//!
//! The renderer walks a token tree while threading a cursor position.
//! Before emitting a token's own text it emits exactly the whitespace that
//! moves the cursor from where the last token ended to where the next token
//! starts in the source: spaces within a line, newlines plus indentation
//! across lines. The intended output is therefore byte-identical to the
//! slice of the original source text spanned by the stream, provided the
//! source used only spaces and newlines for layout.
//!
//! The expected output is defined once, as the specification functions
//! [`spec_render_token`], [`spec_render_from`] and [`spec_render`]; every
//! executable function is proved to produce exactly what they describe, or
//! the [`InconsistentSpan`] error they describe when the stream's recorded
//! positions go backward.

use vstd::prelude::*;

use crate::position::InconsistentSpan;
use crate::position::Position;
use crate::position::Span;
use crate::token::Delimiter;
use crate::token::Token;
use crate::token::TokenStream;

verus! {

/// `n` copies of the character `c`.
pub open spec fn repeat_char(c: char, n: nat) -> Seq<char> {
    Seq::new(n, |i: int| c)
}

/// The whitespace that moves the cursor from `from` to `to`, assuming `to`
/// does not precede `from` in reading order: on the same line, just the
/// missing spaces; across lines, one newline per line skipped, then spaces
/// from column zero up to the target column.
pub open spec fn whitespace_between(from: Position, to: Position) -> Seq<char> {
    if from.line == to.line {
        repeat_char(' ', (to.column - from.column) as nat)
    } else {
        repeat_char('\n', (to.line - from.line) as nat) + repeat_char(' ', to.column as nat)
    }
}

/// What rendering one leaf token yields, given the cursor position `cur`:
/// the reconciling whitespace followed by the token's own text, with the
/// cursor moving to the span's end — or the error when the recorded start
/// precedes the cursor.
pub open spec fn spec_render_leaf(text: Seq<char>, span: Span, cur: Position) -> Result<
    (Seq<char>, Position),
    InconsistentSpan,
> {
    if cur.reaches(span.start) {
        Ok((whitespace_between(cur, span.start) + text, span.end))
    } else {
        Err(InconsistentSpan { from: cur, to: span.start })
    }
}

/// What rendering one token yields, given the cursor position `cur`: the
/// emitted characters and the cursor position after the token. A group
/// contributes its opening delimiter at its recorded opening span, its inner
/// stream rendered from the end of that span, and its closing delimiter at
/// its recorded closing span; an `Invisible` delimiter contributes no
/// characters of its own but reconciles positions all the same.
pub open spec fn spec_render_token(t: Token, cur: Position) -> Result<
    (Seq<char>, Position),
    InconsistentSpan,
>
    decreases t, 1int,
{
    match t {
        Token::Ident { text, span } => spec_render_leaf(text@, span, cur),
        Token::Literal { text, span } => spec_render_leaf(text@, span, cur),
        Token::Punct { ch, span } => spec_render_leaf(seq![ch], span, cur),
        Token::Group { delimiter, open, close, inner } => {
            if !cur.reaches(open.start) {
                Err(InconsistentSpan { from: cur, to: open.start })
            } else {
                match spec_render_from(inner@, 0, open.end) {
                    Err(e) => Err(e),
                    Ok(body) => {
                        if body.1.reaches(close.start) {
                            Ok(
                                (
                                    whitespace_between(cur, open.start) + delimiter.open_text()
                                        + body.0 + whitespace_between(body.1, close.start)
                                        + delimiter.close_text(),
                                    close.end,
                                ),
                            )
                        } else {
                            Err(InconsistentSpan { from: body.1, to: close.start })
                        }
                    },
                }
            }
        },
    }
}

/// What rendering the tokens of `s` from index `i` onward yields, threading
/// the cursor: each token's end position is the next token's input cursor.
/// An exhausted stream emits nothing and leaves the cursor unchanged.
pub open spec fn spec_render_from(s: Seq<Token>, i: int, cur: Position) -> Result<
    (Seq<char>, Position),
    InconsistentSpan,
>
    decreases s, s.len() - i,
{
    if i < 0 || i >= s.len() {
        Ok((Seq::empty(), cur))
    } else {
        match spec_render_token(s[i], cur) {
            Err(e) => Err(e),
            Ok(head) => match spec_render_from(s, i + 1, head.1) {
                Err(e) => Err(e),
                Ok(rest) => Ok((head.0 + rest.0, rest.1)),
            },
        }
    }
}

/// What rendering a whole stream yields, with the cursor seeded at `cur`.
pub open spec fn spec_render_stream(s: Seq<Token>, cur: Position) -> Result<
    (Seq<char>, Position),
    InconsistentSpan,
> {
    spec_render_from(s, 0, cur)
}

/// What a top-level render of `s` yields: the empty sequence for an empty
/// stream, and otherwise the stream rendered with the cursor seeded at the
/// first token's own start, so the first token carries no leading
/// reconciliation beyond its own indentation.
pub open spec fn spec_render(s: Seq<Token>) -> Result<Seq<char>, InconsistentSpan> {
    if s.len() == 0 {
        Ok(Seq::empty())
    } else {
        match spec_render_from(s, 0, s[0].start()) {
            Ok(out) => Ok(out.0),
            Err(e) => Err(e),
        }
    }
}

/// `r` with `prefix` prepended to its emitted characters; errors pass
/// through. Used to relate a partially performed render to the whole one.
pub open spec fn prefixed(prefix: Seq<char>, r: Result<(Seq<char>, Position), InconsistentSpan>) -> Result<
    (Seq<char>, Position),
    InconsistentSpan,
> {
    match r {
        Ok(out) => Ok((prefix + out.0, out.1)),
        Err(e) => Err(e),
    }
}

/// A sequence is a prefix of itself: what a failed render promises about a
/// sink it did not touch.
proof fn lemma_prefix_refl(a: Seq<char>)
    ensures
        a.is_prefix_of(a),
{
    assert(a =~= a.subrange(0, a.len() as int));
}

/// A sequence is a prefix of itself extended by anything: appending to the
/// sink keeps what was already written.
proof fn lemma_prefix_extend(a: Seq<char>, b: Seq<char>)
    ensures
        a.is_prefix_of(a + b),
{
    assert(a =~= (a + b).subrange(0, a.len() as int));
}

/// Prefixes chain across successive writes to the sink.
proof fn lemma_prefix_chain(a: Seq<char>, b: Seq<char>, c: Seq<char>)
    requires
        a.is_prefix_of(b),
        b.is_prefix_of(c),
    ensures
        a.is_prefix_of(c),
{
    assert(a =~= c.subrange(0, a.len() as int));
}

/// Relies on `String::push`: appends the given character to the end of the
/// string.
#[verifier::external_body]
fn push_char(sink: &mut String, c: char)
    ensures
        final(sink)@ == old(sink)@ + seq![c],
{
    sink.push(c);
}

/// Appends `n` copies of `c` to the sink.
fn push_repeat(sink: &mut String, c: char, n: usize)
    ensures
        final(sink)@ == old(sink)@ + repeat_char(c, n as nat),
{
    proof {
        assert(old(sink)@ + repeat_char(c, 0nat) =~= old(sink)@);
    }
    let mut i: usize = 0;
    while i < n
        invariant
            i <= n,
            sink@ == old(sink)@ + repeat_char(c, i as nat),
        decreases n - i,
    {
        push_char(sink, c);
        proof {
            assert(old(sink)@ + repeat_char(c, i as nat) + seq![c] =~= old(sink)@ + repeat_char(
                c,
                (i + 1) as nat,
            ));
        }
        i = i + 1;
    }
}

/// Emits the whitespace that moves the cursor from `prev` to `target`, or
/// reports the two offending positions when `target` precedes `prev` in
/// reading order, emitting nothing.
pub fn whitespace_adjust_span(sink: &mut String, prev: Position, target: Position) -> (r: Result<
    (),
    InconsistentSpan,
>)
    ensures
        (match r {
            Ok(_) => prev.reaches(target) && final(sink)@ == old(sink)@ + whitespace_between(
                prev,
                target,
            ),
            Err(e) => !prev.reaches(target) && e == (InconsistentSpan { from: prev, to: target })
                && final(sink)@ == old(sink)@,
        }),
{
    if prev.line == target.line {
        if prev.column <= target.column {
            push_repeat(sink, ' ', target.column - prev.column);
            Ok(())
        } else {
            Err(InconsistentSpan { from: prev, to: target })
        }
    } else if prev.line < target.line {
        push_repeat(sink, '\n', target.line - prev.line);
        push_repeat(sink, ' ', target.column);
        proof {
            assert(old(sink)@ + repeat_char('\n', (target.line - prev.line) as nat) + repeat_char(
                ' ',
                target.column as nat,
            ) =~= old(sink)@ + whitespace_between(prev, target));
        }
        Ok(())
    } else {
        Err(InconsistentSpan { from: prev, to: target })
    }
}

/// Renders one leaf token: reconciling whitespace, then the token's text;
/// the new cursor is the end of the token's span.
fn faithful_leaf(sink: &mut String, text: &String, span: Span, prev: Position) -> (r: Result<
    Position,
    InconsistentSpan,
>)
    ensures
        (match r {
            Ok(p) => match spec_render_leaf(text@, span, prev) {
                Ok(out) => p == out.1 && final(sink)@ == old(sink)@ + out.0,
                Err(_) => false,
            },
            Err(e) => match spec_render_leaf(text@, span, prev) {
                Ok(_) => false,
                Err(e2) => e == e2 && final(sink)@ == old(sink)@,
            },
        }),
{
    match whitespace_adjust_span(sink, prev, span.start) {
        Err(e) => Err(e),
        Ok(_) => {
            sink.append(text.as_str());
            proof {
                assert(old(sink)@ + whitespace_between(prev, span.start) + text@ =~= old(sink)@ + (
                whitespace_between(prev, span.start) + text@));
            }
            Ok(span.end)
        },
    }
}

/// Renders a bracketed group's contents: the opening character, the inner
/// stream rendered from `prev` (the end of the opening delimiter's span),
/// the whitespace up to `fin` (the start of the closing delimiter's span),
/// and the closing character.
fn faithful_delimited(
    sink: &mut String,
    del_first: char,
    del_end: char,
    stream: &TokenStream,
    prev: Position,
    fin: Position,
) -> (r: Result<(), InconsistentSpan>)
    ensures
        (match r {
            Ok(_) => match spec_render_from(stream@, 0, prev) {
                Ok(out) => out.1.reaches(fin) && final(sink)@ == old(sink)@ + seq![del_first]
                    + out.0 + whitespace_between(out.1, fin) + seq![del_end],
                Err(_) => false,
            },
            Err(e) => old(sink)@.is_prefix_of(final(sink)@) && (match spec_render_from(
                stream@,
                0,
                prev,
            ) {
                Ok(out) => !out.1.reaches(fin) && e == (InconsistentSpan {
                    from: out.1,
                    to: fin,
                }),
                Err(e2) => e == e2,
            }),
        }),
    decreases *stream, 2int,
{
    push_char(sink, del_first);
    match stream.faithful_fmt(sink, prev) {
        Err(e) => {
            proof {
                lemma_prefix_extend(old(sink)@, seq![del_first]);
                lemma_prefix_chain(old(sink)@, old(sink)@ + seq![del_first], sink@);
            }
            Err(e)
        },
        Ok(p) => match whitespace_adjust_span(sink, p, fin) {
            Err(e) => {
                proof {
                    let body = spec_render_from(stream@, 0, prev)->Ok_0.0;
                    assert(old(sink)@ + (seq![del_first] + body) =~= old(sink)@ + seq![del_first]
                        + body);
                    lemma_prefix_extend(old(sink)@, seq![del_first] + body);
                }
                Err(e)
            },
            Ok(_) => {
                push_char(sink, del_end);
                Ok(())
            },
        },
    }
}

impl Token {
    /// Renders this token with the cursor at `prev`: first the whitespace
    /// that moves the cursor to the token's recorded start, then the token's
    /// own text, recursing into groups. Returns the position where the token
    /// ends, which is the next token's input cursor. On failure the render
    /// stops, but what was already written stays in the sink.
    pub fn faithful_fmt(&self, sink: &mut String, prev: Position) -> (r: Result<
        Position,
        InconsistentSpan,
    >)
        ensures
            (match r {
                Ok(p) => match spec_render_token(*self, prev) {
                    Ok(out) => p == out.1 && final(sink)@ == old(sink)@ + out.0,
                    Err(_) => false,
                },
                Err(e) => old(sink)@.is_prefix_of(final(sink)@) && (match spec_render_token(
                    *self,
                    prev,
                ) {
                    Ok(_) => false,
                    Err(e2) => e == e2,
                }),
            }),
        decreases *self, 1int,
    {
        proof {
            lemma_prefix_refl(old(sink)@);
        }
        match self {
            Token::Ident { text, span } => faithful_leaf(sink, text, *span, prev),
            Token::Literal { text, span } => faithful_leaf(sink, text, *span, prev),
            Token::Punct { ch, span } => {
                match whitespace_adjust_span(sink, prev, span.start) {
                    Err(e) => Err(e),
                    Ok(_) => {
                        push_char(sink, *ch);
                        proof {
                            assert(old(sink)@ + whitespace_between(prev, span.start) + seq![*ch]
                                =~= old(sink)@ + (whitespace_between(prev, span.start)
                                + seq![*ch]));
                        }
                        Ok(span.end)
                    },
                }
            },
            Token::Group { delimiter, open, close, inner } => {
                match whitespace_adjust_span(sink, prev, open.start) {
                    Err(e) => Err(e),
                    Ok(_) => {
                        let r = match delimiter {
                            Delimiter::Parenthesis => faithful_delimited(
                                sink,
                                '(',
                                ')',
                                inner,
                                open.end,
                                close.start,
                            ),
                            Delimiter::Brace => faithful_delimited(
                                sink,
                                '{',
                                '}',
                                inner,
                                open.end,
                                close.start,
                            ),
                            Delimiter::Bracket => faithful_delimited(
                                sink,
                                '[',
                                ']',
                                inner,
                                open.end,
                                close.start,
                            ),
                            Delimiter::Invisible => {
                                match inner.faithful_fmt(sink, open.end) {
                                    Err(e) => Err(e),
                                    Ok(p) => match whitespace_adjust_span(sink, p, close.start) {
                                        Err(e) => Err(e),
                                        Ok(_) => Ok(()),
                                    },
                                }
                            },
                        };
                        match r {
                            Err(e) => {
                                proof {
                                    let m1 = old(sink)@ + whitespace_between(prev, open.start);
                                    lemma_prefix_extend(
                                        old(sink)@,
                                        whitespace_between(prev, open.start),
                                    );
                                    if spec_render_from(inner@, 0, open.end) is Ok {
                                        lemma_prefix_extend(
                                            m1,
                                            spec_render_from(inner@, 0, open.end)->Ok_0.0,
                                        );
                                    }
                                    lemma_prefix_chain(old(sink)@, m1, sink@);
                                }
                                Err(e)
                            },
                            Ok(_) => {
                                proof {
                                    lemma_group_assembly(*self, prev, old(sink)@, sink@);
                                }
                                Ok(close.end)
                            },
                        }
                    },
                }
            },
        }
    }
}

/// The concatenation of a group's rendered pieces, read off the sink piece
/// by piece, equals the single concatenation `spec_render_token` describes.
proof fn lemma_group_assembly(t: Token, prev: Position, sink0: Seq<char>, sink1: Seq<char>)
    requires
        t is Group,
        prev.reaches(t->Group_open.start),
        spec_render_from(t->Group_inner@, 0, t->Group_open.end) is Ok,
        ({
            let body = spec_render_from(t->Group_inner@, 0, t->Group_open.end)->Ok_0;
            body.1.reaches(t->Group_close.start) && sink1 == sink0 + whitespace_between(
                prev,
                t->Group_open.start,
            ) + t->Group_delimiter.open_text() + body.0 + whitespace_between(
                body.1,
                t->Group_close.start,
            ) + t->Group_delimiter.close_text()
        }),
    ensures
        spec_render_token(t, prev) matches Ok(out) && out.1 == t->Group_close.end && sink1 == sink0
            + out.0,
{
    let body = spec_render_from(t->Group_inner@, 0, t->Group_open.end)->Ok_0;
    assert(sink0 + whitespace_between(prev, t->Group_open.start)
        + t->Group_delimiter.open_text() + body.0 + whitespace_between(
        body.1,
        t->Group_close.start,
    ) + t->Group_delimiter.close_text() =~= sink0 + (whitespace_between(prev, t->Group_open.start)
        + t->Group_delimiter.open_text() + body.0 + whitespace_between(
        body.1,
        t->Group_close.start,
    ) + t->Group_delimiter.close_text()));
}

impl TokenStream {
    /// Renders every token of the stream in order with the cursor seeded at
    /// `prev`, threading each token's end position into the next token's
    /// render. An empty stream emits nothing and returns `prev` unchanged.
    /// On failure the render stops, but what was already written stays in
    /// the sink.
    pub fn faithful_fmt(&self, sink: &mut String, prev: Position) -> (r: Result<
        Position,
        InconsistentSpan,
    >)
        ensures
            (match r {
                Ok(p) => match spec_render_stream(self@, prev) {
                    Ok(out) => p == out.1 && final(sink)@ == old(sink)@ + out.0,
                    Err(_) => false,
                },
                Err(e) => old(sink)@.is_prefix_of(final(sink)@) && (match spec_render_stream(
                    self@,
                    prev,
                ) {
                    Ok(_) => false,
                    Err(e2) => e == e2,
                }),
            }),
        decreases *self, 0int,
    {
        let mut cur = prev;
        let mut i: usize = 0;
        let ghost mut acc: Seq<char> = Seq::empty();
        proof {
            lemma_prefixed_empty(spec_render_from(self@, 0, prev));
            assert(old(sink)@ + acc =~= old(sink)@);
        }
        while i < self.tokens.len()
            invariant
                i <= self.tokens.len(),
                sink@ == old(sink)@ + acc,
                prefixed(acc, spec_render_from(self@, i as int, cur)) == spec_render_from(
                    self@,
                    0,
                    prev,
                ),
            decreases self.tokens.len() - i,
        {
            proof {
                assert(decreases_to!(*self => self.tokens));
                assert(decreases_to!(self.tokens => self.tokens@));
                assert(decreases_to!(self.tokens@ => self.tokens@[i as int]));
            }
            match self.tokens[i].faithful_fmt(sink, cur) {
                Err(e) => {
                    proof {
                        lemma_prefix_extend(old(sink)@, acc);
                        lemma_prefix_chain(old(sink)@, old(sink)@ + acc, sink@);
                    }
                    return Err(e);
                },
                Ok(p) => {
                    proof {
                        let head = spec_render_token(self@[i as int], cur)->Ok_0;
                        match spec_render_from(self@, i as int + 1, p) {
                            Err(_) => {},
                            Ok(rest) => {
                                assert((acc + head.0) + rest.0 =~= acc + (head.0 + rest.0));
                            },
                        }
                        acc = acc + head.0;
                    }
                    cur = p;
                },
            }
            i = i + 1;
        }
        proof {
            assert(acc + Seq::<char>::empty() =~= acc);
        }
        Ok(cur)
    }
}

/// Helper: prepending nothing changes nothing.
proof fn lemma_prefixed_empty(r: Result<(Seq<char>, Position), InconsistentSpan>)
    ensures
        prefixed(Seq::empty(), r) == r,
{
    match r {
        Ok(out) => {
            assert(Seq::<char>::empty() + out.0 =~= out.0);
        },
        Err(_) => {},
    }
}

/// Renders a whole token stream into a fresh `String`, reproducing the
/// original layout: the cursor is seeded at the first token's own start, so
/// the output is exactly the slice of the original source text the stream
/// spans, when that source used only spaces and newlines for layout.
/// Rendering only reads the stream; calling it again yields the same output.
///
/// Returns `InconsistentSpan` instead when some recorded position precedes
/// the position the cursor reached before it, which means the tokenizer
/// handed over out-of-order or overlapping spans.
pub fn faithful_display(stream: &TokenStream) -> (r: Result<String, InconsistentSpan>)
    ensures
        (match r {
            Ok(s) => match spec_render(stream@) {
                Ok(out) => s@ == out,
                Err(_) => false,
            },
            Err(e) => match spec_render(stream@) {
                Ok(_) => false,
                Err(e2) => e == e2,
            },
        }),
{
    let mut sink = String::new();
    if stream.tokens.len() == 0 {
        Ok(sink)
    } else {
        let start = stream.tokens[0].start_position();
        match stream.faithful_fmt(&mut sink, start) {
            Ok(_) => {
                proof {
                    match spec_render_from(stream@, 0, stream@[0].start()) {
                        Ok(out) => {
                            assert(Seq::<char>::empty() + out.0 =~= out.0);
                        },
                        Err(_) => {},
                    }
                }
                Ok(sink)
            },
            Err(e) => Err(e),
        }
    }
}

} // verus!
