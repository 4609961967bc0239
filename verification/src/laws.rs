//! General properties of the renderer, stated and proved once over the
//! specification model that every executable function is contracted to:
//! determinism of rendering, the empty stream, the exact whitespace between
//! adjacent tokens on the same line and across lines, delimiter fidelity,
//! recursive rendering of nested groups, and the error owed to a
//! backward-moving position.

use vstd::prelude::*;

use crate::position::InconsistentSpan;
use crate::position::Position;
use crate::render::repeat_char;
use crate::render::spec_render;
use crate::render::spec_render_from;
use crate::render::spec_render_stream;
use crate::render::spec_render_token;
use crate::render::whitespace_between;
use crate::token::Delimiter;
use crate::token::Token;

verus! {

/// Rendering is a pure function of the stream: rendering the same stream a
/// second time yields exactly the same result, output and error alike.
/// Together with the contract of [`crate::render::faithful_display`], which
/// pins its result to `spec_render` of the borrowed, unchanged stream, this
/// makes repeated renders of one stream agree.
pub proof fn lemma_render_idempotent(s1: Seq<Token>, s2: Seq<Token>)
    requires
        s1 == s2,
    ensures
        spec_render(s1) == spec_render(s2),
{
}

/// Rendering the empty stream yields the empty output.
pub proof fn lemma_render_empty()
    ensures
        spec_render(Seq::<Token>::empty()) == Ok::<Seq<char>, InconsistentSpan>(
            Seq::<char>::empty(),
        ),
{
}

/// Two adjacent leaf tokens on the same source line, `k` columns apart,
/// render with exactly `k` space characters between their texts — no more,
/// no fewer.
pub proof fn lemma_same_line_spacing(t1: Token, t2: Token, cur: Position, k: nat)
    requires
        t1.is_leaf(),
        t2.is_leaf(),
        cur.reaches(t1.start()),
        t1.end().reaches(t2.start()),
        t1.end().line == t2.start().line,
        k == t2.start().column - t1.end().column,
    ensures
        spec_render_stream(seq![t1, t2], cur) == Ok::<(Seq<char>, Position), InconsistentSpan>(
            (
                whitespace_between(cur, t1.start()) + t1.leaf_text() + repeat_char(' ', k)
                    + t2.leaf_text(),
                t2.end(),
            ),
        ),
{
    lemma_adjacent_pair(t1, t2, cur);
    assert(whitespace_between(t1.end(), t2.start()) == repeat_char(' ', k));
}

/// Two adjacent leaf tokens `k` lines apart render with exactly `k` newline
/// characters between their texts, followed by spaces equal to the second
/// token's column.
pub proof fn lemma_cross_line_spacing(t1: Token, t2: Token, cur: Position, k: nat)
    requires
        t1.is_leaf(),
        t2.is_leaf(),
        cur.reaches(t1.start()),
        t1.end().line < t2.start().line,
        k == t2.start().line - t1.end().line,
    ensures
        spec_render_stream(seq![t1, t2], cur) == Ok::<(Seq<char>, Position), InconsistentSpan>(
            (
                whitespace_between(cur, t1.start()) + t1.leaf_text() + (repeat_char('\n', k)
                    + repeat_char(' ', t2.start().column as nat)) + t2.leaf_text(),
                t2.end(),
            ),
        ),
{
    lemma_adjacent_pair(t1, t2, cur);
    assert(whitespace_between(t1.end(), t2.start()) == repeat_char('\n', k) + repeat_char(
        ' ',
        t2.start().column as nat,
    ));
}

/// The shared shape of the two spacing laws: a stream of two leaf tokens in
/// reading order renders as the first token's reconciliation and text, the
/// whitespace between the first token's end and the second token's start,
/// and the second token's text, ending at the second token's end.
proof fn lemma_adjacent_pair(t1: Token, t2: Token, cur: Position)
    requires
        t1.is_leaf(),
        t2.is_leaf(),
        cur.reaches(t1.start()),
        t1.end().reaches(t2.start()),
    ensures
        spec_render_stream(seq![t1, t2], cur) == Ok::<(Seq<char>, Position), InconsistentSpan>(
            (
                whitespace_between(cur, t1.start()) + t1.leaf_text() + whitespace_between(
                    t1.end(),
                    t2.start(),
                ) + t2.leaf_text(),
                t2.end(),
            ),
        ),
{
    reveal_with_fuel(spec_render_from, 3);
    let s = seq![t1, t2];
    lemma_leaf_token(t1, cur);
    lemma_leaf_token(t2, t1.end());
    assert(spec_render_from(s, 2, t2.end()) == Ok::<(Seq<char>, Position), InconsistentSpan>(
        (Seq::<char>::empty(), t2.end()),
    ));
    let o1 = whitespace_between(cur, t1.start()) + t1.leaf_text();
    let o2 = whitespace_between(t1.end(), t2.start()) + t2.leaf_text();
    assert(o2 + Seq::<char>::empty() =~= o2);
    assert(o1 + o2 =~= whitespace_between(cur, t1.start()) + t1.leaf_text() + whitespace_between(
        t1.end(),
        t2.start(),
    ) + t2.leaf_text());
}

/// A leaf token renders as the whitespace up to its recorded start followed
/// by its own text, and moves the cursor to its recorded end.
pub proof fn lemma_leaf_token(t: Token, cur: Position)
    requires
        t.is_leaf(),
        cur.reaches(t.start()),
    ensures
        spec_render_token(t, cur) == Ok::<(Seq<char>, Position), InconsistentSpan>(
            (whitespace_between(cur, t.start()) + t.leaf_text(), t.end()),
        ),
{
}

/// Delimiter fidelity: a group whose contents render renders as the
/// matching open character at its recorded opening span, the contents, and
/// the matching close character at its recorded closing span; an
/// `Invisible` group contributes no bracket characters at all, though its
/// contents are reconciled the same way.
pub proof fn lemma_delimiter_fidelity(g: Token, cur: Position)
    requires
        g is Group,
        cur.reaches(g->Group_open.start),
        spec_render_stream(g->Group_inner@, g->Group_open.end) is Ok,
        spec_render_stream(g->Group_inner@, g->Group_open.end)->Ok_0.1.reaches(
            g->Group_close.start,
        ),
    ensures
        ({
            let body = spec_render_stream(g->Group_inner@, g->Group_open.end)->Ok_0;
            spec_render_token(g, cur) == Ok::<(Seq<char>, Position), InconsistentSpan>(
                (
                    whitespace_between(cur, g->Group_open.start) + g->Group_delimiter.open_text()
                        + body.0 + whitespace_between(body.1, g->Group_close.start)
                        + g->Group_delimiter.close_text(),
                    g->Group_close.end,
                ),
            )
        }),
        g->Group_delimiter == Delimiter::Parenthesis ==> g->Group_delimiter.open_text()
            == seq!['('] && g->Group_delimiter.close_text() == seq![')'],
        g->Group_delimiter == Delimiter::Brace ==> g->Group_delimiter.open_text() == seq!['{']
            && g->Group_delimiter.close_text() == seq!['}'],
        g->Group_delimiter == Delimiter::Bracket ==> g->Group_delimiter.open_text() == seq!['[']
            && g->Group_delimiter.close_text() == seq![']'],
        g->Group_delimiter == Delimiter::Invisible ==> g->Group_delimiter.open_text()
            == Seq::<char>::empty() && g->Group_delimiter.close_text() == Seq::<char>::empty(),
{
}

/// Nesting: a group whose only content is another group renders
/// recursively — the inner group is rendered with its cursor seeded at the
/// end of the outer opening delimiter's span, and its output stands between
/// the outer delimiters with the whitespace reconciled across the boundary
/// on both sides.
pub proof fn lemma_nested_groups(outer: Token, cur: Position)
    requires
        outer is Group,
        outer->Group_inner@.len() == 1,
        outer->Group_inner@[0] is Group,
        cur.reaches(outer->Group_open.start),
        spec_render_token(outer->Group_inner@[0], outer->Group_open.end) is Ok,
        spec_render_token(outer->Group_inner@[0], outer->Group_open.end)->Ok_0.1.reaches(
            outer->Group_close.start,
        ),
    ensures
        ({
            let inner_out = spec_render_token(outer->Group_inner@[0], outer->Group_open.end)->Ok_0;
            spec_render_token(outer, cur) == Ok::<(Seq<char>, Position), InconsistentSpan>(
                (
                    whitespace_between(cur, outer->Group_open.start)
                        + outer->Group_delimiter.open_text() + inner_out.0 + whitespace_between(
                        inner_out.1,
                        outer->Group_close.start,
                    ) + outer->Group_delimiter.close_text(),
                    outer->Group_close.end,
                ),
            )
        }),
{
    let s = outer->Group_inner@;
    let inner_out = spec_render_token(s[0], outer->Group_open.end)->Ok_0;
    assert(spec_render_from(s, 1, inner_out.1) == Ok::<(Seq<char>, Position), InconsistentSpan>(
        (Seq::<char>::empty(), inner_out.1),
    ));
    assert(inner_out.0 + Seq::<char>::empty() =~= inner_out.0);
    lemma_delimiter_fidelity(outer, cur);
}

/// A token that renders moves the cursor exactly to its recorded end — a
/// leaf's own end, or the end of a group's closing delimiter.
pub proof fn lemma_token_end(t: Token, cur: Position)
    requires
        spec_render_token(t, cur) is Ok,
    ensures
        spec_render_token(t, cur)->Ok_0.1 == t.end(),
{
}

/// A rendered token's output begins with exactly the whitespace that moves
/// the cursor from where it stood to the token's recorded start; the
/// token's own first character comes only after it.
pub proof fn lemma_output_begins_with_whitespace(t: Token, cur: Position)
    requires
        spec_render_token(t, cur) is Ok,
    ensures
        cur.reaches(t.start()),
        whitespace_between(cur, t.start()).is_prefix_of(spec_render_token(t, cur)->Ok_0.0),
{
    let ws = whitespace_between(cur, t.start());
    let o = spec_render_token(t, cur)->Ok_0.0;
    assert(ws =~= o.subrange(0, ws.len() as int));
}

/// Two adjacent tokens render as the first token's output followed by the
/// second token's output, rendered from the first token's end.
pub proof fn lemma_stream_pair(t1: Token, t2: Token, cur: Position)
    requires
        spec_render_token(t1, cur) is Ok,
        spec_render_token(t2, t1.end()) is Ok,
    ensures
        spec_render_stream(seq![t1, t2], cur) == Ok::<(Seq<char>, Position), InconsistentSpan>(
            (
                spec_render_token(t1, cur)->Ok_0.0 + spec_render_token(t2, t1.end())->Ok_0.0,
                t2.end(),
            ),
        ),
{
    reveal_with_fuel(spec_render_from, 3);
    lemma_token_end(t1, cur);
    lemma_token_end(t2, t1.end());
    let o1 = spec_render_token(t1, cur)->Ok_0.0;
    let o2 = spec_render_token(t2, t1.end())->Ok_0.0;
    assert(o2 + Seq::<char>::empty() =~= o2);
    assert(o1 + (o2 + Seq::<char>::empty()) =~= o1 + o2);
}

/// Cross-line spacing for arbitrary adjacent tokens, groups included: when
/// the second token starts `k` lines below the first token's end, the
/// second token's output begins with exactly `k` newline characters
/// followed by spaces equal to its column.
pub proof fn lemma_cross_line_reconciliation(t1: Token, t2: Token, cur: Position, k: nat)
    requires
        spec_render_token(t1, cur) is Ok,
        spec_render_token(t2, t1.end()) is Ok,
        t1.end().line < t2.start().line,
        k == t2.start().line - t1.end().line,
    ensures
        spec_render_stream(seq![t1, t2], cur) == Ok::<(Seq<char>, Position), InconsistentSpan>(
            (
                spec_render_token(t1, cur)->Ok_0.0 + spec_render_token(t2, t1.end())->Ok_0.0,
                t2.end(),
            ),
        ),
        (repeat_char('\n', k) + repeat_char(' ', t2.start().column as nat)).is_prefix_of(
            spec_render_token(t2, t1.end())->Ok_0.0,
        ),
{
    lemma_stream_pair(t1, t2, cur);
    lemma_output_begins_with_whitespace(t2, t1.end());
    assert(whitespace_between(t1.end(), t2.start()) == repeat_char('\n', k) + repeat_char(
        ' ',
        t2.start().column as nat,
    ));
}

/// A token whose recorded start precedes the cursor in reading order makes
/// the render fail with `InconsistentSpan`, carrying the cursor position and
/// the offending recorded position — there is no other outcome and no
/// arithmetic fault.
pub proof fn lemma_inconsistent_span(t: Token, cur: Position)
    requires
        !cur.reaches(t.start()),
    ensures
        spec_render_token(t, cur) == Err::<(Seq<char>, Position), InconsistentSpan>(
            InconsistentSpan { from: cur, to: t.start() },
        ),
{
}

/// In a stream, a token whose recorded start precedes the end of the token
/// before it makes the whole render fail with `InconsistentSpan` naming the
/// previous token's end and the offending start.
pub proof fn lemma_stream_inconsistent(t1: Token, t2: Token, cur: Position)
    requires
        spec_render_token(t1, cur) is Ok,
        !spec_render_token(t1, cur)->Ok_0.1.reaches(t2.start()),
    ensures
        spec_render_stream(seq![t1, t2], cur) == Err::<(Seq<char>, Position), InconsistentSpan>(
            InconsistentSpan {
                from: spec_render_token(t1, cur)->Ok_0.1,
                to: t2.start(),
            },
        ),
{
    reveal_with_fuel(spec_render_from, 3);
    lemma_inconsistent_span(t2, spec_render_token(t1, cur)->Ok_0.1);
}

} // verus!

