//! The token model: what the upstream tokenizer hands over.
//!
//! A [`Token`] is either a leaf (identifier, literal, punctuation character)
//! or a [`Delimiter`]-bracketed group of tokens; a [`TokenStream`] is an
//! ordered sequence of tokens in source order. Every token, and every group
//! delimiter, carries the span the tokenizer recorded for it in the original
//! source text. The renderer only reads these values.

use vstd::prelude::*;

use crate::position::Position;
use crate::position::Span;

verus! {

/// The bracket style of a group.
///
/// `Invisible` groups carry no bracket characters at all: they exist only to
/// scope precedence upstream. Their contents still take part in position
/// reconciliation exactly like a bracketed group's.
#[derive(Clone, Copy, PartialEq, Eq, Structural, Debug)]
pub enum Delimiter {
    Parenthesis,
    Brace,
    Bracket,
    Invisible,
}

/// One lexical unit: a leaf token with its text and span, or a delimited
/// group holding a nested stream together with the spans of its opening and
/// closing delimiter.
pub enum Token {
    Ident { text: String, span: Span },
    Literal { text: String, span: Span },
    Punct { ch: char, span: Span },
    Group { delimiter: Delimiter, open: Span, close: Span, inner: TokenStream },
}

/// An ordered sequence of tokens; insertion order equals source order.
/// Rendering only borrows the stream, so it can be rendered any number of
/// times.
pub struct TokenStream {
    pub tokens: Vec<Token>,
}

impl View for TokenStream {
    type V = Seq<Token>;

    open spec fn view(&self) -> Seq<Token> {
        self.tokens@
    }
}

impl Delimiter {
    /// The characters the opening delimiter renders as: one bracket
    /// character, or nothing for `Invisible`.
    pub open spec fn open_text(self) -> Seq<char> {
        match self {
            Delimiter::Parenthesis => seq!['('],
            Delimiter::Brace => seq!['{'],
            Delimiter::Bracket => seq!['['],
            Delimiter::Invisible => Seq::empty(),
        }
    }

    /// The characters the closing delimiter renders as.
    pub open spec fn close_text(self) -> Seq<char> {
        match self {
            Delimiter::Parenthesis => seq![')'],
            Delimiter::Brace => seq!['}'],
            Delimiter::Bracket => seq![']'],
            Delimiter::Invisible => Seq::empty(),
        }
    }
}

impl Token {
    /// Where this token starts in the source: a leaf's own start, or the
    /// start of a group's opening delimiter.
    pub open spec fn start(self) -> Position {
        match self {
            Token::Ident { span, .. } => span.start,
            Token::Literal { span, .. } => span.start,
            Token::Punct { span, .. } => span.start,
            Token::Group { open, .. } => open.start,
        }
    }

    /// Where this token ends in the source: a leaf's own end, or the end of
    /// a group's closing delimiter. Rendering a token moves the cursor here.
    pub open spec fn end(self) -> Position {
        match self {
            Token::Ident { span, .. } => span.end,
            Token::Literal { span, .. } => span.end,
            Token::Punct { span, .. } => span.end,
            Token::Group { close, .. } => close.end,
        }
    }

    /// A leaf token: an identifier, a literal or a punctuation character —
    /// anything but a group.
    pub open spec fn is_leaf(self) -> bool {
        !(self is Group)
    }

    /// The characters a leaf token itself renders as, its reconciling
    /// whitespace aside. Groups render through their delimiter and contents
    /// instead and have no text of their own.
    pub open spec fn leaf_text(self) -> Seq<char> {
        match self {
            Token::Ident { text, .. } => text@,
            Token::Literal { text, .. } => text@,
            Token::Punct { ch, .. } => seq![ch],
            Token::Group { .. } => Seq::empty(),
        }
    }

    /// The same as [`Token::start`], as executable code, for seeding the
    /// cursor of a top-level render.
    pub fn start_position(&self) -> (p: Position)
        ensures
            p == self.start(),
    {
        match self {
            Token::Ident { span, .. } => span.start,
            Token::Literal { span, .. } => span.start,
            Token::Punct { span, .. } => span.start,
            Token::Group { open, .. } => open.start,
        }
    }
}

} // verus!
