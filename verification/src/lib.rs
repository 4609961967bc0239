//! Render a token tree back into text, reproducing the original layout.
//!
//! Generic token-to-text converters normalize whitespace, which breaks tools
//! whose grammar is whitespace-sensitive or which must round-trip source text
//! for a custom downstream parser. This library instead walks a token tree
//! while tracking a cursor (line, column) and, before emitting each token's
//! text, inserts exactly the newlines and spaces needed to move the cursor
//! from its last position to the token's recorded source position.
//!
//! The tokens themselves come from an external tokenizer, as plain values:
//! each token and each group delimiter carries the span the tokenizer
//! recorded for it. The entry point is [`faithful_display`], which renders a
//! whole [`token::TokenStream`] into a `String`.

pub mod laws;
pub mod position;
pub mod render;
pub mod token;

pub use position::InconsistentSpan;
pub use position::Position;
pub use position::Span;
pub use render::faithful_display;
pub use token::Delimiter;
pub use token::Token;
pub use token::TokenStream;
