//! Lexical errors: what the scanner reports instead of failing.

use vstd::prelude::*;

verus! {

/// The kinds of lexical error.
#[derive(Debug, Clone, Copy, PartialEq, Eq, Structural)]
pub enum LexErrorKind {
    /// A string literal whose closing quote is missing at end of input.
    UnterminatedString,
    /// A character that starts no token.
    UnexpectedCharacter,
    /// A numeric lexeme that is no valid number.
    NumberParseFailure,
}

impl LexErrorKind {
    /// The message that describes an error of this kind.
    pub open spec fn message_text(self) -> Seq<char> {
        match self {
            LexErrorKind::UnterminatedString => "Unterminated string."@,
            LexErrorKind::UnexpectedCharacter => "Unexpected character."@,
            LexErrorKind::NumberParseFailure => "Invalid number."@,
        }
    }

    /// The message that describes an error of this kind.
    pub fn message(&self) -> (message: String)
        ensures
            message@ == self.message_text(),
    {
        match self {
            LexErrorKind::UnterminatedString => "Unterminated string.".to_owned(),
            LexErrorKind::UnexpectedCharacter => "Unexpected character.".to_owned(),
            LexErrorKind::NumberParseFailure => "Invalid number.".to_owned(),
        }
    }
}

/// What a lexical error says: the model of `LexError`.
pub struct LexErrorView {
    pub kind: LexErrorKind,
    pub line: nat,
}

/// One reported lexical error.
#[derive(Debug, Clone, Copy, PartialEq, Eq)]
pub struct LexError {
    pub kind: LexErrorKind,
    /// The line that the scanner had reached when it found the error.
    pub line: usize,
}

impl View for LexError {
    type V = LexErrorView;

    open spec fn view(&self) -> LexErrorView {
        LexErrorView { kind: self.kind, line: self.line as nat }
    }
}

} // verus!
