//! Tokens: the category of a lexical unit, the literal value it may carry,
//! and the token record itself.

use vstd::prelude::*;
use vstd::string::StringExecFns;
use crate::number::{is_decimal, Decimal};

verus! {

/// The closed set of token categories.
#[derive(Debug, Clone, Copy, PartialEq, Eq, Structural)]
pub enum TokenType {
    // Single-character tokens.
    LeftParen,
    RightParen,
    LeftBrace,
    RightBrace,
    Comma,
    Dot,
    Minus,
    Plus,
    Semicolon,
    Slash,
    Star,
    // One or two character tokens.
    Bang,
    BangEqual,
    Equal,
    EqualEqual,
    Greater,
    GreaterEqual,
    Less,
    LessEqual,
    // Literals.
    Identifier,
    String,
    Number,
    // Reserved words.
    And,
    Class,
    Else,
    False,
    Fun,
    For,
    If,
    Nil,
    Or,
    Print,
    Return,
    Super,
    This,
    True,
    Var,
    While,
    // A comment. The scanner drops comments and never produces this category.
    Comment,
    // A malformed lexeme. The scanner reports malformed input as errors and
    // never produces this category.
    Error,
    // End of input.
    Eof,
}

impl TokenType {
    /// The name of the category, as text.
    pub open spec fn name_text(self) -> Seq<char> {
        match self {
            TokenType::LeftParen => "LeftParen"@,
            TokenType::RightParen => "RightParen"@,
            TokenType::LeftBrace => "LeftBrace"@,
            TokenType::RightBrace => "RightBrace"@,
            TokenType::Comma => "Comma"@,
            TokenType::Dot => "Dot"@,
            TokenType::Minus => "Minus"@,
            TokenType::Plus => "Plus"@,
            TokenType::Semicolon => "Semicolon"@,
            TokenType::Slash => "Slash"@,
            TokenType::Star => "Star"@,
            TokenType::Bang => "Bang"@,
            TokenType::BangEqual => "BangEqual"@,
            TokenType::Equal => "Equal"@,
            TokenType::EqualEqual => "EqualEqual"@,
            TokenType::Greater => "Greater"@,
            TokenType::GreaterEqual => "GreaterEqual"@,
            TokenType::Less => "Less"@,
            TokenType::LessEqual => "LessEqual"@,
            TokenType::Identifier => "Identifier"@,
            TokenType::String => "String"@,
            TokenType::Number => "Number"@,
            TokenType::And => "And"@,
            TokenType::Class => "Class"@,
            TokenType::Else => "Else"@,
            TokenType::False => "False"@,
            TokenType::Fun => "Fun"@,
            TokenType::For => "For"@,
            TokenType::If => "If"@,
            TokenType::Nil => "Nil"@,
            TokenType::Or => "Or"@,
            TokenType::Print => "Print"@,
            TokenType::Return => "Return"@,
            TokenType::Super => "Super"@,
            TokenType::This => "This"@,
            TokenType::True => "True"@,
            TokenType::Var => "Var"@,
            TokenType::While => "While"@,
            TokenType::Comment => "Comment"@,
            TokenType::Error => "Error"@,
            TokenType::Eof => "Eof"@,
        }
    }

    /// The name of the category.
    pub fn name(&self) -> (name: &'static str)
        ensures
            name@ == self.name_text(),
    {
        match self {
            TokenType::LeftParen => "LeftParen",
            TokenType::RightParen => "RightParen",
            TokenType::LeftBrace => "LeftBrace",
            TokenType::RightBrace => "RightBrace",
            TokenType::Comma => "Comma",
            TokenType::Dot => "Dot",
            TokenType::Minus => "Minus",
            TokenType::Plus => "Plus",
            TokenType::Semicolon => "Semicolon",
            TokenType::Slash => "Slash",
            TokenType::Star => "Star",
            TokenType::Bang => "Bang",
            TokenType::BangEqual => "BangEqual",
            TokenType::Equal => "Equal",
            TokenType::EqualEqual => "EqualEqual",
            TokenType::Greater => "Greater",
            TokenType::GreaterEqual => "GreaterEqual",
            TokenType::Less => "Less",
            TokenType::LessEqual => "LessEqual",
            TokenType::Identifier => "Identifier",
            TokenType::String => "String",
            TokenType::Number => "Number",
            TokenType::And => "And",
            TokenType::Class => "Class",
            TokenType::Else => "Else",
            TokenType::False => "False",
            TokenType::Fun => "Fun",
            TokenType::For => "For",
            TokenType::If => "If",
            TokenType::Nil => "Nil",
            TokenType::Or => "Or",
            TokenType::Print => "Print",
            TokenType::Return => "Return",
            TokenType::Super => "Super",
            TokenType::This => "This",
            TokenType::True => "True",
            TokenType::Var => "Var",
            TokenType::While => "While",
            TokenType::Comment => "Comment",
            TokenType::Error => "Error",
            TokenType::Eof => "Eof",
        }
    }
}

/// The mathematical value of a literal: what a `DataType` denotes.
pub enum LiteralValue {
    Boolean(bool),
    /// A number, as its decimal numeral.
    Number(Seq<char>),
    String(Seq<char>),
    Nil,
}

impl LiteralValue {
    /// The textual form of the value: `true` or `false`, the numeral, the
    /// raw text of a string, `Nil`.
    pub open spec fn text(self) -> Seq<char> {
        match self {
            LiteralValue::Boolean(b) => if b {
                "true"@
            } else {
                "false"@
            },
            LiteralValue::Number(numeral) => numeral,
            LiteralValue::String(text) => text,
            LiteralValue::Nil => "Nil"@,
        }
    }
}

/// A literal value, carried by Number and String tokens and by literal
/// expressions.
#[derive(Debug, PartialEq, Eq)]
pub enum DataType {
    Boolean(bool),
    Number(Decimal),
    String(String),
    Nil,
}

impl View for DataType {
    type V = LiteralValue;

    open spec fn view(&self) -> LiteralValue {
        match self {
            DataType::Boolean(b) => LiteralValue::Boolean(*b),
            DataType::Number(d) => LiteralValue::Number(d@),
            DataType::String(s) => LiteralValue::String(s@),
            DataType::Nil => LiteralValue::Nil,
        }
    }
}

impl Clone for DataType {
    fn clone(&self) -> (copy: Self)
        ensures
            copy@ == self@,
    {
        match self {
            DataType::Boolean(b) => DataType::Boolean(*b),
            DataType::Number(d) => DataType::Number(d.clone()),
            DataType::String(s) => DataType::String(s.clone()),
            DataType::Nil => DataType::Nil,
        }
    }
}

impl DataType {
    /// The textual form of the value.
    pub fn to_string(&self) -> (text: String)
        ensures
            text@ == self@.text(),
            self@ matches LiteralValue::Number(numeral) ==> is_decimal(numeral),
    {
        match self {
            DataType::Boolean(b) => {
                if *b {
                    "true".to_owned()
                } else {
                    "false".to_owned()
                }
            },
            DataType::Number(d) => d.to_string(),
            DataType::String(s) => s.clone(),
            DataType::Nil => "Nil".to_owned(),
        }
    }
}

/// The mathematical content of an optional literal.
pub open spec fn literal_view(literal: Option<DataType>) -> Option<LiteralValue> {
    match literal {
        Some(value) => Some(value@),
        None => None,
    }
}

/// What a token says: the model of `Token` that contracts speak of.
pub struct TokenView {
    pub token_type: TokenType,
    pub lexeme: Seq<char>,
    pub literal: Option<LiteralValue>,
    pub line: nat,
}

impl TokenView {
    /// A Number token carries a well-formed number, a String token carries a
    /// string, and a token of any other category carries no literal.
    pub open spec fn wf(self) -> bool {
        match self.token_type {
            TokenType::Number => self.literal matches Some(LiteralValue::Number(numeral))
                && is_decimal(numeral),
            TokenType::String => self.literal matches Some(LiteralValue::String(_)),
            _ => self.literal is None,
        }
    }

    /// The text that `Token::to_string` gives: category name, lexeme and
    /// literal, separated by single spaces; `None` stands for no literal.
    pub open spec fn text(self) -> Seq<char> {
        self.token_type.name_text() + " "@ + self.lexeme + " "@ + match self.literal {
            Some(value) => value.text(),
            None => "None"@,
        }
    }
}

/// One lexical unit of the source.
#[derive(Debug, PartialEq, Eq)]
pub struct Token {
    pub token_type: TokenType,
    /// The exact source text of the token.
    pub lexeme: String,
    /// The parsed value; present exactly for Number and String tokens.
    pub literal: Option<DataType>,
    /// The 1-based source line on which the token starts.
    pub line: usize,
}

impl View for Token {
    type V = TokenView;

    open spec fn view(&self) -> TokenView {
        TokenView {
            token_type: self.token_type,
            lexeme: self.lexeme@,
            literal: literal_view(self.literal),
            line: self.line as nat,
        }
    }
}

impl Clone for Token {
    fn clone(&self) -> (copy: Self)
        ensures
            copy@ == self@,
    {
        Token {
            token_type: self.token_type,
            lexeme: self.lexeme.clone(),
            literal: match &self.literal {
                Some(value) => Some(value.clone()),
                None => None,
            },
            line: self.line,
        }
    }
}

impl Token {
    /// A token without a literal value.
    pub fn new(token_type: TokenType, lexeme: String, line: usize) -> (token: Self)
        ensures
            token@ == (TokenView { token_type, lexeme: lexeme@, literal: None, line: line as nat }),
    {
        Self { token_type, lexeme, literal: None, line }
    }

    /// A token with the given literal value, if any.
    pub fn new_with_literal(
        token_type: TokenType,
        lexeme: String,
        literal: Option<DataType>,
        line: usize,
    ) -> (token: Self)
        ensures
            token@ == (TokenView {
                token_type,
                lexeme: lexeme@,
                literal: literal_view(literal),
                line: line as nat,
            }),
    {
        Self { token_type, lexeme, literal, line }
    }

    /// The token as one line of text.
    pub fn to_string(&self) -> (text: String)
        ensures
            text@ == self@.text(),
    {
        let mut text = self.token_type.name().to_owned();
        text.append(" ");
        text.append(self.lexeme.as_str());
        text.append(" ");
        match &self.literal {
            Some(value) => {
                let value_text = value.to_string();
                text.append(value_text.as_str());
            },
            None => {
                text.append("None");
            },
        }
        text
    }
}

impl From<Token> for String {
    /// The token as one line of text, as `Token::to_string` gives it.
    fn from(token: Token) -> (text: String)
        ensures
            text@ == token@.text(),
    {
        token.to_string()
    }
}

/// Contracts speak of the text of a string, never of the string as a value,
/// so the conversion is specified by the `ensures` of `from` and by nothing
/// here.
impl vstd::std_specs::convert::FromSpecImpl<Token> for String {
    open spec fn obeys_from_spec() -> bool {
        false
    }

    open spec fn from_spec(token: Token) -> String {
        arbitrary()
    }
}

} // verus!
