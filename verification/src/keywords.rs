//! The table of reserved words.

use vstd::prelude::*;
use crate::text::same_text;
use crate::token::TokenType;

verus! {

/// The category of the reserved word spelled `word`, if `word` is one.
/// The match is exact and case sensitive.
pub open spec fn keyword(word: Seq<char>) -> Option<TokenType> {
    if word == "and"@ {
        Some(TokenType::And)
    } else if word == "class"@ {
        Some(TokenType::Class)
    } else if word == "else"@ {
        Some(TokenType::Else)
    } else if word == "false"@ {
        Some(TokenType::False)
    } else if word == "for"@ {
        Some(TokenType::For)
    } else if word == "fun"@ {
        Some(TokenType::Fun)
    } else if word == "if"@ {
        Some(TokenType::If)
    } else if word == "nil"@ {
        Some(TokenType::Nil)
    } else if word == "or"@ {
        Some(TokenType::Or)
    } else if word == "print"@ {
        Some(TokenType::Print)
    } else if word == "return"@ {
        Some(TokenType::Return)
    } else if word == "super"@ {
        Some(TokenType::Super)
    } else if word == "this"@ {
        Some(TokenType::This)
    } else if word == "true"@ {
        Some(TokenType::True)
    } else if word == "var"@ {
        Some(TokenType::Var)
    } else if word == "while"@ {
        Some(TokenType::While)
    } else {
        None
    }
}

/// Looks `word` up in the table of reserved words.
pub fn lookup(word: &str) -> (found: Option<TokenType>)
    ensures
        found == keyword(word@),
{
    if same_text(word, "and") {
        Some(TokenType::And)
    } else if same_text(word, "class") {
        Some(TokenType::Class)
    } else if same_text(word, "else") {
        Some(TokenType::Else)
    } else if same_text(word, "false") {
        Some(TokenType::False)
    } else if same_text(word, "for") {
        Some(TokenType::For)
    } else if same_text(word, "fun") {
        Some(TokenType::Fun)
    } else if same_text(word, "if") {
        Some(TokenType::If)
    } else if same_text(word, "nil") {
        Some(TokenType::Nil)
    } else if same_text(word, "or") {
        Some(TokenType::Or)
    } else if same_text(word, "print") {
        Some(TokenType::Print)
    } else if same_text(word, "return") {
        Some(TokenType::Return)
    } else if same_text(word, "super") {
        Some(TokenType::Super)
    } else if same_text(word, "this") {
        Some(TokenType::This)
    } else if same_text(word, "true") {
        Some(TokenType::True)
    } else if same_text(word, "var") {
        Some(TokenType::Var)
    } else if same_text(word, "while") {
        Some(TokenType::While)
    } else {
        None
    }
}

/// Every reserved word is made of lower-case letters only, so it is spelled
/// like an identifier.
pub proof fn lemma_keyword_letters(word: Seq<char>)
    requires
        keyword(word) is Some,
    ensures
        word.len() >= 2,
        forall|i: int| 0 <= i < word.len() ==> 'a' <= #[trigger] word[i] && word[i] <= 'z',
{
    reveal_strlit("and");
    reveal_strlit("class");
    reveal_strlit("else");
    reveal_strlit("false");
    reveal_strlit("for");
    reveal_strlit("fun");
    reveal_strlit("if");
    reveal_strlit("nil");
    reveal_strlit("or");
    reveal_strlit("print");
    reveal_strlit("return");
    reveal_strlit("super");
    reveal_strlit("this");
    reveal_strlit("true");
    reveal_strlit("var");
    reveal_strlit("while");
}

} // verus!
