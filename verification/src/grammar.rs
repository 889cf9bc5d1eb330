//! The lexical grammar: which lexical unit starts at a position of the
//! source, and the token and error sequences that a whole source denotes.
//!
//! Nothing here is executable: the module defines what scanning means, and
//! the scanner is proved to compute it.

use vstd::prelude::*;
use crate::chars::{
    all_but, digits, is_alpha, is_digit, lemma_line_at_monotonic, lemma_run_end,
    lemma_run_end_unique, line_at, newline_count, run_end, word_chars,
};
use crate::error::{LexErrorKind, LexErrorView};
use crate::keywords::{keyword, lemma_keyword_letters};
use crate::number::is_decimal;
use crate::token::{LiteralValue, TokenType, TokenView};

verus! {

/// What a lexical unit contributes to the output.
pub enum Outcome {
    /// A token of this category, with this literal value.
    Token(TokenType, Option<LiteralValue>),
    /// Nothing: whitespace, a newline or a comment.
    Nothing,
    /// A reported error of this kind, and no token.
    Error(LexErrorKind),
}

/// A lexical unit: the stretch of source consumed in one step and what it
/// contributes. The unit that starts at `pos` covers `pos..end`.
pub struct Unit {
    pub end: int,
    pub outcome: Outcome,
}

/// Whether the character after the one at `pos` exists and is `c`.
pub open spec fn followed_by(s: Seq<char>, pos: int, c: char) -> bool {
    pos + 1 < s.len() && s[pos + 1] == c
}

/// A one-character token.
pub open spec fn single(pos: int, token_type: TokenType) -> Unit {
    Unit { end: pos + 1, outcome: Outcome::Token(token_type, None) }
}

/// An operator that is longer by one character when `=` follows.
pub open spec fn operator(s: Seq<char>, pos: int, short: TokenType, long: TokenType) -> Unit {
    if followed_by(s, pos, '=') {
        Unit { end: pos + 2, outcome: Outcome::Token(long, None) }
    } else {
        single(pos, short)
    }
}

/// A slash: a comment that runs up to, and not including, the next newline
/// or the end of input if another slash follows, else the division operator.
pub open spec fn slash_at(s: Seq<char>, pos: int) -> Unit {
    if followed_by(s, pos, '/') {
        Unit { end: run_end(s, pos + 2, all_but('\n')), outcome: Outcome::Nothing }
    } else {
        single(pos, TokenType::Slash)
    }
}

/// A string literal that opens at `pos`: it runs to the next double quote,
/// and its value is the text strictly between the quotes. Without a closing
/// quote it takes the rest of the input and is an error.
pub open spec fn string_at(s: Seq<char>, pos: int) -> Unit {
    let close = run_end(s, pos + 1, all_but('"'));
    if close < s.len() {
        Unit {
            end: close + 1,
            outcome: Outcome::Token(
                TokenType::String,
                Some(LiteralValue::String(s.subrange(pos + 1, close))),
            ),
        }
    } else {
        Unit { end: s.len() as int, outcome: Outcome::Error(LexErrorKind::UnterminatedString) }
    }
}

/// Where the numeric lexeme that starts at `pos` ends: after the longest run
/// of digits, and after a fraction if a point and a digit follow directly.
pub open spec fn number_end(s: Seq<char>, pos: int) -> int {
    let whole = run_end(s, pos, digits());
    if whole + 1 < s.len() && s[whole] == '.' && is_digit(s[whole + 1]) {
        run_end(s, whole + 1, digits())
    } else {
        whole
    }
}

/// A numeric literal that starts at `pos`. Its value is its lexeme read as a
/// decimal numeral; a lexeme that is no numeral is an error.
pub open spec fn number_at(s: Seq<char>, pos: int) -> Unit {
    let end = number_end(s, pos);
    let lexeme = s.subrange(pos, end);
    Unit {
        end,
        outcome: if is_decimal(lexeme) {
            Outcome::Token(TokenType::Number, Some(LiteralValue::Number(lexeme)))
        } else {
            Outcome::Error(LexErrorKind::NumberParseFailure)
        },
    }
}

/// The category of a word: that of the reserved word it spells, else
/// Identifier.
pub open spec fn word_type(word: Seq<char>) -> TokenType {
    match keyword(word) {
        Some(reserved) => reserved,
        None => TokenType::Identifier,
    }
}

/// An identifier or reserved word that starts at `pos`: the longest run of
/// letters, digits and underscores.
pub open spec fn word_at(s: Seq<char>, pos: int) -> Unit {
    let end = run_end(s, pos, word_chars());
    Unit { end, outcome: Outcome::Token(word_type(s.subrange(pos, end)), None) }
}

/// The lexical unit that starts at `pos`, decided by the character there.
pub open spec fn unit_at(s: Seq<char>, pos: int) -> Unit
    recommends
        0 <= pos < s.len(),
{
    let c = s[pos];
    if c == '(' {
        single(pos, TokenType::LeftParen)
    } else if c == ')' {
        single(pos, TokenType::RightParen)
    } else if c == '{' {
        single(pos, TokenType::LeftBrace)
    } else if c == '}' {
        single(pos, TokenType::RightBrace)
    } else if c == ',' {
        single(pos, TokenType::Comma)
    } else if c == '.' {
        single(pos, TokenType::Dot)
    } else if c == '-' {
        single(pos, TokenType::Minus)
    } else if c == '+' {
        single(pos, TokenType::Plus)
    } else if c == ';' {
        single(pos, TokenType::Semicolon)
    } else if c == '*' {
        single(pos, TokenType::Star)
    } else if c == '!' {
        operator(s, pos, TokenType::Bang, TokenType::BangEqual)
    } else if c == '=' {
        operator(s, pos, TokenType::Equal, TokenType::EqualEqual)
    } else if c == '<' {
        operator(s, pos, TokenType::Less, TokenType::LessEqual)
    } else if c == '>' {
        operator(s, pos, TokenType::Greater, TokenType::GreaterEqual)
    } else if c == '/' {
        slash_at(s, pos)
    } else if c == ' ' || c == '\r' || c == '\t' || c == '\n' {
        Unit { end: pos + 1, outcome: Outcome::Nothing }
    } else if c == '"' {
        string_at(s, pos)
    } else if is_digit(c) {
        number_at(s, pos)
    } else if is_alpha(c) {
        word_at(s, pos)
    } else {
        Unit { end: pos + 1, outcome: Outcome::Error(LexErrorKind::UnexpectedCharacter) }
    }
}

/// The tokens that the unit `unit`, starting at `pos`, adds to the output:
/// none or one. A token's lexeme is the source text of its unit, and its
/// line is the line on which the unit starts.
pub open spec fn tokens_of(s: Seq<char>, pos: int, unit: Unit) -> Seq<TokenView> {
    match unit.outcome {
        Outcome::Token(token_type, literal) => seq![
            TokenView {
                token_type,
                lexeme: s.subrange(pos, unit.end),
                literal,
                line: line_at(s, pos),
            },
        ],
        _ => Seq::empty(),
    }
}

/// The errors that the unit `unit` adds to the reports: none or one. An
/// error carries the line that is reached when its unit has been consumed.
pub open spec fn errors_of(s: Seq<char>, unit: Unit) -> Seq<LexErrorView> {
    match unit.outcome {
        Outcome::Error(kind) => seq![LexErrorView { kind, line: line_at(s, unit.end) }],
        _ => Seq::empty(),
    }
}

/// The token that ends every token sequence: Eof, with an empty lexeme, on
/// the last line of the source.
pub open spec fn eof_token(s: Seq<char>) -> TokenView {
    TokenView {
        token_type: TokenType::Eof,
        lexeme: Seq::empty(),
        literal: None,
        line: line_at(s, s.len() as int),
    }
}

/// The result of scanning: the token sequence and the reported errors, each
/// in source order.
pub struct Lexed {
    pub tokens: Seq<TokenView>,
    pub errors: Seq<LexErrorView>,
}

/// Every lexical unit is at least one character long and ends within the
/// source.
pub proof fn lemma_unit_bounds(s: Seq<char>, pos: int)
    requires
        0 <= pos < s.len(),
    ensures
        pos < unit_at(s, pos).end <= s.len(),
{
    if followed_by(s, pos, '/') {
        lemma_run_end(s, pos + 2, all_but('\n'));
    }
    lemma_run_end(s, pos + 1, all_but('"'));
    lemma_run_end(s, pos, word_chars());
    let whole = run_end(s, pos, digits());
    lemma_run_end(s, pos, digits());
    if whole < s.len() {
        lemma_run_end(s, whole + 1, digits());
    }
}

/// What scanning `s` from `pos` on yields: the contribution of the unit at
/// `pos`, then that of the rest, and the Eof token at the end of input.
pub open spec fn lex_from(s: Seq<char>, pos: int) -> Lexed
    decreases s.len() - pos,
    via lex_from_terminates
{
    if 0 <= pos < s.len() {
        let unit = unit_at(s, pos);
        let rest = lex_from(s, unit.end);
        Lexed {
            tokens: tokens_of(s, pos, unit) + rest.tokens,
            errors: errors_of(s, unit) + rest.errors,
        }
    } else {
        Lexed { tokens: seq![eof_token(s)], errors: Seq::empty() }
    }
}

#[via_fn]
proof fn lex_from_terminates(s: Seq<char>, pos: int) {
    if 0 <= pos < s.len() {
        lemma_unit_bounds(s, pos);
    }
}

/// What scanning the whole of `s` yields.
pub open spec fn lex(s: Seq<char>) -> Lexed {
    lex_from(s, 0)
}

/// A digit always starts a well-formed number: the lexeme that `number_end`
/// delimits is a decimal numeral.
pub proof fn lemma_number_is_decimal(s: Seq<char>, pos: int)
    requires
        0 <= pos < s.len(),
        is_digit(s[pos]),
    ensures
        is_decimal(s.subrange(pos, number_end(s, pos))),
{
    let whole = run_end(s, pos, digits());
    let end = number_end(s, pos);
    let lexeme = s.subrange(pos, end);
    lemma_run_end(s, pos, digits());
    if end == whole {
        lemma_run_end_unique(lexeme, 0, digits(), whole - pos);
    } else {
        lemma_run_end(s, whole + 1, digits());
        assert(lexeme[whole - pos] == s[whole]);
        lemma_run_end_unique(lexeme, 0, digits(), whole - pos);
        lemma_run_end_unique(lexeme, whole - pos + 1, digits(), end - pos);
    }
}

/// Every token sequence ends with the Eof token, and the Eof token stands on
/// the line after the last newline: its line number is the number of
/// newlines in the source plus one.
pub proof fn lemma_ends_with_eof(s: Seq<char>, pos: int)
    ensures
        lex_from(s, pos).tokens.len() > 0,
        lex_from(s, pos).tokens.last() == eof_token(s),
        eof_token(s).line == newline_count(s) + 1,
    decreases s.len() - pos,
{
    assert(s.take(s.len() as int) == s);
    if 0 <= pos < s.len() {
        lemma_unit_bounds(s, pos);
        lemma_ends_with_eof(s, unit_at(s, pos).end);
    }
}

/// Tokens come out in source order: from `pos` on, no token stands on a line
/// before that of `pos` or after the last line, and line numbers never
/// decrease along the sequence.
pub proof fn lemma_lines_ordered(s: Seq<char>, pos: int)
    requires
        0 <= pos <= s.len(),
    ensures
        forall|i: int|
            0 <= i < lex_from(s, pos).tokens.len() ==> line_at(s, pos) <= (#[trigger] lex_from(
                s,
                pos,
            ).tokens[i]).line <= line_at(s, s.len() as int),
        forall|i: int, j: int|
            0 <= i <= j < lex_from(s, pos).tokens.len() ==> (#[trigger] lex_from(
                s,
                pos,
            ).tokens[i]).line <= (#[trigger] lex_from(s, pos).tokens[j]).line,
    decreases s.len() - pos,
{
    lemma_line_at_monotonic(s, pos, s.len() as int);
    if pos < s.len() {
        let unit = unit_at(s, pos);
        lemma_unit_bounds(s, pos);
        lemma_lines_ordered(s, unit.end);
        lemma_line_at_monotonic(s, pos, unit.end);
    }
}

/// Every token is well formed: it carries a literal exactly if it is a
/// Number or a String token, and then one of its own kind.
pub proof fn lemma_tokens_well_formed(s: Seq<char>, pos: int)
    ensures
        forall|i: int|
            0 <= i < lex_from(s, pos).tokens.len() ==> (#[trigger] lex_from(s, pos).tokens[i]).wf(),
    decreases s.len() - pos,
{
    if 0 <= pos < s.len() {
        let unit = unit_at(s, pos);
        let rest = lex_from(s, unit.end);
        let first = tokens_of(s, pos, unit);
        lemma_unit_bounds(s, pos);
        lemma_tokens_well_formed(s, unit.end);
        assert forall|i: int| 0 <= i < lex_from(s, pos).tokens.len() implies (#[trigger] lex_from(
            s,
            pos,
        ).tokens[i]).wf() by {
            if i < first.len() {
                assert(lex_from(s, pos).tokens[i] == first[0]);
            } else {
                assert(lex_from(s, pos).tokens[i] == rest.tokens[i - first.len()]);
            }
        }
    }
}

/// Comments and malformed lexemes never appear as tokens, and Eof appears
/// only as the last token.
pub proof fn lemma_token_categories(s: Seq<char>, pos: int)
    ensures
        forall|i: int|
            0 <= i < lex_from(s, pos).tokens.len() ==> {
                let token_type = (#[trigger] lex_from(s, pos).tokens[i]).token_type;
                &&& token_type != TokenType::Comment
                &&& token_type != TokenType::Error
                &&& token_type == TokenType::Eof <==> i == lex_from(s, pos).tokens.len() - 1
            },
    decreases s.len() - pos,
{
    if 0 <= pos < s.len() {
        lemma_unit_bounds(s, pos);
        lemma_token_categories(s, unit_at(s, pos).end);
        lemma_ends_with_eof(s, unit_at(s, pos).end);
    }
}

/// Every token but Eof is a piece of the source: its lexeme is a non-empty
/// contiguous slice of the source, and its line is that of the slice's first
/// character.
pub proof fn lemma_lexemes_are_slices(s: Seq<char>, pos: int)
    requires
        0 <= pos <= s.len(),
    ensures
        forall|i: int|
            0 <= i < lex_from(s, pos).tokens.len() - 1 ==> exists|from: int, to: int|
                {
                    &&& pos <= from < to <= s.len()
                    &&& (#[trigger] lex_from(s, pos).tokens[i]).lexeme == s.subrange(from, to)
                    &&& lex_from(s, pos).tokens[i].line == line_at(s, from)
                },
    decreases s.len() - pos,
{
    if pos < s.len() {
        let unit = unit_at(s, pos);
        let rest = lex_from(s, unit.end);
        let first = tokens_of(s, pos, unit);
        lemma_unit_bounds(s, pos);
        lemma_lexemes_are_slices(s, unit.end);
        assert forall|i: int| 0 <= i < lex_from(s, pos).tokens.len() - 1 implies exists|
            from: int,
            to: int,
        |
            {
                &&& pos <= from < to <= s.len()
                &&& (#[trigger] lex_from(s, pos).tokens[i]).lexeme == s.subrange(from, to)
                &&& lex_from(s, pos).tokens[i].line == line_at(s, from)
            } by {
            if i < first.len() {
                assert(lex_from(s, pos).tokens[i].lexeme == s.subrange(pos, unit.end));
            } else {
                let k = i - first.len();
                assert(lex_from(s, pos).tokens[i] == rest.tokens[k]);
                let (from, to): (int, int) = choose|from: int, to: int|
                    {
                        &&& unit.end <= from < to <= s.len()
                        &&& (#[trigger] rest.tokens[k]).lexeme == s.subrange(from, to)
                        &&& rest.tokens[k].line == line_at(s, from)
                    };
                assert(lex_from(s, pos).tokens[i].lexeme == s.subrange(from, to));
            }
        }
    }
}

/// A reserved word, scanned on its own, is one token of its category: the
/// table of reserved words and the grammar of words agree.
pub proof fn lemma_keyword_scans(word: Seq<char>)
    requires
        keyword(word) is Some,
    ensures
        lex(word).tokens == seq![
            TokenView { token_type: keyword(word)->0, lexeme: word, literal: None, line: 1 },
            eof_token(word),
        ],
        lex(word).errors == Seq::<LexErrorView>::empty(),
{
    lemma_keyword_letters(word);
    lemma_run_end_unique(word, 0, word_chars(), word.len() as int);
    assert(word.subrange(0, word.len() as int) == word);
    assert(word.take(0) == Seq::<char>::empty());
    assert(unit_at(word, 0) == word_at(word, 0));
    let n = word.len() as int;
    assert(lex_from(word, n).tokens == seq![eof_token(word)]);
    assert(lex_from(word, n).errors == Seq::<LexErrorView>::empty());
    assert(lex_from(word, 0).tokens == tokens_of(word, 0, word_at(word, 0)) + lex_from(
        word,
        n,
    ).tokens);
    assert(lex_from(word, 0).errors == errors_of(word, word_at(word, 0)) + lex_from(word, n).errors);
}

/// No error is reported on a line after the last line of the source.
pub proof fn lemma_error_lines_bounded(s: Seq<char>, pos: int)
    requires
        0 <= pos <= s.len(),
    ensures
        forall|i: int|
            0 <= i < lex_from(s, pos).errors.len() ==> (#[trigger] lex_from(s, pos).errors[i]).line
                <= line_at(s, s.len() as int) <= s.len() + 1,
    decreases s.len() - pos,
{
    lemma_line_at_monotonic(s, 0, s.len() as int);
    assert(s.take(0) == Seq::<char>::empty());
    if pos < s.len() {
        let unit = unit_at(s, pos);
        lemma_unit_bounds(s, pos);
        lemma_error_lines_bounded(s, unit.end);
        lemma_line_at_monotonic(s, unit.end, s.len() as int);
    }
}

/// A numeric lexeme always parses: no source makes the scanner report a
/// number parse failure.
pub proof fn lemma_numbers_parse(s: Seq<char>, pos: int)
    ensures
        forall|i: int|
            0 <= i < lex_from(s, pos).errors.len() ==> (#[trigger] lex_from(s, pos).errors[i]).kind
                != LexErrorKind::NumberParseFailure,
    decreases s.len() - pos,
{
    if 0 <= pos < s.len() {
        lemma_unit_bounds(s, pos);
        lemma_numbers_parse(s, unit_at(s, pos).end);
        if is_digit(s[pos]) {
            lemma_number_is_decimal(s, pos);
        }
    }
}

} // verus!
