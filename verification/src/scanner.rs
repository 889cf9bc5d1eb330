//! The scanner: one left-to-right pass over the source that produces the
//! token sequence and the list of lexical errors.

use vstd::prelude::*;
use vstd::string::StrSliceExecFns;
use crate::chars::{
    all_but, decides, digits, is_alpha, is_alpha_numeric, is_digit, lemma_line_at_monotonic,
    lemma_line_at_next, lemma_line_at_same, lemma_run_end, line_at, newline_count, run_end,
    skip_while, word_chars,
};
use crate::error::{LexError, LexErrorKind, LexErrorView};
use crate::grammar::{
    errors_of, lemma_ends_with_eof, lemma_lines_ordered, lemma_tokens_well_formed,
    lemma_unit_bounds, lex, lex_from, number_at, string_at, tokens_of, unit_at, word_at, Unit,
};
use crate::keywords::lookup;
use crate::number::Decimal;
use crate::text::{chars_of, string_of};
use crate::token::{literal_view, DataType, Token, TokenType, TokenView};

verus! {

/// What a sequence of tokens says.
pub open spec fn token_views(tokens: Seq<Token>) -> Seq<TokenView> {
    tokens.map_values(|token: Token| token@)
}

/// What a sequence of lexical errors says.
pub open spec fn error_views(errors: Seq<LexError>) -> Seq<LexErrorView> {
    errors.map_values(|error: LexError| error@)
}

/// A scanner over one source text.
///
/// The cursor model is a single advancing index: `start` is where the lexical
/// unit being scanned begins, `current` is the next character to read, and
/// `line` is the line counter.
pub struct Scanner {
    source: Vec<char>,
    tokens: Vec<Token>,
    errors: Vec<LexError>,
    start: usize,
    current: usize,
    line: usize,
}

impl Scanner {
    /// The source text.
    pub closed spec fn source(&self) -> Seq<char> {
        self.source@
    }

    /// The errors reported by the last scan.
    pub closed spec fn reported(&self) -> Seq<LexErrorView> {
        error_views(self.errors@)
    }

    /// The cursor lies within the source, and every line number of the source
    /// fits the line counter.
    pub closed spec fn wf(&self) -> bool {
        self.start <= self.current <= self.source@.len() < usize::MAX
    }

    /// The state in the middle of a lexical unit: its first character has
    /// been read, and the line counter still holds the line it starts on.
    spec fn in_unit(&self) -> bool {
        &&& self.wf()
        &&& self.start < self.current
        &&& self.line == line_at(self.source@, self.start as int)
    }

    /// Only the cursor has moved since `pre`, and it stands at `to`.
    spec fn moved(&self, pre: Self, to: int) -> bool {
        &&& self.source == pre.source
        &&& self.tokens == pre.tokens
        &&& self.errors == pre.errors
        &&& self.start == pre.start
        &&& self.line == pre.line
        &&& self.current == to
    }

    /// The unit `unit`, which starts at `pre.start`, has been scanned since
    /// `pre`: the cursor and the line counter stand at its end, and its token
    /// or error has been added to the output.
    spec fn finished(&self, pre: Self, unit: Unit) -> bool {
        &&& self.wf()
        &&& self.source == pre.source
        &&& self.start == pre.start
        &&& self.current == unit.end
        &&& self.line == line_at(self.source@, unit.end)
        &&& token_views(self.tokens@) =~= token_views(pre.tokens@) + tokens_of(
            self.source@,
            pre.start as int,
            unit,
        )
        &&& error_views(self.errors@) =~= error_views(pre.errors@) + errors_of(self.source@, unit)
    }

    /// A scanner over `source`, ready to scan.
    ///
    /// Lines are counted in `usize`, and a source of `n` characters can end on
    /// line `n + 1`: so `n + 1` has to fit. `try_new` tests this itself.
    pub fn new(source: String) -> (scanner: Self)
        requires
            source@.len() < usize::MAX,
        ensures
            scanner.wf(),
            scanner.source() == source@,
            scanner.reported() == Seq::<LexErrorView>::empty(),
    {
        Self {
            source: chars_of(source.as_str()),
            tokens: Vec::new(),
            errors: Vec::new(),
            start: 0,
            current: 0,
            line: 1,
        }
    }

    /// A scanner over `source`, if the lines of `source` can be counted:
    /// `None` exactly if `source` is too long for `new`.
    pub fn try_new(source: String) -> (scanner: Option<Self>)
        ensures
            scanner is Some <==> source@.len() < usize::MAX,
            scanner matches Some(made) ==> {
                &&& made.wf()
                &&& made.source() == source@
                &&& made.reported() == Seq::<LexErrorView>::empty()
            },
    {
        if source.as_str().unicode_len() < usize::MAX {
            Some(Self::new(source))
        } else {
            None
        }
    }

    /// The errors reported by the last scan, in source order.
    pub fn errors(&self) -> (errors: &Vec<LexError>)
        ensures
            error_views(errors@) == self.reported(),
    {
        &self.errors
    }

    fn is_at_end(&self) -> (at_end: bool)
        ensures
            at_end == (self.current >= self.source@.len()),
    {
        self.current >= self.source.len()
    }

    /// The character under the cursor, or NUL at the end of input.
    fn peek(&self) -> (c: char)
        ensures
            c == if self.current < self.source@.len() {
                self.source@[self.current as int]
            } else {
                '\0'
            },
    {
        if self.current < self.source.len() {
            self.source[self.current]
        } else {
            '\0'
        }
    }

    /// The character after the one under the cursor, or NUL if there is none.
    fn peek_next(&self) -> (c: char)
        requires
            self.wf(),
        ensures
            c == if self.current + 1 < self.source@.len() {
                self.source@[self.current + 1]
            } else {
                '\0'
            },
    {
        if self.current + 1 < self.source.len() {
            self.source[self.current + 1]
        } else {
            '\0'
        }
    }

    /// Reads the character under the cursor and moves past it.
    fn advance(&mut self) -> (c: char)
        requires
            old(self).wf(),
            old(self).current < old(self).source@.len(),
        ensures
            final(self).wf(),
            final(self).moved(*old(self), old(self).current + 1),
            c == old(self).source@[old(self).current as int],
    {
        let c = self.source[self.current];
        self.current += 1;
        c
    }

    /// Moves past the character under the cursor if it is `expected`.
    fn match_char(&mut self, expected: char) -> (matched: bool)
        requires
            old(self).wf(),
        ensures
            final(self).wf(),
            matched == (old(self).current < old(self).source@.len() && old(self).source@[old(
                self,
            ).current as int] == expected),
            final(self).moved(
                *old(self),
                if matched {
                    old(self).current + 1
                } else {
                    old(self).current as int
                },
            ),
    {
        if self.is_at_end() {
            return false;
        }
        if self.source[self.current] != expected {
            return false;
        }
        self.current += 1;
        true
    }

    /// Moves the cursor to the end of the longest run of characters that
    /// satisfy `predicate`.
    fn take_while<F: Fn(char) -> bool>(
        &mut self,
        predicate: F,
        Ghost(class): Ghost<spec_fn(char) -> bool>,
    )
        requires
            old(self).wf(),
            decides(predicate, class),
        ensures
            final(self).wf(),
            final(self).moved(
                *old(self),
                run_end(old(self).source@, old(self).current as int, class),
            ),
    {
        self.current = skip_while(&self.source, self.current, predicate, Ghost(class));
    }

    /// Adds a token without a literal for the text from `start` to the cursor.
    fn add_token(&mut self, token_type: TokenType)
        requires
            old(self).wf(),
        ensures
            final(self).wf(),
            final(self).source == old(self).source,
            final(self).errors == old(self).errors,
            final(self).start == old(self).start,
            final(self).current == old(self).current,
            final(self).line == old(self).line,
            token_views(final(self).tokens@) == token_views(old(self).tokens@).push(
                TokenView {
                    token_type,
                    lexeme: old(self).source@.subrange(
                        old(self).start as int,
                        old(self).current as int,
                    ),
                    literal: None,
                    line: old(self).line as nat,
                },
            ),
    {
        self.add_token_with_literal(token_type, None);
    }

    /// Adds a token with the given literal for the text from `start` to the
    /// cursor, on the line that the line counter holds.
    fn add_token_with_literal(&mut self, token_type: TokenType, literal: Option<DataType>)
        requires
            old(self).wf(),
        ensures
            final(self).wf(),
            final(self).source == old(self).source,
            final(self).errors == old(self).errors,
            final(self).start == old(self).start,
            final(self).current == old(self).current,
            final(self).line == old(self).line,
            token_views(final(self).tokens@) == token_views(old(self).tokens@).push(
                TokenView {
                    token_type,
                    lexeme: old(self).source@.subrange(
                        old(self).start as int,
                        old(self).current as int,
                    ),
                    literal: literal_view(literal),
                    line: old(self).line as nat,
                },
            ),
    {
        let text = string_of(&self.source, self.start, self.current);
        self.tokens.push(Token::new_with_literal(token_type, text, literal, self.line));
    }

    /// Reports an error of kind `kind` on the line that the line counter
    /// holds.
    fn report(&mut self, kind: LexErrorKind)
        requires
            old(self).wf(),
        ensures
            final(self).wf(),
            final(self).source == old(self).source,
            final(self).tokens == old(self).tokens,
            final(self).start == old(self).start,
            final(self).current == old(self).current,
            final(self).line == old(self).line,
            error_views(final(self).errors@) == error_views(old(self).errors@).push(
                LexErrorView { kind, line: old(self).line as nat },
            ),
    {
        self.errors.push(LexError { kind, line: self.line });
    }

    /// Scans the rest of an identifier or reserved word whose first character
    /// has been read.
    fn identifier(&mut self)
        requires
            old(self).in_unit(),
            old(self).current == old(self).start + 1,
            is_alpha(old(self).source@[old(self).start as int]),
        ensures
            final(self).finished(*old(self), word_at(old(self).source@, old(self).start as int)),
    {
        self.take_while(is_alpha_numeric, Ghost(word_chars()));
        let text = string_of(&self.source, self.start, self.current);
        let token_type = match lookup(text.as_str()) {
            Some(reserved) => reserved,
            None => TokenType::Identifier,
        };
        proof {
            let s = self.source@;
            lemma_run_end(s, self.start as int, word_chars());
            lemma_line_at_same(s, self.start as int, self.current as int);
        }
        self.add_token(token_type);
    }

    /// Scans the rest of a numeric literal whose first digit has been read.
    fn number(&mut self)
        requires
            old(self).in_unit(),
            old(self).current == old(self).start + 1,
            is_digit(old(self).source@[old(self).start as int]),
        ensures
            final(self).finished(*old(self), number_at(old(self).source@, old(self).start as int)),
    {
        self.take_while(is_digit, Ghost(digits()));
        proof {
            lemma_run_end(self.source@, self.start as int, digits());
        }
        if self.peek() == '.' && is_digit(self.peek_next()) {
            self.advance();
            self.take_while(is_digit, Ghost(digits()));
            proof {
                lemma_run_end(self.source@, self.current as int, digits());
            }
        }
        let text = string_of(&self.source, self.start, self.current);
        proof {
            let s = self.source@;
            let whole = run_end(s, self.start as int, digits());
            if whole < s.len() {
                lemma_run_end(s, whole + 1, digits());
            }
            lemma_line_at_same(s, self.start as int, self.current as int);
        }
        match Decimal::parse(text.as_str()) {
            Some(value) => {
                self.add_token_with_literal(TokenType::Number, Some(DataType::Number(value)));
            },
            None => {
                self.report(LexErrorKind::NumberParseFailure);
            },
        }
    }

    /// Scans the rest of a string literal whose opening quote has been read.
    fn string(&mut self)
        requires
            old(self).in_unit(),
            old(self).current == old(self).start + 1,
            old(self).source@[old(self).start as int] == '"',
        ensures
            final(self).finished(*old(self), string_at(old(self).source@, old(self).start as int)),
    {
        let mut newlines: usize = 0;
        proof {
            lemma_line_at_next(self.source@, self.start as int);
        }
        while self.peek() != '"' && !self.is_at_end()
            invariant
                self.moved(*old(self), self.current as int),
                self.in_unit(),
                self.line + newlines == line_at(self.source@, self.current as int),
                run_end(self.source@, self.start + 1, all_but('"')) == run_end(
                    self.source@,
                    self.current as int,
                    all_but('"'),
                ),
            decreases self.source@.len() - self.current,
        {
            proof {
                lemma_line_at_next(self.source@, self.current as int);
                lemma_line_at_monotonic(self.source@, 0, self.current + 1);
            }
            if self.peek() == '\n' {
                newlines += 1;
            }
            self.advance();
        }
        proof {
            lemma_line_at_monotonic(self.source@, 0, self.current as int);
        }
        if self.is_at_end() {
            self.line += newlines;
            self.report(LexErrorKind::UnterminatedString);
            return;
        }
        proof {
            lemma_line_at_next(self.source@, self.current as int);
        }
        self.advance();
        let value = string_of(&self.source, self.start + 1, self.current - 1);
        self.add_token_with_literal(TokenType::String, Some(DataType::String(value)));
        self.line += newlines;
    }

    /// Scans the lexical unit that starts under the cursor.
    fn next(&mut self)
        requires
            old(self).wf(),
            old(self).start == old(self).current,
            old(self).current < old(self).source@.len(),
            old(self).line == line_at(old(self).source@, old(self).current as int),
        ensures
            final(self).finished(*old(self), unit_at(old(self).source@, old(self).start as int)),
    {
        let c = self.advance();
        proof {
            let s = self.source@;
            lemma_line_at_next(s, self.start as int);
            if self.current < s.len() {
                lemma_line_at_next(s, self.current as int);
            }
            lemma_line_at_monotonic(s, 0, self.current as int);
        }
        match c {
            '(' => self.add_token(TokenType::LeftParen),
            ')' => self.add_token(TokenType::RightParen),
            '{' => self.add_token(TokenType::LeftBrace),
            '}' => self.add_token(TokenType::RightBrace),
            ',' => self.add_token(TokenType::Comma),
            '.' => self.add_token(TokenType::Dot),
            '-' => self.add_token(TokenType::Minus),
            '+' => self.add_token(TokenType::Plus),
            ';' => self.add_token(TokenType::Semicolon),
            '*' => self.add_token(TokenType::Star),
            '!' => {
                if self.match_char('=') {
                    self.add_token(TokenType::BangEqual)
                } else {
                    self.add_token(TokenType::Bang)
                }
            },
            '=' => {
                if self.match_char('=') {
                    self.add_token(TokenType::EqualEqual)
                } else {
                    self.add_token(TokenType::Equal)
                }
            },
            '<' => {
                if self.match_char('=') {
                    self.add_token(TokenType::LessEqual)
                } else {
                    self.add_token(TokenType::Less)
                }
            },
            '>' => {
                if self.match_char('=') {
                    self.add_token(TokenType::GreaterEqual)
                } else {
                    self.add_token(TokenType::Greater)
                }
            },
            '/' => {
                if self.match_char('/') {
                    let not_newline = |c: char| -> (r: bool)
                        ensures
                            r == (c != '\n'),
                        { c != '\n' };
                    self.take_while(not_newline, Ghost(all_but('\n')));
                    proof {
                        let s = self.source@;
                        lemma_run_end(s, self.start + 2, all_but('\n'));
                        lemma_line_at_same(s, self.start + 2, self.current as int);
                    }
                } else {
                    self.add_token(TokenType::Slash)
                }
            },
            ' ' | '\r' | '\t' => {},
            '\n' => {
                self.line += 1;
            },
            '"' => self.string(),
            _ => {
                if is_digit(c) {
                    self.number();
                } else if is_alpha(c) {
                    self.identifier();
                } else {
                    self.report(LexErrorKind::UnexpectedCharacter);
                }
            },
        }
    }

    /// Scans the whole source: one pass from its first character to its end.
    ///
    /// Returns the tokens that the source denotes, ending with the Eof token,
    /// and keeps the errors that it denotes for `errors`. Malformed input
    /// never stops the scan.
    pub fn scan_tokens(&mut self) -> (tokens: Vec<Token>)
        requires
            old(self).wf(),
        ensures
            final(self).wf(),
            final(self).source() == old(self).source(),
            token_views(tokens@) == lex(old(self).source()).tokens,
            final(self).reported() == lex(old(self).source()).errors,
            tokens@.len() > 0,
            tokens@.last().token_type == TokenType::Eof,
            tokens@.last().line == newline_count(old(self).source()) + 1,
            forall|i: int, j: int|
                0 <= i <= j < tokens@.len() ==> (#[trigger] tokens@[i]).line <= (
                #[trigger] tokens@[j]).line,
            forall|i: int| 0 <= i < tokens@.len() ==> (#[trigger] tokens@[i])@.wf(),
    {
        self.start = 0;
        self.current = 0;
        self.line = 1;
        self.tokens = Vec::new();
        self.errors = Vec::new();
        while !self.is_at_end()
            invariant
                self.wf(),
                self.source == old(self).source,
                self.line == line_at(self.source@, self.current as int),
                token_views(self.tokens@) + lex_from(self.source@, self.current as int).tokens
                    == lex(self.source@).tokens,
                error_views(self.errors@) + lex_from(self.source@, self.current as int).errors
                    == lex(self.source@).errors,
            decreases self.source@.len() - self.current,
        {
            self.start = self.current;
            proof {
                lemma_unit_bounds(self.source@, self.current as int);
            }
            self.next();
        }
        self.start = self.current;
        self.tokens.push(Token::new(TokenType::Eof, String::new(), self.line));
        let mut tokens = Vec::new();
        core::mem::swap(&mut tokens, &mut self.tokens);
        proof {
            let s = self.source@;
            lemma_ends_with_eof(s, 0);
            lemma_lines_ordered(s, 0);
            lemma_tokens_well_formed(s, 0);
            assert forall|i: int| 0 <= i < tokens@.len() implies (#[trigger] tokens@[i])@
                == lex(s).tokens[i] by {
                assert(token_views(tokens@)[i] == tokens@[i]@);
            }
        }
        tokens
    }
}

} // verus!
