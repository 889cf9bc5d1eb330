use lox::error::{LexError, LexErrorKind};
use lox::number::Decimal;
use lox::scanner::Scanner;
use lox::token::{DataType, Token, TokenType};

fn scan(source: &str) -> (Vec<Token>, Vec<LexError>) {
    let mut scanner = Scanner::new(source.to_string());
    let tokens = scanner.scan_tokens();
    let errors = scanner.errors().clone();
    (tokens, errors)
}

fn kinds(tokens: &[Token]) -> Vec<TokenType> {
    tokens.iter().map(|token| token.token_type).collect()
}

fn lexemes(tokens: &[Token]) -> Vec<String> {
    tokens.iter().map(|token| token.lexeme.clone()).collect()
}

fn lines(tokens: &[Token]) -> Vec<usize> {
    tokens.iter().map(|token| token.line).collect()
}

fn number(text: &str) -> Option<DataType> {
    Some(DataType::Number(Decimal::parse(text).unwrap()))
}

fn as_float(literal: &Option<DataType>) -> f64 {
    match literal {
        Some(DataType::Number(value)) => value.to_string().parse::<f64>().unwrap(),
        other => panic!("expected a number, found {:?}", other),
    }
}

#[test]
fn empty_source_gives_only_eof() {
    let (tokens, errors) = scan("");
    assert_eq!(tokens, vec![Token::new(TokenType::Eof, String::new(), 1)]);
    assert!(errors.is_empty());
}

#[test]
fn eof_stands_on_the_line_after_the_last_newline() {
    for (source, newlines) in [
        ("", 0),
        ("a", 0),
        ("\n", 1),
        ("a\nb\n\nc", 3),
        ("// note\n\"x\ny\"\n@\n", 4),
        ("\"open\n\n", 2),
    ] {
        assert_eq!(source.matches('\n').count(), newlines);
        let (tokens, _) = scan(source);
        let last = tokens.last().unwrap();
        assert_eq!(last.token_type, TokenType::Eof);
        assert_eq!(last.lexeme, "");
        assert_eq!(last.literal, None);
        assert_eq!(last.line, newlines + 1);
    }
}

#[test]
fn eof_is_the_last_token_and_no_other() {
    let (tokens, _) = scan("var a = 1;\nprint a; // done");
    let eofs = tokens.iter().filter(|token| token.token_type == TokenType::Eof).count();
    assert_eq!(eofs, 1);
    assert_eq!(tokens.last().unwrap().token_type, TokenType::Eof);
}

#[test]
fn token_lines_never_decrease() {
    let source = "var a = \"one\ntwo\";\n\n// note\nprint a / 2.5;\n@ \"end\n\n";
    let (tokens, _) = scan(source);
    assert_eq!(lines(&tokens), vec![1, 1, 1, 1, 2, 5, 5, 5, 5, 5, 8]);
    for pair in tokens.windows(2) {
        assert!(pair[0].line <= pair[1].line);
    }
}

#[test]
fn number_with_fraction_has_its_value() {
    let (tokens, errors) = scan("2.1");
    assert!(errors.is_empty());
    assert_eq!(kinds(&tokens), vec![TokenType::Number, TokenType::Eof]);
    assert_eq!(tokens[0].lexeme, "2.1");
    assert_eq!(tokens[0].literal, number("2.1"));
    assert_eq!(as_float(&tokens[0].literal), 2.1);
}

#[test]
fn trailing_point_is_not_part_of_a_number() {
    let (tokens, errors) = scan("123.");
    assert!(errors.is_empty());
    assert_eq!(
        tokens,
        vec![
            Token::new_with_literal(TokenType::Number, "123".to_string(), number("123"), 1),
            Token::new(TokenType::Dot, ".".to_string(), 1),
            Token::new(TokenType::Eof, String::new(), 1),
        ]
    );
    assert_eq!(as_float(&tokens[0].literal), 123.0);
}

#[test]
fn numbers_take_the_longest_run_and_one_fraction() {
    let (tokens, errors) = scan("1.5.25 .5 12abc 007 3.x");
    assert!(errors.is_empty());
    assert_eq!(
        kinds(&tokens),
        vec![
            TokenType::Number,
            TokenType::Dot,
            TokenType::Number,
            TokenType::Dot,
            TokenType::Number,
            TokenType::Number,
            TokenType::Identifier,
            TokenType::Number,
            TokenType::Number,
            TokenType::Dot,
            TokenType::Identifier,
            TokenType::Eof,
        ]
    );
    assert_eq!(
        lexemes(&tokens),
        vec!["1.5", ".", "25", ".", "5", "12", "abc", "007", "3", ".", "x", ""]
    );
    assert_eq!(tokens[0].literal, number("1.5"));
    assert_eq!(as_float(&tokens[0].literal), 1.5);
    assert_eq!(as_float(&tokens[2].literal), 25.0);
    assert_eq!(as_float(&tokens[7].literal), 7.0);
}

#[test]
fn a_long_digit_run_is_one_number() {
    let digits = "1234567890".repeat(5);
    let (tokens, errors) = scan(&digits);
    assert!(errors.is_empty());
    assert_eq!(kinds(&tokens), vec![TokenType::Number, TokenType::Eof]);
    assert_eq!(tokens[0].lexeme, digits);
    assert_eq!(tokens[0].literal, number(&digits));
}

#[test]
fn string_literal_excludes_its_quotes() {
    let (tokens, errors) = scan("\"hi\"");
    assert!(errors.is_empty());
    assert_eq!(
        tokens,
        vec![
            Token::new_with_literal(
                TokenType::String,
                "\"hi\"".to_string(),
                Some(DataType::String("hi".to_string())),
                1
            ),
            Token::new(TokenType::Eof, String::new(), 1),
        ]
    );
}

#[test]
fn empty_string_literal() {
    let (tokens, errors) = scan("\"\"");
    assert!(errors.is_empty());
    assert_eq!(tokens[0].token_type, TokenType::String);
    assert_eq!(tokens[0].lexeme, "\"\"");
    assert_eq!(tokens[0].literal, Some(DataType::String(String::new())));
}

#[test]
fn string_may_span_lines_and_starts_on_its_first() {
    let (tokens, errors) = scan("a \"x\ny\nz\" b");
    assert!(errors.is_empty());
    assert_eq!(
        kinds(&tokens),
        vec![TokenType::Identifier, TokenType::String, TokenType::Identifier, TokenType::Eof]
    );
    assert_eq!(tokens[1].lexeme, "\"x\ny\nz\"");
    assert_eq!(tokens[1].literal, Some(DataType::String("x\ny\nz".to_string())));
    assert_eq!(lines(&tokens), vec![1, 1, 3, 3]);
}

#[test]
fn string_keeps_its_characters_verbatim() {
    let (tokens, errors) = scan("\"a // b \\n (c) é\"");
    assert!(errors.is_empty());
    assert_eq!(kinds(&tokens), vec![TokenType::String, TokenType::Eof]);
    assert_eq!(tokens[0].literal, Some(DataType::String("a // b \\n (c) é".to_string())));
}

#[test]
fn keywords_are_case_sensitive() {
    let (tokens, errors) = scan("if");
    assert!(errors.is_empty());
    assert_eq!(
        tokens,
        vec![
            Token::new(TokenType::If, "if".to_string(), 1),
            Token::new(TokenType::Eof, String::new(), 1),
        ]
    );
    let (tokens, errors) = scan("If");
    assert!(errors.is_empty());
    assert_eq!(
        tokens,
        vec![
            Token::new(TokenType::Identifier, "If".to_string(), 1),
            Token::new(TokenType::Eof, String::new(), 1),
        ]
    );
}

#[test]
fn every_reserved_word_has_its_category() {
    let source = "and class else false for fun if nil or print return super this true var while";
    let (tokens, errors) = scan(source);
    assert!(errors.is_empty());
    assert_eq!(
        kinds(&tokens),
        vec![
            TokenType::And,
            TokenType::Class,
            TokenType::Else,
            TokenType::False,
            TokenType::For,
            TokenType::Fun,
            TokenType::If,
            TokenType::Nil,
            TokenType::Or,
            TokenType::Print,
            TokenType::Return,
            TokenType::Super,
            TokenType::This,
            TokenType::True,
            TokenType::Var,
            TokenType::While,
            TokenType::Eof,
        ]
    );
    for token in &tokens {
        assert_eq!(token.literal, None);
    }
}

#[test]
fn identifiers_take_the_longest_run() {
    let (tokens, errors) = scan("_x1 iffy for_ classes orchid nil2 A_b9");
    assert!(errors.is_empty());
    assert_eq!(
        lexemes(&tokens),
        vec!["_x1", "iffy", "for_", "classes", "orchid", "nil2", "A_b9", ""]
    );
    for token in &tokens[..7] {
        assert_eq!(token.token_type, TokenType::Identifier);
        assert_eq!(token.literal, None);
    }
}

#[test]
fn single_character_tokens() {
    let (tokens, errors) = scan("(){},.-+;*");
    assert!(errors.is_empty());
    assert_eq!(
        kinds(&tokens),
        vec![
            TokenType::LeftParen,
            TokenType::RightParen,
            TokenType::LeftBrace,
            TokenType::RightBrace,
            TokenType::Comma,
            TokenType::Dot,
            TokenType::Minus,
            TokenType::Plus,
            TokenType::Semicolon,
            TokenType::Star,
            TokenType::Eof,
        ]
    );
    assert_eq!(lexemes(&tokens), vec!["(", ")", "{", "}", ",", ".", "-", "+", ";", "*", ""]);
}

#[test]
fn operators_of_one_and_two_characters() {
    let (tokens, errors) = scan("! != = == < <= > >= !=== <==>");
    assert!(errors.is_empty());
    assert_eq!(
        kinds(&tokens),
        vec![
            TokenType::Bang,
            TokenType::BangEqual,
            TokenType::Equal,
            TokenType::EqualEqual,
            TokenType::Less,
            TokenType::LessEqual,
            TokenType::Greater,
            TokenType::GreaterEqual,
            TokenType::BangEqual,
            TokenType::EqualEqual,
            TokenType::LessEqual,
            TokenType::Equal,
            TokenType::Greater,
            TokenType::Eof,
        ]
    );
    assert_eq!(
        lexemes(&tokens),
        vec!["!", "!=", "=", "==", "<", "<=", ">", ">=", "!=", "==", "<=", "=", ">", ""]
    );
}

#[test]
fn operator_at_end_of_input_falls_back_to_one_character() {
    for (source, kind) in [
        ("!", TokenType::Bang),
        ("=", TokenType::Equal),
        ("<", TokenType::Less),
        (">", TokenType::Greater),
        ("/", TokenType::Slash),
    ] {
        let (tokens, errors) = scan(source);
        assert!(errors.is_empty());
        assert_eq!(kinds(&tokens), vec![kind, TokenType::Eof]);
        assert_eq!(tokens[0].lexeme, source);
    }
}

#[test]
fn slash_is_division_or_starts_a_comment() {
    let (tokens, errors) = scan("a / b // c / d \"e\" @\nf");
    assert!(errors.is_empty());
    assert_eq!(
        kinds(&tokens),
        vec![
            TokenType::Identifier,
            TokenType::Slash,
            TokenType::Identifier,
            TokenType::Identifier,
            TokenType::Eof,
        ]
    );
    assert_eq!(lexemes(&tokens), vec!["a", "/", "b", "f", ""]);
    assert_eq!(lines(&tokens), vec![1, 1, 1, 2, 2]);
}

#[test]
fn comment_runs_to_end_of_input() {
    let (tokens, errors) = scan("x // no newline after this");
    assert!(errors.is_empty());
    assert_eq!(kinds(&tokens), vec![TokenType::Identifier, TokenType::Eof]);
    assert_eq!(lines(&tokens), vec![1, 1]);
    let (tokens, errors) = scan("//");
    assert!(errors.is_empty());
    assert_eq!(kinds(&tokens), vec![TokenType::Eof]);
}

#[test]
fn comments_and_errors_never_become_tokens() {
    let (tokens, _) = scan("// one\n# @\n\"three");
    assert_eq!(kinds(&tokens), vec![TokenType::Eof]);
    let (tokens, _) = scan("a // b\n$ c");
    for token in &tokens {
        assert_ne!(token.token_type, TokenType::Comment);
        assert_ne!(token.token_type, TokenType::Error);
    }
}

#[test]
fn whitespace_is_skipped_and_newlines_are_counted() {
    let (tokens, errors) = scan(" \t\r a \r\n\t b\n\n  c ");
    assert!(errors.is_empty());
    assert_eq!(lexemes(&tokens), vec!["a", "b", "c", ""]);
    assert_eq!(lines(&tokens), vec![1, 2, 4, 4]);
}

#[test]
fn unterminated_string_is_reported_once() {
    let (tokens, errors) = scan("\"abc");
    assert_eq!(errors, vec![LexError { kind: LexErrorKind::UnterminatedString, line: 1 }]);
    assert_eq!(tokens, vec![Token::new(TokenType::Eof, String::new(), 1)]);
}

#[test]
fn unterminated_string_takes_the_rest_of_the_input() {
    let (tokens, errors) = scan("a = \"b c\nd ; @\n");
    assert_eq!(errors, vec![LexError { kind: LexErrorKind::UnterminatedString, line: 3 }]);
    assert_eq!(kinds(&tokens), vec![TokenType::Identifier, TokenType::Equal, TokenType::Eof]);
    assert_eq!(lines(&tokens), vec![1, 1, 3]);
}

#[test]
fn unexpected_character_is_reported_and_skipped() {
    let (tokens, errors) = scan("a @ b\n# ^c");
    assert_eq!(
        errors,
        vec![
            LexError { kind: LexErrorKind::UnexpectedCharacter, line: 1 },
            LexError { kind: LexErrorKind::UnexpectedCharacter, line: 2 },
            LexError { kind: LexErrorKind::UnexpectedCharacter, line: 2 },
        ]
    );
    assert_eq!(lexemes(&tokens), vec!["a", "b", "c", ""]);
    assert_eq!(lines(&tokens), vec![1, 1, 2, 2]);
}

#[test]
fn nul_and_non_ascii_characters_are_unexpected() {
    let (tokens, errors) = scan("a\0b é ñandú");
    assert_eq!(lexemes(&tokens), vec!["a", "b", "and", ""]);
    assert_eq!(
        kinds(&tokens),
        vec![TokenType::Identifier, TokenType::Identifier, TokenType::And, TokenType::Eof]
    );
    assert_eq!(errors.len(), 4);
    for error in &errors {
        assert_eq!(*error, LexError { kind: LexErrorKind::UnexpectedCharacter, line: 1 });
    }
}

#[test]
fn number_parse_failure_is_never_reported() {
    let (_, errors) = scan("0 1.5 12. .7 9.9.9 1e5 0x10 \"s\" @");
    assert_eq!(errors, vec![LexError { kind: LexErrorKind::UnexpectedCharacter, line: 1 }]);
}

#[test]
fn literal_is_present_exactly_on_numbers_and_strings() {
    let (tokens, _) = scan("var x = 1.5 + \"s\"; // c\nif (x) { print nil; } @ \"open");
    for token in &tokens {
        match token.token_type {
            TokenType::Number => {
                assert!(matches!(token.literal, Some(DataType::Number(_))))
            }
            TokenType::String => {
                assert!(matches!(token.literal, Some(DataType::String(_))))
            }
            _ => assert_eq!(token.literal, None),
        }
    }
}

#[test]
fn lexemes_are_slices_of_the_source() {
    let source = "fun f(a, b) {\n  return a >= b; // cmp\n}\n\"s t\" 1.25";
    let (tokens, errors) = scan(source);
    assert!(errors.is_empty());
    let mut from = 0;
    for token in &tokens[..tokens.len() - 1] {
        let at = source[from..].find(token.lexeme.as_str()).unwrap() + from;
        assert!(!token.lexeme.is_empty());
        assert_eq!(token.line, 1 + source[..at].matches('\n').count());
        from = at + token.lexeme.len();
    }
}

#[test]
fn a_small_program() {
    let source = "var answer = (20 + 1) * 2;\nprint answer != nil;";
    let (tokens, errors) = scan(source);
    assert!(errors.is_empty());
    assert_eq!(
        tokens,
        vec![
            Token::new(TokenType::Var, "var".to_string(), 1),
            Token::new(TokenType::Identifier, "answer".to_string(), 1),
            Token::new(TokenType::Equal, "=".to_string(), 1),
            Token::new(TokenType::LeftParen, "(".to_string(), 1),
            Token::new_with_literal(TokenType::Number, "20".to_string(), number("20"), 1),
            Token::new(TokenType::Plus, "+".to_string(), 1),
            Token::new_with_literal(TokenType::Number, "1".to_string(), number("1"), 1),
            Token::new(TokenType::RightParen, ")".to_string(), 1),
            Token::new(TokenType::Star, "*".to_string(), 1),
            Token::new_with_literal(TokenType::Number, "2".to_string(), number("2"), 1),
            Token::new(TokenType::Semicolon, ";".to_string(), 1),
            Token::new(TokenType::Print, "print".to_string(), 2),
            Token::new(TokenType::Identifier, "answer".to_string(), 2),
            Token::new(TokenType::BangEqual, "!=".to_string(), 2),
            Token::new(TokenType::Nil, "nil".to_string(), 2),
            Token::new(TokenType::Semicolon, ";".to_string(), 2),
            Token::new(TokenType::Eof, String::new(), 2),
        ]
    );
}

#[test]
fn scanning_again_gives_the_same_result() {
    let mut scanner = Scanner::new("a @\n\"b".to_string());
    let first = scanner.scan_tokens();
    let first_errors = scanner.errors().clone();
    let second = scanner.scan_tokens();
    assert_eq!(first, second);
    assert_eq!(first_errors, *scanner.errors());
    assert_eq!(first_errors.len(), 2);
}

#[test]
fn a_new_scanner_has_reported_nothing() {
    let scanner = Scanner::new("@".to_string());
    assert!(scanner.errors().is_empty());
}

#[test]
fn try_new_scans_like_new() {
    let source = "var a = \"b\";\n@";
    let mut checked = Scanner::try_new(source.to_string()).unwrap();
    let tokens = checked.scan_tokens();
    let (expected, expected_errors) = scan(source);
    assert_eq!(tokens, expected);
    assert_eq!(*checked.errors(), expected_errors);
    assert_eq!(tokens.len(), 6);
}
