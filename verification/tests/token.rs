use lox::chars::{is_alpha, is_alpha_numeric, is_digit};
use lox::error::LexErrorKind;
use lox::keywords::lookup;
use lox::number::Decimal;
use lox::text::{chars_of, same_text, string_of};
use lox::token::{DataType, Token, TokenType};

fn number(text: &str) -> DataType {
    DataType::Number(Decimal::parse(text).unwrap())
}

#[test]
fn decimal_parse_accepts_numerals() {
    for text in ["0", "7", "007", "123", "2.1", "45.67", "0.0", "10.250", "12345678901234567890.5"] {
        let value = Decimal::parse(text).unwrap();
        assert_eq!(value.to_string(), text);
    }
}

#[test]
fn decimal_parse_rejects_everything_else() {
    for text in [
        "", ".", ".5", "5.", "1..2", "1.2.3", "-1", "+1", "1e5", "1.5e3", " 1", "1 ", "1_000",
        "0x10", "abc", "1a", "١٢", "1.٢", "NaN", "inf",
    ] {
        assert_eq!(Decimal::parse(text), None, "{:?}", text);
    }
}

#[test]
fn decimal_value_as_float() {
    assert_eq!(Decimal::parse("2.1").unwrap().to_string().parse::<f64>().unwrap(), 2.1);
    assert_eq!(Decimal::parse("123").unwrap().to_string().parse::<f64>().unwrap(), 123.0);
    assert_eq!(Decimal::parse("45.67").unwrap().to_string().parse::<f64>().unwrap(), 45.67);
}

#[test]
fn decimal_clone_is_equal() {
    let value = Decimal::parse("3.25").unwrap();
    assert_eq!(value.clone(), value);
    assert_ne!(value, Decimal::parse("3.250").unwrap());
}

#[test]
fn literal_text_by_kind() {
    assert_eq!(DataType::Boolean(true).to_string(), "true");
    assert_eq!(DataType::Boolean(false).to_string(), "false");
    assert_eq!(number("2.1").to_string(), "2.1");
    assert_eq!(number("123").to_string(), "123");
    assert_eq!(DataType::String("raw text".to_string()).to_string(), "raw text");
    assert_eq!(DataType::String(String::new()).to_string(), "");
    assert_eq!(DataType::Nil.to_string(), "Nil");
}

#[test]
fn token_type_names() {
    assert_eq!(TokenType::LeftParen.name(), "LeftParen");
    assert_eq!(TokenType::BangEqual.name(), "BangEqual");
    assert_eq!(TokenType::Identifier.name(), "Identifier");
    assert_eq!(TokenType::String.name(), "String");
    assert_eq!(TokenType::While.name(), "While");
    assert_eq!(TokenType::Comment.name(), "Comment");
    assert_eq!(TokenType::Error.name(), "Error");
    assert_eq!(TokenType::Eof.name(), "Eof");
}

#[test]
fn token_type_name_is_its_debug_form() {
    let all = [
        TokenType::LeftParen,
        TokenType::RightParen,
        TokenType::LeftBrace,
        TokenType::RightBrace,
        TokenType::Comma,
        TokenType::Dot,
        TokenType::Minus,
        TokenType::Plus,
        TokenType::Semicolon,
        TokenType::Slash,
        TokenType::Star,
        TokenType::Bang,
        TokenType::BangEqual,
        TokenType::Equal,
        TokenType::EqualEqual,
        TokenType::Greater,
        TokenType::GreaterEqual,
        TokenType::Less,
        TokenType::LessEqual,
        TokenType::Identifier,
        TokenType::String,
        TokenType::Number,
        TokenType::And,
        TokenType::Class,
        TokenType::Else,
        TokenType::False,
        TokenType::Fun,
        TokenType::For,
        TokenType::If,
        TokenType::Nil,
        TokenType::Or,
        TokenType::Print,
        TokenType::Return,
        TokenType::Super,
        TokenType::This,
        TokenType::True,
        TokenType::Var,
        TokenType::While,
        TokenType::Comment,
        TokenType::Error,
        TokenType::Eof,
    ];
    for token_type in all {
        assert_eq!(token_type.name(), format!("{:?}", token_type));
    }
}

#[test]
fn token_new_has_no_literal() {
    let token = Token::new(TokenType::Plus, "+".to_string(), 3);
    assert_eq!(token.token_type, TokenType::Plus);
    assert_eq!(token.lexeme, "+");
    assert_eq!(token.literal, None);
    assert_eq!(token.line, 3);
}

#[test]
fn token_new_with_literal_keeps_it() {
    let token =
        Token::new_with_literal(TokenType::Number, "2.1".to_string(), Some(number("2.1")), 7);
    assert_eq!(token.token_type, TokenType::Number);
    assert_eq!(token.lexeme, "2.1");
    assert_eq!(token.literal, Some(number("2.1")));
    assert_eq!(token.line, 7);
    let bare = Token::new_with_literal(TokenType::Minus, "-".to_string(), None, 1);
    assert_eq!(bare, Token::new(TokenType::Minus, "-".to_string(), 1));
}

#[test]
fn token_as_text() {
    let plus = Token::new(TokenType::Plus, "+".to_string(), 1);
    assert_eq!(plus.to_string(), "Plus + None");
    let word = Token::new(TokenType::Identifier, "answer".to_string(), 2);
    assert_eq!(word.to_string(), "Identifier answer None");
    let num = Token::new_with_literal(TokenType::Number, "2.1".to_string(), Some(number("2.1")), 1);
    assert_eq!(num.to_string(), "Number 2.1 2.1");
    let text = Token::new_with_literal(
        TokenType::String,
        "\"hi there\"".to_string(),
        Some(DataType::String("hi there".to_string())),
        1,
    );
    assert_eq!(text.to_string(), "String \"hi there\" hi there");
    let eof = Token::new(TokenType::Eof, String::new(), 9);
    assert_eq!(eof.to_string(), "Eof  None");
}

#[test]
fn token_into_string() {
    let token = Token::new_with_literal(
        TokenType::String,
        "\"hi\"".to_string(),
        Some(DataType::String("hi".to_string())),
        1,
    );
    let expected = token.to_string();
    let text: String = token.into();
    assert_eq!(text, expected);
    assert_eq!(text, "String \"hi\" hi");
    assert_eq!(String::from(Token::new(TokenType::Nil, "nil".to_string(), 1)), "Nil nil None");
}

#[test]
fn error_messages() {
    assert_eq!(LexErrorKind::UnterminatedString.message(), "Unterminated string.");
    assert_eq!(LexErrorKind::UnexpectedCharacter.message(), "Unexpected character.");
    assert_eq!(LexErrorKind::NumberParseFailure.message(), "Invalid number.");
}

#[test]
fn keyword_lookup() {
    assert_eq!(lookup("and"), Some(TokenType::And));
    assert_eq!(lookup("class"), Some(TokenType::Class));
    assert_eq!(lookup("else"), Some(TokenType::Else));
    assert_eq!(lookup("false"), Some(TokenType::False));
    assert_eq!(lookup("for"), Some(TokenType::For));
    assert_eq!(lookup("fun"), Some(TokenType::Fun));
    assert_eq!(lookup("if"), Some(TokenType::If));
    assert_eq!(lookup("nil"), Some(TokenType::Nil));
    assert_eq!(lookup("or"), Some(TokenType::Or));
    assert_eq!(lookup("print"), Some(TokenType::Print));
    assert_eq!(lookup("return"), Some(TokenType::Return));
    assert_eq!(lookup("super"), Some(TokenType::Super));
    assert_eq!(lookup("this"), Some(TokenType::This));
    assert_eq!(lookup("true"), Some(TokenType::True));
    assert_eq!(lookup("var"), Some(TokenType::Var));
    assert_eq!(lookup("while"), Some(TokenType::While));
}

#[test]
fn keyword_lookup_is_exact() {
    for word in ["", "If", "IF", "iff", "i", "an", "andy", "nil ", " nil", "whil", "eof", "Nil"] {
        assert_eq!(lookup(word), None, "{:?}", word);
    }
}

#[test]
fn character_classes() {
    for c in '0'..='9' {
        assert!(is_digit(c) && !is_alpha(c) && is_alpha_numeric(c));
    }
    for c in ('a'..='z').chain('A'..='Z').chain(['_']) {
        assert!(!is_digit(c) && is_alpha(c) && is_alpha_numeric(c));
    }
    for c in ['/', ':', '@', '[', '`', '{', ' ', '\n', '\0', '.', '-', 'é', '٣'] {
        assert!(!is_digit(c) && !is_alpha(c) && !is_alpha_numeric(c), "{:?}", c);
    }
}

#[test]
fn characters_of_a_string() {
    assert_eq!(chars_of(""), Vec::<char>::new());
    assert_eq!(chars_of("a é\n"), vec!['a', ' ', 'é', '\n']);
}

#[test]
fn string_of_a_range() {
    let chars = vec!['v', 'a', 'r', ' ', 'é', '1'];
    assert_eq!(string_of(&chars, 0, 3), "var");
    assert_eq!(string_of(&chars, 4, 6), "é1");
    assert_eq!(string_of(&chars, 2, 2), "");
    assert_eq!(string_of(&chars, 0, 6), "var é1");
}

#[test]
fn same_text_compares_characters() {
    assert!(same_text("", ""));
    assert!(same_text("while", "while"));
    assert!(!same_text("while", "whale"));
    assert!(!same_text("if", "iff"));
    assert!(!same_text("é", "e"));
}

#[test]
fn clones_are_equal() {
    let token = Token::new_with_literal(
        TokenType::String,
        "\"hi\"".to_string(),
        Some(DataType::String("hi".to_string())),
        4,
    );
    assert_eq!(token.clone(), token);
    let bare = Token::new(TokenType::Plus, "+".to_string(), 1);
    assert_eq!(bare.clone(), bare);
    for literal in [
        DataType::Boolean(true),
        number("12.5"),
        DataType::String("s".to_string()),
        DataType::Nil,
    ] {
        assert_eq!(literal.clone(), literal);
    }
}
