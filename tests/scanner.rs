use lox_scanner::lox_error::LoxError;
use lox_scanner::scanner::Scanner;
use lox_scanner::token::{keyword, Token};
use lox_scanner::token_type::TokenType;

fn scan(text: &str) -> Vec<Token> {
    let mut scanner = Scanner::new(text.to_string());
    scanner.scan_tokens().clone()
}

fn scan_with_errors(text: &str) -> (Vec<Token>, Vec<LoxError>) {
    let mut scanner = Scanner::new(text.to_string());
    let tokens = scanner.scan_tokens().clone();
    (tokens, scanner.errors().clone())
}

fn types(tokens: &[Token]) -> Vec<TokenType> {
    tokens.iter().map(|t| t.token_type).collect()
}

#[test]
fn empty_input_yields_only_eof() {
    let tokens = scan("");
    assert_eq!(tokens.len(), 1);
    assert_eq!(tokens[0].token_type, TokenType::Eof);
    assert_eq!(tokens[0].lexeme, "");
    assert_eq!(tokens[0].line, 1);
    assert_eq!(tokens[0].object, None);
}

#[test]
fn eof_is_last_and_only() {
    for text in ["var x = 1;", "print \"a\"; // done\n", "@#$", "\"open", "a\nb\nc"] {
        let tokens = scan(text);
        assert_eq!(tokens.last().unwrap().token_type, TokenType::Eof);
        let eofs = tokens.iter().filter(|t| t.token_type == TokenType::Eof).count();
        assert_eq!(eofs, 1);
    }
}

#[test]
fn single_punctuation_characters() {
    let cases = [
        ("(", TokenType::LeftParen),
        (")", TokenType::RightParen),
        ("{", TokenType::LeftBrace),
        ("}", TokenType::RightBrace),
        (",", TokenType::Comma),
        (".", TokenType::Dot),
        ("-", TokenType::Minus),
        ("+", TokenType::Plus),
        (";", TokenType::Semicolon),
        ("*", TokenType::Star),
    ];
    for (text, kind) in cases {
        let tokens = scan(text);
        assert_eq!(types(&tokens), vec![kind, TokenType::Eof]);
        assert_eq!(tokens[0].lexeme, text);
        assert_eq!(tokens[0].line, 1);
        assert_eq!(tokens[0].object, None);
    }
}

#[test]
fn bang_equal_is_one_token() {
    let tokens = scan("!=");
    assert_eq!(types(&tokens), vec![TokenType::BangEqual, TokenType::Eof]);
    assert_eq!(tokens[0].lexeme, "!=");
}

#[test]
fn bang_alone_before_other_character() {
    let tokens = scan("!a");
    assert_eq!(types(&tokens), vec![TokenType::Bang, TokenType::Identifier, TokenType::Eof]);
    assert_eq!(tokens[0].lexeme, "!");
    let tokens = scan("!");
    assert_eq!(types(&tokens), vec![TokenType::Bang, TokenType::Eof]);
}

#[test]
fn two_character_operators() {
    let tokens = scan("== <= >= = < >");
    assert_eq!(
        types(&tokens),
        vec![
            TokenType::EqualEqual,
            TokenType::LessEqual,
            TokenType::GreaterEqual,
            TokenType::Equal,
            TokenType::Less,
            TokenType::Greater,
            TokenType::Eof
        ]
    );
    assert_eq!(tokens[1].lexeme, "<=");
    assert_eq!(tokens[4].lexeme, "<");
}

#[test]
fn comment_is_absorbed() {
    let tokens = scan("1 // ignored\n2");
    assert_eq!(types(&tokens), vec![TokenType::Number, TokenType::Number, TokenType::Eof]);
    assert_eq!(tokens[0].object, Some("1".to_string()));
    assert_eq!(tokens[0].line, 1);
    assert_eq!(tokens[1].object, Some("2".to_string()));
    assert_eq!(tokens[1].line, 2);
    assert_eq!(tokens[2].line, 2);
}

#[test]
fn slash_alone_is_division() {
    let tokens = scan("4 / 2");
    assert_eq!(types(&tokens), vec![TokenType::Number, TokenType::Slash, TokenType::Number, TokenType::Eof]);
    assert_eq!(tokens[1].lexeme, "/");
}

#[test]
fn comment_at_end_of_input() {
    let tokens = scan("// only a comment");
    assert_eq!(types(&tokens), vec![TokenType::Eof]);
}

#[test]
fn line_follows_newlines_before_token() {
    let tokens = scan("\n\nx");
    assert_eq!(tokens[0].lexeme, "x");
    assert_eq!(tokens[0].line, 3);
    let tokens = scan("a\nb\n\nc");
    let lines: Vec<usize> = tokens.iter().map(|t| t.line).collect();
    assert_eq!(lines, vec![1, 2, 4, 4]);
}

#[test]
fn whitespace_yields_no_tokens() {
    let tokens = scan(" \t\r\n ");
    assert_eq!(types(&tokens), vec![TokenType::Eof]);
    assert_eq!(tokens[0].line, 2);
}

#[test]
fn string_literal_strips_quotes() {
    let tokens = scan("\"hello\"");
    assert_eq!(types(&tokens), vec![TokenType::String, TokenType::Eof]);
    assert_eq!(tokens[0].lexeme, "\"hello\"");
    assert_eq!(tokens[0].object, Some("hello".to_string()));
}

#[test]
fn string_keeps_escapes_raw() {
    let tokens = scan("\"a\\nb\"");
    assert_eq!(tokens[0].object, Some("a\\nb".to_string()));
}

#[test]
fn multi_line_string_starts_on_its_first_line() {
    let tokens = scan("\"a\nb\" x");
    assert_eq!(types(&tokens), vec![TokenType::String, TokenType::Identifier, TokenType::Eof]);
    assert_eq!(tokens[0].object, Some("a\nb".to_string()));
    assert_eq!(tokens[0].line, 1);
    assert_eq!(tokens[1].line, 2);
}

#[test]
fn unterminated_string_reports_one_error() {
    let (tokens, errors) = scan_with_errors("\"abc");
    assert_eq!(types(&tokens), vec![TokenType::Eof]);
    assert_eq!(errors.len(), 1);
    assert_eq!(errors[0].line, 1);
    assert_eq!(errors[0].message, "Unterminated string");
}

#[test]
fn unterminated_string_reports_its_opening_line() {
    let (tokens, errors) = scan_with_errors("x\n\"ab\ncd");
    assert_eq!(types(&tokens), vec![TokenType::Identifier, TokenType::Eof]);
    assert_eq!(errors.len(), 1);
    assert_eq!(errors[0].line, 2);
    assert_eq!(tokens[1].line, 3);
}

#[test]
fn number_without_fraction_digit() {
    let tokens = scan("3.");
    assert_eq!(types(&tokens), vec![TokenType::Number, TokenType::Dot, TokenType::Eof]);
    assert_eq!(tokens[0].lexeme, "3");
    assert_eq!(tokens[0].object, Some("3".to_string()));
}

#[test]
fn number_with_fraction() {
    let tokens = scan("3.14");
    assert_eq!(types(&tokens), vec![TokenType::Number, TokenType::Eof]);
    assert_eq!(tokens[0].lexeme, "3.14");
    assert_eq!(tokens[0].object, Some("3.14".to_string()));
}

#[test]
fn number_then_method_call() {
    let tokens = scan("12.abs");
    assert_eq!(types(&tokens), vec![TokenType::Number, TokenType::Dot, TokenType::Identifier, TokenType::Eof]);
    assert_eq!(tokens[0].lexeme, "12");
}

#[test]
fn keyword_and_identifier() {
    let tokens = scan("for");
    assert_eq!(types(&tokens), vec![TokenType::For, TokenType::Eof]);
    assert_eq!(tokens[0].object, None);
    let tokens = scan("forest");
    assert_eq!(types(&tokens), vec![TokenType::Identifier, TokenType::Eof]);
    assert_eq!(tokens[0].lexeme, "forest");
}

#[test]
fn every_reserved_word() {
    let words = [
        ("and", TokenType::And),
        ("class", TokenType::Class),
        ("else", TokenType::Else),
        ("false", TokenType::False),
        ("for", TokenType::For),
        ("fun", TokenType::Fun),
        ("if", TokenType::If),
        ("nil", TokenType::Nil),
        ("or", TokenType::Or),
        ("print", TokenType::Print),
        ("return", TokenType::Return),
        ("super", TokenType::Super),
        ("this", TokenType::This),
        ("true", TokenType::True),
        ("var", TokenType::Var),
        ("while", TokenType::While),
    ];
    for (word, kind) in words {
        let chars: Vec<char> = word.chars().collect();
        assert_eq!(keyword(&chars), Some(kind));
        assert_eq!(types(&scan(word)), vec![kind, TokenType::Eof]);
    }
    let chars: Vec<char> = "For".chars().collect();
    assert_eq!(keyword(&chars), None);
    assert_eq!(keyword(&[]), None);
}

#[test]
fn identifier_with_digits_and_letters_beyond_ascii() {
    let tokens = scan("x1 café");
    assert_eq!(types(&tokens), vec![TokenType::Identifier, TokenType::Identifier, TokenType::Eof]);
    assert_eq!(tokens[0].lexeme, "x1");
    assert_eq!(tokens[1].lexeme, "café");
}

#[test]
fn unexpected_character_is_skipped() {
    let (tokens, errors) = scan_with_errors("a @ b\n#");
    assert_eq!(types(&tokens), vec![TokenType::Identifier, TokenType::Identifier, TokenType::Eof]);
    assert_eq!(tokens[1].lexeme, "b");
    assert_eq!(errors.len(), 2);
    assert_eq!(errors[0].line, 1);
    assert_eq!(errors[0].message, "Unexpected Character");
    assert_eq!(errors[1].line, 2);
}

#[test]
fn scanning_twice_gives_equal_tokens() {
    let text = "var answer = (4 + 2) * 7; // done\nprint \"answer\";";
    let mut scanner = Scanner::new(text.to_string());
    let first = scanner.scan_tokens().clone();
    let second = scanner.scan_tokens().clone();
    assert_eq!(first, second);
    assert_eq!(first, scan(text));
    assert_eq!(first.len(), 15);
}

#[test]
fn token_new_keeps_its_fields() {
    let t = Token::new("42".to_string(), 7, TokenType::Number, Some("42".to_string()));
    assert_eq!(t.lexeme, "42");
    assert_eq!(t.line, 7);
    assert_eq!(t.token_type, TokenType::Number);
    assert_eq!(t.object, Some("42".to_string()));
}

#[test]
fn lox_error_keeps_its_fields() {
    let e = LoxError::error(3, "Unexpected Character".to_string());
    assert_eq!(e.line, 3);
    assert_eq!(e.message, "Unexpected Character");
}
