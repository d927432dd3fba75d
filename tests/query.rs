use coogle_rs::normalize::{normalize_marked, normalize_query};
use coogle_rs::parse::{check_tokens, parse_query, parse_query_checked, QueryError};
use coogle_rs::signature::FunctionSignature;
use coogle_rs::token::Token;

fn ident(s: &str) -> Token {
    Token::Identifier(s.to_string())
}

fn sig(ret: &str, params: &[&str]) -> FunctionSignature {
    FunctionSignature {
        return_type: ret.to_string(),
        params: params.iter().map(|p| p.to_string()).collect(),
        is_variadic: false,
    }
}

#[test]
fn tokenize_int_pair() {
    let tokens = Token::tokenize("int(int,int)").unwrap();
    assert_eq!(
        tokens,
        vec![
            ident("int"),
            Token::LeftParen,
            ident("int"),
            Token::Comma,
            ident("int"),
            Token::RightParen,
        ]
    );
}

#[test]
fn tokenize_trims_whitespace() {
    let tokens = Token::tokenize("int -> (int, int)").unwrap();
    assert_eq!(
        tokens,
        vec![
            ident("int ->"),
            Token::LeftParen,
            ident("int"),
            Token::Comma,
            ident("int"),
            Token::RightParen,
        ]
    );
}

#[test]
fn tokenize_keeps_trailing_identifier() {
    let tokens = Token::tokenize("(char) void").unwrap();
    assert_eq!(tokens, vec![Token::LeftParen, ident("char"), Token::RightParen, ident("void")]);
}

#[test]
fn tokenize_empty_and_blank() {
    assert_eq!(Token::tokenize("").unwrap(), vec![]);
    assert_eq!(Token::tokenize("  ( , )").unwrap(), vec![Token::LeftParen, Token::Comma, Token::RightParen]);
}

#[test]
fn from_tokens_int_pair() {
    let tokens = Token::tokenize("int(int,int)").unwrap();
    let parsed = FunctionSignature::from_tokens(tokens);
    assert_eq!(parsed, sig("int", &["int", "int"]));
}

#[test]
fn from_tokens_last_bare_identifier_is_return_type() {
    let tokens = vec![ident("long"), Token::RightParen, ident("int"), Token::LeftParen, ident("char"), Token::RightParen];
    let parsed = FunctionSignature::from_tokens(tokens);
    assert_eq!(parsed, sig("int", &["char"]));
}

#[test]
fn from_tokens_second_group_starts_over() {
    let parsed = parse_query("int(char)float(double)");
    assert_eq!(parsed, sig("float", &["char", "double"]));
}

#[test]
fn parse_query_with_arrow() {
    let parsed = parse_query("int -> (int, int)");
    assert_eq!(parsed, sig("int ->", &["int", "int"]));
    assert!(!parsed.is_variadic);
}

#[test]
fn parse_query_empty() {
    assert_eq!(parse_query(""), sig("", &[]));
}

#[test]
fn normalize_query_removes_spaces() {
    assert_eq!(normalize_query("int (int, int)"), "int(int,int)");
    assert_eq!(normalize_query("Color (Vec4)"), "Color(Vec4)");
}

#[test]
fn normalize_query_drops_trailing_word() {
    assert_eq!(normalize_query("abc"), "");
    assert_eq!(normalize_query("a b"), "a");
    assert_eq!(normalize_query(""), "");
}

#[test]
fn normalize_marked_keeps_marked_spaces() {
    let marks = vec![true, true, true, false];
    assert_eq!(normalize_marked("a b)", &marks), "a b)");
    let marks = vec![true, true, false, true];
    assert_eq!(normalize_marked("a b)", &marks), "a b");
    let marks = vec![true, false, true, true];
    assert_eq!(normalize_marked("a bc", &marks), "a");
}

#[test]
fn parse_query_checked_accepts_one_group() {
    let parsed = parse_query_checked("int -> (int, int)").unwrap();
    assert_eq!(parsed, sig("int ->", &["int", "int"]));
    assert_eq!(parse_query_checked("void").unwrap(), sig("void", &[]));
}

#[test]
fn parse_query_checked_reports_each_defect() {
    assert_eq!(parse_query_checked("int((int))"), Err(QueryError::NestedGroup));
    assert_eq!(parse_query_checked("int(char)float(double)"), Err(QueryError::SecondGroup));
    assert_eq!(parse_query_checked("int)"), Err(QueryError::UnmatchedClose));
    assert_eq!(parse_query_checked("int(char"), Err(QueryError::UnterminatedGroup));
    assert_eq!(parse_query_checked("int)("), Err(QueryError::UnmatchedClose));
}

#[test]
fn check_tokens_on_token_list() {
    let tokens = vec![ident("int"), Token::LeftParen, Token::RightParen];
    assert_eq!(check_tokens(&tokens), Ok(()));
    assert_eq!(check_tokens(&vec![Token::LeftParen]), Err(QueryError::UnterminatedGroup));
}
