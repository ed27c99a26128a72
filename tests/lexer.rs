use rust_cc::ast::Number;
use rust_cc::lexer::{identifier, lex, lex_str, number, peek_at_next_char, string, Operator, Token};

fn ident(s: &str) -> Token {
    Token::Identifier(s.to_string())
}

fn simple_program_tokens() -> Vec<Token> {
    vec![
        ident("int"),
        ident("main"),
        Token::LParen,
        ident("int"),
        ident("argc"),
        Token::Comma,
        ident("char"),
        Token::Operator(Operator::Asterisk),
        ident("argv"),
        Token::LSquareBracket,
        Token::RSquareBracket,
        Token::RParen,
        Token::LBrace,
        ident("printf"),
        Token::LParen,
        Token::String("Hello world\n".to_string()),
        Token::RParen,
        Token::Semicolon,
        ident("return"),
        Token::Number(Number::Int(0)),
        Token::Semicolon,
        Token::RBrace,
    ]
}

const SIMPLE_PROGRAM: &str = r##"
                int main(int argc, char *argv[]) {
                    printf("Hello world\n");
                    return 0;
                }
            "##;

fn float_text(t: &Token) -> String {
    match t {
        Token::Number(Number::Float(s)) => s.clone(),
        _ => panic!("not a float literal: {:?}", t),
    }
}

#[test]
fn comma_lparen_lbrace() {
    assert_eq!(lex(", ( {").unwrap(), vec![Token::Comma, Token::LParen, Token::LBrace]);
}

#[test]
fn lexer_unexpected_character() {
    assert!(lex("$").is_err());
    assert!(lex("@").is_err());
}

#[test]
fn lexer_numbers() {
    assert_eq!(lex("123").unwrap(), vec![Token::Number(Number::Int(123))]);
    let toks = lex("12.3").unwrap();
    assert_eq!(toks.len(), 1);
    assert_eq!(float_text(&toks[0]).parse::<f64>().unwrap(), 12.3);
    assert_eq!(lex("012").unwrap(), vec![Token::Number(Number::Int(12))]);
    assert_eq!(lex("0120}").unwrap(), vec![Token::Number(Number::Int(120)), Token::RBrace]);
}

#[test]
fn lexer_identifiers() {
    assert_eq!(
        lex("int ident1, _ident2;").unwrap(),
        vec![ident("int"), ident("ident1"), Token::Comma, ident("_ident2"), Token::Semicolon]
    );
}

#[test]
fn lexer_strings() {
    assert_eq!(lex(r##""\n\\\"""##).unwrap(), vec![Token::String("\n\\\"".to_string())]);
    assert!(lex("\"hello ").is_err());
    assert!(lex("\"hello \\").is_err());
}

#[test]
fn lexer_simple_program() {
    assert_eq!(lex(SIMPLE_PROGRAM).unwrap(), simple_program_tokens());
}

#[test]
fn mod_unexpected_character() {
    assert!(lex_str("$").is_err());
    assert!(lex_str("@").is_err());
}

#[test]
fn mod_numbers() {
    assert_eq!(lex_str("123").unwrap(), vec![Token::Number(Number::Int(123))]);
    let toks = lex_str("12.3").unwrap();
    assert_eq!(toks.len(), 1);
    assert_eq!(float_text(&toks[0]).parse::<f64>().unwrap(), 12.3);
    assert_eq!(lex_str("012").unwrap(), vec![Token::Number(Number::Int(12))]);
    assert_eq!(lex_str("0120}").unwrap(), vec![Token::Number(Number::Int(120)), Token::RBrace]);
}

#[test]
fn mod_identifiers() {
    assert_eq!(
        lex_str("int ident1, _ident2;").unwrap(),
        vec![ident("int"), ident("ident1"), Token::Comma, ident("_ident2"), Token::Semicolon]
    );
}

#[test]
fn mod_strings() {
    assert_eq!(lex_str(r##""\n\\\"""##).unwrap(), vec![Token::String("\n\\\"".to_string())]);
    assert!(lex_str("\"hello ").is_err());
    assert!(lex_str("\"hello \\").is_err());
}

#[test]
fn one_line_comments() {
    assert_eq!(lex_str("").unwrap(), vec![]);
    assert_eq!(lex_str("//").unwrap(), vec![]);
    assert_eq!(lex_str("// hello ").unwrap(), vec![]);
    assert_eq!(lex_str("// hello \n\n").unwrap(), vec![]);
    assert_eq!(lex_str(", // hello").unwrap(), vec![Token::Comma]);
    assert_eq!(lex_str(", // hello \\\n goodbye").unwrap(), vec![Token::Comma]);
    assert_eq!(lex_str(", // hello \n ;").unwrap(), vec![Token::Comma, Token::Semicolon]);
}

#[test]
fn mod_simple_program() {
    assert_eq!(lex_str(SIMPLE_PROGRAM).unwrap(), simple_program_tokens());
}

#[test]
fn punctuation_only() {
    assert_eq!(
        lex(",,( {  ,").unwrap(),
        vec![Token::Comma, Token::Comma, Token::LParen, Token::LBrace, Token::Comma]
    );
    assert_eq!(lex("   ").unwrap(), vec![]);
}

#[test]
fn digits_only() {
    assert_eq!(lex("0").unwrap(), vec![Token::Number(Number::Int(0))]);
    assert_eq!(lex("000").unwrap(), vec![Token::Number(Number::Int(0))]);
    assert_eq!(lex("9223372036854775807").unwrap(), vec![Token::Number(Number::Int(i64::MAX))]);
    assert!(lex("9223372036854775808").is_err());
    assert!(lex("123456789012345678901234567890").is_err());
}

#[test]
fn lone_period() {
    assert_eq!(lex(".").unwrap(), vec![Token::Period]);
    assert_eq!(lex("a.b").unwrap(), vec![ident("a"), Token::Period, ident("b")]);
}

#[test]
fn float_literals() {
    let toks = lex(".5 7.").unwrap();
    assert_eq!(toks.len(), 2);
    assert_eq!(float_text(&toks[0]), ".5");
    assert_eq!(float_text(&toks[1]), "7.");
    assert_eq!(float_text(&toks[1]).parse::<f64>().unwrap(), 7.0);
}

#[test]
fn two_decimal_points() {
    assert!(lex("1.2.3").is_err());
    assert!(lex("..").is_err());
}

#[test]
fn escaped_string_round_trip() {
    assert_eq!(
        lex(r##""a\"b\nc\rd\\e""##).unwrap(),
        vec![Token::String("a\"b\nc\rd\\e".to_string())]
    );
    assert_eq!(lex("\"\"").unwrap(), vec![Token::String(String::new())]);
}

#[test]
fn malformed_strings() {
    assert!(lex(r##""bad \q escape""##).is_err());
    assert!(lex("\"never closed").is_err());
    assert!(lex("x \"").is_err());
}

#[test]
fn operators() {
    assert_eq!(
        lex("+-*/%=").unwrap(),
        vec![
            Token::Operator(Operator::Add),
            Token::Operator(Operator::Subtract),
            Token::Operator(Operator::Asterisk),
            Token::Operator(Operator::Divide),
            Token::Operator(Operator::Modulo),
            Token::Operator(Operator::Assign),
        ]
    );
    assert!(lex("a & b").is_err());
    assert!(lex("'c'").is_err());
    assert!(lex("a\rb").is_err());
}

#[test]
fn block_comments_in_lexer() {
    assert_eq!(lex("a /* b */ c").unwrap(), vec![ident("a"), ident("c")]);
    assert_eq!(lex("a /* b * / c").unwrap(), vec![ident("a")]);
    assert_eq!(lex("a/**/b").unwrap(), vec![ident("a"), ident("b")]);
}

#[test]
fn relex_gives_same_tokens() {
    let first = lex(SIMPLE_PROGRAM).unwrap();
    let second = lex(SIMPLE_PROGRAM).unwrap();
    assert_eq!(first, second);
}

#[test]
fn operator_from_str() {
    assert_eq!(Operator::from_str("+"), Some(Operator::Add));
    assert_eq!(Operator::from_str("-"), Some(Operator::Subtract));
    assert_eq!(Operator::from_str("*"), Some(Operator::Asterisk));
    assert_eq!(Operator::from_str("/"), Some(Operator::Divide));
    assert_eq!(Operator::from_str("&&"), Some(Operator::And));
    assert_eq!(Operator::from_str("||"), Some(Operator::Or));
    assert_eq!(Operator::from_str("="), Some(Operator::Assign));
    assert_eq!(Operator::from_str("%"), None);
    assert_eq!(Operator::from_str("&|"), None);
    assert_eq!(Operator::from_str(""), None);
    assert_eq!(Operator::from_str("+++"), None);
}

#[test]
fn scanners_on_chars() {
    let chars: Vec<char> = " abc1_+".chars().collect();
    let mut pos: usize = 1;
    assert_eq!(identifier(&chars, &mut pos), "abc1_");
    assert_eq!(pos, 6);

    let chars: Vec<char> = "x12.5;".chars().collect();
    let mut pos: usize = 1;
    let tok = number(&chars, &mut pos).unwrap();
    assert_eq!(float_text(&tok), "12.5");
    assert_eq!(pos, 5);

    let chars: Vec<char> = "\"a\\nb\" rest".chars().collect();
    let mut pos: usize = 0;
    assert_eq!(string(&chars, &mut pos).unwrap(), "a\nb");
    assert_eq!(pos, 6);

    assert_eq!(peek_at_next_char(&chars, 0), Some('a'));
    assert_eq!(peek_at_next_char(&chars, chars.len() - 1), None);
    assert_eq!(peek_at_next_char(&chars, usize::MAX), None);
}
