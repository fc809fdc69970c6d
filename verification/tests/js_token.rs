use saba_core::renderer::js::token::JsLexer;
use saba_core::renderer::js::token::Token;

fn lex(input: &str) -> Vec<Token> {
    let mut lexer = JsLexer::new(input.to_string());
    let mut tokens = Vec::new();
    while let Some(t) = lexer.next() {
        tokens.push(t);
    }
    tokens
}

#[test]
fn lexer_reads_numbers_and_punctuators() {
    assert_eq!(
        lex("1 + 23;"),
        vec![
            Token::Number(1),
            Token::Punctuator('+'),
            Token::Number(23),
            Token::Punctuator(';')
        ]
    );
}

#[test]
fn lexer_tells_keywords_from_identifiers() {
    assert_eq!(
        lex("var variable function functions return returned _x $y a1"),
        vec![
            Token::Keyword("var".to_string()),
            Token::Identifier("variable".to_string()),
            Token::Keyword("function".to_string()),
            Token::Identifier("functions".to_string()),
            Token::Keyword("return".to_string()),
            Token::Identifier("returned".to_string()),
            Token::Identifier("_x".to_string()),
            Token::Identifier("$y".to_string()),
            Token::Identifier("a1".to_string()),
        ]
    );
}

#[test]
fn lexer_is_case_sensitive() {
    assert_eq!(lex("Var"), vec![Token::Identifier("Var".to_string())]);
}

#[test]
fn lexer_reads_strings_in_both_quotes() {
    assert_eq!(
        lex("\"a b\" 'c\"d' \"open"),
        vec![
            Token::StringLiteral("a b".to_string()),
            Token::StringLiteral("c\"d".to_string()),
            Token::StringLiteral("open".to_string()),
        ]
    );
}

#[test]
fn lexer_skips_what_starts_no_token() {
    assert_eq!(
        lex(" \n\t#1 @ ?x"),
        vec![Token::Number(1), Token::Identifier("x".to_string())]
    );
    assert_eq!(lex("   "), Vec::<Token>::new());
}

#[test]
fn lexer_reads_every_punctuator() {
    let expected: Vec<Token> = "+-*/%(){};,=.".chars().map(Token::Punctuator).collect();
    assert_eq!(lex("+-*/%(){};,=."), expected);
}

#[test]
fn lexer_cuts_large_numbers_off_at_the_largest() {
    assert_eq!(lex("18446744073709551615"), vec![Token::Number(u64::MAX)]);
    assert_eq!(lex("18446744073709551616"), vec![Token::Number(u64::MAX)]);
    assert_eq!(lex("99999999999999999999999"), vec![Token::Number(u64::MAX)]);
    assert_eq!(lex("007"), vec![Token::Number(7)]);
}

#[test]
fn lexer_collects_all_tokens() {
    let mut lexer = JsLexer::new("a=1".to_string());
    assert_eq!(
        lexer.collect(),
        vec![Token::Identifier("a".to_string()), Token::Punctuator('='), Token::Number(1)]
    );
    assert_eq!(lexer.next(), None);
}
