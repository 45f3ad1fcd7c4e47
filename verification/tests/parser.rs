use chorus::Languages;
use chorus::Parser;
use chorus::Token;
use chorus::TokenKind;
use chorus::Tokens;

fn tok(kind: Tokens, len: usize) -> Token {
    Token { kind: TokenKind(kind), len }
}

#[test]
fn parse_let_declaration() {
    let p = Parser::new(Languages::Typescript, "let x = 1;".to_string());
    let toks = p.parse().unwrap();
    assert_eq!(
        toks,
        vec![
            tok(Tokens::Let, 3),
            tok(Tokens::Whitespace, 1),
            tok(Tokens::Identifier("x".to_string()), 1),
            tok(Tokens::Whitespace, 1),
            tok(Tokens::Assign, 1),
            tok(Tokens::Whitespace, 1),
            tok(Tokens::Identifier("1".to_string()), 1),
            tok(Tokens::Semi, 1),
        ]
    );
}

#[test]
fn parse_comment_wins_over_slash() {
    let p = Parser::new(Languages::Typescript, "//note".to_string());
    let toks = p.parse().unwrap();
    assert_eq!(toks, vec![tok(Tokens::Comment, 6)]);
}

#[test]
fn parse_equality_wins_over_assign() {
    let p = Parser::new(Languages::Typescript, "==".to_string());
    let toks = p.parse().unwrap();
    assert_eq!(toks, vec![tok(Tokens::Eq, 2)]);
}

#[test]
fn parse_keyword_beats_identifier_by_declaration_order() {
    // `let` matches both the keyword rule and the value-capturing rule with
    // equal length; the keyword rule is declared earlier and wins.
    let p = Parser::new(Languages::Typescript, "let".to_string());
    let toks = p.parse().unwrap();
    assert_eq!(toks, vec![tok(Tokens::Let, 3)]);
}

#[test]
fn parse_empty_content() {
    let p = Parser::new(Languages::Typescript, String::new());
    assert_eq!(p.parse().unwrap(), Vec::<Token>::new());
}
