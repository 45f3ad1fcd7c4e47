use chorus::Lexer;
use chorus::Rule;
use chorus::Token;
use chorus::TokenKind;
use chorus::Tokens;

fn rule(kind: Tokens, pattern: &str) -> Rule {
    Rule { kind: TokenKind(kind), pattern: pattern.to_string() }
}

fn tok(kind: Tokens, len: usize) -> Token {
    Token { kind: TokenKind(kind), len }
}

#[test]
fn empty_input() {
    let lx = Lexer::build(vec![rule(Tokens::Plus, r"^\+")]).unwrap();
    let toks = lx.tokenize("").unwrap();
    assert_eq!(toks, Vec::<Token>::new());
}

#[test]
fn end_to_end_operators() {
    let lx = Lexer::build(vec![
        rule(Tokens::Plus, r"^\+"),
        rule(Tokens::Minus, r"^-"),
        rule(Tokens::Star, r"^\*"),
        rule(Tokens::Slash, r"^/"),
        rule(Tokens::Percent, r"^%"),
        rule(Tokens::Semi, r"^;"),
        rule(Tokens::Lt, r"^<"),
        rule(Tokens::Gt, r"^>"),
    ])
    .unwrap();
    let toks = lx.tokenize("+-*/%;<>").unwrap();
    assert_eq!(
        toks,
        vec![
            tok(Tokens::Plus, 1),
            tok(Tokens::Minus, 1),
            tok(Tokens::Star, 1),
            tok(Tokens::Slash, 1),
            tok(Tokens::Percent, 1),
            tok(Tokens::Semi, 1),
            tok(Tokens::Lt, 1),
            tok(Tokens::Gt, 1),
        ]
    );
}

#[test]
fn longest_match_beats_earlier_rule() {
    // Lte is declared after Lt, but its longer match wins.
    let lx = Lexer::build(vec![rule(Tokens::Lt, r"^<"), rule(Tokens::Lte, r"^<=")]).unwrap();
    let toks = lx.tokenize("<=").unwrap();
    assert_eq!(toks, vec![tok(Tokens::Lte, 2)]);
}

#[test]
fn longest_match_comment_beats_slash() {
    let lx = Lexer::build(vec![rule(Tokens::Slash, r"^/"), rule(Tokens::Comment, r"^//")]).unwrap();
    let toks = lx.tokenize("//x").unwrap();
    assert_eq!(toks, vec![tok(Tokens::Comment, 2), tok(Tokens::Unknown, 1)]);
}

#[test]
fn tie_break_earliest_declared_wins() {
    // Both rules match the same one-character prefix; the first declared wins.
    let lx = Lexer::build(vec![rule(Tokens::Plus, r"^x"), rule(Tokens::Minus, r"^x")]).unwrap();
    let toks = lx.tokenize("x").unwrap();
    assert_eq!(toks, vec![tok(Tokens::Plus, 1)]);
}

#[test]
fn identifier_rewrite() {
    let lx = Lexer::build(vec![rule(Tokens::TakesValue, r"(^\w+)")]).unwrap();
    let toks = lx.tokenize("foo").unwrap();
    assert_eq!(toks, vec![tok(Tokens::Identifier("foo".to_string()), 3)]);
}

#[test]
fn recovery_forward_progress() {
    let lx = Lexer::build(vec![rule(Tokens::Plus, r"^\+")]).unwrap();
    let toks = lx.tokenize("+@@+@").unwrap();
    assert_eq!(
        toks,
        vec![
            tok(Tokens::Plus, 1),
            tok(Tokens::Unknown, 2),
            tok(Tokens::Plus, 1),
            tok(Tokens::Unknown, 1),
        ]
    );
    let total: usize = toks.iter().map(|t| t.len).sum();
    assert_eq!(total, 5);
}

#[test]
fn recovery_spans_whole_input() {
    let lx = Lexer::build(vec![rule(Tokens::Plus, r"^\+")]).unwrap();
    let toks = lx.tokenize("@@@").unwrap();
    assert_eq!(toks, vec![tok(Tokens::Unknown, 3)]);
}

#[test]
fn tokenize_is_deterministic() {
    let lx = Lexer::build(vec![
        rule(Tokens::Lt, r"^<"),
        rule(Tokens::Lte, r"^<="),
        rule(Tokens::TakesValue, r"(^\w+)"),
    ])
    .unwrap();
    let a = lx.tokenize("a <= b @ c").unwrap();
    let b = lx.tokenize("a <= b @ c").unwrap();
    assert_eq!(a, b);
}

#[test]
fn token_lengths_count_characters() {
    let lx = Lexer::build(vec![rule(Tokens::Plus, r"^\+")]).unwrap();
    let toks = lx.tokenize("\u{e9}+").unwrap();
    assert_eq!(toks, vec![tok(Tokens::Unknown, 1), tok(Tokens::Plus, 1)]);
}

#[test]
fn next_token_single_step() {
    let lx = Lexer::build(vec![rule(Tokens::Plus, r"^\+"), rule(Tokens::Minus, r"^-")]).unwrap();
    let t = lx.next_token("+-").unwrap();
    assert_eq!(t, tok(Tokens::Plus, 1));
}

#[test]
fn next_token_recovers_on_unmatched_input() {
    let lx = Lexer::build(vec![rule(Tokens::Plus, r"^\+")]).unwrap();
    let t = lx.next_token("@+").unwrap();
    assert_eq!(t, tok(Tokens::Unknown, 1));
}

#[test]
fn build_rejects_malformed_pattern() {
    let e = Lexer::build(vec![rule(Tokens::Plus, r"^\+"), rule(Tokens::Minus, "(")]).unwrap_err();
    assert_eq!(e.message, "(");
    assert_eq!((e.line, e.column), (1, 1));
}

#[test]
fn zero_length_match_is_an_error() {
    let lx = Lexer::build(vec![rule(Tokens::Star, "^a*")]).unwrap();
    let e = lx.tokenize("b").unwrap_err();
    assert_eq!((e.line, e.column), (1, 1));
    assert!(e.message.contains("a*"));
}

#[test]
fn zero_length_error_carries_position() {
    let lx = Lexer::build(vec![rule(Tokens::Star, "^a*")]).unwrap();
    // The first step consumes "a"; at the "b" the winning match is empty.
    let e = lx.tokenize("ab").unwrap_err();
    assert_eq!((e.line, e.column), (1, 2));
    let lx2 = Lexer::build(vec![rule(Tokens::Newline, r"^\n"), rule(Tokens::Star, "^a*")]).unwrap();
    let e2 = lx2.tokenize("a\nb").unwrap_err();
    assert_eq!((e2.line, e2.column), (2, 1));
}

#[test]
fn next_token_zero_length_error() {
    let lx = Lexer::build(vec![rule(Tokens::Star, "^a*")]).unwrap();
    let e = lx.next_token("b").unwrap_err();
    assert_eq!((e.line, e.column), (1, 1));
}

#[test]
fn anchored_matching_ignores_later_matches() {
    // The pattern matches inside the text but not at its start, so the
    // first span is recovery, not a match at distance.
    let lx = Lexer::build(vec![rule(Tokens::Plus, r"\+")]).unwrap();
    let toks = lx.tokenize("@+").unwrap();
    assert_eq!(toks, vec![tok(Tokens::Unknown, 1), tok(Tokens::Plus, 1)]);
}
