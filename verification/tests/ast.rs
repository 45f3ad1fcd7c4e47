use chorus::Ast;
use chorus::Languages;
use chorus::Token;
use chorus::TokenKind;
use chorus::Tokens;

#[test]
fn ast_compile_placeholder() {
    let ast = Ast::build(Languages::Typescript, Vec::new());
    assert_eq!(ast.compile(), "you are stupid stop trying");
}

#[test]
fn ast_build_holds_tokens() {
    let toks = vec![Token { kind: TokenKind(Tokens::Semi), len: 1 }];
    let ast = Ast::build(Languages::Typescript, toks);
    assert_eq!(ast.compile(), "you are stupid stop trying");
}
