//! The language definition and the parsing driver.
//!
//! This module enumerates the language's rules — operators, keywords,
//! punctuation, whitespace and the value-capturing identifier rule, in
//! priority order — and drives one tokenization pass over a held source
//! text.

use vstd::prelude::*;

use crate::diag::DiagnosticError;
use crate::lexer::Lexer;
use crate::lexer::Rule;
use crate::lexer::RuleV;
use crate::lexer::rules_view;
use crate::lexer::tokenize_spec;
use crate::pattern::pattern_ok;
use crate::token::Token;
use crate::token::TokenKind;
use crate::token::Tokens;
use crate::token::TokensV;
use crate::token::tokens_view;

verus! {

/// The compile targets a driver may select.
#[derive(Clone, Copy, Debug, PartialEq)]
pub enum Languages {
    Typescript,
}

/// The rule table of the language, in declaration order; declaration order
/// encodes tie-break priority.
pub open spec fn chorus_rules() -> Seq<RuleV> {
    seq![
        RuleV { kind: TokensV::Slash, pattern: "^/"@ },
        RuleV { kind: TokensV::Comment, pattern: "^//.*"@ },
        RuleV { kind: TokensV::Eq, pattern: "^={2}"@ },
        RuleV { kind: TokensV::Let, pattern: "^let"@ },
        RuleV { kind: TokensV::Function, pattern: "^fn"@ },
        RuleV { kind: TokensV::TakesValue, pattern: "(^\\w+)"@ },
        RuleV { kind: TokensV::Lt, pattern: "^<{1}"@ },
        RuleV { kind: TokensV::Gt, pattern: "^>{1}"@ },
        RuleV { kind: TokensV::Semi, pattern: "^;"@ },
        RuleV { kind: TokensV::Assign, pattern: "^={1}"@ },
        RuleV { kind: TokensV::Whitespace, pattern: "^\\s"@ },
        RuleV { kind: TokensV::Newline, pattern: "\\b[\\n|\\r\\n]\\b"@ },
        RuleV { kind: TokensV::OpenBracket, pattern: "^\\("@ },
        RuleV { kind: TokensV::ClosedBracket, pattern: "^\\)"@ },
        RuleV { kind: TokensV::OpenCurly, pattern: "^\\{"@ },
        RuleV { kind: TokensV::ClosedCurly, pattern: "^\\}"@ },
        RuleV { kind: TokensV::OpenSquare, pattern: "^\\["@ },
        RuleV { kind: TokensV::ClosedSquare, pattern: "^\\]"@ },
        RuleV { kind: TokensV::DoubleQuote, pattern: "^\""@ },
        RuleV { kind: TokensV::SingleQuote, pattern: "^'"@ },
        RuleV { kind: TokensV::Pipe, pattern: "^\\|>"@ },
        RuleV { kind: TokensV::Function, pattern: "^fn"@ },
        RuleV { kind: TokensV::If, pattern: "^if"@ },
        RuleV { kind: TokensV::While, pattern: "^while"@ },
        RuleV { kind: TokensV::For, pattern: "^for"@ },
        RuleV { kind: TokensV::Or, pattern: "^\\|\\|"@ },
        RuleV { kind: TokensV::BitwiseOr, pattern: "^\\|"@ },
        RuleV { kind: TokensV::And, pattern: "^&&"@ },
        RuleV { kind: TokensV::BitwiseAnd, pattern: "^&"@ },
        RuleV { kind: TokensV::Plus, pattern: "^\\+"@ },
        RuleV { kind: TokensV::Minus, pattern: "^-"@ },
        RuleV { kind: TokensV::Percent, pattern: "^%"@ },
        RuleV { kind: TokensV::Star, pattern: "^\\*"@ },
    ]
}

/// The executable rule table; it holds exactly the rules of
/// [`chorus_rules`], in the same order.
pub fn chorus_rule_table() -> (r: Vec<Rule>)
    ensures
        rules_view(r@) == chorus_rules(),
{
    let mut v: Vec<Rule> = Vec::new();
    v.push(Rule { kind: TokenKind(Tokens::Slash), pattern: "^/".to_owned() });
    v.push(Rule { kind: TokenKind(Tokens::Comment), pattern: "^//.*".to_owned() });
    v.push(Rule { kind: TokenKind(Tokens::Eq), pattern: "^={2}".to_owned() });
    v.push(Rule { kind: TokenKind(Tokens::Let), pattern: "^let".to_owned() });
    v.push(Rule { kind: TokenKind(Tokens::Function), pattern: "^fn".to_owned() });
    v.push(Rule { kind: TokenKind(Tokens::TakesValue), pattern: "(^\\w+)".to_owned() });
    v.push(Rule { kind: TokenKind(Tokens::Lt), pattern: "^<{1}".to_owned() });
    v.push(Rule { kind: TokenKind(Tokens::Gt), pattern: "^>{1}".to_owned() });
    v.push(Rule { kind: TokenKind(Tokens::Semi), pattern: "^;".to_owned() });
    v.push(Rule { kind: TokenKind(Tokens::Assign), pattern: "^={1}".to_owned() });
    v.push(Rule { kind: TokenKind(Tokens::Whitespace), pattern: "^\\s".to_owned() });
    v.push(Rule { kind: TokenKind(Tokens::Newline), pattern: "\\b[\\n|\\r\\n]\\b".to_owned() });
    v.push(Rule { kind: TokenKind(Tokens::OpenBracket), pattern: "^\\(".to_owned() });
    v.push(Rule { kind: TokenKind(Tokens::ClosedBracket), pattern: "^\\)".to_owned() });
    v.push(Rule { kind: TokenKind(Tokens::OpenCurly), pattern: "^\\{".to_owned() });
    v.push(Rule { kind: TokenKind(Tokens::ClosedCurly), pattern: "^\\}".to_owned() });
    v.push(Rule { kind: TokenKind(Tokens::OpenSquare), pattern: "^\\[".to_owned() });
    v.push(Rule { kind: TokenKind(Tokens::ClosedSquare), pattern: "^\\]".to_owned() });
    v.push(Rule { kind: TokenKind(Tokens::DoubleQuote), pattern: "^\"".to_owned() });
    v.push(Rule { kind: TokenKind(Tokens::SingleQuote), pattern: "^'".to_owned() });
    v.push(Rule { kind: TokenKind(Tokens::Pipe), pattern: "^\\|>".to_owned() });
    v.push(Rule { kind: TokenKind(Tokens::Function), pattern: "^fn".to_owned() });
    v.push(Rule { kind: TokenKind(Tokens::If), pattern: "^if".to_owned() });
    v.push(Rule { kind: TokenKind(Tokens::While), pattern: "^while".to_owned() });
    v.push(Rule { kind: TokenKind(Tokens::For), pattern: "^for".to_owned() });
    v.push(Rule { kind: TokenKind(Tokens::Or), pattern: "^\\|\\|".to_owned() });
    v.push(Rule { kind: TokenKind(Tokens::BitwiseOr), pattern: "^\\|".to_owned() });
    v.push(Rule { kind: TokenKind(Tokens::And), pattern: "^&&".to_owned() });
    v.push(Rule { kind: TokenKind(Tokens::BitwiseAnd), pattern: "^&".to_owned() });
    v.push(Rule { kind: TokenKind(Tokens::Plus), pattern: "^\\+".to_owned() });
    v.push(Rule { kind: TokenKind(Tokens::Minus), pattern: "^-".to_owned() });
    v.push(Rule { kind: TokenKind(Tokens::Percent), pattern: "^%".to_owned() });
    v.push(Rule { kind: TokenKind(Tokens::Star), pattern: "^\\*".to_owned() });
    proof {
        assert(rules_view(v@) =~= chorus_rules());
    }
    v
}

/// One parsing pass: a compile target and a held source text.
pub struct Parser {
    compile_target: Languages,
    file_content: String,
    parsed: bool,
}

impl Parser {
    /// The selected compile target.
    pub closed spec fn target(&self) -> Languages {
        self.compile_target
    }

    /// The held source text.
    pub closed spec fn content(&self) -> Seq<char> {
        self.file_content@
    }

    /// Whether a pass has been run.
    pub closed spec fn is_parsed(&self) -> bool {
        self.parsed
    }

    pub fn new(target: Languages, content: String) -> (p: Parser)
        ensures
            p.target() == target,
            p.content() == content@,
            !p.is_parsed(),
    {
        Parser { compile_target: target, file_content: content, parsed: false }
    }

    /// Tokenizes the held source text against the language's rule table.
    /// When every pattern of the table compiles — which the run-time check
    /// inside establishes — the result is exactly the table's tokenization
    /// of the text; a table defect is reported as an error, never a panic.
    pub fn parse(self) -> (r: Result<Vec<Token>, DiagnosticError>)
        requires
            self.content().len() < usize::MAX,
        ensures
            (forall|i: int|
                0 <= i < chorus_rules().len() ==> pattern_ok(
                    #[trigger] chorus_rules()[i].pattern,
                )) ==> ({
                let spec_r = tokenize_spec(chorus_rules(), self.content());
                match r {
                    Ok(toks) => spec_r matches Ok(ts) && tokens_view(toks@) == ts,
                    Err(_) => spec_r is Err,
                }
            }),
            !(forall|i: int|
                0 <= i < chorus_rules().len() ==> pattern_ok(#[trigger] chorus_rules()[i].pattern))
                ==> r is Err,
    {
        let rules = chorus_rule_table();
        match Lexer::build(rules) {
            Ok(lexer) => lexer.tokenize(self.file_content.as_str()),
            Err(e) => Err(e),
        }
    }
}

} // verus!
