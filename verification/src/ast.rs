//! The syntax-tree builder and the compile step.
//!
//! Both are thin placeholders around the token stream: the builder holds the
//! tokens a pass produced together with the selected target, and the compile
//! step emits a fixed placeholder text for the one supported target. Neither
//! performs any real transformation; the design content of the crate lives
//! in the lexer.

use vstd::prelude::*;

use crate::parser::Languages;
use crate::token::Token;
use crate::token::TokenKind;

verus! {

/// A parsed node: an optional value, an optional declared type, and the kind
/// of the token it came from.
#[derive(Clone, Debug)]
pub struct Node {
    value: Option<String>,
    t: Option<String>,
    kind: TokenKind,
}

/// A syntax-tree builder over one token stream.
#[derive(Debug)]
pub struct Ast {
    language: Languages,
    done: (bool, bool),
    errored: bool,
    tokens: Vec<Token>,
    parsed: Vec<Node>,
}

impl Ast {
    /// The selected compile target.
    pub closed spec fn target(&self) -> Languages {
        self.language
    }

    /// The held token stream.
    pub closed spec fn toks(&self) -> Seq<Token> {
        self.tokens@
    }

    /// The build/compile completion flags.
    pub closed spec fn done_flags(&self) -> (bool, bool) {
        self.done
    }

    /// Whether an error was recorded.
    pub closed spec fn errored_flag(&self) -> bool {
        self.errored
    }

    /// The nodes produced so far.
    pub closed spec fn nodes(&self) -> Seq<Node> {
        self.parsed@
    }

    pub fn build(language: Languages, tokens: Vec<Token>) -> (r: Ast)
        ensures
            r.target() == language,
            r.toks() == tokens@,
            r.done_flags() == (false, false),
            !r.errored_flag(),
            r.nodes().len() == 0,
    {
        Ast { language, done: (false, false), errored: false, tokens, parsed: Vec::new() }
    }

    /// The compile step: a placeholder text for the one supported target.
    pub fn compile(self) -> (r: String)
        ensures
            self.target() == Languages::Typescript ==> r@ == "you are stupid stop trying"@,
    {
        match self.language {
            Languages::Typescript => "you are stupid stop trying".to_owned(),
        }
    }
}

} // verus!
