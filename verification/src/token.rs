//! Tokens and token kinds.
//!
//! A token is an immutable record of a kind and a length, counted in
//! characters. Tokens own no reference into the source text; a consumer
//! re-slices the original text with running offsets when it needs the
//! literal lexeme. The one exception is the `Identifier` kind, which carries
//! the exact substring that produced its match.

use vstd::prelude::*;

verus! {

/// The closed set of token classifications.
///
/// `TakesValue` is a placeholder used only in rule tables: a winning rule
/// with this kind template is always rewritten into `Identifier` carrying
/// the matched lexeme, so `TakesValue` itself never appears in emitted
/// tokens. `Unknown` tags a span of input that no rule could classify.
#[derive(Debug, PartialEq)]
pub enum Tokens {
    /// `//`
    Comment,
    /// `+`
    Plus,
    /// `-`
    Minus,
    /// `*`
    Star,
    /// `/`
    Slash,
    /// `%`
    Percent,
    /// `=`
    Assign,
    /// `<`
    Lt,
    /// `>`
    Gt,
    /// `==`
    Eq,
    /// `<=`
    Lte,
    /// `>=`
    Gte,
    /// `&&`
    And,
    /// `&`
    BitwiseAnd,
    /// `||`
    Or,
    /// `|`
    BitwiseOr,
    /// `;`
    Semi,
    /// `"`
    DoubleQuote,
    /// `'`
    SingleQuote,
    /// `|>`
    Pipe,
    /// `(`
    OpenBracket,
    /// `)`
    ClosedBracket,
    /// `{`
    OpenCurly,
    /// `}`
    ClosedCurly,
    /// `[`
    OpenSquare,
    /// `]`
    ClosedSquare,
    /// keyword `let`
    Let,
    /// keyword `fn`
    Function,
    /// keyword `if`
    If,
    /// keyword `while`
    While,
    /// keyword `for`
    For,
    /// A recognized identifier, carrying the matched lexeme.
    Identifier(String),
    /// Placeholder kind for value-capturing rules; never emitted.
    TakesValue,
    /// A declared type name.
    Type,
    /// A newline character.
    Newline,
    /// A whitespace character.
    Whitespace,
    /// A span of input no rule could classify.
    Unknown,
}

/// The mathematical image of [`Tokens`]: identical except that the
/// identifier lexeme is a character sequence.
pub enum TokensV {
    Comment,
    Plus,
    Minus,
    Star,
    Slash,
    Percent,
    Assign,
    Lt,
    Gt,
    Eq,
    Lte,
    Gte,
    And,
    BitwiseAnd,
    Or,
    BitwiseOr,
    Semi,
    DoubleQuote,
    SingleQuote,
    Pipe,
    OpenBracket,
    ClosedBracket,
    OpenCurly,
    ClosedCurly,
    OpenSquare,
    ClosedSquare,
    Let,
    Function,
    If,
    While,
    For,
    Identifier(Seq<char>),
    TakesValue,
    Type,
    Newline,
    Whitespace,
    Unknown,
}

impl View for Tokens {
    type V = TokensV;

    open spec fn view(&self) -> TokensV {
        match self {
            Tokens::Comment => TokensV::Comment,
            Tokens::Plus => TokensV::Plus,
            Tokens::Minus => TokensV::Minus,
            Tokens::Star => TokensV::Star,
            Tokens::Slash => TokensV::Slash,
            Tokens::Percent => TokensV::Percent,
            Tokens::Assign => TokensV::Assign,
            Tokens::Lt => TokensV::Lt,
            Tokens::Gt => TokensV::Gt,
            Tokens::Eq => TokensV::Eq,
            Tokens::Lte => TokensV::Lte,
            Tokens::Gte => TokensV::Gte,
            Tokens::And => TokensV::And,
            Tokens::BitwiseAnd => TokensV::BitwiseAnd,
            Tokens::Or => TokensV::Or,
            Tokens::BitwiseOr => TokensV::BitwiseOr,
            Tokens::Semi => TokensV::Semi,
            Tokens::DoubleQuote => TokensV::DoubleQuote,
            Tokens::SingleQuote => TokensV::SingleQuote,
            Tokens::Pipe => TokensV::Pipe,
            Tokens::OpenBracket => TokensV::OpenBracket,
            Tokens::ClosedBracket => TokensV::ClosedBracket,
            Tokens::OpenCurly => TokensV::OpenCurly,
            Tokens::ClosedCurly => TokensV::ClosedCurly,
            Tokens::OpenSquare => TokensV::OpenSquare,
            Tokens::ClosedSquare => TokensV::ClosedSquare,
            Tokens::Let => TokensV::Let,
            Tokens::Function => TokensV::Function,
            Tokens::If => TokensV::If,
            Tokens::While => TokensV::While,
            Tokens::For => TokensV::For,
            Tokens::Identifier(s) => TokensV::Identifier(s@),
            Tokens::TakesValue => TokensV::TakesValue,
            Tokens::Type => TokensV::Type,
            Tokens::Newline => TokensV::Newline,
            Tokens::Whitespace => TokensV::Whitespace,
            Tokens::Unknown => TokensV::Unknown,
        }
    }
}

impl Clone for Tokens {
    fn clone(&self) -> (r: Self)
        ensures
            r == *self,
    {
        match self {
            Tokens::Comment => Tokens::Comment,
            Tokens::Plus => Tokens::Plus,
            Tokens::Minus => Tokens::Minus,
            Tokens::Star => Tokens::Star,
            Tokens::Slash => Tokens::Slash,
            Tokens::Percent => Tokens::Percent,
            Tokens::Assign => Tokens::Assign,
            Tokens::Lt => Tokens::Lt,
            Tokens::Gt => Tokens::Gt,
            Tokens::Eq => Tokens::Eq,
            Tokens::Lte => Tokens::Lte,
            Tokens::Gte => Tokens::Gte,
            Tokens::And => Tokens::And,
            Tokens::BitwiseAnd => Tokens::BitwiseAnd,
            Tokens::Or => Tokens::Or,
            Tokens::BitwiseOr => Tokens::BitwiseOr,
            Tokens::Semi => Tokens::Semi,
            Tokens::DoubleQuote => Tokens::DoubleQuote,
            Tokens::SingleQuote => Tokens::SingleQuote,
            Tokens::Pipe => Tokens::Pipe,
            Tokens::OpenBracket => Tokens::OpenBracket,
            Tokens::ClosedBracket => Tokens::ClosedBracket,
            Tokens::OpenCurly => Tokens::OpenCurly,
            Tokens::ClosedCurly => Tokens::ClosedCurly,
            Tokens::OpenSquare => Tokens::OpenSquare,
            Tokens::ClosedSquare => Tokens::ClosedSquare,
            Tokens::Let => Tokens::Let,
            Tokens::Function => Tokens::Function,
            Tokens::If => Tokens::If,
            Tokens::While => Tokens::While,
            Tokens::For => Tokens::For,
            Tokens::Identifier(s) => Tokens::Identifier(s.clone()),
            Tokens::TakesValue => Tokens::TakesValue,
            Tokens::Type => Tokens::Type,
            Tokens::Newline => Tokens::Newline,
            Tokens::Whitespace => Tokens::Whitespace,
            Tokens::Unknown => Tokens::Unknown,
        }
    }
}

/// A token classification, wrapping the closed tag set.
#[derive(Debug, PartialEq)]
pub struct TokenKind(pub Tokens);

impl View for TokenKind {
    type V = TokensV;

    open spec fn view(&self) -> TokensV {
        self.0@
    }
}

impl Clone for TokenKind {
    fn clone(&self) -> (r: Self)
        ensures
            r == *self,
    {
        TokenKind(self.0.clone())
    }
}

/// The mathematical image of a [`Token`].
pub struct TokenV {
    pub kind: TokensV,
    pub len: nat,
}

/// A classified, measured span of source text: a kind and a length, the
/// length counted in characters.
#[derive(Debug, PartialEq)]
pub struct Token {
    pub kind: TokenKind,
    pub len: usize,
}

impl View for Token {
    type V = TokenV;

    open spec fn view(&self) -> TokenV {
        TokenV { kind: self.kind@, len: self.len as nat }
    }
}

impl Clone for Token {
    fn clone(&self) -> (r: Self)
        ensures
            r == *self,
    {
        Token { kind: self.kind.clone(), len: self.len }
    }
}

/// The views of a sequence of tokens, in order.
pub open spec fn tokens_view(toks: Seq<Token>) -> Seq<TokenV> {
    toks.map(|i: int, t: Token| t@)
}

} // verus!
