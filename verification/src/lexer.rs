//! The rule table and matcher.
//!
//! A lexer holds an ordered sequence of rules, each pairing a token-kind
//! template with a prefix-anchored pattern. One step classifies a prefix of
//! the remaining input as exactly one token: every rule is evaluated against
//! the start of the remaining input, the longest match wins, and among
//! equal-length matches the rule declared earliest wins. A winning rule with
//! the `TakesValue` template is rewritten into `Identifier` carrying the
//! matched lexeme. When no rule matches, recovery consumes one character at
//! a time until a match becomes possible or input ends, and emits the span
//! as a single `Unknown` token, so tokenization never fails on unrecognized
//! input. A rule that wins with a zero-length match would stall forward
//! progress; that defect is reported as a [`DiagnosticError`].

use vstd::prelude::*;
use vstd::string::StrSliceExecFns;
use vstd::string::StringExecFns;

use crate::cursor::pos_col;
use crate::cursor::pos_line;
use crate::cursor::position_at;
use crate::diag::DiagnosticError;
use crate::pattern::pattern_ok;
use crate::pattern::re_find;
use crate::pattern::re_find_spec;
use crate::pattern::re_ok;
use crate::token::Token;
use crate::token::TokenKind;
use crate::token::TokenV;
use crate::token::Tokens;
use crate::token::TokensV;
use crate::token::tokens_view;

verus! {

/// A priority-ordered pair of a token-kind template and a prefix-anchored
/// pattern, matched against the start of the remaining input.
#[derive(Debug)]
pub struct Rule {
    pub kind: TokenKind,
    pub pattern: String,
}

/// The mathematical image of a [`Rule`].
pub struct RuleV {
    pub kind: TokensV,
    pub pattern: Seq<char>,
}

impl View for Rule {
    type V = RuleV;

    open spec fn view(&self) -> RuleV {
        RuleV { kind: self.kind@, pattern: self.pattern@ }
    }
}

impl Clone for Rule {
    fn clone(&self) -> (r: Self)
        ensures
            r == *self,
    {
        Rule { kind: self.kind.clone(), pattern: self.pattern.clone() }
    }
}

/// The views of a sequence of rules, in declaration order.
pub open spec fn rules_view(rules: Seq<Rule>) -> Seq<RuleV> {
    rules.map(|i: int, r: Rule| r@)
}

/// Length of the prefix of `text` that `pattern` matches, or `None` when it
/// matches no prefix. Matching is anchored at the start: a match elsewhere in
/// the text does not count. A reported match never extends past the text; one
/// that would is treated as no match.
pub open spec fn rule_match_len(pattern: Seq<char>, text: Seq<char>) -> Option<nat> {
    match re_find_spec(pattern, text) {
        Some(m) => if m.0 == 0 && m.1 <= text.len() {
            Some(m.1)
        } else {
            None
        },
        None => None,
    }
}

/// The winning rule at the start of `text`: among all matching rules the one
/// with the longest match, and among those the one declared earliest; the
/// result pairs its index with its match length. `None` when no rule matches.
pub open spec fn best_match(rules: Seq<RuleV>, text: Seq<char>) -> Option<(int, nat)>
    decreases rules.len(),
{
    if rules.len() == 0 {
        None
    } else {
        let prev = best_match(rules.drop_last(), text);
        let i: int = rules.len() - 1;
        match rule_match_len(rules[i].pattern, text) {
            Some(l) => match prev {
                Some(b) => if l > b.1 {
                    Some((i, l))
                } else {
                    Some(b)
                },
                None => Some((i, l)),
            },
            None => prev,
        }
    }
}

/// How far recovery scans in nonempty `text` when no rule matches at its
/// start: one character at a time until a match becomes possible at the new
/// position or the text ends.
pub open spec fn recovery_len(rules: Seq<RuleV>, text: Seq<char>) -> nat
    recommends
        text.len() >= 1,
    decreases text.len(),
{
    if text.len() <= 1 {
        1
    } else if best_match(rules, text.skip(1)) is Some {
        1
    } else {
        (1 + recovery_len(rules, text.skip(1))) as nat
    }
}

/// One matching step on nonempty `text`: the token emitted at its start, or,
/// when the winning rule matches with zero length, the index of that rule.
pub open spec fn next_token_spec(rules: Seq<RuleV>, text: Seq<char>) -> Result<TokenV, int>
    recommends
        text.len() >= 1,
{
    match best_match(rules, text) {
        Some(b) => if b.1 >= 1 {
            Ok(
                TokenV {
                    kind: if rules[b.0].kind is TakesValue {
                        TokensV::Identifier(text.take(b.1 as int))
                    } else {
                        rules[b.0].kind
                    },
                    len: b.1,
                },
            )
        } else {
            Err(b.0)
        },
        None => Ok(TokenV { kind: TokensV::Unknown, len: recovery_len(rules, text) }),
    }
}

/// The whole tokenization of `text`: repeated single steps until the text is
/// exhausted. An error carries the offset, in characters from the start of
/// `text`, at which a rule won with a zero-length match. The inner bounds
/// check only guards the recursion; it never fails (see
/// [`lemma_next_token_progress`]).
pub open spec fn tokenize_spec(rules: Seq<RuleV>, text: Seq<char>) -> Result<Seq<TokenV>, int>
    decreases text.len(),
{
    if text.len() == 0 {
        Ok(Seq::empty())
    } else {
        match next_token_spec(rules, text) {
            Ok(t) => if 1 <= t.len <= text.len() {
                match tokenize_spec(rules, text.skip(t.len as int)) {
                    Ok(rest) => Ok(seq![t] + rest),
                    Err(k) => Err(t.len + k),
                }
            } else {
                Err(0)
            },
            Err(_) => Err(0),
        }
    }
}

/// The total length, in characters, of a sequence of tokens.
pub open spec fn sum_lens(toks: Seq<TokenV>) -> int
    decreases toks.len(),
{
    if toks.len() == 0 {
        0
    } else {
        toks[0].len + sum_lens(toks.drop_first())
    }
}

/// The winner matches, its length bounds every match, and no earlier rule
/// ties it; with no winner, no rule matches at all.
proof fn lemma_best_match_char(rules: Seq<RuleV>, text: Seq<char>)
    ensures
        match best_match(rules, text) {
            Some(b) => {
                &&& 0 <= b.0 < rules.len()
                &&& rule_match_len(rules[b.0].pattern, text) == Some(b.1)
                &&& b.1 <= text.len()
                &&& forall|i: int|
                    0 <= i < rules.len() ==> ((#[trigger] rule_match_len(rules[i].pattern, text))
                        matches Some(l) ==> l <= b.1)
                &&& forall|i: int|
                    0 <= i < b.0 ==> #[trigger] rule_match_len(rules[i].pattern, text) != Some(b.1)
            },
            None => forall|i: int|
                0 <= i < rules.len() ==> #[trigger] rule_match_len(rules[i].pattern, text) is None,
        },
    decreases rules.len(),
{
    if rules.len() > 0 {
        lemma_best_match_char(rules.drop_last(), text);
        let dl = rules.drop_last();
        let last: int = rules.len() - 1;
        match best_match(rules, text) {
            Some(b) => {
                assert forall|i: int|
                    0 <= i < rules.len() implies ((#[trigger] rule_match_len(
                    rules[i].pattern,
                    text,
                )) matches Some(li) ==> li <= b.1) by {
                    if i < last {
                        assert(dl[i] == rules[i]);
                        assert(rule_match_len(dl[i].pattern, text) == rule_match_len(
                            rules[i].pattern,
                            text,
                        ));
                    }
                }
                assert forall|i: int| 0 <= i < b.0 implies #[trigger] rule_match_len(
                    rules[i].pattern,
                    text,
                ) != Some(b.1) by {
                    assert(dl[i] == rules[i]);
                    assert(rule_match_len(dl[i].pattern, text) == rule_match_len(
                        rules[i].pattern,
                        text,
                    ));
                }
            },
            None => {
                assert forall|i: int|
                    0 <= i < rules.len() implies (#[trigger] rule_match_len(
                    rules[i].pattern,
                    text,
                )) is None by {
                    if i < last {
                        assert(dl[i] == rules[i]);
                        assert(rule_match_len(dl[i].pattern, text) == rule_match_len(
                            rules[i].pattern,
                            text,
                        ));
                    }
                }
            },
        }
    }
}

/// Longest-match: a rule that matches some prefix never loses to a shorter
/// match, wherever it is declared — the winning length is at least the length
/// of every rule's match.
pub proof fn lemma_longest_match(rules: Seq<RuleV>, text: Seq<char>, i: int, l: nat)
    requires
        0 <= i < rules.len(),
        rule_match_len(rules[i].pattern, text) == Some(l),
    ensures
        best_match(rules, text) matches Some(b) && l <= b.1,
{
    lemma_best_match_char(rules, text);
}

/// Tie-break: the winner is the earliest-declared rule among those that
/// match with the winning length — no rule declared before it matches with
/// that same length.
pub proof fn lemma_tie_break(rules: Seq<RuleV>, text: Seq<char>, b: (int, nat))
    requires
        best_match(rules, text) == Some(b),
    ensures
        0 <= b.0 < rules.len(),
        rule_match_len(rules[b.0].pattern, text) == Some(b.1),
        forall|i: int| 0 <= i < b.0 ==> #[trigger] rule_match_len(rules[i].pattern, text) != Some(
            b.1,
        ),
{
    lemma_best_match_char(rules, text);
}

/// Recovery scans at least one and at most all of the remaining characters.
pub proof fn lemma_recovery_len_bounds(rules: Seq<RuleV>, text: Seq<char>)
    requires
        text.len() >= 1,
    ensures
        1 <= recovery_len(rules, text) <= text.len(),
    decreases text.len(),
{
    if text.len() > 1 && !(best_match(rules, text.skip(1)) is Some) {
        lemma_recovery_len_bounds(rules, text.skip(1));
    }
}

/// Recovery stops exactly at the first position where a match becomes
/// possible, or at the end of the text when none does.
proof fn lemma_recovery_characterization(rules: Seq<RuleV>, text: Seq<char>, d: int)
    requires
        1 <= d <= text.len(),
        forall|j: int| 1 <= j < d ==> !((#[trigger] best_match(rules, text.skip(j))) is Some),
        d < text.len() ==> best_match(rules, text.skip(d)) is Some,
    ensures
        recovery_len(rules, text) == d,
    decreases d,
{
    if d == 1 {
        if text.len() > 1 {
            assert(best_match(rules, text.skip(1)) is Some);
        }
    } else {
        assert(!(best_match(rules, text.skip(1)) is Some));
        assert forall|j: int| 1 <= j < d - 1 implies !((#[trigger] best_match(
            rules,
            text.skip(1).skip(j),
        )) is Some) by {
            assert(text.skip(1).skip(j) =~= text.skip(1 + j));
            assert(!(best_match(rules, text.skip(1 + j)) is Some));
        }
        if d - 1 < text.len() - 1 {
            assert(text.skip(1).skip(d - 1) =~= text.skip(d));
        }
        lemma_recovery_characterization(rules, text.skip(1), d - 1);
    }
}

/// Forward progress: every emitted token covers at least one and at most all
/// of the remaining characters, so tokenization cannot stall.
pub proof fn lemma_next_token_progress(rules: Seq<RuleV>, text: Seq<char>)
    requires
        text.len() >= 1,
    ensures
        next_token_spec(rules, text) matches Ok(t) ==> 1 <= t.len <= text.len(),
{
    lemma_best_match_char(rules, text);
    lemma_recovery_len_bounds(rules, text);
}

/// When no rule matches at the start of nonempty text, the step still emits
/// a token: an `Unknown` span covering the recovery scan, which makes
/// progress and never overruns the text.
pub proof fn lemma_recovery_token(rules: Seq<RuleV>, text: Seq<char>)
    requires
        text.len() >= 1,
        best_match(rules, text) is None,
    ensures
        next_token_spec(rules, text) matches Ok(t) && t.kind is Unknown && t.len == recovery_len(
            rules,
            text,
        ),
        next_token_spec(rules, text) matches Ok(t) && 1 <= t.len <= text.len(),
{
    lemma_recovery_len_bounds(rules, text);
}

/// A winning value-capturing rule is always rewritten: the emitted token
/// carries `Identifier` with exactly the matched prefix, never the
/// `TakesValue` placeholder.
pub proof fn lemma_identifier_rewrite(rules: Seq<RuleV>, text: Seq<char>, b: (int, nat))
    requires
        best_match(rules, text) == Some(b),
        b.1 >= 1,
        0 <= b.0 < rules.len(),
        rules[b.0].kind is TakesValue,
    ensures
        next_token_spec(rules, text) matches Ok(t) && t.kind == TokensV::Identifier(
            text.take(b.1 as int),
        ) && t.len == b.1,
{
}

/// Coverage: when tokenization succeeds, the lengths of the emitted tokens
/// sum to the length of the input exactly — the spans partition the input
/// with no overlap and no gap.
pub proof fn lemma_tokenize_coverage(rules: Seq<RuleV>, text: Seq<char>)
    ensures
        tokenize_spec(rules, text) matches Ok(toks) ==> sum_lens(toks) == text.len(),
    decreases text.len(),
{
    if text.len() > 0 {
        match next_token_spec(rules, text) {
            Ok(t) => {
                if 1 <= t.len <= text.len() {
                    lemma_tokenize_coverage(rules, text.skip(t.len as int));
                    match tokenize_spec(rules, text.skip(t.len as int)) {
                        Ok(rest) => {
                            assert((seq![t] + rest).drop_first() =~= rest);
                        },
                        Err(_) => {},
                    }
                }
            },
            Err(_) => {},
        }
    }
}

/// The spans of a token sequence over `text`, taken consecutively by length
/// and concatenated.
pub open spec fn concat_spans(text: Seq<char>, toks: Seq<TokenV>) -> Seq<char>
    decreases toks.len(),
{
    if toks.len() == 0 {
        Seq::empty()
    } else {
        text.take(toks[0].len as int) + concat_spans(
            text.skip(toks[0].len as int),
            toks.drop_first(),
        )
    }
}

/// Coverage, in full: concatenating the spans of the emitted tokens, taken
/// consecutively by length, reconstructs the input exactly.
pub proof fn lemma_tokenize_reconstructs(rules: Seq<RuleV>, text: Seq<char>)
    ensures
        tokenize_spec(rules, text) matches Ok(toks) ==> concat_spans(text, toks) == text,
    decreases text.len(),
{
    if text.len() > 0 {
        match next_token_spec(rules, text) {
            Ok(t) => {
                if 1 <= t.len <= text.len() {
                    lemma_tokenize_reconstructs(rules, text.skip(t.len as int));
                    match tokenize_spec(rules, text.skip(t.len as int)) {
                        Ok(rest) => {
                            assert((seq![t] + rest).drop_first() =~= rest);
                            assert((seq![t] + rest)[0] == t);
                            assert(text.take(t.len as int) + text.skip(t.len as int) =~= text);
                        },
                        Err(_) => {},
                    }
                }
            },
            Err(_) => {},
        }
    }
}

/// No emitted token ever carries the `TakesValue` placeholder: a winning
/// value-capturing rule is rewritten to `Identifier`, and every other token
/// keeps its declared kind or is `Unknown`.
pub proof fn lemma_no_placeholder_emitted(rules: Seq<RuleV>, text: Seq<char>)
    ensures
        tokenize_spec(rules, text) matches Ok(toks) ==> forall|i: int|
            0 <= i < toks.len() ==> !((#[trigger] toks[i].kind) is TakesValue),
    decreases text.len(),
{
    if text.len() > 0 {
        match next_token_spec(rules, text) {
            Ok(t) => {
                if 1 <= t.len <= text.len() {
                    lemma_no_placeholder_emitted(rules, text.skip(t.len as int));
                    match tokenize_spec(rules, text.skip(t.len as int)) {
                        Ok(rest) => {
                            assert(!(t.kind is TakesValue));
                            assert forall|i: int|
                                0 <= i < (seq![t] + rest).len() implies !((#[trigger] (seq![t]
                                + rest)[i].kind) is TakesValue) by {
                                if i >= 1 {
                                    assert((seq![t] + rest)[i] == rest[i - 1]);
                                }
                            }
                        },
                        Err(_) => {},
                    }
                }
            },
            Err(_) => {},
        }
    }
}

/// The matcher: an ordered rule table, immutable once built and reusable
/// across any number of tokenization passes.
#[derive(Debug)]
pub struct Lexer {
    rules: Vec<Rule>,
}

impl View for Lexer {
    type V = Seq<RuleV>;

    closed spec fn view(&self) -> Seq<RuleV> {
        rules_view(self.rules@)
    }
}

impl Lexer {
    /// Stores the ordered rule sequence unchanged. A pattern that is not a
    /// well-formed regular expression is a construction-time failure: the
    /// lexer is built if and only if every pattern compiles, and the error
    /// names the first pattern that does not.
    pub fn build(rules: Vec<Rule>) -> (r: Result<Lexer, DiagnosticError>)
        ensures
            r is Ok <==> (forall|i: int|
                0 <= i < rules@.len() ==> pattern_ok(#[trigger] rules@[i]@.pattern)),
            r matches Ok(lx) ==> lx@ == rules_view(rules@),
            r matches Err(e) ==> exists|i: int|
                0 <= i < rules@.len() && !pattern_ok(#[trigger] rules@[i]@.pattern) && e.message@
                    == rules@[i]@.pattern,
    {
        let mut j: usize = 0;
        while j < rules.len()
            invariant
                j <= rules@.len(),
                forall|i: int| 0 <= i < j ==> pattern_ok(#[trigger] rules@[i]@.pattern),
            decreases rules@.len() - j,
        {
            if !re_ok(rules[j].pattern.as_str()) {
                let e = DiagnosticError { message: rules[j].pattern.clone(), line: 1, column: 1 };
                proof {
                    assert(!pattern_ok(rules@[j as int]@.pattern));
                    assert(0 <= j < rules@.len() && !pattern_ok(rules@[j as int]@.pattern)
                        && e.message@ == rules@[j as int]@.pattern);
                }
                return Err(e);
            }
            j = j + 1;
        }
        Ok(Lexer { rules })
    }

    /// The winning rule at `pos`: its index and its match length, or `None`
    /// when no rule matches a prefix of the remaining input.
    fn token_valid(&self, input: &str, n: usize, pos: usize) -> (r: Option<(usize, usize)>)
        requires
            n == input@.len(),
            pos <= n,
        ensures
            ({
                let b = best_match(self@, input@.skip(pos as int));
                match r {
                    Some(p) => b == Some((p.0 as int, p.1 as nat)) && p.0 < self@.len() && pos + p.1
                        <= n,
                    None => b is None,
                }
            }),
    {
        let text = input.substring_char(pos, n);
        proof {
            assert(text@ =~= input@.skip(pos as int));
        }
        let mut best: Option<(usize, usize)> = None;
        let mut j: usize = 0;
        while j < self.rules.len()
            invariant
                n == input@.len(),
                pos <= n,
                text@ == input@.skip(pos as int),
                j <= self.rules@.len(),
                self@ == rules_view(self.rules@),
                self@.len() == self.rules@.len(),
                ({
                    let b = best_match(self@.take(j as int), text@);
                    match best {
                        Some(p) => b == Some((p.0 as int, p.1 as nat)) && p.0 < j && p.1
                            <= text@.len(),
                        None => b is None,
                    }
                }),
            decreases self.rules@.len() - j,
        {
            let rule = &self.rules[j];
            let m = re_find(rule.pattern.as_str(), text);
            // matching is prefix-anchored: a match that starts later does not count
            let ml: Option<usize> = match m {
                Some(se) => if se.0 == 0 {
                    Some(se.1)
                } else {
                    None
                },
                None => None,
            };
            proof {
                assert(self@[j as int] == self.rules@[j as int]@);
                assert(self@.take(j + 1).drop_last() =~= self@.take(j as int));
                assert(self@.take(j + 1).last() == self@[j as int]);
            }
            match ml {
                Some(l) => {
                    best = match best {
                        Some(p) => if l > p.1 {
                            Some((j, l))
                        } else {
                            Some(p)
                        },
                        None => Some((j, l)),
                    };
                },
                None => {},
            }
            j = j + 1;
        }
        proof {
            assert(self@.take(self@.len() as int) =~= self@);
        }
        best
    }

    /// Recovery: the number of characters, from `pos`, consumed by scanning
    /// forward until a valid match becomes possible or input ends.
    fn token_invalid(&self, input: &str, n: usize, pos: usize) -> (r: usize)
        requires
            n == input@.len(),
            pos < n,
        ensures
            r == recovery_len(self@, input@.skip(pos as int)),
            1 <= r,
            pos + r <= n,
    {
        let mut k: usize = pos + 1;
        let mut found = false;
        while !found && k < n
            invariant
                n == input@.len(),
                pos < k <= n,
                forall|d: int| pos < d < k ==> !((#[trigger] best_match(
                    self@,
                    input@.skip(d),
                )) is Some),
                found ==> best_match(self@, input@.skip(k as int)) is Some,
            decreases n - k, (if found { 0int } else { 1int }),
        {
            match self.token_valid(input, n, k) {
                Some(_) => {
                    found = true;
                },
                None => {
                    k = k + 1;
                },
            }
        }
        proof {
            let text = input@.skip(pos as int);
            let d = k - pos;
            assert forall|j: int| 1 <= j < d implies !((#[trigger] best_match(
                self@,
                text.skip(j),
            )) is Some) by {
                assert(text.skip(j) =~= input@.skip(pos + j));
            }
            if d < text.len() {
                assert(k < n);
                assert(found);
                assert(text.skip(d) =~= input@.skip(k as int));
            }
            lemma_recovery_characterization(self@, text, d);
        }
        k - pos
    }

    /// One matching step at `pos`: the emitted token, or the index of a rule
    /// that won with a zero-length match.
    fn step_at(&self, input: &str, n: usize, pos: usize) -> (r: Result<Token, usize>)
        requires
            n == input@.len(),
            pos < n,
        ensures
            r matches Ok(tok) ==> next_token_spec(self@, input@.skip(pos as int)) matches Ok(t)
                && tok@ == t && 1 <= tok.len && pos + tok.len <= n,
            r matches Err(j) ==> next_token_spec(self@, input@.skip(pos as int)) == Result::<
                TokenV,
                int,
            >::Err(j as int) && j < self@.len(),
    {
        match self.token_valid(input, n, pos) {
            Some(p) => {
                let j = p.0;
                let l = p.1;
                if l > 0 {
                    let rule = &self.rules[j];
                    let kind = match &rule.kind.0 {
                        Tokens::TakesValue => {
                            let lexeme = input.substring_char(pos, pos + l).to_owned();
                            proof {
                                assert(lexeme@ =~= input@.skip(pos as int).take(l as int));
                            }
                            TokenKind(Tokens::Identifier(lexeme))
                        },
                        _ => rule.kind.clone(),
                    };
                    proof {
                        assert(self@[j as int] == self.rules@[j as int]@);
                    }
                    Ok(Token { kind, len: l })
                } else {
                    Err(j)
                }
            },
            None => {
                let l = self.token_invalid(input, n, pos);
                proof {
                    lemma_recovery_token(self@, input@.skip(pos as int));
                }
                Ok(Token { kind: TokenKind(Tokens::Unknown), len: l })
            },
        }
    }

    /// The diagnostic for a rule that matched with zero length.
    fn zero_len_error(&self, j: usize, line: usize, column: usize) -> (e: DiagnosticError)
        requires
            j < self@.len(),
        ensures
            e.line == line,
            e.column == column,
    {
        let mut message = "rule matched with zero length: ".to_owned();
        message.append(self.rules[j].pattern.as_str());
        DiagnosticError { message, line, column }
    }

    /// The single-step primitive on a nonempty remainder: the next token at
    /// its start, or the zero-length-match diagnostic, positioned at line 1,
    /// column 1 of the remainder.
    pub fn next_token(&self, input: &str) -> (r: Result<Token, DiagnosticError>)
        requires
            input@.len() >= 1,
        ensures
            r is Ok <==> next_token_spec(self@, input@) is Ok,
            r matches Ok(tok) ==> next_token_spec(self@, input@) matches Ok(t) && tok@ == t,
            r matches Err(e) ==> e.line == 1 && e.column == 1,
    {
        let n = input.unicode_len();
        proof {
            assert(input@.skip(0) =~= input@);
        }
        match self.step_at(input, n, 0) {
            Ok(tok) => Ok(tok),
            Err(j) => Err(self.zero_len_error(j, 1, 1)),
        }
    }

    /// Tokenizes the whole input: an ordered token sequence covering it with
    /// no overlap and no gap, or the zero-length-match diagnostic carrying
    /// the 1-based line and column where the defect struck. Unrecognized
    /// input never fails the pass; it degrades to `Unknown` spans.
    pub fn tokenize(&self, input: &str) -> (r: Result<Vec<Token>, DiagnosticError>)
        requires
            input@.len() < usize::MAX,
        ensures
            r is Ok <==> tokenize_spec(self@, input@) is Ok,
            r matches Ok(toks) ==> tokenize_spec(self@, input@) matches Ok(ts) && tokens_view(
                toks@,
            ) == ts,
            r matches Err(e) ==> tokenize_spec(self@, input@) matches Err(k) && e.line == pos_line(
                input@,
                k,
            ) && e.column == pos_col(input@, k),
            input@.len() == 0 ==> (r matches Ok(toks) && toks@.len() == 0),
    {
        let n = input.unicode_len();
        let mut toks: Vec<Token> = Vec::new();
        let mut pos: usize = 0;
        proof {
            assert(input@.skip(0) =~= input@);
            assert(tokens_view(toks@) =~= Seq::<TokenV>::empty());
        }
        while pos < n
            invariant
                n == input@.len(),
                input@.len() < usize::MAX,
                pos <= n,
                ({
                    let full = tokenize_spec(self@, input@);
                    let rem = tokenize_spec(self@, input@.skip(pos as int));
                    match full {
                        Ok(all) => rem matches Ok(rest) && all == tokens_view(toks@) + rest,
                        Err(k) => rem matches Err(k2) && k == pos + k2,
                    }
                }),
            decreases n - pos,
        {
            let ghost rem_text = input@.skip(pos as int);
            match self.step_at(input, n, pos) {
                Ok(tok) => {
                    let l = tok.len;
                    let ghost t = tok@;
                    let ghost prev_toks = toks@;
                    toks.push(tok);
                    proof {
                        assert(tokens_view(toks@) =~= tokens_view(prev_toks) + seq![t]);
                        assert(rem_text.skip(l as int) =~= input@.skip(pos + l));
                        let full = tokenize_spec(self@, input@);
                        let rem = tokenize_spec(self@, rem_text);
                        match tokenize_spec(self@, input@.skip(pos + l)) {
                            Ok(rest2) => {
                                assert(rem == Ok::<Seq<TokenV>, int>(seq![t] + rest2));
                                match full {
                                    Ok(all) => {
                                        assert(all =~= tokens_view(toks@) + rest2);
                                    },
                                    Err(_) => {
                                        assert(false);
                                    },
                                }
                            },
                            Err(k3) => {
                                assert(rem == Err::<Seq<TokenV>, int>(l + k3));
                                match full {
                                    Ok(_) => {
                                        assert(false);
                                    },
                                    Err(k) => {
                                        assert(k == pos + l + k3);
                                    },
                                }
                            },
                        }
                    }
                    pos = pos + l;
                },
                Err(j) => {
                    proof {
                        assert(tokenize_spec(self@, rem_text) == Err::<Seq<TokenV>, int>(0));
                    }
                    let p = position_at(input, pos);
                    return Err(self.zero_len_error(j, p.0, p.1));
                },
            }
        }
        proof {
            assert(input@.skip(n as int) =~= Seq::<char>::empty());
        }
        Ok(toks)
    }
}

/// A failed tokenization pinpoints its defect: the error offset lies inside
/// the input, and at that offset a rule wins with a zero-length match. In
/// particular the recursion guard inside [`tokenize_spec`] never fails.
pub proof fn lemma_tokenize_error_offset(rules: Seq<RuleV>, text: Seq<char>)
    ensures
        tokenize_spec(rules, text) matches Err(k) ==> 0 <= k < text.len() && next_token_spec(
            rules,
            text.skip(k),
        ) is Err,
    decreases text.len(),
{
    if text.len() > 0 {
        match next_token_spec(rules, text) {
            Ok(t) => {
                if 1 <= t.len <= text.len() {
                    lemma_tokenize_error_offset(rules, text.skip(t.len as int));
                    match tokenize_spec(rules, text.skip(t.len as int)) {
                        Err(k3) => {
                            assert(text.skip(t.len as int).skip(k3) =~= text.skip(t.len + k3));
                        },
                        Ok(_) => {},
                    }
                } else {
                    lemma_next_token_progress(rules, text);
                    assert(false);
                }
            },
            Err(_) => {
                assert(text.skip(0) =~= text);
            },
        }
    }
}

/// Determinism: tokenization is a pure function of the rule table and the
/// input — equal tables and equal inputs give equal token sequences.
pub proof fn lemma_tokenize_deterministic(
    rules1: Seq<RuleV>,
    rules2: Seq<RuleV>,
    text1: Seq<char>,
    text2: Seq<char>,
)
    requires
        rules1 == rules2,
        text1 == text2,
    ensures
        tokenize_spec(rules1, text1) == tokenize_spec(rules2, text2),
{
}

} // verus!
