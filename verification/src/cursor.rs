//! A position-aware window over an immutable character sequence.
//!
//! The cursor exposes zero- and one-character lookahead, consumption
//! (`bump`), end-of-input detection, the previously consumed character,
//! and running line/column counters. It knows nothing about token rules;
//! it is pure character-stream bookkeeping.

use vstd::prelude::*;
use vstd::string::StrSliceExecFns;

verus! {

/// Sentinel character standing for "end of input"; it is returned by the
/// lookahead operations when the window runs past the end, and by `prev`
/// before anything has been consumed.
pub const EOF: char = '\0';

/// Line number (1-based) reached after consuming the first `k` characters
/// of `text`: one more than the number of newline characters among them.
pub open spec fn pos_line(text: Seq<char>, k: int) -> int
    decreases k,
{
    if k <= 0 {
        1
    } else if text[k - 1] == '\n' {
        pos_line(text, k - 1) + 1
    } else {
        pos_line(text, k - 1)
    }
}

/// Column number (1-based) reached after consuming the first `k` characters
/// of `text`: one more than the number of characters consumed since the most
/// recent newline.
pub open spec fn pos_col(text: Seq<char>, k: int) -> int
    decreases k,
{
    if k <= 0 {
        1
    } else if text[k - 1] == '\n' {
        1
    } else {
        pos_col(text, k - 1) + 1
    }
}

pub proof fn lemma_pos_line_bound(text: Seq<char>, k: int)
    requires
        0 <= k,
    ensures
        1 <= pos_line(text, k) <= k + 1,
    decreases k,
{
    if k > 0 {
        lemma_pos_line_bound(text, k - 1);
    }
}

pub proof fn lemma_pos_col_bound(text: Seq<char>, k: int)
    requires
        0 <= k,
    ensures
        1 <= pos_col(text, k) <= k + 1,
    decreases k,
{
    if k > 0 {
        lemma_pos_col_bound(text, k - 1);
    }
}

/// A moving window over an immutable character sequence, tracking how much
/// has been consumed and the 1-based line/column position reached.
pub struct Cursor<'a> {
    input: &'a str,
    n: usize,
    pos: usize,
    prev: char,
    /// Current line, 1-based; incremented on every consumed newline.
    pub ln: usize,
    /// Current column, 1-based; reset to 1 on every consumed newline.
    pub col: usize,
}

impl<'a> Cursor<'a> {
    /// The characters the cursor ranges over.
    pub closed spec fn text(&self) -> Seq<char> {
        self.input@
    }

    /// How many characters have been consumed since construction.
    pub closed spec fn consumed(&self) -> int {
        self.pos as int
    }

    /// The current line counter, as contracts see it.
    pub closed spec fn line(&self) -> int {
        self.ln as int
    }

    /// The current column counter, as contracts see it.
    pub closed spec fn column(&self) -> int {
        self.col as int
    }

    /// Internal consistency: the cached length matches the input, the
    /// position lies inside it, and the counters agree with the consumed
    /// prefix.
    pub closed spec fn wf(&self) -> bool {
        &&& self.n == self.input@.len()
        &&& self.input@.len() < usize::MAX
        &&& self.pos <= self.n
        &&& self.ln == pos_line(self.input@, self.pos as int)
        &&& self.col == pos_col(self.input@, self.pos as int)
        &&& self.prev == (if self.pos == 0 {
            EOF
        } else {
            self.input@[self.pos - 1]
        })
    }

    pub fn new(input: &'a str) -> (c: Cursor<'a>)
        requires
            input@.len() < usize::MAX,
        ensures
            c.wf(),
            c.text() == input@,
            c.consumed() == 0,
            c.line() == 1,
            c.column() == 1,
    {
        let n = input.unicode_len();
        Cursor { input, n, pos: 0, prev: EOF, ln: 1, col: 1 }
    }

    /// The last character consumed, or the sentinel if none has been.
    pub fn prev(&self) -> (c: char)
        requires
            self.wf(),
        ensures
            self.consumed() == 0 ==> c == EOF,
            self.consumed() > 0 ==> c == self.text()[self.consumed() - 1],
    {
        self.prev
    }

    /// The character `k` places ahead of the current position, without
    /// consuming; the sentinel when the window runs past the end.
    pub fn nth_char(&self, k: usize) -> (c: char)
        requires
            self.wf(),
        ensures
            self.consumed() + k < self.text().len() ==> c == self.text()[self.consumed() + k],
            self.consumed() + k >= self.text().len() ==> c == EOF,
    {
        if k < self.n - self.pos {
            self.input.get_char(self.pos + k)
        } else {
            EOF
        }
    }

    /// Zero-character lookahead: the next character to be consumed.
    pub fn first(&self) -> (c: char)
        requires
            self.wf(),
        ensures
            self.consumed() < self.text().len() ==> c == self.text()[self.consumed()],
            self.consumed() >= self.text().len() ==> c == EOF,
    {
        self.nth_char(0)
    }

    /// One-character lookahead: the character after the next one.
    pub fn second(&self) -> (c: char)
        requires
            self.wf(),
        ensures
            self.consumed() + 1 < self.text().len() ==> c == self.text()[self.consumed() + 1],
            self.consumed() + 1 >= self.text().len() ==> c == EOF,
    {
        self.nth_char(1)
    }

    /// True iff no characters remain.
    pub fn is_eof(&self) -> (r: bool)
        requires
            self.wf(),
        ensures
            r == (self.consumed() == self.text().len()),
    {
        self.pos == self.n
    }

    /// Number of characters consumed since construction.
    pub fn len_consumed(&self) -> (r: usize)
        requires
            self.wf(),
        ensures
            r == self.consumed(),
    {
        self.pos
    }

    /// The characters not yet consumed.
    pub fn chars(&self) -> (s: &'a str)
        requires
            self.wf(),
        ensures
            s@ == self.text().subrange(self.consumed(), self.text().len() as int),
    {
        self.input.substring_char(self.pos, self.n)
    }

    /// Consumes and returns the next character, updating `prev` and the
    /// line/column counters; returns `None`, and changes nothing, when the
    /// input is exhausted.
    pub fn bump(&mut self) -> (c: Option<char>)
        requires
            old(self).wf(),
        ensures
            final(self).wf(),
            final(self).text() == old(self).text(),
            old(self).consumed() == old(self).text().len() ==> c is None && *final(self) == *old(self),
            old(self).consumed() < old(self).text().len() ==> ({
                let ch = old(self).text()[old(self).consumed()];
                &&& c == Some(ch)
                &&& final(self).consumed() == old(self).consumed() + 1
                &&& (ch == '\n' ==> final(self).line() == old(self).line() + 1 && final(self).column() == 1)
                &&& (ch != '\n' ==> final(self).line() == old(self).line() && final(self).column() == old(self).column() + 1)
            }),
    {
        if self.pos < self.n {
            let c = self.input.get_char(self.pos);
            proof {
                lemma_pos_line_bound(self.input@, self.pos as int);
                lemma_pos_col_bound(self.input@, self.pos as int);
            }
            self.pos = self.pos + 1;
            self.prev = c;
            if c == '\n' {
                self.ln = self.ln + 1;
                self.col = 1;
            } else {
                self.col = self.col + 1;
            }
            Some(c)
        } else {
            None
        }
    }
}

/// The 1-based line and column reached after consuming the first `k`
/// characters of `input`, computed by driving a cursor over them.
pub fn position_at(input: &str, k: usize) -> (r: (usize, usize))
    requires
        input@.len() < usize::MAX,
        k <= input@.len(),
    ensures
        r.0 == pos_line(input@, k as int),
        r.1 == pos_col(input@, k as int),
{
    let mut cur = Cursor::new(input);
    let mut i: usize = 0;
    while i < k
        invariant
            cur.wf(),
            cur.text() == input@,
            cur.consumed() == i,
            i <= k <= input@.len(),
        decreases k - i,
    {
        cur.bump();
        i = i + 1;
    }
    (cur.ln, cur.col)
}

} // verus!
