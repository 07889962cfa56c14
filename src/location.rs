//! Line and column of a position in the text, for reporting where a parse failed.
use vstd::prelude::*;
use vstd::string::*;
use crate::model::ParseError;

verus! {

/// Number of newlines among the first `p` characters.
pub open spec fn newlines_before(s: Seq<char>, p: int) -> nat
    decreases p,
{
    if p <= 0 {
        0
    } else {
        newlines_before(s, p - 1) + if s[p - 1] == '\n' {
            1nat
        } else {
            0nat
        }
    }
}

/// Start of the line that holds position `p`.
pub open spec fn line_start(s: Seq<char>, p: int) -> int
    decreases p,
{
    if p <= 0 {
        0
    } else if s[p - 1] == '\n' {
        p
    } else {
        line_start(s, p - 1)
    }
}

proof fn lemma_line_start_bounds(s: Seq<char>, p: int)
    requires
        0 <= p,
    ensures
        0 <= line_start(s, p) <= p,
    decreases p,
{
    if p > 0 && s[p - 1] != '\n' {
        lemma_line_start_bounds(s, p - 1);
    }
}

proof fn lemma_newlines_bound(s: Seq<char>, p: int)
    requires
        0 <= p,
    ensures
        newlines_before(s, p) <= p,
    decreases p,
{
    if p > 0 {
        lemma_newlines_bound(s, p - 1);
    }
}

/// The position at which a parse failed.
pub open spec fn err_pos(e: ParseError) -> usize {
    match e {
        ParseError::Syntax { pos, .. } => pos,
        ParseError::Value { pos, .. } => pos,
    }
}

impl ParseError {
    /// Where the parse failed, counted in characters from the start of the text.
    pub fn pos(&self) -> (r: usize)
        ensures
            r == err_pos(*self),
    {
        match *self {
            ParseError::Syntax { pos, .. } => pos,
            ParseError::Value { pos, .. } => pos,
        }
    }

    /// Line and column, both counted from 1, of where the parse failed in `text`; a position
    /// past the end counts as the end.
    pub fn line_col(&self, text: &str) -> (r: (usize, usize))
        requires
            text@.len() < usize::MAX,
        ensures
            ({
                let p = if err_pos(*self) <= text@.len() {
                    err_pos(*self) as int
                } else {
                    text@.len() as int
                };
                r.0 == newlines_before(text@, p) + 1 && r.1 == p - line_start(text@, p) + 1
            }),
    {
        let n = text.unicode_len();
        let p = if self.pos() <= n {
            self.pos()
        } else {
            n
        };
        let mut line: usize = 0;
        let mut start: usize = 0;
        let mut k: usize = 0;
        while k < p
            invariant
                p <= n == text@.len() < usize::MAX,
                k <= p,
                line == newlines_before(text@, k as int),
                start == line_start(text@, k as int),
                start <= k,
            decreases p - k,
        {
            proof {
                lemma_newlines_bound(text@, k as int);
            }
            if text.get_char(k) == '\n' {
                line = line + 1;
                start = k + 1;
            }
            k = k + 1;
        }
        proof {
            lemma_newlines_bound(text@, p as int);
        }
        (line + 1, p - start + 1)
    }
}

} // verus!
