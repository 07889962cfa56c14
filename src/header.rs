//! The header of a pool block: `pool:`, `id:`, `state:`, the optional `status:`, the
//! `action:` guidance, the optional `see:` and the `config:` line.
use vstd::prelude::*;
use vstd::string::*;
use crate::lexer::{
    colon_free, digits_end, digits_value, end_of_digits, no_colon, is_blank, lit_at, line_end, matches_lit,
    skip_blanks, skip_ws, token_end, word_end,
};
use crate::model::{Advisory, AdvisoryModel, HealthState, ParseError, Rule};
use crate::vocab::{advisory_at, advisory_of, health_at, health_of, number_at};

verus! {

pub open spec fn syntax(rule: Rule, pos: int) -> ParseError {
    ParseError::Syntax { rule, pos: pos as usize }
}

pub open spec fn value(rule: Rule, pos: int) -> ParseError {
    ParseError::Value { rule, pos: pos as usize }
}

pub open spec fn spans(r: Option<(usize, usize, usize)>) -> Option<(int, int, int)> {
    match r {
        Some((a, b, c)) => Some((a as int, b as int, c as int)),
        None => None,
    }
}

/// The line at `i` reads `key value`, the value being one token: where the value starts and
/// ends, and where the next line starts.
pub open spec fn field_line(s: Seq<char>, i: int, key: Seq<char>) -> Option<(int, int, int)> {
    let k = skip_ws(s, i);
    let v = skip_ws(s, k + key.len());
    let e = word_end(s, v);
    let t = skip_ws(s, e);
    if matches_lit(s, k, key) && v < e && t < s.len() && s[t] == '\n' {
        Some((v, e, t + 1))
    } else {
        None
    }
}

/// A line that opens a section of the header.
pub open spec fn is_section_start(s: Seq<char>, j: int) -> bool {
    matches_lit(s, j, "status:"@) || matches_lit(s, j, "action:"@) || matches_lit(s, j, "see:"@)
        || matches_lit(s, j, "config:"@)
}

/// The line starting at `n` carries on the text of a section: it is indented, holds more than
/// blanks, and opens no section of its own.
pub open spec fn continues(s: Seq<char>, n: int) -> bool {
    let j = skip_ws(s, n);
    n < j < s.len() && s[j] != '\n' && !is_section_start(s, j)
}

/// The newline that ends the text of a section whose text runs through position `i`.
pub open spec fn para_end(s: Seq<char>, i: int) -> int
    decreases s.len() - i,
{
    if 0 <= i < s.len() {
        if s[i] != '\n' {
            para_end(s, i + 1)
        } else if continues(s, i + 1) {
            para_end(s, i + 1)
        } else {
            i
        }
    } else {
        i
    }
}

/// A section `key text`, whose text may go on over indented lines: where the text starts and
/// ends, and where the next line starts.
pub open spec fn section(s: Seq<char>, i: int, key: Seq<char>) -> Option<(int, int, int)> {
    let k = skip_ws(s, i);
    let v = skip_ws(s, k + key.len());
    let e = para_end(s, v);
    if matches_lit(s, k, key) && v < e < s.len() {
        Some((v, e, e + 1))
    } else {
        None
    }
}

/// The three mandatory lines: name, identifier and health of the pool. The name holds no
/// colon.
pub open spec fn spec_ident(s: Seq<char>, i: int) -> Result<
    (Seq<char>, u64, HealthState, int),
    ParseError,
> {
    match field_line(s, i, "pool:"@) {
        None => Err(syntax(Rule::PoolName, i)),
        Some((na, nb, n1)) => if !colon_free(s, na, nb) {
            Err(syntax(Rule::PoolName, na))
        } else {
            match field_line(s, n1, "id:"@) {
                None => Err(syntax(Rule::PoolId, n1)),
                Some((ia, ib, n2)) => {
                    if digits_end(s, ia) != ib {
                        Err(syntax(Rule::PoolId, ia))
                    } else if digits_value(s, ia, ib) > u64::MAX {
                        Err(value(Rule::PoolId, ia))
                    } else {
                        match field_line(s, n2, "state:"@) {
                            None => Err(syntax(Rule::State, n2)),
                            Some((sa, sb, n3)) => match health_of(s.subrange(sa, sb)) {
                                None => Err(syntax(Rule::State, sa)),
                                Some(h) => Ok(
                                    (s.subrange(na, nb), digits_value(s, ia, ib) as u64, h, n3),
                                ),
                            },
                        }
                    }
                },
            }
        },
    }
}

/// The optional `status:` section.
pub open spec fn spec_status(s: Seq<char>, i: int) -> Result<(Option<Seq<char>>, int), ParseError> {
    if matches_lit(s, skip_ws(s, i), "status:"@) {
        match section(s, i, "status:"@) {
            Some((a, b, n)) => Ok((Some(s.subrange(a, b)), n)),
            None => Err(syntax(Rule::Status, i)),
        }
    } else {
        Ok((None, i))
    }
}

/// The `action:` section, classified.
pub open spec fn spec_action(s: Seq<char>, i: int) -> Result<(AdvisoryModel, int), ParseError> {
    match section(s, i, "action:"@) {
        None => Err(syntax(Rule::Action, i)),
        Some((a, b, n)) => match advisory_of(s, a, b) {
            None => Err(value(Rule::Action, a)),
            Some(adv) => Ok((adv, n)),
        },
    }
}

/// The optional `see:` line with its reference.
pub open spec fn spec_see(s: Seq<char>, i: int) -> Result<(Option<Seq<char>>, int), ParseError> {
    if matches_lit(s, skip_ws(s, i), "see:"@) {
        match field_line(s, i, "see:"@) {
            Some((a, b, n)) => Ok((Some(s.subrange(a, b)), n)),
            None => Err(syntax(Rule::See, i)),
        }
    } else {
        Ok((None, i))
    }
}

/// The `config:` line: where the next line starts.
pub open spec fn config_line(s: Seq<char>, i: int) -> Option<int> {
    let k = skip_ws(s, i);
    let t = skip_ws(s, k + "config:"@.len());
    if matches_lit(s, k, "config:"@) && t < s.len() && s[t] == '\n' {
        Some(t + 1)
    } else {
        None
    }
}

pub fn field(s: &str, i: usize, key: &str) -> (r: Option<(usize, usize, usize)>)
    requires
        i <= s@.len(),
    ensures
        spans(r) == field_line(s@, i as int, key@),
        r matches Some((a, b, n)) ==> a < b < n <= s@.len() && i < n,
{
    let n = s.unicode_len();
    let k = skip_blanks(s, i);
    if !lit_at(s, k, key) {
        return None;
    }
    let m = key.unicode_len();
    let v = skip_blanks(s, k + m);
    let e = token_end(s, v);
    let t = skip_blanks(s, e);
    if v < e && t < n && s.get_char(t) == '\n' {
        Some((v, e, t + 1))
    } else {
        None
    }
}

pub fn section_start(s: &str, j: usize) -> (r: bool)
    ensures
        r == is_section_start(s@, j as int),
{
    lit_at(s, j, "status:") || lit_at(s, j, "action:") || lit_at(s, j, "see:") || lit_at(
        s,
        j,
        "config:",
    )
}

pub fn end_of_para(s: &str, i: usize) -> (r: usize)
    requires
        i <= s@.len(),
    ensures
        r == para_end(s@, i as int),
        i <= r <= s@.len(),
{
    let n = s.unicode_len();
    let mut j: usize = i;
    while j < n
        invariant
            n == s@.len(),
            i <= j <= n,
            para_end(s@, j as int) == para_end(s@, i as int),
        decreases n - j,
    {
        if s.get_char(j) == '\n' {
            let m = skip_blanks(s, j + 1);
            let more = j + 1 < m && m < n && s.get_char(m) != '\n' && !section_start(s, m);
            if !more {
                return j;
            }
        }
        j = j + 1;
    }
    j
}

pub fn section_at(s: &str, i: usize, key: &str) -> (r: Option<(usize, usize, usize)>)
    requires
        i <= s@.len(),
    ensures
        spans(r) == section(s@, i as int, key@),
        r matches Some((a, b, n)) ==> a < b < n <= s@.len() && i < n,
{
    let n = s.unicode_len();
    let k = skip_blanks(s, i);
    if !lit_at(s, k, key) {
        return None;
    }
    let m = key.unicode_len();
    let v = skip_blanks(s, k + m);
    let e = end_of_para(s, v);
    if v < e && e < n {
        Some((v, e, e + 1))
    } else {
        None
    }
}

fn err_at(rule: Rule, pos: usize) -> (r: ParseError)
    ensures
        r == syntax(rule, pos as int),
{
    ParseError::Syntax { rule, pos }
}

/// Reads the name, identifier and health lines at `i`.
pub fn ident(s: &str, i: usize) -> (r: Result<(String, u64, HealthState, usize), ParseError>)
    requires
        i <= s@.len(),
    ensures
        match (r, spec_ident(s@, i as int)) {
            (Ok((nm, id, h, n)), Ok((snm, sid, sh, sn))) => nm@ == snm && id == sid && h == sh
                && n == sn,
            (Err(e), Err(se)) => e == se,
            _ => false,
        },
        r matches Ok((_, _, _, n)) ==> i < n <= s@.len(),
{
    let (na, nb, n1) = match field(s, i, "pool:") {
        None => return Err(err_at(Rule::PoolName, i)),
        Some(f) => f,
    };
    if !no_colon(s, na, nb) {
        return Err(err_at(Rule::PoolName, na));
    }
    let (ia, ib, n2) = match field(s, n1, "id:") {
        None => return Err(err_at(Rule::PoolId, n1)),
        Some(f) => f,
    };
    if end_of_digits(s, ia) != ib {
        return Err(err_at(Rule::PoolId, ia));
    }
    proof {
        assert forall|k: int| ia <= k < ib implies crate::lexer::is_digit(#[trigger] s@[k]) by {
            lemma_digits_run(s@, ia as int, k);
        }
    }
    let id = match number_at(s, ia, ib) {
        None => return Err(ParseError::Value { rule: Rule::PoolId, pos: ia }),
        Some(v) => v,
    };
    let (sa, sb, n3) = match field(s, n2, "state:") {
        None => return Err(err_at(Rule::State, n2)),
        Some(f) => f,
    };
    let h = match health_at(s, sa, sb) {
        None => return Err(err_at(Rule::State, sa)),
        Some(h) => h,
    };
    let name = s.substring_char(na, nb).to_owned();
    Ok((name, id, h, n3))
}

/// Every character before the end of a run of digits is a digit.
pub proof fn lemma_digits_run(s: Seq<char>, i: int, k: int)
    requires
        0 <= i <= k < digits_end(s, i),
    ensures
        crate::lexer::is_digit(s[k]),
    decreases k - i,
{
    if i < k {
        lemma_digits_run(s, i + 1, k);
    }
}

/// Reads the optional `status:` section at `i`.
pub fn status(s: &str, i: usize) -> (r: Result<(Option<String>, usize), ParseError>)
    requires
        i <= s@.len(),
    ensures
        match (r, spec_status(s@, i as int)) {
            (Ok((m, n)), Ok((sm, sn))) => crate::model::opt_view(m) == sm && n == sn,
            (Err(e), Err(se)) => e == se,
            _ => false,
        },
        r matches Ok((_, n)) ==> i <= n <= s@.len(),
{
    if !lit_at(s, skip_blanks(s, i), "status:") {
        return Ok((None, i));
    }
    match section_at(s, i, "status:") {
        Some((a, b, n)) => Ok((Some(s.substring_char(a, b).to_owned()), n)),
        None => Err(err_at(Rule::Status, i)),
    }
}

/// Reads and classifies the `action:` section at `i`.
pub fn action(s: &str, i: usize) -> (r: Result<(Advisory, usize), ParseError>)
    requires
        i <= s@.len(),
    ensures
        match (r, spec_action(s@, i as int)) {
            (Ok((adv, n)), Ok((sadv, sn))) => adv@ == sadv && n == sn,
            (Err(e), Err(se)) => e == se,
            _ => false,
        },
        r matches Ok((_, n)) ==> i < n <= s@.len(),
{
    match section_at(s, i, "action:") {
        None => Err(err_at(Rule::Action, i)),
        Some((a, b, n)) => match advisory_at(s, a, b) {
            None => Err(ParseError::Value { rule: Rule::Action, pos: a }),
            Some(adv) => Ok((adv, n)),
        },
    }
}

/// Reads the optional `see:` line at `i`.
pub fn see(s: &str, i: usize) -> (r: Result<(Option<String>, usize), ParseError>)
    requires
        i <= s@.len(),
    ensures
        match (r, spec_see(s@, i as int)) {
            (Ok((m, n)), Ok((sm, sn))) => crate::model::opt_view(m) == sm && n == sn,
            (Err(e), Err(se)) => e == se,
            _ => false,
        },
        r matches Ok((_, n)) ==> i <= n <= s@.len(),
{
    if !lit_at(s, skip_blanks(s, i), "see:") {
        return Ok((None, i));
    }
    match field(s, i, "see:") {
        Some((a, b, n)) => Ok((Some(s.substring_char(a, b).to_owned()), n)),
        None => Err(err_at(Rule::See, i)),
    }
}

/// Reads the `config:` line at `i`: where the next line starts.
pub fn config(s: &str, i: usize) -> (r: Option<usize>)
    requires
        i <= s@.len(),
    ensures
        match r {
            Some(n) => config_line(s@, i as int) == Some(n as int) && i < n <= s@.len(),
            None => config_line(s@, i as int) is None,
        },
{
    let n = s.unicode_len();
    let k = skip_blanks(s, i);
    if !lit_at(s, k, "config:") {
        return None;
    }
    let t = skip_blanks(s, k + "config:".unicode_len());
    if t < n && s.get_char(t) == '\n' {
        Some(t + 1)
    } else {
        None
    }
}

} // verus!
