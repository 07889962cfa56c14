//! The fixed vocabulary of the listing: health words, guidance phrases, decimal numbers.
use vstd::prelude::*;
use vstd::string::*;
use crate::lexer::{contains_at, contains_lit, digits_value, is_digit, span_is};
use crate::model::{Advisory, AdvisoryModel, HealthState};

verus! {

/// The health state that a token names, if any.
pub open spec fn health_of(t: Seq<char>) -> Option<HealthState> {
    if t == "ONLINE"@ {
        Some(HealthState::Online)
    } else if t == "DEGRADED"@ {
        Some(HealthState::Degraded)
    } else if t == "FAULTED"@ {
        Some(HealthState::Faulted)
    } else if t == "OFFLINE"@ {
        Some(HealthState::Offline)
    } else if t == "UNAVAIL"@ {
        Some(HealthState::Unavail)
    } else if t == "REMOVED"@ {
        Some(HealthState::Removed)
    } else {
        None
    }
}

/// Phrase by which the tool says that a pool can be imported.
pub open spec fn good_phrase() -> Seq<char> {
    "can be imported"@
}

/// Phrase by which the tool says that a pool cannot be imported.
pub open spec fn bad_phrase() -> Seq<char> {
    "cannot be imported"@
}

/// Classification of the guidance text `s[a..b]`: it must say exactly one of that the pool
/// can and that it cannot be imported; a text that says both or neither has no
/// classification.
pub open spec fn advisory_of(s: Seq<char>, a: int, b: int) -> Option<AdvisoryModel> {
    let bad = contains_lit(s, a, b, bad_phrase());
    let good = contains_lit(s, a, b, good_phrase());
    if bad && !good {
        Some(AdvisoryModel::NotImportable(s.subrange(a, b)))
    } else if good && !bad {
        Some(AdvisoryModel::Importable(s.subrange(a, b)))
    } else {
        None
    }
}

/// The health state named by `s[a..b]`.
pub fn health_at(s: &str, a: usize, b: usize) -> (r: Option<HealthState>)
    requires
        a <= b <= s@.len(),
    ensures
        r == health_of(s@.subrange(a as int, b as int)),
{
    if span_is(s, a, b, "ONLINE") {
        Some(HealthState::Online)
    } else if span_is(s, a, b, "DEGRADED") {
        Some(HealthState::Degraded)
    } else if span_is(s, a, b, "FAULTED") {
        Some(HealthState::Faulted)
    } else if span_is(s, a, b, "OFFLINE") {
        Some(HealthState::Offline)
    } else if span_is(s, a, b, "UNAVAIL") {
        Some(HealthState::Unavail)
    } else if span_is(s, a, b, "REMOVED") {
        Some(HealthState::Removed)
    } else {
        None
    }
}

/// Classifies the guidance text `s[a..b]`, keeping the text itself.
pub fn advisory_at(s: &str, a: usize, b: usize) -> (r: Option<Advisory>)
    requires
        a <= b <= s@.len(),
    ensures
        match r {
            Some(v) => advisory_of(s@, a as int, b as int) == Some(v@),
            None => advisory_of(s@, a as int, b as int) is None,
        },
{
    let bad = contains_at(s, a, b, "cannot be imported");
    let good = contains_at(s, a, b, "can be imported");
    if bad && !good {
        let message = s.substring_char(a, b).to_owned();
        Some(Advisory::NotImportable { message })
    } else if good && !bad {
        let message = s.substring_char(a, b).to_owned();
        Some(Advisory::Importable { message })
    } else {
        None
    }
}

pub proof fn lemma_digits_value_grows(s: Seq<char>, a: int, i: int, b: int)
    requires
        a <= i <= b,
        forall|k: int| a <= k < b ==> is_digit(#[trigger] s[k]),
    ensures
        digits_value(s, a, i) <= digits_value(s, a, b),
    decreases b - i,
{
    if i < b {
        lemma_digits_value_grows(s, a, i, b - 1);
        assert(digits_value(s, a, b) == digits_value(s, a, b - 1) * 10 + ((s[b - 1] as u32)
            - 48) as nat);
    }
}

/// The decimal number written by the digits `s[a..b]`, where it fits in 64 bits.
pub fn number_at(s: &str, a: usize, b: usize) -> (r: Option<u64>)
    requires
        a <= b <= s@.len(),
        forall|k: int| a <= k < b ==> is_digit(#[trigger] s@[k]),
    ensures
        match r {
            Some(v) => v as nat == digits_value(s@, a as int, b as int),
            None => digits_value(s@, a as int, b as int) > u64::MAX,
        },
{
    let mut acc: u64 = 0;
    let mut i: usize = a;
    while i < b
        invariant
            a <= i <= b <= s@.len(),
            forall|k: int| a <= k < b ==> is_digit(#[trigger] s@[k]),
            acc as nat == digits_value(s@, a as int, i as int),
        decreases b - i,
    {
        let c = s.get_char(i);
        let d = (c as u32 - 48) as u64;
        assert(is_digit(s@[i as int]));
        assert(digits_value(s@, a as int, i + 1) == digits_value(s@, a as int, i as int) * 10
            + d);
        if acc > (u64::MAX - d) / 10 {
            proof {
                lemma_digits_value_grows(s@, a as int, i + 1, b as int);
                assert(acc * 10 + d > u64::MAX) by (nonlinear_arith)
                    requires
                        acc > (u64::MAX - d) / 10,
                        d <= 9,
                ;
            }
            return None;
        }
        assert(acc * 10 + d <= u64::MAX) by (nonlinear_arith)
            requires
                acc <= (u64::MAX - d) / 10,
                d <= 9,
        ;
        acc = acc * 10 + d;
        i = i + 1;
    }
    Some(acc)
}

/// Classifies a guidance sentence by the phrases it holds, keeping the sentence.
pub fn classify(msg: &str) -> (r: Option<Advisory>)
    ensures
        match r {
            Some(v) => advisory_of(msg@, 0, msg@.len() as int) == Some(v@),
            None => advisory_of(msg@, 0, msg@.len() as int) is None,
        },
{
    advisory_at(msg, 0, msg.unicode_len())
}

} // verus!
