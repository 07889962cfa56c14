//! The header of a block reads nothing beyond its `config:` line: cut the text right after
//! that line and the header reads the same.
use vstd::prelude::*;
use crate::header::{
    config_line, continues, field_line, is_section_start, para_end, section, spec_action,
    spec_ident, spec_see, spec_status,
};
use crate::parser::spec_header;
use crate::vocab::{advisory_of, bad_phrase, good_phrase};
use crate::lexer::{
    contains_lit, digits_end, digits_value, is_blank, matches_lit, skip_ws, word_end,
};

verus! {

pub proof fn lemma_skip_ws_ge(s: Seq<char>, i: int)
    ensures
        skip_ws(s, i) >= i,
        0 <= skip_ws(s, i) < s.len() ==> !is_blank(s[skip_ws(s, i)]),
        0 <= i <= s.len() ==> skip_ws(s, i) <= s.len(),
    decreases s.len() - i,
{
    if 0 <= i < s.len() && is_blank(s[i]) {
        lemma_skip_ws_ge(s, i + 1);
    }
}

pub proof fn lemma_word_end_ge(s: Seq<char>, i: int)
    ensures
        word_end(s, i) >= i,
    decreases s.len() - i,
{
    if 0 <= i < s.len() && !is_blank(s[i]) && s[i] != '\n' {
        lemma_word_end_ge(s, i + 1);
    }
}

pub proof fn lemma_para_end_ge(s: Seq<char>, i: int)
    ensures
        para_end(s, i) >= i,
    decreases s.len() - i,
{
    if 0 <= i < s.len() {
        lemma_para_end_ge(s, i + 1);
    }
}

/// Text that goes on past blanks at `x` goes on past the first character after them.
proof fn lemma_para_end_passes(s: Seq<char>, x: int)
    requires
        0 <= x,
        skip_ws(s, x) < s.len(),
        s[skip_ws(s, x)] != '\n',
    ensures
        para_end(s, x) > skip_ws(s, x),
    decreases s.len() - x,
{
    if x < s.len() && is_blank(s[x]) {
        lemma_para_end_passes(s, x + 1);
    } else {
        lemma_para_end_ge(s, x + 1);
    }
}

/// A literal found in a prefix stands in the whole text too; one found in the whole text
/// within the prefix stands in the prefix.
pub proof fn lemma_prefix_lit(s: Seq<char>, c: int, k: int, lit: Seq<char>)
    requires
        0 <= c <= s.len(),
    ensures
        matches_lit(s.subrange(0, c), k, lit) ==> matches_lit(s, k, lit),
        matches_lit(s, k, lit) && k + lit.len() <= c ==> matches_lit(s.subrange(0, c), k, lit),
{
    let t = s.subrange(0, c);
    if 0 <= k && k + lit.len() <= c {
        assert(t.subrange(k, k + lit.len()) =~= s.subrange(k, k + lit.len()));
    }
}

pub proof fn lemma_frame_skip_ws(s: Seq<char>, c: int, i: int)
    requires
        0 <= c <= s.len(),
        skip_ws(s, i) < c,
    ensures
        skip_ws(s.subrange(0, c), i) == skip_ws(s, i),
    decreases s.len() - i,
{
    if 0 <= i < s.len() && is_blank(s[i]) {
        lemma_frame_skip_ws(s, c, i + 1);
        lemma_skip_ws_ge(s, i + 1);
    }
}

pub proof fn lemma_frame_word_end(s: Seq<char>, c: int, i: int)
    requires
        0 <= c <= s.len(),
        word_end(s, i) < c,
    ensures
        word_end(s.subrange(0, c), i) == word_end(s, i),
    decreases s.len() - i,
{
    if 0 <= i < s.len() && !is_blank(s[i]) && s[i] != '\n' {
        lemma_frame_word_end(s, c, i + 1);
        lemma_word_end_ge(s, i + 1);
    }
}

pub proof fn lemma_frame_digits_end(s: Seq<char>, c: int, i: int)
    requires
        0 <= c <= s.len(),
        digits_end(s, i) < c,
    ensures
        digits_end(s.subrange(0, c), i) == digits_end(s, i),
    decreases s.len() - i,
{
    if 0 <= i < s.len() && crate::lexer::is_digit(s[i]) {
        lemma_frame_digits_end(s, c, i + 1);
        lemma_digits_end_ge(s, i + 1);
    }
}

pub proof fn lemma_digits_end_ge(s: Seq<char>, i: int)
    ensures
        digits_end(s, i) >= i,
    decreases s.len() - i,
{
    if 0 <= i < s.len() && crate::lexer::is_digit(s[i]) {
        lemma_digits_end_ge(s, i + 1);
    }
}

pub proof fn lemma_frame_digits_value(s: Seq<char>, c: int, a: int, b: int)
    requires
        0 <= a,
        0 <= c <= s.len(),
        b <= c,
    ensures
        digits_value(s.subrange(0, c), a, b) == digits_value(s, a, b),
    decreases b - a,
{
    if a < b {
        lemma_frame_digits_value(s, c, a, b - 1);
    }
}

pub proof fn lemma_frame_para_end(s: Seq<char>, c: int, i: int)
    requires
        0 <= i,
        0 <= c <= s.len(),
        para_end(s, i) < c,
        !continues(s.subrange(0, c), para_end(s, i) + 1),
    ensures
        para_end(s.subrange(0, c), i) == para_end(s, i),
    decreases s.len() - i,
{
    let t = s.subrange(0, c);
    lemma_para_end_ge(s, i);
    if s[i] != '\n' {
        lemma_frame_para_end(s, c, i + 1);
    } else if continues(s, i + 1) {
        let j = skip_ws(s, i + 1);
        lemma_para_end_passes(s, i + 1);
        lemma_frame_skip_ws(s, c, i + 1);
        lemma_prefix_lit(s, c, j, "status:"@);
        lemma_prefix_lit(s, c, j, "action:"@);
        lemma_prefix_lit(s, c, j, "see:"@);
        lemma_prefix_lit(s, c, j, "config:"@);
        assert(continues(t, i + 1));
        lemma_frame_para_end(s, c, i + 1);
    }
}

pub proof fn lemma_field_bounds(s: Seq<char>, i: int, key: Seq<char>)
    requires
        field_line(s, i, key) is Some,
    ensures
        match field_line(s, i, key) {
            Some((v, e, n)) => i <= skip_ws(s, i) && skip_ws(s, i) + key.len() <= v < e < n
                <= s.len(),
            None => false,
        },
{
    let k = skip_ws(s, i);
    lemma_skip_ws_ge(s, i);
    lemma_skip_ws_ge(s, k + key.len());
    let v = skip_ws(s, k + key.len());
    let e = word_end(s, v);
    lemma_skip_ws_ge(s, e);
}

pub proof fn lemma_frame_field(s: Seq<char>, c: int, i: int, key: Seq<char>)
    requires
        0 <= c <= s.len(),
        field_line(s, i, key) matches Some((_, _, n)) && n <= c,
    ensures
        field_line(s.subrange(0, c), i, key) == field_line(s, i, key),
        matches_lit(s.subrange(0, c), skip_ws(s, i), key),
        skip_ws(s.subrange(0, c), i) == skip_ws(s, i),
{
    lemma_field_bounds(s, i, key);
    let k = skip_ws(s, i);
    let v = skip_ws(s, k + key.len());
    let e = word_end(s, v);
    lemma_frame_skip_ws(s, c, i);
    lemma_prefix_lit(s, c, k, key);
    lemma_frame_skip_ws(s, c, k + key.len());
    lemma_frame_word_end(s, c, v);
    lemma_skip_ws_ge(s, e);
    lemma_frame_skip_ws(s, c, e);
}

pub proof fn lemma_section_bounds(s: Seq<char>, i: int, key: Seq<char>)
    requires
        section(s, i, key) is Some,
    ensures
        match section(s, i, key) {
            Some((v, e, n)) => i <= skip_ws(s, i) && skip_ws(s, i) + key.len() <= v < e < n
                <= s.len() && e == para_end(s, v),
            None => false,
        },
{
    let k = skip_ws(s, i);
    lemma_skip_ws_ge(s, i);
    lemma_skip_ws_ge(s, k + key.len());
}

pub proof fn lemma_frame_section(s: Seq<char>, c: int, i: int, key: Seq<char>)
    requires
        0 <= i,
        0 <= c <= s.len(),
        section(s, i, key) matches Some((_, _, n)) && n <= c && !continues(s.subrange(0, c), n),
    ensures
        section(s.subrange(0, c), i, key) == section(s, i, key),
        matches_lit(s.subrange(0, c), skip_ws(s, i), key),
        skip_ws(s.subrange(0, c), i) == skip_ws(s, i),
{
    lemma_section_bounds(s, i, key);
    let k = skip_ws(s, i);
    let v = skip_ws(s, k + key.len());
    lemma_frame_skip_ws(s, c, i);
    lemma_prefix_lit(s, c, k, key);
    lemma_frame_skip_ws(s, c, k + key.len());
    lemma_frame_para_end(s, c, v);
}

pub proof fn lemma_frame_config(s: Seq<char>, c: int, i: int)
    requires
        0 <= c <= s.len(),
        config_line(s, i) matches Some(n) && n <= c,
    ensures
        config_line(s.subrange(0, c), i) == config_line(s, i),
        matches_lit(s.subrange(0, c), skip_ws(s, i), "config:"@),
        skip_ws(s.subrange(0, c), i) == skip_ws(s, i),
        i <= skip_ws(s, i) < config_line(s, i)->0,
{
    let k = skip_ws(s, i);
    lemma_skip_ws_ge(s, i);
    lemma_skip_ws_ge(s, k + "config:"@.len());
    lemma_frame_skip_ws(s, c, i);
    lemma_prefix_lit(s, c, k, "config:"@);
    lemma_frame_skip_ws(s, c, k + "config:"@.len());
}

pub proof fn lemma_frame_ident(s: Seq<char>, c: int, i: int)
    requires
        0 <= i,
        0 <= c <= s.len(),
        spec_ident(s, i) matches Ok((_, _, _, n)) && n <= c,
    ensures
        spec_ident(s.subrange(0, c), i) == spec_ident(s, i),
        i < spec_ident(s, i)->Ok_0.3,
{
    let t = s.subrange(0, c);
    let (na, nb, n1) = field_line(s, i, "pool:"@)->0;
    lemma_field_bounds(s, i, "pool:"@);
    let (ia, ib, n2) = field_line(s, n1, "id:"@)->0;
    lemma_field_bounds(s, n1, "id:"@);
    let (sa, sb, n3) = field_line(s, n2, "state:"@)->0;
    lemma_field_bounds(s, n2, "state:"@);
    lemma_frame_field(s, c, i, "pool:"@);
    lemma_frame_field(s, c, n1, "id:"@);
    lemma_frame_field(s, c, n2, "state:"@);
    lemma_frame_digits_end(s, c, ia);
    lemma_frame_digits_value(s, c, ia, ib);
    assert(t.subrange(na, nb) =~= s.subrange(na, nb));
    assert(t.subrange(sa, sb) =~= s.subrange(sa, sb));
    assert(crate::lexer::colon_free(t, na, nb) == crate::lexer::colon_free(s, na, nb));
}

proof fn lemma_frame_contains(s: Seq<char>, c: int, a: int, b: int, lit: Seq<char>)
    requires
        0 <= c <= s.len(),
        b <= c,
    ensures
        contains_lit(s.subrange(0, c), a, b, lit) == contains_lit(s, a, b, lit),
{
    let t = s.subrange(0, c);
    if contains_lit(s, a, b, lit) {
        let k = choose|k: int| a <= k && k + lit.len() <= b && #[trigger] matches_lit(s, k, lit);
        lemma_prefix_lit(s, c, k, lit);
        assert(matches_lit(t, k, lit));
    }
    if contains_lit(t, a, b, lit) {
        let k = choose|k: int| a <= k && k + lit.len() <= b && #[trigger] matches_lit(t, k, lit);
        lemma_prefix_lit(s, c, k, lit);
        assert(matches_lit(s, k, lit));
    }
}

/// The line at `n` opens a section of the prefix, so no text carries on into it.
proof fn lemma_no_carry_on(t: Seq<char>, n: int)
    requires
        is_section_start(t, skip_ws(t, n)),
    ensures
        !continues(t, n),
{
}

pub proof fn lemma_frame_header(s: Seq<char>, i: int)
    requires
        0 <= i,
        spec_header(s, i) is Ok,
    ensures
        i < spec_header(s, i)->Ok_0.1 <= s.len(),
        spec_header(s.subrange(0, spec_header(s, i)->Ok_0.1), i) == spec_header(s, i),
{
    let c = spec_header(s, i)->Ok_0.1;
    let t = s.subrange(0, c);
    let n1 = spec_ident(s, i)->Ok_0.3;
    let n2 = spec_status(s, n1)->Ok_0.1;
    let n3 = spec_action(s, n2)->Ok_0.1;
    let n4 = spec_see(s, n3)->Ok_0.1;
    assert(config_line(s, n4) == Some(c));
    let k4 = skip_ws(s, n4);
    let k3 = skip_ws(s, n3);
    let k2 = skip_ws(s, n2);
    let k1 = skip_ws(s, n1);
    // every stage starts where the one before it ended, inside the header
    let (_, _, p1) = field_line(s, i, "pool:"@)->0;
    lemma_field_bounds(s, i, "pool:"@);
    let (_, _, p2) = field_line(s, p1, "id:"@)->0;
    lemma_field_bounds(s, p1, "id:"@);
    lemma_field_bounds(s, p2, "state:"@);
    assert(i < n1);
    if matches_lit(s, k1, "status:"@) {
        lemma_section_bounds(s, n1, "status:"@);
    }
    assert(n1 <= n2);
    lemma_section_bounds(s, n2, "action:"@);
    if matches_lit(s, k3, "see:"@) {
        lemma_field_bounds(s, n3, "see:"@);
    }
    assert(n3 <= n4);
    lemma_skip_ws_ge(s, n4);
    lemma_skip_ws_ge(s, k4 + "config:"@.len());
    assert(n4 <= k4 < c <= s.len());
    lemma_frame_config(s, c, n4);
    // see
    if matches_lit(s, k3, "see:"@) {
        lemma_field_bounds(s, n3, "see:"@);
        lemma_frame_field(s, c, n3, "see:"@);
        let (a, b, _) = field_line(s, n3, "see:"@)->0;
        assert(t.subrange(a, b) =~= s.subrange(a, b));
    } else {
        lemma_prefix_lit(s, c, k3, "see:"@);
    }
    assert(spec_see(t, n3) == spec_see(s, n3));
    assert(is_section_start(t, skip_ws(t, n3)));
    lemma_no_carry_on(t, n3);
    // action
    lemma_section_bounds(s, n2, "action:"@);
    lemma_frame_section(s, c, n2, "action:"@);
    let (aa, ab, _) = section(s, n2, "action:"@)->0;
    lemma_frame_contains(s, c, aa, ab, bad_phrase());
    lemma_frame_contains(s, c, aa, ab, good_phrase());
    assert(t.subrange(aa, ab) =~= s.subrange(aa, ab));
    assert(advisory_of(t, aa, ab) == advisory_of(s, aa, ab));
    assert(spec_action(t, n2) == spec_action(s, n2));
    assert(is_section_start(t, skip_ws(t, n2)));
    lemma_no_carry_on(t, n2);
    // status
    lemma_skip_ws_ge(s, n1);
    if matches_lit(s, k1, "status:"@) {
        lemma_section_bounds(s, n1, "status:"@);
        lemma_frame_section(s, c, n1, "status:"@);
        let (a, b, _) = section(s, n1, "status:"@)->0;
        assert(t.subrange(a, b) =~= s.subrange(a, b));
    } else {
        lemma_frame_skip_ws(s, c, n1);
        lemma_prefix_lit(s, c, k1, "status:"@);
    }
    assert(spec_status(t, n1) == spec_status(s, n1));
    // identity lines
    lemma_frame_ident(s, c, i);
}

} // verus!
