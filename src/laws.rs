//! Properties of the parser that hold of every text.
use vstd::prelude::*;
use crate::devices::{
    deeper, dev_line, disk_below, disk_of, group_level, group_of, lemma_members_end, members,
    skip_blank_lines, spec_tree, vdevs,
};
use crate::header::{continues, field_line, para_end, section, spec_action, spec_ident};
use crate::lexer::{contains_lit, digits_value, is_blank, skip_ws, word_end};
use crate::model::{AdvisoryModel, DiskModel, ParseError, Pool, VdevModel};
use crate::prefix::{lemma_frame_header, lemma_skip_ws_ge};
use crate::parser::{pool_result, spec_block, spec_header, spec_pool, stream_step};
use crate::vocab::{advisory_of, bad_phrase, good_phrase};

verus! {

/// A pool read from a text is named by the token after `pool:` on its first line, and
/// identified by the number after `id:` on the line after it.
pub proof fn lemma_name_and_id(s: Seq<char>)
    requires
        spec_pool(s) is Ok,
    ensures
        match field_line(s, 0, "pool:"@) {
            Some((a, b, n)) => spec_pool(s)->Ok_0.name == s.subrange(a, b) && match field_line(
                s,
                n,
                "id:"@,
            ) {
                Some((c, d, _)) => spec_pool(s)->Ok_0.id as nat == digits_value(s, c, d),
                None => false,
            },
            None => false,
        },
{
}

/// Guidance that says only that the pool cannot be imported is not importable; guidance that
/// says only that it can be imported is importable; guidance that says both or neither has
/// no classification, and there is no other outcome.
pub proof fn lemma_classification(s: Seq<char>, a: int, b: int)
    ensures
        contains_lit(s, a, b, bad_phrase()) && !contains_lit(s, a, b, good_phrase())
            ==> advisory_of(s, a, b) == Some(AdvisoryModel::NotImportable(s.subrange(a, b))),
        contains_lit(s, a, b, good_phrase()) && !contains_lit(s, a, b, bad_phrase())
            ==> advisory_of(s, a, b) == Some(AdvisoryModel::Importable(s.subrange(a, b))),
        advisory_of(s, a, b) is None <==> contains_lit(s, a, b, good_phrase()) == contains_lit(
            s,
            a,
            b,
            bad_phrase(),
        ),
{
}

/// An `action:` section whose text says exactly one of the two phrases is read whole, from
/// the first character after the key to the newline that ends its last line, and is
/// classified by that phrase.
pub proof fn lemma_action_classified(s: Seq<char>, i: int)
    requires
        section(s, i, "action:"@) is Some,
    ensures
        ({
            let (a, b, n) = section(s, i, "action:"@)->0;
            let k = skip_ws(s, i);
            &&& a == skip_ws(s, k + "action:"@.len())
            &&& b == para_end(s, a)
            &&& s[b] == '\n'
            &&& !continues(s, b + 1)
            &&& n == b + 1
            &&& (contains_lit(s, a, b, bad_phrase()) && !contains_lit(s, a, b, good_phrase())
                ==> spec_action(s, i) == Ok::<(AdvisoryModel, int), ParseError>(
                (AdvisoryModel::NotImportable(s.subrange(a, b)), n),
            ))
            &&& (contains_lit(s, a, b, good_phrase()) && !contains_lit(s, a, b, bad_phrase())
                ==> spec_action(s, i) == Ok::<(AdvisoryModel, int), ParseError>(
                (AdvisoryModel::Importable(s.subrange(a, b)), n),
            ))
        }),
{
    let (a, b, n) = section(s, i, "action:"@)->0;
    lemma_para_end_stops(s, a);
}

/// The text of a section ends at a newline after which no text carries on.
proof fn lemma_para_end_stops(s: Seq<char>, i: int)
    requires
        0 <= i,
        para_end(s, i) < s.len(),
    ensures
        s[para_end(s, i)] == '\n',
        !continues(s, para_end(s, i) + 1),
    decreases s.len() - i,
{
    if i < s.len() && !(s[i] == '\n' && !continues(s, i + 1)) {
        lemma_para_end_stops(s, i + 1);
    }
}

/// The top-level devices keep the order of the text: those read before stay in front, in
/// their order, and the device on the next line comes right after them, a disk as itself and
/// a group with the disks listed below it, in their order.
pub proof fn lemma_vdevs_keep_order(s: Seq<char>, i: int, base: int, acc: Seq<VdevModel>)
    requires
        vdevs(s, i, base, acc) is Ok,
    ensures
        vdevs(s, i, base, acc)->Ok_0.0.len() >= acc.len(),
        vdevs(s, i, base, acc)->Ok_0.0.subrange(0, acc.len() as int) == acc,
        deeper(s, i, base) && group_level(s, dev_line(s, i)->0.start) is None ==> vdevs(
            s,
            i,
            base,
            acc,
        )->Ok_0.0.len() > acc.len() && vdevs(s, i, base, acc)->Ok_0.0[acc.len() as int]
            == VdevModel::Naked(disk_of(s, dev_line(s, i)->0)),
        deeper(s, i, base) && group_level(s, dev_line(s, i)->0.start) is Some ==> vdevs(
            s,
            i,
            base,
            acc,
        )->Ok_0.0.len() > acc.len() && vdevs(s, i, base, acc)->Ok_0.0[acc.len() as int]
            == group_of(
            group_level(s, dev_line(s, i)->0.start)->0,
            members(
                s,
                dev_line(s, i)->0.next,
                dev_line(s, i)->0.start - i,
                Seq::empty(),
            )->Ok_0.0,
        ),
    decreases s.len() - i,
{
    let r = vdevs(s, i, base, acc);
    if deeper(s, i, base) {
        let l = dev_line(s, i)->0;
        match group_level(s, l.start) {
            None => {
                assert(s[l.start] == '/');
                let acc2 = acc.push(VdevModel::Naked(disk_of(s, l)));
                lemma_vdevs_keep_order(s, l.next, base, acc2);
                let vs = r->Ok_0.0;
                assert(vs.subrange(0, acc2.len() as int) == acc2);
                assert(vs[acc.len() as int] == acc2[acc.len() as int]);
                assert(vs.subrange(0, acc.len() as int) =~= acc2.subrange(0, acc.len() as int));
            },
            Some(g) => {
                let ms = members(s, l.next, l.start - i, Seq::empty())->Ok_0.0;
                let e = members(s, l.next, l.start - i, Seq::empty())->Ok_0.1;
                lemma_members_end(s, l.next, l.start - i, Seq::empty());
                let acc2 = acc.push(group_of(g, ms));
                lemma_vdevs_keep_order(s, e, base, acc2);
                let vs = r->Ok_0.0;
                assert(vs.subrange(0, acc2.len() as int) == acc2);
                assert(vs[acc.len() as int] == acc2[acc.len() as int]);
                assert(vs.subrange(0, acc.len() as int) =~= acc2.subrange(0, acc.len() as int));
            },
        }
    } else {
        assert(r->Ok_0.0.subrange(0, acc.len() as int) =~= acc);
    }
}

/// The disks of a group keep the order of the text: those read before stay in front, and
/// the disk on the next line comes right after them.
pub proof fn lemma_members_keep_order(s: Seq<char>, i: int, ind: int, acc: Seq<DiskModel>)
    requires
        members(s, i, ind, acc) is Ok,
    ensures
        members(s, i, ind, acc)->Ok_0.0.len() >= acc.len(),
        members(s, i, ind, acc)->Ok_0.0.subrange(0, acc.len() as int) == acc,
        disk_below(s, i, ind) ==> members(s, i, ind, acc)->Ok_0.0.len() > acc.len() && members(
            s,
            i,
            ind,
            acc,
        )->Ok_0.0[acc.len() as int] == disk_of(s, dev_line(s, i)->0),
    decreases s.len() - i,
{
    let r = members(s, i, ind, acc);
    if disk_below(s, i, ind) {
        let l = dev_line(s, i)->0;
        let acc2 = acc.push(disk_of(s, l));
        lemma_members_keep_order(s, l.next, ind, acc2);
        let ms = r->Ok_0.0;
        assert(ms.subrange(0, acc2.len() as int) == acc2);
        assert(ms[acc.len() as int] == acc2[acc.len() as int]);
        assert(ms.subrange(0, acc.len() as int) =~= acc2.subrange(0, acc.len() as int));
    } else {
        assert(r->Ok_0.0.subrange(0, acc.len() as int) =~= acc);
    }
}

proof fn lemma_skip_blank_lines(s: Seq<char>, i: int)
    ensures
        skip_blank_lines(s, i) >= i,
    decreases s.len() - i,
{
    let j = skip_ws(s, i);
    lemma_skip_ws_ge(s, i);
    if 0 <= i <= j < s.len() && s[j] == '\n' {
        lemma_skip_blank_lines(s, j + 1);
    }
}

/// A block whose header reads up to its `config:` line and is followed there by nothing but
/// blanks and newlines is refused: no pool is read without devices.
pub proof fn lemma_no_devices_refused(s: Seq<char>, i: int)
    requires
        0 <= i,
        spec_header(s, i) is Ok,
        forall|k: int|
            spec_header(s, i)->Ok_0.1 <= k < s.len() ==> is_blank(#[trigger] s[k]) || s[k]
                == '\n',
    ensures
        spec_block(s, i) is Err,
{
    let c = spec_header(s, i)->Ok_0.1;
    lemma_skip_blank_lines(s, c);
    let p = skip_blank_lines(s, c);
    lemma_skip_ws_ge(s, p);
    let j = skip_ws(s, p);
    assert(word_end(s, j) == j);
    assert(dev_line(s, p) is None);
    assert(spec_tree(s, c) is Err);
}

/// A block cut right after its `config:` line is refused: no pool is read without devices.
pub proof fn lemma_truncated_after_config(s: Seq<char>)
    requires
        spec_header(s, 0) is Ok,
    ensures
        spec_block(s.subrange(0, spec_header(s, 0)->Ok_0.1), 0) is Err,
{
    lemma_frame_header(s, 0);
    let c = spec_header(s, 0)->Ok_0.1;
    let t = s.subrange(0, c);
    assert(spec_header(t, 0)->Ok_0.1 == t.len());
    lemma_no_devices_refused(t, 0);
}

/// Reading a text twice gives equal pools, or equal errors: the result depends on the text
/// alone.
pub proof fn lemma_parse_twice(t: Seq<char>, r1: Result<Pool, ParseError>, r2: Result<
    Pool,
    ParseError,
>)
    requires
        pool_result(r1) == spec_pool(t),
        pool_result(r2) == spec_pool(t),
    ensures
        pool_result(r1) == pool_result(r2),
{
}

/// A listing read pull by pull ends for good: a pull that reports the end or an error leaves
/// the reader finished, and every pull on a finished reader reports the end again.
pub proof fn lemma_end_is_final(s: Seq<char>, pos: int, done: bool)
    ensures
        stream_step(s, pos, done).0 matches Some(Err(_)) ==> stream_step(s, pos, done).2,
        stream_step(s, pos, done).0 is None ==> stream_step(s, pos, done).2,
        stream_step(s, pos, true) == (None::<Result<crate::model::PoolModel, ParseError>>, pos, true),
{
}

} // verus!
