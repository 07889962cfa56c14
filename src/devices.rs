//! The device tree under `config:`: the pool's own line, then its top-level devices, each a
//! disk of its own or a group whose disks stand indented below it.
use vstd::prelude::*;
use vstd::string::*;
use crate::header::syntax;
use crate::lexer::{
    end_of_line, line_end, lit_at, matches_lit, skip_blanks, skip_ws, span_is, token_end,
    word_end,
};
use crate::model::{
    disks_view, vdevs_view, DiskLine, DiskModel, HealthState, ParseError, RaidLevel, Rule, Vdev,
    VdevModel,
};
use crate::vocab::{health_at, health_of};

verus! {

/// Positions of a device line: `token state [note]`.
pub struct LineSpan {
    pub start: usize,
    pub tok_end: usize,
    pub state: HealthState,
    pub note: Option<(usize, usize)>,
    pub next: usize,
}

pub struct LineModel {
    pub start: int,
    pub tok_end: int,
    pub state: HealthState,
    pub note: Option<(int, int)>,
    pub next: int,
}

impl View for LineSpan {
    type V = LineModel;

    open spec fn view(&self) -> LineModel {
        LineModel {
            start: self.start as int,
            tok_end: self.tok_end as int,
            state: self.state,
            note: match self.note {
                Some((a, b)) => Some((a as int, b as int)),
                None => None,
            },
            next: self.next as int,
        }
    }
}

/// The line at `i` names a device and its health, with an optional note after them.
pub open spec fn dev_line(s: Seq<char>, i: int) -> Option<LineModel> {
    let j = skip_ws(s, i);
    let b = word_end(s, j);
    let k = skip_ws(s, b);
    let c = word_end(s, k);
    let m = skip_ws(s, c);
    let e = line_end(s, m);
    if j < b && b < k && k < c && e < s.len() && health_of(s.subrange(k, c)) is Some {
        Some(
            LineModel {
                start: j,
                tok_end: b,
                state: health_of(s.subrange(k, c))->0,
                note: if m < e {
                    Some((m, e))
                } else {
                    None
                },
                next: e + 1,
            },
        )
    } else {
        None
    }
}

pub open spec fn disk_of(s: Seq<char>, l: LineModel) -> DiskModel {
    DiskModel {
        path: s.subrange(l.start, l.tok_end),
        state: l.state,
        note: match l.note {
            Some((a, b)) => Some(s.subrange(a, b)),
            None => None,
        },
    }
}

/// A device line at `i` indented deeper than `ind` blanks.
pub open spec fn deeper(s: Seq<char>, i: int, ind: int) -> bool {
    &&& dev_line(s, i) is Some
    &&& dev_line(s, i)->0.start - i > ind
    &&& i < dev_line(s, i)->0.next <= s.len()
}

/// A device line at `i`, indented deeper than `ind` blanks, that names a disk by its absolute
/// path.
pub open spec fn disk_below(s: Seq<char>, i: int, ind: int) -> bool {
    deeper(s, i, ind) && s[dev_line(s, i)->0.start] == '/'
}

/// A line at `i` that holds more than blanks and is indented deeper than `ind` blanks.
pub open spec fn content_below(s: Seq<char>, i: int, ind: int) -> bool {
    let j = skip_ws(s, i);
    j - i > ind && j < s.len() && s[j] != '\n'
}

/// The disks of a group: the disk lines from `i` on that are indented deeper than `ind`,
/// appended to `acc`, and where they end. Any other line indented that deep is an error.
pub open spec fn members(s: Seq<char>, i: int, ind: int, acc: Seq<DiskModel>) -> Result<
    (Seq<DiskModel>, int),
    ParseError,
>
    decreases s.len() - i,
{
    if disk_below(s, i, ind) {
        let l = dev_line(s, i)->0;
        members(s, l.next, ind, acc.push(disk_of(s, l)))
    } else if content_below(s, i, ind) {
        Err(syntax(Rule::DiskLine, skip_ws(s, i)))
    } else {
        Ok((acc, i))
    }
}

/// The disks of a group end no earlier than they start, and within the text.
pub proof fn lemma_members_end(s: Seq<char>, i: int, ind: int, acc: Seq<DiskModel>)
    requires
        i <= s.len(),
        members(s, i, ind, acc) is Ok,
    ensures
        i <= members(s, i, ind, acc)->Ok_0.1 <= s.len(),
    decreases s.len() - i,
{
    if disk_below(s, i, ind) {
        let l = dev_line(s, i)->0;
        lemma_members_end(s, l.next, ind, acc.push(disk_of(s, l)));
    }
}

/// The kind of group that a device line at token start `j` opens, if any.
pub open spec fn group_level(s: Seq<char>, j: int) -> Option<Option<RaidLevel>> {
    if matches_lit(s, j, "mirror"@) {
        Some(None)
    } else if matches_lit(s, j, "raidz"@) {
        if j + 5 < s.len() && s[j + 5] == '2' {
            Some(Some(RaidLevel::Z2))
        } else if j + 5 < s.len() && s[j + 5] == '3' {
            Some(Some(RaidLevel::Z3))
        } else {
            Some(Some(RaidLevel::Z1))
        }
    } else {
        None
    }
}

pub open spec fn group_of(g: Option<RaidLevel>, ms: Seq<DiskModel>) -> VdevModel {
    match g {
        None => VdevModel::Mirror(ms),
        Some(l) => VdevModel::RaidZ(l, ms),
    }
}

/// The top-level devices from `i` on, those indented deeper than `base` blanks, appended to
/// `acc` in the order of the text, and where they end. Each is a disk named by its absolute
/// path or a group line with its disks below it; any other line indented that deep is an
/// error.
pub open spec fn vdevs(s: Seq<char>, i: int, base: int, acc: Seq<VdevModel>) -> Result<
    (Seq<VdevModel>, int),
    ParseError,
>
    decreases s.len() - i,
{
    if deeper(s, i, base) {
        let l = dev_line(s, i)->0;
        match group_level(s, l.start) {
            None => if s[l.start] == '/' {
                vdevs(s, l.next, base, acc.push(VdevModel::Naked(disk_of(s, l))))
            } else {
                Err(syntax(Rule::DiskLine, l.start))
            },
            Some(g) => match members(s, l.next, l.start - i, Seq::empty()) {
                Err(err) => Err(err),
                Ok((ms, e)) => {
                    if ms.len() == 0 {
                        Err(syntax(Rule::DiskLine, l.next))
                    } else {
                        proof {
                            lemma_members_end(s, l.next, l.start - i, Seq::empty());
                        }
                        vdevs(s, e, base, acc.push(group_of(g, ms)))
                    }
                },
            },
        }
    } else if content_below(s, i, base) {
        Err(syntax(Rule::DiskLine, skip_ws(s, i)))
    } else {
        Ok((acc, i))
    }
}

/// Lines from `i` on that hold nothing but blanks are passed over.
pub open spec fn skip_blank_lines(s: Seq<char>, i: int) -> int
    decreases s.len() - i,
{
    let j = skip_ws(s, i);
    if 0 <= i <= j < s.len() && s[j] == '\n' {
        skip_blank_lines(s, j + 1)
    } else {
        i
    }
}

/// Role of the disks listed under a `logs`, `cache` or `spares` line.
#[derive(Clone, Copy, Debug, PartialEq, Eq, Structural)]
pub enum AuxKind {
    Log,
    Cache,
    Spare,
}

/// The line at `i` holds nothing but one of the words `logs`, `cache`, `spares`: its role,
/// its indentation, and where the next line starts.
pub open spec fn aux_line(s: Seq<char>, i: int) -> Option<(AuxKind, int, int)> {
    let j = skip_ws(s, i);
    let b = word_end(s, j);
    let t = skip_ws(s, b);
    if 0 <= i <= j <= b <= t < s.len() && s[t] == '\n' {
        if s.subrange(j, b) == "logs"@ {
            Some((AuxKind::Log, j - i, t + 1))
        } else if s.subrange(j, b) == "cache"@ {
            Some((AuxKind::Cache, j - i, t + 1))
        } else if s.subrange(j, b) == "spares"@ {
            Some((AuxKind::Spare, j - i, t + 1))
        } else {
            None
        }
    } else {
        None
    }
}

pub open spec fn aux_of(k: AuxKind, d: DiskModel) -> VdevModel {
    match k {
        AuxKind::Log => VdevModel::Log(d),
        AuxKind::Cache => VdevModel::Cache(d),
        AuxKind::Spare => VdevModel::Spare(d),
    }
}

/// The disks under an auxiliary line, those from `i` on indented deeper than `ind`, each as
/// a device of role `k` appended to `acc`, and where they end. Any other line indented that
/// deep is an error.
pub open spec fn aux_members(
    s: Seq<char>,
    i: int,
    ind: int,
    k: AuxKind,
    acc: Seq<VdevModel>,
) -> Result<(Seq<VdevModel>, int), ParseError>
    decreases s.len() - i,
{
    if disk_below(s, i, ind) {
        let l = dev_line(s, i)->0;
        aux_members(s, l.next, ind, k, acc.push(aux_of(k, disk_of(s, l))))
    } else if content_below(s, i, ind) {
        Err(syntax(Rule::DiskLine, skip_ws(s, i)))
    } else {
        Ok((acc, i))
    }
}

/// The disks under an auxiliary line end no earlier than they start, and within the text.
pub proof fn lemma_aux_members_end(
    s: Seq<char>,
    i: int,
    ind: int,
    k: AuxKind,
    acc: Seq<VdevModel>,
)
    requires
        i <= s.len(),
        aux_members(s, i, ind, k, acc) is Ok,
    ensures
        i <= aux_members(s, i, ind, k, acc)->Ok_0.1 <= s.len(),
    decreases s.len() - i,
{
    if disk_below(s, i, ind) {
        let l = dev_line(s, i)->0;
        lemma_aux_members_end(s, l.next, ind, k, acc.push(aux_of(k, disk_of(s, l))));
    }
}

/// The `logs`, `cache` and `spares` sections from `i` on, each with at least one disk,
/// appended to `acc`, and where they end.
pub open spec fn aux_sections(s: Seq<char>, i: int, acc: Seq<VdevModel>) -> Result<
    (Seq<VdevModel>, int),
    ParseError,
>
    decreases s.len() - i,
{
    match aux_line(s, i) {
        None => Ok((acc, i)),
        Some((k, ind, n)) => match aux_members(s, n, ind, k, acc) {
            Err(err) => Err(err),
            Ok((all, e)) => {
                if all.len() == acc.len() {
                    Err(syntax(Rule::DiskLine, n))
                } else {
                    proof {
                        lemma_aux_members_end(s, n, ind, k, acc);
                    }
                    aux_sections(s, e, all)
                }
            },
        },
    }
}

/// The device tree after the `config:` line at `i`: the pool's own line, then at least one
/// top-level device, then the auxiliary sections; where it ends, blank lines included.
pub open spec fn spec_tree(s: Seq<char>, i: int) -> Result<(Seq<VdevModel>, int), ParseError> {
    let p = skip_blank_lines(s, i);
    match dev_line(s, p) {
        None => Err(syntax(Rule::PoolLine, p)),
        Some(l) => match vdevs(s, l.next, l.start - p, Seq::empty()) {
            Err(e) => Err(e),
            Ok((vs, e)) => {
                if vs.len() == 0 {
                    Err(syntax(Rule::Vdevs, l.next))
                } else {
                    match aux_sections(s, e, vs) {
                        Err(err) => Err(err),
                        Ok((all, e2)) => Ok((all, skip_blank_lines(s, e2))),
                    }
                }
            },
        },
    }
}

pub fn device_line(s: &str, i: usize) -> (r: Option<LineSpan>)
    requires
        i <= s@.len(),
    ensures
        match r {
            Some(l) => dev_line(s@, i as int) == Some(l@) && i <= l.start < l.tok_end < l.next
                <= s@.len(),
            None => dev_line(s@, i as int) is None,
        },
{
    let n = s.unicode_len();
    let j = skip_blanks(s, i);
    let b = token_end(s, j);
    let k = skip_blanks(s, b);
    let c = token_end(s, k);
    let m = skip_blanks(s, c);
    let e = end_of_line(s, m);
    if !(j < b && b < k && k < c && e < n) {
        return None;
    }
    let state = match health_at(s, k, c) {
        None => return None,
        Some(h) => h,
    };
    let note = if m < e {
        Some((m, e))
    } else {
        None
    };
    Some(LineSpan { start: j, tok_end: b, state, note, next: e + 1 })
}

pub fn disk_at(s: &str, l: &LineSpan) -> (r: DiskLine)
    requires
        l.start <= l.tok_end <= s@.len(),
        l.note matches Some((a, b)) ==> a <= b <= s@.len(),
    ensures
        r@ == disk_of(s@, l@),
{
    let path = s.substring_char(l.start, l.tok_end).to_owned();
    let note = match l.note {
        Some((a, b)) => Some(s.substring_char(a, b).to_owned()),
        None => None,
    };
    DiskLine { path, state: l.state, note }
}

fn deeper_line(s: &str, i: usize, ind: usize) -> (r: Option<LineSpan>)
    requires
        i <= s@.len(),
    ensures
        match r {
            Some(l) => deeper(s@, i as int, ind as int) && dev_line(s@, i as int) == Some(l@)
                && i <= l.start < l.tok_end < l.next <= s@.len() && (l.note matches Some((a, b))
                ==> a <= b <= s@.len()),
            None => !deeper(s@, i as int, ind as int),
        },
{
    match device_line(s, i) {
        None => None,
        Some(l) => {
            if l.start - i > ind {
                assert(dev_line(s@, i as int)->0.note == l@.note);
                Some(l)
            } else {
                None
            }
        },
    }
}

fn disk_line_below(s: &str, i: usize, ind: usize) -> (r: Option<LineSpan>)
    requires
        i <= s@.len(),
    ensures
        match r {
            Some(l) => disk_below(s@, i as int, ind as int) && dev_line(s@, i as int) == Some(
                l@,
            ) && i <= l.start < l.tok_end < l.next <= s@.len() && (l.note matches Some((a, b))
                ==> a <= b <= s@.len()),
            None => !disk_below(s@, i as int, ind as int),
        },
{
    match deeper_line(s, i, ind) {
        None => None,
        Some(l) => {
            if s.get_char(l.start) == '/' {
                Some(l)
            } else {
                None
            }
        },
    }
}

/// Where a line at `i` holds more than blanks, indented deeper than `ind` blanks: the
/// position of its first character.
fn content_at(s: &str, i: usize, ind: usize) -> (r: Option<usize>)
    requires
        i <= s@.len(),
    ensures
        match r {
            Some(j) => content_below(s@, i as int, ind as int) && j == skip_ws(s@, i as int),
            None => !content_below(s@, i as int, ind as int),
        },
{
    let n = s.unicode_len();
    let j = skip_blanks(s, i);
    if j - i > ind && j < n && s.get_char(j) != '\n' {
        Some(j)
    } else {
        None
    }
}

/// Reads the disks of a group: the disk lines from `i` on indented deeper than `ind`.
pub fn group_members(s: &str, i: usize, ind: usize) -> (r: Result<
    (Vec<DiskLine>, usize),
    ParseError,
>)
    requires
        i <= s@.len(),
    ensures
        match (r, members(s@, i as int, ind as int, Seq::empty())) {
            (Ok((v, e)), Ok((sv, se))) => disks_view(v@) == sv && e == se,
            (Err(e), Err(se)) => e == se,
            _ => false,
        },
        r matches Ok((_, e)) ==> i <= e <= s@.len(),
{
    let mut acc: Vec<DiskLine> = Vec::new();
    let mut p: usize = i;
    assert(disks_view(acc@) =~= Seq::empty());
    loop
        invariant
            i <= p <= s@.len(),
            members(s@, p as int, ind as int, disks_view(acc@)) == members(
                s@,
                i as int,
                ind as int,
                Seq::empty(),
            ),
        decreases s@.len() - p,
    {
        match disk_line_below(s, p, ind) {
            None => {
                if let Some(j) = content_at(s, p, ind) {
                    return Err(ParseError::Syntax { rule: Rule::DiskLine, pos: j });
                }
                return Ok((acc, p));
            },
            Some(l) => {
                let d = disk_at(s, &l);
                proof {
                    assert(disks_view(acc@.push(d)) =~= disks_view(acc@).push(d@));
                }
                acc.push(d);
                p = l.next;
            },
        }
    }
}

fn group_at(s: &str, j: usize) -> (r: Option<Option<RaidLevel>>)
    requires
        j <= s@.len(),
    ensures
        r == group_level(s@, j as int),
{
    let n = s.unicode_len();
    if lit_at(s, j, "mirror") {
        Some(None)
    } else if lit_at(s, j, "raidz") {
        if n > 5 && j < n - 5 && s.get_char(j + 5) == '2' {
            Some(Some(RaidLevel::Z2))
        } else if n > 5 && j < n - 5 && s.get_char(j + 5) == '3' {
            Some(Some(RaidLevel::Z3))
        } else {
            Some(Some(RaidLevel::Z1))
        }
    } else {
        None
    }
}

/// Reads the top-level devices from `i` on: those indented deeper than `base` blanks.
pub fn top_level(s: &str, i: usize, base: usize) -> (r: Result<(Vec<Vdev>, usize), ParseError>)
    requires
        i <= s@.len(),
    ensures
        match (r, vdevs(s@, i as int, base as int, Seq::empty())) {
            (Ok((v, e)), Ok((sv, se))) => vdevs_view(v@) == sv && e == se,
            (Err(e), Err(se)) => e == se,
            _ => false,
        },
        r matches Ok((_, e)) ==> i <= e <= s@.len(),
{
    let mut acc: Vec<Vdev> = Vec::new();
    let mut p: usize = i;
    assert(vdevs_view(acc@) =~= Seq::empty());
    loop
        invariant
            i <= p <= s@.len(),
            vdevs(s@, p as int, base as int, vdevs_view(acc@)) == vdevs(
                s@,
                i as int,
                base as int,
                Seq::empty(),
            ),
        decreases s@.len() - p,
    {
        match deeper_line(s, p, base) {
            None => {
                if let Some(j) = content_at(s, p, base) {
                    return Err(ParseError::Syntax { rule: Rule::DiskLine, pos: j });
                }
                return Ok((acc, p));
            },
            Some(l) => {
                match group_at(s, l.start) {
                    None => {
                        if s.get_char(l.start) != '/' {
                            return Err(ParseError::Syntax { rule: Rule::DiskLine, pos: l.start });
                        }
                        let d = disk_at(s, &l);
                        let v = Vdev::Naked(d);
                        proof {
                            assert(vdevs_view(acc@.push(v)) =~= vdevs_view(acc@).push(v@));
                        }
                        acc.push(v);
                        p = l.next;
                    },
                    Some(g) => {
                        let (ms, e) = group_members(s, l.next, l.start - p)?;
                        if ms.len() == 0 {
                            return Err(ParseError::Syntax { rule: Rule::DiskLine, pos: l.next });
                        }
                        let v = match g {
                            None => Vdev::Mirror(ms),
                            Some(lv) => Vdev::RaidZ(lv, ms),
                        };
                        proof {
                            assert(vdevs_view(acc@.push(v)) =~= vdevs_view(acc@).push(v@));
                        }
                        acc.push(v);
                        p = e;
                    },
                }
            },
        }
    }
}

/// Passes over the lines from `i` on that hold nothing but blanks.
pub fn skip_blank(s: &str, i: usize) -> (r: usize)
    requires
        i <= s@.len(),
    ensures
        r == skip_blank_lines(s@, i as int),
        i <= r <= s@.len(),
{
    let n = s.unicode_len();
    let mut p: usize = i;
    loop
        invariant
            n == s@.len(),
            i <= p <= n,
            skip_blank_lines(s@, p as int) == skip_blank_lines(s@, i as int),
        decreases n - p,
    {
        let j = skip_blanks(s, p);
        if j < n && s.get_char(j) == '\n' {
            p = j + 1;
        } else {
            return p;
        }
    }
}

/// Reads the device tree after the `config:` line at `i`.
pub fn tree(s: &str, i: usize) -> (r: Result<(Vec<Vdev>, usize), ParseError>)
    requires
        i <= s@.len(),
    ensures
        match (r, spec_tree(s@, i as int)) {
            (Ok((v, e)), Ok((sv, se))) => vdevs_view(v@) == sv && e == se,
            (Err(e), Err(se)) => e == se,
            _ => false,
        },
        r matches Ok((_, e)) ==> i <= e <= s@.len(),
{
    let p = skip_blank(s, i);
    let l = match device_line(s, p) {
        None => return Err(ParseError::Syntax { rule: Rule::PoolLine, pos: p }),
        Some(l) => l,
    };
    let (vs, e) = top_level(s, l.next, l.start - p)?;
    if vs.len() == 0 {
        return Err(ParseError::Syntax { rule: Rule::Vdevs, pos: l.next });
    }
    let (all, e2) = auxiliary(s, e, vs)?;
    Ok((all, skip_blank(s, e2)))
}

fn aux_at(s: &str, i: usize) -> (r: Option<(AuxKind, usize, usize)>)
    requires
        i <= s@.len(),
    ensures
        match r {
            Some((k, ind, n)) => aux_line(s@, i as int) == Some((k, ind as int, n as int)) && i
                < n <= s@.len(),
            None => aux_line(s@, i as int) is None,
        },
{
    let n = s.unicode_len();
    let j = skip_blanks(s, i);
    let b = token_end(s, j);
    let t = skip_blanks(s, b);
    if !(t < n && s.get_char(t) == '\n') {
        return None;
    }
    if span_is(s, j, b, "logs") {
        Some((AuxKind::Log, j - i, t + 1))
    } else if span_is(s, j, b, "cache") {
        Some((AuxKind::Cache, j - i, t + 1))
    } else if span_is(s, j, b, "spares") {
        Some((AuxKind::Spare, j - i, t + 1))
    } else {
        None
    }
}

fn aux_vdev(k: AuxKind, d: DiskLine) -> (r: Vdev)
    ensures
        r@ == aux_of(k, d@),
{
    match k {
        AuxKind::Log => Vdev::Log(d),
        AuxKind::Cache => Vdev::Cache(d),
        AuxKind::Spare => Vdev::Spare(d),
    }
}

/// Reads the `logs`, `cache` and `spares` sections from `i` on, appending their disks to
/// `init`.
pub fn auxiliary(s: &str, i: usize, init: Vec<Vdev>) -> (r: Result<
    (Vec<Vdev>, usize),
    ParseError,
>)
    requires
        i <= s@.len(),
    ensures
        match (r, aux_sections(s@, i as int, vdevs_view(init@))) {
            (Ok((v, e)), Ok((sv, se))) => vdevs_view(v@) == sv && e == se,
            (Err(e), Err(se)) => e == se,
            _ => false,
        },
        r matches Ok((_, e)) ==> i <= e <= s@.len(),
{
    let mut acc = init;
    let ghost start = vdevs_view(acc@);
    let mut p: usize = i;
    loop
        invariant
            i <= p <= s@.len(),
            start == vdevs_view(init@),
            aux_sections(s@, p as int, vdevs_view(acc@)) == aux_sections(s@, i as int, start),
        decreases s@.len() - p,
    {
        let (k, ind, n) = match aux_at(s, p) {
            None => return Ok((acc, p)),
            Some(x) => x,
        };
        let ghost before = vdevs_view(acc@);
        let before_len = acc.len();
        let mut q: usize = n;
        loop
            invariant
                p < n <= q <= s@.len(),
                i <= p,
                before_len == before.len(),
                aux_members(s@, q as int, ind as int, k, vdevs_view(acc@)) == aux_members(
                    s@,
                    n as int,
                    ind as int,
                    k,
                    before,
                ),
                vdevs_view(acc@).len() == acc@.len(),
                acc@.len() >= before_len,
            ensures
                !disk_below(s@, q as int, ind as int),
            decreases s@.len() - q,
        {
            match disk_line_below(s, q, ind) {
                None => break,
                Some(l) => {
                    let v = aux_vdev(k, disk_at(s, &l));
                    proof {
                        assert(vdevs_view(acc@.push(v)) =~= vdevs_view(acc@).push(v@));
                    }
                    acc.push(v);
                    q = l.next;
                },
            }
        }
        if let Some(j) = content_at(s, q, ind) {
            return Err(ParseError::Syntax { rule: Rule::DiskLine, pos: j });
        }
        if acc.len() == before_len {
            return Err(ParseError::Syntax { rule: Rule::DiskLine, pos: n });
        }
        p = q;
    }
}

} // verus!
