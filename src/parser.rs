//! Whole pool blocks: one at a time, or a listing of several read one block per pull.
use vstd::prelude::*;
use vstd::string::*;
use crate::devices::{skip_blank, skip_blank_lines, spec_tree, tree};
use crate::header::{
    action, config, config_line, ident, see, spec_action, spec_ident, spec_see, spec_status,
    status, syntax,
};
use crate::lexer::{skip_blanks, skip_ws};
use crate::model::{opt_view, vdevs_view, ParseError, Pool, PoolModel, Rule};

verus! {

/// The header of the block at `i`, up to and including the `config:` line, as a pool with no
/// devices yet; where the device tree starts.
pub open spec fn spec_header(s: Seq<char>, i: int) -> Result<(PoolModel, int), ParseError> {
    match spec_ident(s, i) {
        Err(e) => Err(e),
        Ok((name, id, health, n1)) => match spec_status(s, n1) {
            Err(e) => Err(e),
            Ok((status_message, n2)) => match spec_action(s, n2) {
                Err(e) => Err(e),
                Ok((advisory, n3)) => match spec_see(s, n3) {
                    Err(e) => Err(e),
                    Ok((see_also, n4)) => match config_line(s, n4) {
                        None => Err(syntax(Rule::Config, n4)),
                        Some(n5) => Ok(
                            (
                                PoolModel {
                                    name,
                                    id,
                                    health,
                                    advisory,
                                    status_message,
                                    see_also,
                                    topology: Seq::empty(),
                                },
                                n5,
                            ),
                        ),
                    },
                },
            },
        },
    }
}

/// The pool block at `i` and where it ends.
pub open spec fn spec_block(s: Seq<char>, i: int) -> Result<(PoolModel, int), ParseError> {
    match spec_header(s, i) {
        Err(e) => Err(e),
        Ok((p, c)) => match spec_tree(s, c) {
            Err(e) => Err(e),
            Ok((vs, e)) => Ok(
                (
                    PoolModel {
                        name: p.name,
                        id: p.id,
                        health: p.health,
                        advisory: p.advisory,
                        status_message: p.status_message,
                        see_also: p.see_also,
                        topology: vs,
                    },
                    e,
                ),
            ),
        },
    }
}

/// The pool that the text `s` describes, in the block at its start.
pub open spec fn spec_pool(s: Seq<char>) -> Result<PoolModel, ParseError> {
    match spec_block(s, 0) {
        Ok((p, _)) => Ok(p),
        Err(e) => Err(e),
    }
}

pub open spec fn pool_result(r: Result<Pool, ParseError>) -> Result<PoolModel, ParseError> {
    match r {
        Ok(p) => Ok(p@),
        Err(e) => Err(e),
    }
}

/// Reads the pool block that starts at `i`; the result says where it ends.
pub fn parse_block(s: &str, i: usize) -> (r: Result<(Pool, usize), ParseError>)
    requires
        i <= s@.len(),
    ensures
        match (r, spec_block(s@, i as int)) {
            (Ok((p, e)), Ok((sp, se))) => p@ == sp && e == se,
            (Err(e), Err(se)) => e == se,
            _ => false,
        },
        r matches Ok((_, e)) ==> i < e <= s@.len(),
{
    let (name, id, health, n1) = ident(s, i)?;
    let (status_message, n2) = status(s, n1)?;
    let (advisory, n3) = action(s, n2)?;
    let (see_also, n4) = see(s, n3)?;
    let n5 = match config(s, n4) {
        None => return Err(ParseError::Syntax { rule: Rule::Config, pos: n4 }),
        Some(n) => n,
    };
    let (topology, e) = tree(s, n5)?;
    Ok((Pool { name, id, health, advisory, status_message, see_also, topology }, e))
}

/// Entry points of the parser of the `zpool import` listing.
pub struct StdoutParser;

impl StdoutParser {
    /// Reads the one pool that the text describes at its start.
    pub fn parse_pool(text: &str) -> (r: Result<Pool, ParseError>)
        ensures
            pool_result(r) == spec_pool(text@),
    {
        match parse_block(text, 0) {
            Ok((p, _)) => Ok(p),
            Err(e) => Err(e),
        }
    }

    /// The pools of a listing of zero or more blocks, read one block per pull.
    pub fn parse_pools(text: &str) -> (r: PoolStream)
        ensures
            r.wf(),
            r@ == (text@, 0int, false),
    {
        PoolStream { text: text.to_owned(), pos: 0, done: false }
    }
}

/// A one-pass reader of the pools of a listing. Once it has reported the end of the listing
/// or an error it stays finished.
pub struct PoolStream {
    text: String,
    pos: usize,
    done: bool,
}

/// One pull on a listing `s` read up to `pos`: the pool, the error or the end that it
/// reports, and the new position and finished flag.
pub open spec fn stream_step(s: Seq<char>, pos: int, done: bool) -> (
    Option<Result<PoolModel, ParseError>>,
    int,
    bool,
) {
    if done {
        (None, pos, true)
    } else {
        let p = skip_blank_lines(s, pos);
        if skip_ws(s, p) >= s.len() {
            (None, p, true)
        } else {
            match spec_block(s, p) {
                Ok((m, e)) => (Some(Ok(m)), e, false),
                Err(err) => (Some(Err(err)), p, true),
            }
        }
    }
}

pub open spec fn pull_result(r: Option<Result<Pool, ParseError>>) -> Option<
    Result<PoolModel, ParseError>,
> {
    match r {
        None => None,
        Some(Ok(p)) => Some(Ok(p@)),
        Some(Err(e)) => Some(Err(e)),
    }
}

impl View for PoolStream {
    type V = (Seq<char>, int, bool);

    closed spec fn view(&self) -> (Seq<char>, int, bool) {
        (self.text@, self.pos as int, self.done)
    }
}

impl PoolStream {
    pub closed spec fn wf(&self) -> bool {
        self.pos <= self.text@.len()
    }

    /// The next pool of the listing, the error that stops it, or `None` at its end.
    pub fn next(&mut self) -> (r: Option<Result<Pool, ParseError>>)
        requires
            old(self).wf(),
        ensures
            final(self).wf(),
            (pull_result(r), final(self)@.1, final(self)@.2) == stream_step(
                old(self)@.0,
                old(self)@.1,
                old(self)@.2,
            ),
            final(self)@.0 == old(self)@.0,
    {
        if self.done {
            return None;
        }
        let s = self.text.as_str();
        let p = skip_blank(s, self.pos);
        if skip_blanks(s, p) >= s.unicode_len() {
            self.pos = p;
            self.done = true;
            return None;
        }
        match parse_block(s, p) {
            Ok((pool, e)) => {
                self.pos = e;
                Some(Ok(pool))
            },
            Err(err) => {
                self.pos = p;
                self.done = true;
                Some(Err(err))
            },
        }
    }
}

} // verus!
