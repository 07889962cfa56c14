//! Parsing of the text that `zpool import` prints into typed pool descriptions: which pools
//! can be imported, their identifiers and health, and the tree of devices behind each.
use vstd::prelude::*;

pub mod lexer;
pub mod model;
pub mod vocab;
pub mod header;
pub mod devices;
pub mod parser;
pub mod nv;
pub mod laws;
pub mod prefix;
pub mod location;

pub use model::{Advisory, DiskLine, HealthState, ParseError, Pool, RaidLevel, Rule, Vdev};
pub use nv::bool_to_u64;
pub use parser::{PoolStream, StdoutParser};

verus! {

} // verus!
