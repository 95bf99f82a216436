//! The sections of the statistics file that hold one counter.

use crate::grammar::{fields, parse_fields, texts, GrammarError};
use crate::number::{decode_u64, u64_of};
use vstd::prelude::*;

verus! {

/// One unsigned counter.
#[derive(Debug, Clone, Copy, PartialEq, Eq, Structural)]
pub struct SimpleU64Stat(pub u64);

/// Boot time, in seconds since the Epoch.
pub type Btime = SimpleU64Stat;

/// Number of context switches that the system underwent.
pub type Ctxt = SimpleU64Stat;

/// Number of forks since boot.
pub type Processes = SimpleU64Stat;

/// Number of processes in runnable state.
pub type ProcsRunning = SimpleU64Stat;

/// Number of processes blocked waiting for I/O to complete.
pub type ProcsBlocked = SimpleU64Stat;

/// The counter of a section with the fields `t`: the field after the
/// keyword.
pub open spec fn scalar_of(t: Seq<Seq<char>>) -> Result<SimpleU64Stat, GrammarError> {
    if t.len() < 2 {
        Err(GrammarError::TooFewFields)
    } else {
        match u64_of(t[1]) {
            Some(n) => Ok(SimpleU64Stat(n)),
            None => Err(GrammarError::NotNumeric(1)),
        }
    }
}

impl SimpleU64Stat {
    /// Decodes the section whose fields are `toks`.
    pub fn from_fields(toks: &Vec<Vec<char>>) -> (r: Result<Self, GrammarError>)
        ensures
            r == scalar_of(texts(toks@)),
    {
        if toks.len() < 2 {
            return Err(GrammarError::TooFewFields);
        }
        assert(texts(toks@)[1] == toks@[1]@);
        match decode_u64(&toks[1]) {
            Some(n) => Ok(SimpleU64Stat(n)),
            None => Err(GrammarError::NotNumeric(1)),
        }
    }

    /// Decodes a line such as `ctxt 115315`.
    pub fn from_str(s: &str) -> (r: Result<Self, GrammarError>)
        ensures
            r == scalar_of(fields(s@)),
    {
        match parse_fields(s, 2) {
            Ok(toks) => SimpleU64Stat::from_fields(&toks),
            Err(e) => Err(e),
        }
    }
}

impl Default for SimpleU64Stat {
    fn default() -> (r: Self)
        ensures
            r == SimpleU64Stat(0),
    {
        SimpleU64Stat(0)
    }
}

} // verus!
