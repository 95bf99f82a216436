//! The page and swap sections of the statistics file.

use crate::grammar::{fields, parse_fields, texts, GrammarError};
use crate::number::{decode_u64, u64_of};
use vstd::prelude::*;

verus! {

/// Two unsigned counters: what came in and what went out.
#[derive(Debug, Clone, Copy, PartialEq, Eq, Structural)]
pub struct DoubleU64Stat {
    pub ins: u64,
    pub out: u64,
}

/// Pages paged in and out.
pub type Page = DoubleU64Stat;

/// Swap pages brought in and out.
pub type Swap = DoubleU64Stat;

/// The counters of a section with the fields `t`: the two fields after the
/// keyword.
pub open spec fn pair_of(t: Seq<Seq<char>>) -> Result<DoubleU64Stat, GrammarError> {
    if t.len() < 3 {
        Err(GrammarError::TooFewFields)
    } else if u64_of(t[1]) is None {
        Err(GrammarError::NotNumeric(1))
    } else if u64_of(t[2]) is None {
        Err(GrammarError::NotNumeric(2))
    } else {
        Ok(DoubleU64Stat { ins: u64_of(t[1]).unwrap(), out: u64_of(t[2]).unwrap() })
    }
}

impl DoubleU64Stat {
    /// Decodes the section whose fields are `toks`.
    pub fn from_fields(toks: &Vec<Vec<char>>) -> (r: Result<Self, GrammarError>)
        ensures
            r == pair_of(texts(toks@)),
    {
        if toks.len() < 3 {
            return Err(GrammarError::TooFewFields);
        }
        assert(texts(toks@)[1] == toks@[1]@);
        assert(texts(toks@)[2] == toks@[2]@);
        let ins: u64 = match decode_u64(&toks[1]) {
            Some(n) => n,
            None => { return Err(GrammarError::NotNumeric(1)); },
        };
        let out: u64 = match decode_u64(&toks[2]) {
            Some(n) => n,
            None => { return Err(GrammarError::NotNumeric(2)); },
        };
        Ok(DoubleU64Stat { ins, out })
    }

    /// Decodes a line such as `page 5741 1808`.
    pub fn from_str(s: &str) -> (r: Result<Self, GrammarError>)
        ensures
            r == pair_of(fields(s@)),
    {
        match parse_fields(s, 3) {
            Ok(toks) => DoubleU64Stat::from_fields(&toks),
            Err(e) => Err(e),
        }
    }
}

impl Default for DoubleU64Stat {
    fn default() -> (r: Self)
        ensures
            r == (DoubleU64Stat { ins: 0, out: 0 }),
    {
        DoubleU64Stat { ins: 0, out: 0 }
    }
}

} // verus!
