//! System uptime: the time since boot and the time spent idle, in seconds.
//!
//! Both numbers are kept exact, the way the text writes them.

use crate::grammar::{fields, parse_fields, texts, GrammarError, ReadError};
use crate::number::{decimal_of, decode_decimal, Decimal};
use vstd::prelude::*;

verus! {

/// The uptime of the system.
#[derive(Debug, Clone, Copy, PartialEq, Eq, Structural)]
pub struct Uptime {
    /// Time since boot, time spent suspended included, in seconds.
    pub uptime: Decimal,
    /// Time spent in the idle task, summed over the CPUs, in seconds.
    pub idle: Decimal,
}

/// The uptime that `text` writes: its first two fields, in order. The first
/// of them that is no decimal fraction is the error.
pub open spec fn uptime_of(text: Seq<char>) -> Result<Uptime, GrammarError> {
    let t = fields(text);
    if t.len() < 2 {
        Err(GrammarError::TooFewFields)
    } else if decimal_of(t[0]) is None {
        Err(GrammarError::NotNumeric(0))
    } else if decimal_of(t[1]) is None {
        Err(GrammarError::NotNumeric(1))
    } else {
        Ok(Uptime { uptime: decimal_of(t[0]).unwrap(), idle: decimal_of(t[1]).unwrap() })
    }
}

/// What a read of the uptime file gives: `source` is its content, or `None`
/// where it could not be opened.
pub open spec fn uptime_read(source: Option<Seq<char>>) -> Result<Uptime, ReadError> {
    match source {
        None => Err(ReadError::Unavailable),
        Some(text) => match uptime_of(text) {
            Ok(found) => Ok(found),
            Err(e) => Err(ReadError::Malformed(e)),
        },
    }
}

impl Uptime {
    /// Decodes a line such as `96445.86 402942.06`.
    pub fn from_str(s: &str) -> (r: Result<Self, GrammarError>)
        ensures
            r == uptime_of(s@),
    {
        let toks = match parse_fields(s, 2) {
            Ok(toks) => toks,
            Err(e) => { return Err(e); },
        };
        assert(texts(toks@)[0] == toks@[0]@);
        assert(texts(toks@)[1] == toks@[1]@);
        let uptime = match decode_decimal(&toks[0]) {
            Some(d) => d,
            None => { return Err(GrammarError::NotNumeric(0)); },
        };
        let idle = match decode_decimal(&toks[1]) {
            Some(d) => d,
            None => { return Err(GrammarError::NotNumeric(1)); },
        };
        Ok(Uptime { uptime, idle })
    }

    /// The uptime, from what was read of the uptime file: `source` is the
    /// content, or `None` where the file could not be opened.
    pub fn new(source: Option<&str>) -> (r: Result<Self, ReadError>)
        ensures
            r == uptime_read(
                match source {
                    Some(text) => Some(text@),
                    None => None,
                },
            ),
    {
        match source {
            None => Err(ReadError::Unavailable),
            Some(text) => match Uptime::from_str(text) {
                Ok(found) => Ok(found),
                Err(e) => Err(ReadError::Malformed(e)),
            },
        }
    }
}

impl Default for Uptime {
    fn default() -> (r: Self)
        ensures
            r == (Uptime { uptime: Decimal::zero(), idle: Decimal::zero() }),
    {
        let zero = Decimal { negative: false, digits: 0, scale: 0 };
        Uptime { uptime: zero, idle: zero }
    }
}

} // verus!
