//! The CPU lines of the statistics file: one for all CPUs together, then one
//! per CPU.

use crate::grammar::{counters, fields, is_word, lemma_counters, parse_fields, read_counters};
use crate::grammar::{copy_range, starts_with, texts, GrammarError};
use crate::number::{decode_i32, i32_of, u64_of};
use vstd::prelude::*;

verus! {

/// The time that one CPU, or all of them together, spent in each state.
#[derive(Debug, Clone, Copy, PartialEq, Eq, Structural)]
pub struct CpuStat {
    /// CPU number, -1 for all CPUs together.
    pub cpu_number: i32,
    /// Time spent in user mode.
    pub user: u64,
    /// Time spent in user mode with low priority.
    pub nice: u64,
    /// Time spent in system mode.
    pub system: u64,
    /// Time spent in the idle task.
    pub idle: u64,
    /// Time waiting for I/O to complete.
    pub iowait: u64,
    /// Time servicing interrupts.
    pub irq: u64,
    /// Time servicing softirqs.
    pub softirq: u64,
    /// Time spent in other operating systems when running virtualized.
    pub steal: u64,
    /// Time spent running a virtual CPU for a guest.
    pub guest: u64,
    /// Time spent running a niced guest.
    pub guest_nice: u64,
}

/// How many fields a CPU line holds at least: the keyword and ten counters.
pub const CPU_FIELDS: usize = 11;

/// The CPU number that a keyword names: -1 for `cpu` itself, else the
/// number written after `cpu`, which is not negative.
pub open spec fn cpu_index(keyword: Seq<char>) -> Result<i32, GrammarError> {
    if keyword == "cpu"@ {
        Ok(-1i32)
    } else if !"cpu"@.is_prefix_of(keyword) {
        Err(GrammarError::UnexpectedKeyword(0))
    } else {
        match i32_of(keyword.skip(3)) {
            Some(n) => if n >= 0 {
                Ok(n)
            } else {
                Err(GrammarError::NotNumeric(0))
            },
            None => Err(GrammarError::NotNumeric(0)),
        }
    }
}

/// The record of a CPU line with the fields `t`: the keyword gives the CPU
/// number, the ten fields after it the counters, each at its place.
pub open spec fn cpu_of(t: Seq<Seq<char>>) -> Result<CpuStat, GrammarError> {
    if t.len() < CPU_FIELDS {
        Err(GrammarError::TooFewFields)
    } else {
        match cpu_index(t[0]) {
            Err(e) => Err(e),
            Ok(index) => match counters(t, 1, CPU_FIELDS as int) {
                Err(e) => Err(e),
                Ok(c) => Ok(
                    CpuStat {
                        cpu_number: index,
                        user: c[0],
                        nice: c[1],
                        system: c[2],
                        idle: c[3],
                        iowait: c[4],
                        irq: c[5],
                        softirq: c[6],
                        steal: c[7],
                        guest: c[8],
                        guest_nice: c[9],
                    },
                ),
            },
        }
    }
}

/// Decodes the CPU number that a keyword names.
pub fn decode_cpu_index(keyword: &Vec<char>) -> (r: Result<i32, GrammarError>)
    ensures
        r == cpu_index(keyword@),
{
    proof {
        reveal_strlit("cpu");
    }
    if is_word(keyword, "cpu") {
        return Ok(-1);
    }
    if !starts_with(keyword, "cpu") {
        return Err(GrammarError::UnexpectedKeyword(0));
    }
    let number = copy_range(keyword, 3, keyword.len());
    assert(number@ =~= keyword@.skip(3));
    match decode_i32(&number) {
        Some(n) => if n >= 0 {
            Ok(n)
        } else {
            Err(GrammarError::NotNumeric(0))
        },
        None => Err(GrammarError::NotNumeric(0)),
    }
}

impl CpuStat {
    /// Decodes the CPU line whose fields are `toks`.
    pub fn from_fields(toks: &Vec<Vec<char>>) -> (r: Result<Self, GrammarError>)
        ensures
            r == cpu_of(texts(toks@)),
    {
        if toks.len() < CPU_FIELDS {
            return Err(GrammarError::TooFewFields);
        }
        assert(texts(toks@)[0] == toks@[0]@);
        let index: i32 = match decode_cpu_index(&toks[0]) {
            Ok(n) => n,
            Err(e) => { return Err(e); },
        };
        proof {
            lemma_counters(texts(toks@), 1, CPU_FIELDS as int);
        }
        match read_counters(toks, 1, CPU_FIELDS) {
            Err(e) => Err(e),
            Ok(c) => Ok(
                CpuStat {
                    cpu_number: index,
                    user: c[0],
                    nice: c[1],
                    system: c[2],
                    idle: c[3],
                    iowait: c[4],
                    irq: c[5],
                    softirq: c[6],
                    steal: c[7],
                    guest: c[8],
                    guest_nice: c[9],
                },
            ),
        }
    }

    /// Decodes a line that holds `cpu`, or `cpu` and a number, and ten
    /// counters.
    pub fn from_str(s: &str) -> (r: Result<Self, GrammarError>)
        ensures
            r == cpu_of(fields(s@)),
    {
        match parse_fields(s, CPU_FIELDS) {
            Ok(toks) => CpuStat::from_fields(&toks),
            Err(e) => Err(e),
        }
    }
}

impl Default for CpuStat {
    fn default() -> (r: Self)
        ensures
            r == (CpuStat {
                cpu_number: 0,
                user: 0,
                nice: 0,
                system: 0,
                idle: 0,
                iowait: 0,
                irq: 0,
                softirq: 0,
                steal: 0,
                guest: 0,
                guest_nice: 0,
            }),
    {
        CpuStat {
            cpu_number: 0,
            user: 0,
            nice: 0,
            system: 0,
            idle: 0,
            iowait: 0,
            irq: 0,
            softirq: 0,
            steal: 0,
            guest: 0,
            guest_nice: 0,
        }
    }
}

/// Each counter of a CPU line is the number that the field at its place
/// writes, and the CPU number is the one that the keyword names. A line is
/// decoded exactly where it holds eleven fields, the keyword names a CPU and
/// the ten fields after it each write a number.
pub proof fn lemma_cpu_by_position(t: Seq<Seq<char>>)
    ensures
        cpu_of(t) matches Ok(found) ==> {
            &&& cpu_index(t[0]) == Ok::<i32, GrammarError>(found.cpu_number)
            &&& found.cpu_number >= -1
            &&& u64_of(t[1]) == Some(found.user)
            &&& u64_of(t[2]) == Some(found.nice)
            &&& u64_of(t[3]) == Some(found.system)
            &&& u64_of(t[4]) == Some(found.idle)
            &&& u64_of(t[5]) == Some(found.iowait)
            &&& u64_of(t[6]) == Some(found.irq)
            &&& u64_of(t[7]) == Some(found.softirq)
            &&& u64_of(t[8]) == Some(found.steal)
            &&& u64_of(t[9]) == Some(found.guest)
            &&& u64_of(t[10]) == Some(found.guest_nice)
        },
        cpu_of(t) is Ok <==> t.len() >= CPU_FIELDS && cpu_index(t[0]) is Ok && forall|k: int|
            1 <= k < CPU_FIELDS ==> u64_of(#[trigger] t[k]) is Some,
{
    lemma_counters(t, 1, CPU_FIELDS as int);
}

} // verus!
