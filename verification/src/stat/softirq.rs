//! The softirq section of the statistics file.

use crate::grammar::{counters, fields, lemma_counters, parse_fields, read_counters, texts};
use crate::grammar::GrammarError;
use crate::number::u64_of;
use vstd::prelude::*;

verus! {

/// Number of softirqs over all CPUs: their total, then one count per kind.
#[derive(Debug, Clone, Copy, PartialEq, Eq, Structural)]
pub struct Softirqs {
    /// Total of all softirqs.
    pub all: u64,
    /// High-priority tasklets and bottom halves.
    pub hi: u64,
    /// Timer bottom halves.
    pub timer: u64,
    /// Packets sent to network cards.
    pub net_tx: u64,
    /// Packets received from network cards.
    pub net_rx: u64,
    /// Block layer.
    pub block: u64,
    /// Block I/O polling.
    pub irq_poll: u64,
    /// Tasklets.
    pub tasklet: u64,
    /// Scheduler.
    pub sched: u64,
    /// High-resolution timers.
    pub hrtimer: u64,
    /// Read-copy-update.
    pub rcu: u64,
}

/// How many fields a softirq line holds at least: the keyword, the total,
/// and ten kinds.
pub const SOFTIRQ_FIELDS: usize = 12;

/// The softirq counts of a section with the fields `t`: the eleven fields
/// after the keyword, each at its place.
pub open spec fn softirqs_of(t: Seq<Seq<char>>) -> Result<Softirqs, GrammarError> {
    if t.len() < SOFTIRQ_FIELDS {
        Err(GrammarError::TooFewFields)
    } else {
        match counters(t, 1, SOFTIRQ_FIELDS as int) {
            Err(e) => Err(e),
            Ok(c) => Ok(
                Softirqs {
                    all: c[0],
                    hi: c[1],
                    timer: c[2],
                    net_tx: c[3],
                    net_rx: c[4],
                    block: c[5],
                    irq_poll: c[6],
                    tasklet: c[7],
                    sched: c[8],
                    hrtimer: c[9],
                    rcu: c[10],
                },
            ),
        }
    }
}

impl Softirqs {
    /// Decodes the section whose fields are `toks`.
    pub fn from_fields(toks: &Vec<Vec<char>>) -> (r: Result<Self, GrammarError>)
        ensures
            r == softirqs_of(texts(toks@)),
    {
        if toks.len() < SOFTIRQ_FIELDS {
            return Err(GrammarError::TooFewFields);
        }
        proof {
            lemma_counters(texts(toks@), 1, SOFTIRQ_FIELDS as int);
        }
        match read_counters(toks, 1, SOFTIRQ_FIELDS) {
            Err(e) => Err(e),
            Ok(c) => Ok(
                Softirqs {
                    all: c[0],
                    hi: c[1],
                    timer: c[2],
                    net_tx: c[3],
                    net_rx: c[4],
                    block: c[5],
                    irq_poll: c[6],
                    tasklet: c[7],
                    sched: c[8],
                    hrtimer: c[9],
                    rcu: c[10],
                },
            ),
        }
    }

    /// Decodes a line that holds `softirq` and eleven counts.
    pub fn from_str(s: &str) -> (r: Result<Self, GrammarError>)
        ensures
            r == softirqs_of(fields(s@)),
    {
        match parse_fields(s, SOFTIRQ_FIELDS) {
            Ok(toks) => Softirqs::from_fields(&toks),
            Err(e) => Err(e),
        }
    }
}

impl Default for Softirqs {
    fn default() -> (r: Self)
        ensures
            r == (Softirqs {
                all: 0,
                hi: 0,
                timer: 0,
                net_tx: 0,
                net_rx: 0,
                block: 0,
                irq_poll: 0,
                tasklet: 0,
                sched: 0,
                hrtimer: 0,
                rcu: 0,
            }),
    {
        Softirqs {
            all: 0,
            hi: 0,
            timer: 0,
            net_tx: 0,
            net_rx: 0,
            block: 0,
            irq_poll: 0,
            tasklet: 0,
            sched: 0,
            hrtimer: 0,
            rcu: 0,
        }
    }
}

/// Each count of a softirq line is the number that the field at its place
/// writes, and a line is decoded exactly where it holds twelve fields of
/// which the eleven after the keyword each write a number.
pub proof fn lemma_softirqs_by_position(t: Seq<Seq<char>>)
    ensures
        softirqs_of(t) matches Ok(found) ==> {
            &&& u64_of(t[1]) == Some(found.all)
            &&& u64_of(t[2]) == Some(found.hi)
            &&& u64_of(t[3]) == Some(found.timer)
            &&& u64_of(t[4]) == Some(found.net_tx)
            &&& u64_of(t[5]) == Some(found.net_rx)
            &&& u64_of(t[6]) == Some(found.block)
            &&& u64_of(t[7]) == Some(found.irq_poll)
            &&& u64_of(t[8]) == Some(found.tasklet)
            &&& u64_of(t[9]) == Some(found.sched)
            &&& u64_of(t[10]) == Some(found.hrtimer)
            &&& u64_of(t[11]) == Some(found.rcu)
        },
        softirqs_of(t) is Ok <==> t.len() >= SOFTIRQ_FIELDS && forall|k: int|
            1 <= k < SOFTIRQ_FIELDS ==> u64_of(#[trigger] t[k]) is Some,
{
    lemma_counters(t, 1, SOFTIRQ_FIELDS as int);
}

} // verus!
