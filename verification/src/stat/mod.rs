//! System-wide statistics: the sections of the statistics file, merged into
//! one record.
//!
//! The file is read line by line. The first field of a line says which
//! section the line belongs to. A line of a known section replaces what was
//! stored for that section, or, for a CPU line, is added after the CPU lines
//! before it. A line that does not fit its grammar, a line of an unknown
//! section and a blank line leave the record unchanged.

pub mod cpu;
pub mod pageswap;
pub mod simple_stat;
pub mod softirq;

use crate::grammar::{chars_of, fields, fields_of, find, is_word, starts_with, texts, until};
use crate::grammar::GrammarError;
use crate::stat::cpu::{cpu_of, CpuStat};
use crate::stat::pageswap::{pair_of, DoubleU64Stat, Page, Swap};
use crate::stat::simple_stat::{scalar_of, Btime, Ctxt, Processes, ProcsBlocked, ProcsRunning};
use crate::stat::simple_stat::SimpleU64Stat;
use crate::stat::softirq::{softirqs_of, Softirqs};
use vstd::prelude::*;

verus! {

/// The section that a line of the statistics file belongs to.
#[derive(Debug, Clone, Copy, PartialEq, Eq, Structural)]
pub enum Section {
    Btime,
    Ctxt,
    Processes,
    ProcsBlocked,
    ProcsRunning,
    Softirq,
    Page,
    Swap,
    Cpu,
    /// A keyword that names no section known here.
    Unknown,
}

/// What became of one line of the statistics file.
#[derive(Debug, Clone, Copy, PartialEq, Eq, Structural)]
pub enum Outcome {
    /// The line holds no field.
    Blank,
    /// The line was decoded and stored in its section.
    Stored(Section),
    /// The line belongs to a known section and does not fit its grammar;
    /// nothing was stored.
    Rejected(Section, GrammarError),
    /// The line belongs to no known section; nothing was stored.
    Unrecognized,
}

/// The statistics of the whole system.
#[derive(Debug, Clone, PartialEq, Eq)]
pub struct Stat {
    pub cpus: Vec<CpuStat>,
    pub ctxt: Ctxt,
    pub btime: Btime,
    pub processes: Processes,
    pub procs_running: ProcsRunning,
    pub procs_blocked: ProcsBlocked,
    pub softirqs: Softirqs,
    pub page: Page,
    pub swap: Swap,
}

/// What a [`Stat`] holds.
pub ghost struct StatView {
    pub cpus: Seq<CpuStat>,
    pub ctxt: SimpleU64Stat,
    pub btime: SimpleU64Stat,
    pub processes: SimpleU64Stat,
    pub procs_running: SimpleU64Stat,
    pub procs_blocked: SimpleU64Stat,
    pub softirqs: Softirqs,
    pub page: DoubleU64Stat,
    pub swap: DoubleU64Stat,
}

impl View for Stat {
    type V = StatView;

    open spec fn view(&self) -> StatView {
        StatView {
            cpus: self.cpus@,
            ctxt: self.ctxt,
            btime: self.btime,
            processes: self.processes,
            procs_running: self.procs_running,
            procs_blocked: self.procs_blocked,
            softirqs: self.softirqs,
            page: self.page,
            swap: self.swap,
        }
    }
}

/// The section that a keyword names. The keywords of the single sections are
/// matched whole; any other keyword that starts with `cpu` names a CPU line.
pub open spec fn section_of(keyword: Seq<char>) -> Section {
    if keyword == "btime"@ {
        Section::Btime
    } else if keyword == "ctxt"@ {
        Section::Ctxt
    } else if keyword == "processes"@ {
        Section::Processes
    } else if keyword == "procs_blocked"@ {
        Section::ProcsBlocked
    } else if keyword == "procs_running"@ {
        Section::ProcsRunning
    } else if keyword == "softirq"@ {
        Section::Softirq
    } else if keyword == "page"@ {
        Section::Page
    } else if keyword == "swap"@ {
        Section::Swap
    } else if "cpu"@.is_prefix_of(keyword) {
        Section::Cpu
    } else {
        Section::Unknown
    }
}

/// The error with which a line of the fields `t` fails the grammar of
/// `section`, if it fails; an unknown section has no grammar to fail.
pub open spec fn rejection(section: Section, t: Seq<Seq<char>>) -> Option<GrammarError> {
    match section {
        Section::Btime
        | Section::Ctxt
        | Section::Processes
        | Section::ProcsBlocked
        | Section::ProcsRunning => match scalar_of(t) {
            Ok(_) => None,
            Err(e) => Some(e),
        },
        Section::Softirq => match softirqs_of(t) {
            Ok(_) => None,
            Err(e) => Some(e),
        },
        Section::Page | Section::Swap => match pair_of(t) {
            Ok(_) => None,
            Err(e) => Some(e),
        },
        Section::Cpu => match cpu_of(t) {
            Ok(_) => None,
            Err(e) => Some(e),
        },
        Section::Unknown => None,
    }
}

/// What becomes of the line `line`.
pub open spec fn outcome_of(line: Seq<char>) -> Outcome {
    let t = fields(line);
    if t.len() == 0 {
        Outcome::Blank
    } else if section_of(t[0]) == Section::Unknown {
        Outcome::Unrecognized
    } else {
        match rejection(section_of(t[0]), t) {
            Some(e) => Outcome::Rejected(section_of(t[0]), e),
            None => Outcome::Stored(section_of(t[0])),
        }
    }
}

/// The record `stat` once a line of `section` with the fields `t`, which
/// fits its grammar, is stored in it.
pub open spec fn store(stat: StatView, section: Section, t: Seq<Seq<char>>) -> StatView {
    match section {
        Section::Btime => StatView { btime: scalar_of(t).unwrap(), ..stat },
        Section::Ctxt => StatView { ctxt: scalar_of(t).unwrap(), ..stat },
        Section::Processes => StatView { processes: scalar_of(t).unwrap(), ..stat },
        Section::ProcsBlocked => StatView { procs_blocked: scalar_of(t).unwrap(), ..stat },
        Section::ProcsRunning => StatView { procs_running: scalar_of(t).unwrap(), ..stat },
        Section::Softirq => StatView { softirqs: softirqs_of(t).unwrap(), ..stat },
        Section::Page => StatView { page: pair_of(t).unwrap(), ..stat },
        Section::Swap => StatView { swap: pair_of(t).unwrap(), ..stat },
        Section::Cpu => StatView { cpus: stat.cpus.push(cpu_of(t).unwrap()), ..stat },
        Section::Unknown => stat,
    }
}

/// The record `stat` once the line `line` is taken in: changed only where
/// the line is stored.
pub open spec fn absorbed(stat: StatView, line: Seq<char>) -> StatView {
    match outcome_of(line) {
        Outcome::Stored(section) => store(stat, section, fields(line)),
        _ => stat,
    }
}

/// The lines of a text: what stands between its line feeds. A line feed at
/// the very end starts no further line.
pub open spec fn lines(text: Seq<char>) -> Seq<Seq<char>>
    decreases text.len(),
{
    let n = until(text, '\n') as int;
    if text.len() == 0 {
        Seq::empty()
    } else if 0 <= n < text.len() {
        seq![text.take(n)] + lines(text.skip(n + 1))
    } else {
        seq![text]
    }
}

/// The record `stat` once each of `lines` is taken in, in order.
pub open spec fn merged(stat: StatView, lines: Seq<Seq<char>>) -> StatView
    decreases lines.len(),
{
    if lines.len() == 0 {
        stat
    } else {
        absorbed(merged(stat, lines.drop_last()), lines.last())
    }
}

/// What became of each of `lines`.
pub open spec fn outcomes_of(lines: Seq<Seq<char>>) -> Seq<Outcome> {
    lines.map_values(|line: Seq<char>| outcome_of(line))
}

impl StatView {
    /// The record before any line is taken in: no CPU line, each counter 0.
    pub open spec fn empty() -> StatView {
        StatView {
            cpus: Seq::empty(),
            ctxt: SimpleU64Stat(0),
            btime: SimpleU64Stat(0),
            processes: SimpleU64Stat(0),
            procs_running: SimpleU64Stat(0),
            procs_blocked: SimpleU64Stat(0),
            softirqs: Softirqs {
                all: 0,
                hi: 0,
                timer: 0,
                net_tx: 0,
                net_rx: 0,
                block: 0,
                irq_poll: 0,
                tasklet: 0,
                sched: 0,
                hrtimer: 0,
                rcu: 0,
            },
            page: DoubleU64Stat { ins: 0, out: 0 },
            swap: DoubleU64Stat { ins: 0, out: 0 },
        }
    }

    /// The record that a statistics file with the content `text` gives.
    pub open spec fn of_text(text: Seq<char>) -> StatView {
        merged(StatView::empty(), lines(text))
    }
}

/// Names the section of a keyword.
pub fn classify(keyword: &Vec<char>) -> (section: Section)
    ensures
        section == section_of(keyword@),
{
    if is_word(keyword, "btime") {
        Section::Btime
    } else if is_word(keyword, "ctxt") {
        Section::Ctxt
    } else if is_word(keyword, "processes") {
        Section::Processes
    } else if is_word(keyword, "procs_blocked") {
        Section::ProcsBlocked
    } else if is_word(keyword, "procs_running") {
        Section::ProcsRunning
    } else if is_word(keyword, "softirq") {
        Section::Softirq
    } else if is_word(keyword, "page") {
        Section::Page
    } else if is_word(keyword, "swap") {
        Section::Swap
    } else if starts_with(keyword, "cpu") {
        Section::Cpu
    } else {
        Section::Unknown
    }
}

impl Stat {
    /// Takes in the line that `chars` holds from `from` up to `to`.
    pub fn absorb_range(&mut self, chars: &Vec<char>, from: usize, to: usize) -> (outcome: Outcome)
        requires
            from <= to <= chars.len(),
        ensures
            final(self)@ == absorbed(old(self)@, chars@.subrange(from as int, to as int)),
            outcome == outcome_of(chars@.subrange(from as int, to as int)),
    {
        let toks = fields_of(chars, from, to);
        if toks.len() == 0 {
            return Outcome::Blank;
        }
        assert(texts(toks@)[0] == toks@[0]@);
        let section = classify(&toks[0]);
        match section {
            Section::Btime => match SimpleU64Stat::from_fields(&toks) {
                Ok(found) => {
                    self.btime = found;
                    Outcome::Stored(section)
                },
                Err(e) => Outcome::Rejected(section, e),
            },
            Section::Ctxt => match SimpleU64Stat::from_fields(&toks) {
                Ok(found) => {
                    self.ctxt = found;
                    Outcome::Stored(section)
                },
                Err(e) => Outcome::Rejected(section, e),
            },
            Section::Processes => match SimpleU64Stat::from_fields(&toks) {
                Ok(found) => {
                    self.processes = found;
                    Outcome::Stored(section)
                },
                Err(e) => Outcome::Rejected(section, e),
            },
            Section::ProcsBlocked => match SimpleU64Stat::from_fields(&toks) {
                Ok(found) => {
                    self.procs_blocked = found;
                    Outcome::Stored(section)
                },
                Err(e) => Outcome::Rejected(section, e),
            },
            Section::ProcsRunning => match SimpleU64Stat::from_fields(&toks) {
                Ok(found) => {
                    self.procs_running = found;
                    Outcome::Stored(section)
                },
                Err(e) => Outcome::Rejected(section, e),
            },
            Section::Softirq => match Softirqs::from_fields(&toks) {
                Ok(found) => {
                    self.softirqs = found;
                    Outcome::Stored(section)
                },
                Err(e) => Outcome::Rejected(section, e),
            },
            Section::Page => match DoubleU64Stat::from_fields(&toks) {
                Ok(found) => {
                    self.page = found;
                    Outcome::Stored(section)
                },
                Err(e) => Outcome::Rejected(section, e),
            },
            Section::Swap => match DoubleU64Stat::from_fields(&toks) {
                Ok(found) => {
                    self.swap = found;
                    Outcome::Stored(section)
                },
                Err(e) => Outcome::Rejected(section, e),
            },
            Section::Cpu => match CpuStat::from_fields(&toks) {
                Ok(found) => {
                    self.cpus.push(found);
                    Outcome::Stored(section)
                },
                Err(e) => Outcome::Rejected(section, e),
            },
            Section::Unknown => Outcome::Unrecognized,
        }
    }

    /// Takes in one line of the statistics file, and says what became of it.
    pub fn absorb(&mut self, line: &str) -> (outcome: Outcome)
        ensures
            final(self)@ == absorbed(old(self)@, line@),
            outcome == outcome_of(line@),
    {
        let chars = chars_of(line);
        assert(chars@.subrange(0, chars@.len() as int) =~= chars@);
        self.absorb_range(&chars, 0, chars.len())
    }

    /// Reads the content of a statistics file: the record, and what became
    /// of each line.
    pub fn read(text: &str) -> (r: (Stat, Vec<Outcome>))
        ensures
            r.0@ == StatView::of_text(text@),
            r.1@ == outcomes_of(lines(text@)),
    {
        let chars = chars_of(text);
        let n: usize = chars.len();
        let mut stat = Stat::default();
        let mut outcomes: Vec<Outcome> = Vec::new();
        let mut pos: usize = 0;
        let ghost mut done: Seq<Seq<char>> = Seq::empty();
        proof {
            assert(chars@.subrange(0, n as int) =~= chars@);
            assert(outcomes@ =~= outcomes_of(done));
        }
        while pos < n
            invariant
                pos <= n == chars.len(),
                chars@ == text@,
                lines(chars@) == done + lines(chars@.subrange(pos as int, n as int)),
                stat@ == merged(StatView::empty(), done),
                outcomes@ == outcomes_of(done),
            decreases n - pos,
        {
            let ghost rest = chars@.subrange(pos as int, n as int);
            let at: usize = find(&chars, pos, n, '\n');
            let ghost line = chars@.subrange(pos as int, at as int);
            let outcome = stat.absorb_range(&chars, pos, at);
            outcomes.push(outcome);
            proof {
                assert(rest.take(at - pos) =~= line);
                lemma_merge_step(StatView::empty(), done, line);
                assert(outcomes_of(done.push(line)) =~= outcomes_of(done).push(outcome_of(line)));
                if at < n {
                    assert(rest.skip(at - pos + 1) =~= chars@.subrange(at as int + 1, n as int));
                    assert(done + (seq![line] + lines(chars@.subrange(at as int + 1, n as int)))
                        =~= done.push(line) + lines(chars@.subrange(at as int + 1, n as int)));
                } else {
                    assert(rest =~= line);
                    assert(lines(chars@.subrange(n as int, n as int)) =~= Seq::empty());
                    assert(done + seq![line] =~= done.push(line) + Seq::<Seq<char>>::empty());
                }
                done = done.push(line);
            }
            pos = if at < n {
                at + 1
            } else {
                n
            };
        }
        proof {
            assert(lines(chars@.subrange(n as int, n as int)) =~= Seq::empty());
            assert(done + Seq::<Seq<char>>::empty() =~= done);
        }
        (stat, outcomes)
    }

    /// The record that the content of a statistics file gives.
    pub fn new(text: &str) -> (stat: Stat)
        ensures
            stat@ == StatView::of_text(text@),
    {
        Stat::read(text).0
    }
}

impl Default for Stat {
    /// The record before any line is taken in.
    fn default() -> (r: Self)
        ensures
            r@ == StatView::empty(),
    {
        Stat {
            cpus: Vec::new(),
            ctxt: SimpleU64Stat(0),
            btime: SimpleU64Stat(0),
            processes: SimpleU64Stat(0),
            procs_running: SimpleU64Stat(0),
            procs_blocked: SimpleU64Stat(0),
            softirqs: Softirqs::default(),
            page: DoubleU64Stat { ins: 0, out: 0 },
            swap: DoubleU64Stat { ins: 0, out: 0 },
        }
    }
}

/// A read has no state: two reads of one text give records that hold the
/// same, CPU line by CPU line and counter by counter.
pub proof fn lemma_stat_is_repeatable(text: Seq<char>, first: Stat, second: Stat)
    requires
        first@ == StatView::of_text(text),
        second@ == StatView::of_text(text),
    ensures
        first@ == second@,
        first.cpus@ == second.cpus@,
        first.ctxt == second.ctxt,
        first.btime == second.btime,
        first.processes == second.processes,
        first.procs_running == second.procs_running,
        first.procs_blocked == second.procs_blocked,
        first.softirqs == second.softirqs,
        first.page == second.page,
        first.swap == second.swap,
{
}

/// A line that is not stored leaves the record the way it was, whatever
/// the reason: a blank line, an unknown section, a line that does not fit
/// its grammar.
pub proof fn lemma_only_stored_lines_change(stat: StatView, line: Seq<char>)
    ensures
        !(outcome_of(line) is Stored) ==> absorbed(stat, line) == stat,
        outcome_of(line) is Unrecognized <==> fields(line).len() > 0 && section_of(
            fields(line)[0],
        ) == Section::Unknown,
        outcome_of(line) matches Outcome::Stored(section) ==> {
            &&& section != Section::Cpu ==> absorbed(stat, line).cpus == stat.cpus
            &&& section == Section::Cpu ==> absorbed(stat, line).cpus == stat.cpus.push(
                cpu_of(fields(line)).unwrap(),
            )
        },
{
}

/// Taking in one more line is a step of the merge: the record of the lines
/// so far, with the new line taken in.
pub proof fn lemma_merge_step(stat: StatView, lines: Seq<Seq<char>>, line: Seq<char>)
    ensures
        merged(stat, lines.push(line)) == absorbed(merged(stat, lines), line),
{
    assert(lines.push(line).drop_last() =~= lines);
}

} // verus!
