//! Pressure stall information: how much of the recent past tasks spent
//! waiting for the CPU, for memory or for I/O.
//!
//! A pressure file holds a `some` line and, where the kernel accounts for
//! it, a `full` line. Each line is its label and four keyed values:
//! `avg10=`, `avg60=` and `avg300=` with a percentage, `total=` with a count
//! of microseconds. The percentages are kept exact, the way the text writes
//! them, and are not checked against the range from 0 to 100.

use crate::grammar::{copy_range, fields, is_word, parse_fields, starts_with, texts};
use crate::grammar::{GrammarError, ReadError};
use crate::number::{decimal_of, decode_decimal, decode_u64, u64_of, Decimal};
use crate::sys::kernel::osrelease::{kernel_version, version_code, OsRelease};
use vstd::prelude::*;

verus! {

/// The resource whose pressure is asked for.
#[derive(Debug, Clone, Copy, PartialEq, Eq, Structural)]
pub enum Pressure {
    Cpu,
    Mem,
    Io,
}

/// The share of time lost to stalls over the last 10, 60 and 300 seconds,
/// in percent, and the total stall time since boot, in microseconds.
#[derive(Debug, Clone, Copy, PartialEq, Eq, Structural)]
pub struct PressureAvg {
    pub avg10: Decimal,
    pub avg60: Decimal,
    pub avg300: Decimal,
    pub total: u64,
}

/// The pressure on one resource: `some` counts the time in which at least
/// one task was stalled, `full` the time in which all tasks that were not
/// idle were stalled at once.
#[derive(Debug, Clone, Copy, PartialEq, Eq, Structural)]
pub struct PressureStore {
    pub some: PressureAvg,
    pub full: PressureAvg,
}

/// How many fields one line of a pressure file holds.
pub const LINE_FIELDS: usize = 5;

/// How many fields a pressure file holds at least, with and without a
/// `full` line.
pub open spec fn fields_needed(with_full: bool) -> int {
    if with_full {
        2 * LINE_FIELDS
    } else {
        LINE_FIELDS as int
    }
}

/// Whether the pressure file of `domain` holds a `full` line on the kernel
/// `kernel`: always for memory and I/O, for the CPU from release 5.13.0 on.
pub open spec fn has_full_line(domain: Pressure, kernel: OsRelease) -> bool {
    domain == Pressure::Cpu ==> kernel.version_code >= version_code(5, 13, 0)
}

/// What `tok` holds after the key `key`, where it starts with that key.
pub open spec fn keyed(tok: Seq<char>, key: Seq<char>) -> Option<Seq<char>> {
    if key.is_prefix_of(tok) {
        Some(tok.skip(key.len() as int))
    } else {
        None
    }
}

/// The percentage that the field at position `at` holds under `key`.
pub open spec fn average_at(t: Seq<Seq<char>>, at: int, key: Seq<char>) -> Result<
    Decimal,
    GrammarError,
> {
    match keyed(t[at], key) {
        None => Err(GrammarError::UnexpectedKeyword(at as usize)),
        Some(value) => match decimal_of(value) {
            None => Err(GrammarError::NotNumeric(at as usize)),
            Some(d) => Ok(d),
        },
    }
}

/// The count that the field at position `at` holds under `total=`.
pub open spec fn total_at(t: Seq<Seq<char>>, at: int) -> Result<u64, GrammarError> {
    match keyed(t[at], "total="@) {
        None => Err(GrammarError::UnexpectedKeyword(at as usize)),
        Some(value) => match u64_of(value) {
            None => Err(GrammarError::NotNumeric(at as usize)),
            Some(n) => Ok(n),
        },
    }
}

/// The record of the line that starts at position `at`: the field there is
/// `label`, and the four fields after it hold the values, in order. The
/// first field that does not fit is the error.
pub open spec fn line_at(t: Seq<Seq<char>>, at: int, label: Seq<char>) -> Result<
    PressureAvg,
    GrammarError,
> {
    if t[at] != label {
        Err(GrammarError::UnexpectedKeyword(at as usize))
    } else if average_at(t, at + 1, "avg10="@) is Err {
        Err(average_at(t, at + 1, "avg10="@)->Err_0)
    } else if average_at(t, at + 2, "avg60="@) is Err {
        Err(average_at(t, at + 2, "avg60="@)->Err_0)
    } else if average_at(t, at + 3, "avg300="@) is Err {
        Err(average_at(t, at + 3, "avg300="@)->Err_0)
    } else if total_at(t, at + 4) is Err {
        Err(total_at(t, at + 4)->Err_0)
    } else {
        Ok(
            PressureAvg {
                avg10: average_at(t, at + 1, "avg10="@)->Ok_0,
                avg60: average_at(t, at + 2, "avg60="@)->Ok_0,
                avg300: average_at(t, at + 3, "avg300="@)->Ok_0,
                total: total_at(t, at + 4)->Ok_0,
            },
        )
    }
}

impl PressureAvg {
    /// No pressure at all.
    pub open spec fn zero() -> PressureAvg {
        PressureAvg {
            avg10: Decimal::zero(),
            avg60: Decimal::zero(),
            avg300: Decimal::zero(),
            total: 0,
        }
    }
}

/// The record that a pressure file with the content `text` gives. The file
/// is read to the end of the lines that the grammar asks for; what follows
/// them is not read. Without a `full` line, `full` is zero.
pub open spec fn pressure_of(text: Seq<char>, with_full: bool) -> Result<
    PressureStore,
    GrammarError,
> {
    let t = fields(text);
    if t.len() < fields_needed(with_full) {
        Err(GrammarError::TooFewFields)
    } else {
        match line_at(t, 0, "some"@) {
            Err(e) => Err(e),
            Ok(some) => if with_full {
                match line_at(t, LINE_FIELDS as int, "full"@) {
                    Err(e) => Err(e),
                    Ok(full) => Ok(PressureStore { some, full }),
                }
            } else {
                Ok(PressureStore { some, full: PressureAvg::zero() })
            },
        }
    }
}

/// What a read of the pressure file of `domain` gives on the kernel
/// `kernel`: `source` is the content of the file, or `None` where it could
/// not be opened.
pub open spec fn pressure_read(
    domain: Pressure,
    kernel: OsRelease,
    source: Option<Seq<char>>,
) -> Result<PressureStore, ReadError> {
    match source {
        None => Err(ReadError::Unavailable),
        Some(text) => match pressure_of(text, has_full_line(domain, kernel)) {
            Ok(found) => Ok(found),
            Err(e) => Err(ReadError::Malformed(e)),
        },
    }
}

/// What stands for `source` in contracts.
pub open spec fn source_text(source: Option<&str>) -> Option<Seq<char>> {
    match source {
        Some(text) => Some(text@),
        None => None,
    }
}

impl Pressure {
    /// The path of the pressure file.
    pub fn path(&self) -> (path: &'static str)
        ensures
            path@ == match *self {
                Pressure::Cpu => "/proc/pressure/cpu"@,
                Pressure::Mem => "/proc/pressure/memory"@,
                Pressure::Io => "/proc/pressure/io"@,
            },
    {
        match self {
            Pressure::Cpu => "/proc/pressure/cpu",
            Pressure::Mem => "/proc/pressure/memory",
            Pressure::Io => "/proc/pressure/io",
        }
    }

    /// Tells whether the pressure file holds a `full` line on `kernel`.
    pub fn has_full(&self, kernel: &OsRelease) -> (r: bool)
        ensures
            r == has_full_line(*self, *kernel),
    {
        match self {
            Pressure::Cpu => kernel.version_code >= kernel_version(5, 13, 0),
            _ => true,
        }
    }
}

/// Takes the value that `tok` holds after `key`.
fn value_of(tok: &Vec<char>, key: &str) -> (r: Option<Vec<char>>)
    ensures
        match r {
            Some(value) => keyed(tok@, key@) == Some(value@),
            None => keyed(tok@, key@) is None,
        },
{
    if !starts_with(tok, key) {
        return None;
    }
    let w = crate::grammar::chars_of(key);
    let value = copy_range(tok, w.len(), tok.len());
    assert(value@ =~= tok@.skip(key@.len() as int));
    Some(value)
}

/// Decodes the percentage of the field at position `at`.
fn read_average(toks: &Vec<Vec<char>>, at: usize, key: &str) -> (r: Result<Decimal, GrammarError>)
    requires
        at < toks.len(),
    ensures
        r == average_at(texts(toks@), at as int, key@),
{
    assert(texts(toks@)[at as int] == toks@[at as int]@);
    match value_of(&toks[at], key) {
        None => Err(GrammarError::UnexpectedKeyword(at)),
        Some(value) => match decode_decimal(&value) {
            None => Err(GrammarError::NotNumeric(at)),
            Some(d) => Ok(d),
        },
    }
}

/// Decodes the count of the field at position `at`.
fn read_total(toks: &Vec<Vec<char>>, at: usize) -> (r: Result<u64, GrammarError>)
    requires
        at < toks.len(),
    ensures
        r == total_at(texts(toks@), at as int),
{
    assert(texts(toks@)[at as int] == toks@[at as int]@);
    match value_of(&toks[at], "total=") {
        None => Err(GrammarError::UnexpectedKeyword(at)),
        Some(value) => match decode_u64(&value) {
            None => Err(GrammarError::NotNumeric(at)),
            Some(n) => Ok(n),
        },
    }
}

/// Decodes the line that starts at position `at`.
fn read_line(toks: &Vec<Vec<char>>, at: usize, label: &str) -> (r: Result<PressureAvg, GrammarError>)
    requires
        at + LINE_FIELDS <= toks.len(),
    ensures
        r == line_at(texts(toks@), at as int, label@),
{
    assert(texts(toks@)[at as int] == toks@[at as int]@);
    if !is_word(&toks[at], label) {
        return Err(GrammarError::UnexpectedKeyword(at));
    }
    let avg10 = match read_average(toks, at + 1, "avg10=") {
        Ok(d) => d,
        Err(e) => { return Err(e); },
    };
    let avg60 = match read_average(toks, at + 2, "avg60=") {
        Ok(d) => d,
        Err(e) => { return Err(e); },
    };
    let avg300 = match read_average(toks, at + 3, "avg300=") {
        Ok(d) => d,
        Err(e) => { return Err(e); },
    };
    let total = match read_total(toks, at + 4) {
        Ok(n) => n,
        Err(e) => { return Err(e); },
    };
    Ok(PressureAvg { avg10, avg60, avg300, total })
}

impl Default for PressureAvg {
    fn default() -> (r: Self)
        ensures
            r == PressureAvg::zero(),
    {
        let zero = Decimal { negative: false, digits: 0, scale: 0 };
        PressureAvg { avg10: zero, avg60: zero, avg300: zero, total: 0 }
    }
}

impl Default for PressureStore {
    fn default() -> (r: Self)
        ensures
            r == (PressureStore { some: PressureAvg::zero(), full: PressureAvg::zero() }),
    {
        PressureStore { some: PressureAvg::default(), full: PressureAvg::default() }
    }
}

impl PressureStore {
    /// Decodes the content of a pressure file, with or without a `full`
    /// line.
    pub fn from_str(text: &str, with_full: bool) -> (r: Result<Self, GrammarError>)
        ensures
            r == pressure_of(text@, with_full),
    {
        let needed: usize = if with_full {
            2 * LINE_FIELDS
        } else {
            LINE_FIELDS
        };
        let toks = match parse_fields(text, needed) {
            Ok(toks) => toks,
            Err(e) => { return Err(e); },
        };
        let some = match read_line(&toks, 0, "some") {
            Ok(avg) => avg,
            Err(e) => { return Err(e); },
        };
        if !with_full {
            return Ok(PressureStore { some, full: PressureAvg::default() });
        }
        match read_line(&toks, LINE_FIELDS, "full") {
            Ok(full) => Ok(PressureStore { some, full }),
            Err(e) => Err(e),
        }
    }

    /// The pressure on `t`, from what was read of its file on the kernel
    /// `kernel`, with the reason where there is none: `source` is the
    /// content of the file, or `None` where it could not be opened.
    pub fn read(t: Pressure, kernel: &OsRelease, source: Option<&str>) -> (r: Result<
        Self,
        ReadError,
    >)
        ensures
            r == pressure_read(t, *kernel, source_text(source)),
    {
        match source {
            None => Err(ReadError::Unavailable),
            Some(text) => match PressureStore::from_str(text, t.has_full(kernel)) {
                Ok(found) => Ok(found),
                Err(e) => Err(ReadError::Malformed(e)),
            },
        }
    }

    /// The pressure on `t`, or `None` where its file could not be opened or
    /// does not fit the grammar.
    pub fn new(t: Pressure, kernel: &OsRelease, source: Option<&str>) -> (r: Option<Self>)
        ensures
            r == match pressure_read(t, *kernel, source_text(source)) {
                Ok(found) => Some(found),
                Err(_) => None,
            },
    {
        match PressureStore::read(t, kernel, source) {
            Ok(found) => Some(found),
            Err(_) => None,
        }
    }
}

/// On a kernel before release 5.13.0 the pressure file of the CPU is read
/// without a `full` line: a text whose `some` line fits is accepted, what
/// follows that line is not read, and `full` is zero.
pub proof fn lemma_cpu_without_full_line(kernel: OsRelease, text: Seq<char>)
    requires
        kernel.version_code < version_code(5, 13, 0),
    ensures
        !has_full_line(Pressure::Cpu, kernel),
        pressure_read(Pressure::Cpu, kernel, Some(text)) is Ok <==> fields(text).len()
            >= LINE_FIELDS && line_at(fields(text), 0, "some"@) is Ok,
        pressure_read(Pressure::Cpu, kernel, Some(text)) matches Ok(found) ==> {
            &&& found.full == PressureAvg::zero()
            &&& line_at(fields(text), 0, "some"@) == Ok::<PressureAvg, GrammarError>(found.some)
        },
{
}

/// Where a pressure file is read with a `full` line, its two lines are
/// decoded apart: `some` from the first five fields, `full` from the five
/// after them.
pub proof fn lemma_lines_are_independent(text: Seq<char>)
    ensures
        pressure_of(text, true) matches Ok(found) ==> {
            &&& line_at(fields(text), 0, "some"@) == Ok::<PressureAvg, GrammarError>(found.some)
            &&& line_at(fields(text), LINE_FIELDS as int, "full"@) == Ok::<
                PressureAvg,
                GrammarError,
            >(found.full)
            &&& pressure_of(text, false) == Ok::<PressureStore, GrammarError>(
                PressureStore { some: found.some, full: PressureAvg::zero() },
            )
        },
{
}

/// A read has no state: two reads of one content, for one resource and on
/// one kernel, give equal results.
pub proof fn lemma_pressure_is_repeatable(
    domain: Pressure,
    kernel: OsRelease,
    source: Option<Seq<char>>,
    first: Result<PressureStore, ReadError>,
    second: Result<PressureStore, ReadError>,
)
    requires
        first == pressure_read(domain, kernel, source),
        second == pressure_read(domain, kernel, source),
    ensures
        first == second,
{
}

} // verus!
