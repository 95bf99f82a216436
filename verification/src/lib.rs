//! Typed, validated records decoded from the text of Linux kernel
//! pseudo-files: the kernel release and its version code, pressure stall
//! information, system-wide statistics and uptime.
//!
//! Nothing here opens a file. Each reader takes the content of its
//! pseudo-file, or `None` where the file could not be opened, and decodes it
//! against a fixed grammar.

pub mod grammar;
pub mod number;
pub mod pressure;
pub mod stat;
pub mod sys;
pub mod uptime;

pub use crate::grammar::{parse_fields, GrammarError, ReadError};
pub use crate::number::Decimal;
pub use crate::pressure::{Pressure, PressureAvg, PressureStore};
pub use crate::stat::cpu::CpuStat;
pub use crate::stat::pageswap::{DoubleU64Stat, Page, Swap};
pub use crate::stat::simple_stat::{Btime, Ctxt, Processes, ProcsBlocked, ProcsRunning};
pub use crate::stat::simple_stat::SimpleU64Stat;
pub use crate::stat::softirq::Softirqs;
pub use crate::stat::{Outcome, Section, Stat};
pub use crate::sys::kernel::osrelease::{kernel_version, OsRelease};
pub use crate::sys::kernel::ostype::OsType;
pub use crate::sys::kernel::version::OsVersion;
pub use crate::uptime::Uptime;
