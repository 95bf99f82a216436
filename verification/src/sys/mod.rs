//! System-wide identifiers published by the kernel.

pub mod kernel;
