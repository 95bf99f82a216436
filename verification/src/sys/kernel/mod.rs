//! Kernel identification: release, type and build string.

pub mod order;
pub mod osrelease;
pub mod ostype;
pub mod version;
