//! Equality and order of kernel releases: both go by the version code alone.

use crate::sys::kernel::osrelease::{lemma_version_code_ordered, precedes, saturated_patch};
use crate::sys::kernel::osrelease::OsRelease;
use std::cmp::Ordering;
use vstd::prelude::*;
use vstd::std_specs::cmp::PartialEqSpec;
use vstd::std_specs::cmp::PartialOrdSpec;

verus! {

/// How two version codes compare.
pub open spec fn code_order(a: u32, b: u32) -> Ordering {
    if a < b {
        Ordering::Less
    } else if a == b {
        Ordering::Equal
    } else {
        Ordering::Greater
    }
}

impl PartialEq for OsRelease {
    fn eq(&self, other: &Self) -> (r: bool) {
        self.version_code == other.version_code
    }
}

impl vstd::std_specs::cmp::PartialEqSpecImpl for OsRelease {
    open spec fn obeys_eq_spec() -> bool {
        true
    }

    open spec fn eq_spec(&self, other: &Self) -> bool {
        self.version_code == other.version_code
    }
}

impl Eq for OsRelease {}

impl PartialOrd for OsRelease {
    fn partial_cmp(&self, other: &Self) -> (r: Option<Ordering>) {
        Some(self.cmp(other))
    }
}

impl vstd::std_specs::cmp::PartialOrdSpecImpl for OsRelease {
    open spec fn obeys_partial_cmp_spec() -> bool {
        true
    }

    open spec fn partial_cmp_spec(&self, other: &Self) -> Option<Ordering> {
        Some(code_order(self.version_code, other.version_code))
    }
}

impl OsRelease {
    /// Compares two releases by their version codes.
    pub fn cmp(&self, other: &Self) -> (r: Ordering)
        ensures
            r == code_order(self.version_code, other.version_code),
    {
        if self.version_code < other.version_code {
            Ordering::Less
        } else if self.version_code == other.version_code {
            Ordering::Equal
        } else {
            Ordering::Greater
        }
    }
}

/// Releases whose version codes are those of their numbers are ordered by
/// major, then minor, then saturated patch level, and are equal exactly
/// where these three agree.
pub proof fn lemma_release_order(a: OsRelease, b: OsRelease)
    requires
        a.wf(),
        b.wf(),
    ensures
        a.partial_cmp_spec(&b) == Some(Ordering::Less) <==> precedes(
            a.major,
            a.minor,
            a.patch,
            b.major,
            b.minor,
            b.patch,
        ),
        a.eq_spec(&b) <==> a.major == b.major && a.minor == b.minor && saturated_patch(a.patch)
            == saturated_patch(b.patch),
        a.partial_cmp_spec(&b) == Some(Ordering::Equal) <==> a.eq_spec(&b),
{
    lemma_version_code_ordered(a.major, a.minor, a.patch, b.major, b.minor, b.patch);
}

} // verus!
