//! The 64-bit log sequence number type.

use vstd::prelude::*;

verus! {

/// A position in the log address space: a 64-bit byte offset into the
/// logical log, written `high32/low32` in hexadecimal.  Its view is the
/// underlying offset.
#[derive(Copy, Clone, Debug, Hash, PartialEq, Eq, PartialOrd, Ord, Structural)]
pub struct PgLSN {
    pub value: u64,
}

impl View for PgLSN {
    type V = u64;

    open spec fn view(&self) -> u64 {
        self.value
    }
}

impl PgLSN {
    /// The pointer as its underlying 64-bit offset.
    pub fn to_u64(&self) -> (r: u64)
        ensures
            r == self@,
    {
        self.value
    }

    /// The text form `high32/low32` in hexadecimal.
    pub fn format(&self) -> (r: String)
        ensures
            r@ == crate::lsn::spec_lsn_text(self@),
    {
        crate::lsn::format_lsn(self.value)
    }
}

impl From<u64> for PgLSN {
    fn from(value: u64) -> PgLSN {
        PgLSN { value }
    }
}

impl vstd::std_specs::convert::FromSpecImpl<u64> for PgLSN {
    open spec fn obeys_from_spec() -> bool {
        true
    }

    open spec fn from_spec(v: u64) -> PgLSN {
        PgLSN { value: v }
    }
}

impl From<u32> for PgLSN {
    fn from(value: u32) -> PgLSN {
        PgLSN { value: value as u64 }
    }
}

impl vstd::std_specs::convert::FromSpecImpl<u32> for PgLSN {
    open spec fn obeys_from_spec() -> bool {
        true
    }

    open spec fn from_spec(v: u32) -> PgLSN {
        PgLSN { value: v as u64 }
    }
}

impl From<PgLSN> for u64 {
    fn from(value: PgLSN) -> u64 {
        value.value
    }
}

impl vstd::std_specs::convert::FromSpecImpl<PgLSN> for u64 {
    open spec fn obeys_from_spec() -> bool {
        true
    }

    open spec fn from_spec(v: PgLSN) -> u64 {
        v.value
    }
}

} // verus!
