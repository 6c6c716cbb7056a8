//! The instrumentation gate: which guest code addresses may be instrumented.

use vstd::prelude::*;

verus! {

/// A half-open range `[start, end)` of guest addresses.
#[derive(Clone, Copy, Debug, PartialEq, Eq, Structural)]
pub struct AddrRange {
    pub start: u64,
    pub end: u64,
}

impl AddrRange {
    pub open spec fn holds(self, addr: u64) -> bool {
        self.start <= addr && addr < self.end
    }

    pub fn contains(&self, addr: u64) -> (r: bool)
        ensures
            r == self.holds(addr),
    {
        self.start <= addr && addr < self.end
    }
}

/// Whether some range of `ranges` holds `addr`.
pub open spec fn in_some_range(ranges: Seq<AddrRange>, addr: u64) -> bool {
    exists|i: int| 0 <= i < ranges.len() && (#[trigger] ranges[i]).holds(addr)
}

/// An address-range predicate deciding which code may be instrumented.
#[derive(Clone, Debug)]
pub enum QemuInstrumentationFilter {
    /// Only addresses inside one of the ranges are allowed.
    AllowList(Vec<AddrRange>),
    /// Addresses inside one of the ranges are rejected, all others allowed.
    DenyList(Vec<AddrRange>),
    /// Every address is allowed.
    AllowAll,
}

impl QemuInstrumentationFilter {
    pub open spec fn allows(&self, addr: u64) -> bool {
        match self {
            QemuInstrumentationFilter::AllowList(l) => in_some_range(l@, addr),
            QemuInstrumentationFilter::DenyList(l) => !in_some_range(l@, addr),
            QemuInstrumentationFilter::AllowAll => true,
        }
    }

    /// Whether `addr` may be instrumented.
    pub fn allowed(&self, addr: u64) -> (r: bool)
        ensures
            r == self.allows(addr),
    {
        match self {
            QemuInstrumentationFilter::AllowList(l) => any_contains(l, addr),
            QemuInstrumentationFilter::DenyList(l) => !any_contains(l, addr),
            QemuInstrumentationFilter::AllowAll => true,
        }
    }
}

impl Default for QemuInstrumentationFilter {
    fn default() -> (r: Self)
        ensures
            r is AllowAll,
    {
        QemuInstrumentationFilter::AllowAll
    }
}

fn any_contains(ranges: &Vec<AddrRange>, addr: u64) -> (r: bool)
    ensures
        r == in_some_range(ranges@, addr),
{
    let mut i: usize = 0;
    while i < ranges.len()
        invariant
            i <= ranges@.len(),
            forall|j: int| 0 <= j < i ==> !(#[trigger] ranges@[j]).holds(addr),
        decreases ranges@.len() - i,
    {
        if ranges[i].contains(addr) {
            return true;
        }
        i = i + 1;
    }
    false
}

} // verus!
