//! The comparison helpers: the id-generation callbacks run when a
//! comparison is translated, and the trace callbacks run each time it
//! executes.

use crate::cmp_map::{record_spec, CmpLogMap};
use crate::filter::QemuInstrumentationFilter;
use crate::metadata::{alloc_step, QemuCmpsMapMetadata};
use crate::slot::{hashed_slot, hashed_slot_of, CMPLOG_MAP_W};
use vstd::prelude::*;

verus! {

/// Comparison logging with stable slots, for a fuzzer that runs the target
/// in its own process.
pub struct QemuCmpLogHelper {
    filter: QemuInstrumentationFilter,
}

impl QemuCmpLogHelper {
    /// Its id generation writes the per-state metadata.
    pub const HOOKS_DO_SIDE_EFFECTS: bool = true;

    pub closed spec fn spec_filter(&self) -> QemuInstrumentationFilter {
        self.filter
    }

    pub fn new(filter: QemuInstrumentationFilter) -> (r: QemuCmpLogHelper)
        ensures
            r.spec_filter() == filter,
    {
        QemuCmpLogHelper { filter }
    }

    pub fn must_instrument(&self, addr: u64) -> (r: bool)
        ensures
            r == self.spec_filter().allows(addr),
    {
        self.filter.allowed(addr)
    }

    pub fn filter(&self) -> (r: &QemuInstrumentationFilter)
        ensures
            *r == self.spec_filter(),
    {
        &self.filter
    }

    pub fn set_filter(&mut self, filter: QemuInstrumentationFilter)
        ensures
            final(self).spec_filter() == filter,
    {
        self.filter = filter;
    }
}

impl Default for QemuCmpLogHelper {
    fn default() -> (r: Self)
        ensures
            r.spec_filter() is AllowAll,
    {
        QemuCmpLogHelper::new(QemuInstrumentationFilter::AllowAll)
    }
}

/// Comparison logging with hashed slots, for a target run in forked
/// children: it keeps no state.
pub struct QemuCmpLogChildHelper {
    filter: QemuInstrumentationFilter,
}

impl QemuCmpLogChildHelper {
    /// Its id generation leaves the fuzzing state untouched, so it is safe
    /// in a forked child.
    pub const HOOKS_DO_SIDE_EFFECTS: bool = false;

    pub closed spec fn spec_filter(&self) -> QemuInstrumentationFilter {
        self.filter
    }

    pub fn new(filter: QemuInstrumentationFilter) -> (r: QemuCmpLogChildHelper)
        ensures
            r.spec_filter() == filter,
    {
        QemuCmpLogChildHelper { filter }
    }

    pub fn must_instrument(&self, addr: u64) -> (r: bool)
        ensures
            r == self.spec_filter().allows(addr),
    {
        self.filter.allowed(addr)
    }

    pub fn filter(&self) -> (r: &QemuInstrumentationFilter)
        ensures
            *r == self.spec_filter(),
    {
        &self.filter
    }

    pub fn set_filter(&mut self, filter: QemuInstrumentationFilter)
        ensures
            final(self).spec_filter() == filter,
    {
        self.filter = filter;
    }
}

impl Default for QemuCmpLogChildHelper {
    fn default() -> (r: Self)
        ensures
            r.spec_filter() is AllowAll,
    {
        QemuCmpLogChildHelper::new(QemuInstrumentationFilter::AllowAll)
    }
}

/// Whether a helper that may be absent rejects `pc`; with no helper every
/// address goes through.
pub open spec fn stable_rejects(helper: Option<&QemuCmpLogHelper>, pc: u64) -> bool {
    helper is Some && !helper.unwrap().spec_filter().allows(pc)
}

pub open spec fn hashed_rejects(helper: Option<&QemuCmpLogChildHelper>, pc: u64) -> bool {
    helper is Some && !helper.unwrap().spec_filter().allows(pc)
}

/// Id generation with stable slots. `state` is the metadata slot of the
/// fuzzing state; it is filled with empty metadata for a map of
/// `CMPLOG_MAP_W` rows on first use. A rejected address gets no slot and
/// leaves the state untouched.
pub fn gen_unique_cmp_ids(
    helper: Option<&QemuCmpLogHelper>,
    state: &mut Option<QemuCmpsMapMetadata>,
    pc: u64,
    size: usize,
) -> (r: Option<u64>)
    requires
        (*old(state)) is Some ==> old(state).unwrap().wf(),
    ensures
        stable_rejects(helper, pc) ==> r is None && *final(state) == *old(state),
        !stable_rejects(helper, pc) ==> {
            &&& r is Some
            &&& (*final(state)) is Some
            &&& final(state).unwrap().wf()
            &&& r.unwrap() < final(state).unwrap().spec_width()
            &&& match *old(state) {
                Some(m) => {
                    &&& final(state).unwrap().spec_width() == m.spec_width()
                    &&& (final(state).unwrap().entries(), final(state).unwrap().counter(), r.unwrap())
                        == alloc_step(m.entries(), m.counter(), m.spec_width(), pc)
                },
                None => {
                    &&& final(state).unwrap().spec_width() == CMPLOG_MAP_W
                    &&& final(state).unwrap().entries() == Map::<u64, u64>::empty().insert(pc, 0)
                    &&& final(state).unwrap().counter() == 1
                    &&& r.unwrap() == 0
                },
            }
        },
{
    if let Some(h) = helper {
        if !h.must_instrument(pc) {
            return None;
        }
    }
    if state.is_none() {
        *state = Some(QemuCmpsMapMetadata::new());
    }
    match state {
        Some(meta) => Some(meta.allocate(pc)),
        None => None,
    }
}

/// Id generation with hashed slots: `pc` hashed into a map of
/// `CMPLOG_MAP_W` rows, or nothing for a rejected address.
pub fn gen_hashed_cmp_ids(helper: Option<&QemuCmpLogChildHelper>, pc: u64, size: usize) -> (r:
    Option<u64>)
    ensures
        r == (if hashed_rejects(helper, pc) {
            None
        } else {
            Some(hashed_slot_of(pc, CMPLOG_MAP_W))
        }),
{
    if let Some(h) = helper {
        if !h.must_instrument(pc) {
            return None;
        }
    }
    Some(hashed_slot(pc, CMPLOG_MAP_W))
}

/// Records a one-byte comparison in slot `id`.
pub fn trace_cmp1_cmplog(map: &mut CmpLogMap, id: u64, v0: u8, v1: u8, data: u64)
    ensures
        final(map)@ == record_spec(old(map)@, id as usize, 1, v0 as u64, v1 as u64),
{
    map.record(id as usize, 1, v0 as u64, v1 as u64);
}

/// Records a two-byte comparison in slot `id`.
pub fn trace_cmp2_cmplog(map: &mut CmpLogMap, id: u64, v0: u16, v1: u16, data: u64)
    ensures
        final(map)@ == record_spec(old(map)@, id as usize, 2, v0 as u64, v1 as u64),
{
    map.record(id as usize, 2, v0 as u64, v1 as u64);
}

/// Records a four-byte comparison in slot `id`.
pub fn trace_cmp4_cmplog(map: &mut CmpLogMap, id: u64, v0: u32, v1: u32, data: u64)
    ensures
        final(map)@ == record_spec(old(map)@, id as usize, 4, v0 as u64, v1 as u64),
{
    map.record(id as usize, 4, v0 as u64, v1 as u64);
}

/// Records an eight-byte comparison in slot `id`.
pub fn trace_cmp8_cmplog(map: &mut CmpLogMap, id: u64, v0: u64, v1: u64, data: u64)
    ensures
        final(map)@ == record_spec(old(map)@, id as usize, 8, v0, v1),
{
    map.record(id as usize, 8, v0, v1);
}

} // verus!
