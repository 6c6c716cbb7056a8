//! Comparison logging for an emulator-driven fuzzer: slot allocation for
//! comparison and call sites, the capture map they write into, and the
//! straight-line call-site scan that finds routine calls in translated code.

pub mod cmp_map;
pub mod cmplog;
pub mod filter;
pub mod metadata;
pub mod push_stage;
pub mod routines;
pub mod slot;

pub use cmp_map::{CmpLogMap, CmpRow};
pub use cmplog::{
    gen_hashed_cmp_ids, gen_unique_cmp_ids, trace_cmp1_cmplog, trace_cmp2_cmplog,
    trace_cmp4_cmplog, trace_cmp8_cmplog, QemuCmpLogChildHelper, QemuCmpLogHelper,
};
pub use filter::{AddrRange, QemuInstrumentationFilter};
pub use metadata::QemuCmpsMapMetadata;
pub use push_stage::{StdMutationalPushStage, DEFAULT_MUTATIONAL_MAX_ITERATIONS};
pub use routines::{
    CallSite, CpuMode, Decoder, HookRegistry, QemuCmpLogRoutinesHelper, RoutinesError, TargetArch,
};
pub use slot::{hash_me, hashed_slot, CMPLOG_MAP_W};
