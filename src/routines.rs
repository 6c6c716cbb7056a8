//! Routine-argument capture: a straight-line disassembly pass over a freshly
//! translated block that finds call instructions, the registry of the
//! runtime hooks placed on them, and the decision taken when such a hook
//! fires.

use crate::filter::QemuInstrumentationFilter;
use crate::slot::{hashed_slot, hashed_slot_of};
use capstone::arch::{arm, arm64, x86, BuildsCapstone};
use capstone::Capstone;
use vstd::prelude::*;
use vstd::slice::slice_subrange;

verus! {

#[verifier::external_type_specification]
#[verifier::external_body]
pub struct ExCapstone(capstone::Capstone);

#[verifier::external_type_specification]
#[verifier::external_body]
pub struct ExCsError(capstone::Error);

/// Instruction group: the instruction does not belong to any group.
pub const GRP_INVALID: u8 = 0;

/// Instruction group: jumps.
pub const GRP_JUMP: u8 = 1;

/// Instruction group: calls.
pub const GRP_CALL: u8 = 2;

/// Instruction group: returns.
pub const GRP_RET: u8 = 3;

/// Instruction group: returns from interrupts.
pub const GRP_IRET: u8 = 5;

/// Instruction group: privileged instructions.
pub const GRP_PRIVILEGE: u8 = 6;

/// The guest architecture whose code is scanned.
#[derive(Clone, Copy, Debug, PartialEq, Eq, Structural)]
pub enum TargetArch {
    X86,
    X86_64,
    /// 32-bit ARM; the low address bit selects Thumb code.
    Arm,
    Aarch64,
}

/// The encoding a single decode is made in.
#[derive(Clone, Copy, Debug, PartialEq, Eq, Structural)]
pub enum CpuMode {
    X86,
    X86_64,
    Arm,
    Thumb,
    Aarch64,
}

/// The encoding that the instruction at `addr` is decoded in: on ARM an odd
/// address marks Thumb code.
pub open spec fn mode_at(arch: TargetArch, addr: u64) -> CpuMode {
    match arch {
        TargetArch::X86 => CpuMode::X86,
        TargetArch::X86_64 => CpuMode::X86_64,
        TargetArch::Arm => if addr % 2 == 1 {
            CpuMode::Thumb
        } else {
            CpuMode::Arm
        },
        TargetArch::Aarch64 => CpuMode::Aarch64,
    }
}

/// What decoding the first instruction of `code`, placed at `addr`, in
/// `mode` gives: its length in bytes and its group ids, or nothing where no
/// instruction can be decoded.
pub uninterp spec fn decoded(mode: CpuMode, code: Seq<u8>, addr: u64) -> Option<(nat, Seq<u8>)>;

/// Relies on capstone's builder (`Capstone::new()`, the architecture,
/// `mode`, `detail(true)`, `build`): a disassembler for `mode` that reports
/// instruction groups.
#[verifier::external_body]
fn build_capstone(mode: CpuMode) -> (r: Result<Capstone, capstone::Error>) {
    match mode {
        CpuMode::X86 => Capstone::new().x86().mode(x86::ArchMode::Mode32).detail(true).build(),
        CpuMode::X86_64 => Capstone::new().x86().mode(x86::ArchMode::Mode64).detail(true).build(),
        CpuMode::Arm => Capstone::new().arm().mode(arm::ArchMode::Arm).detail(true).build(),
        CpuMode::Thumb => Capstone::new().arm().mode(arm::ArchMode::Thumb).detail(true).build(),
        CpuMode::Aarch64 => Capstone::new().arm64().mode(arm64::ArchMode::Arm).detail(true).build(),
    }
}

/// A disassembler for one encoding.
pub struct Decoder {
    cs: Capstone,
    mode: CpuMode,
}

impl Decoder {
    pub closed spec fn spec_mode(&self) -> CpuMode {
        self.mode
    }

    /// A disassembler for `mode`, or the error capstone gave.
    pub fn new(mode: CpuMode) -> (r: Result<Decoder, capstone::Error>)
        ensures
            r matches Ok(d) ==> d.spec_mode() == mode,
    {
        match build_capstone(mode) {
            Ok(cs) => Ok(Decoder { cs, mode }),
            Err(e) => Err(e),
        }
    }
}

/// Relies on `Capstone::disasm_count` with a count of one, then
/// `Capstone::insn_detail` and `InsnDetail::groups`: the first instruction of
/// `code` at `addr`, as its length and group ids.
#[verifier::external_body]
fn decode_one(d: &Decoder, code: &[u8], addr: u64) -> (r: Option<(usize, Vec<u8>)>)
    ensures
        match r {
            Some((len, groups)) => decoded(d.mode, code@, addr) == Some((len as nat, groups@)),
            None => decoded(d.mode, code@, addr) is None,
        },
{
    let insns = d.cs.disasm_count(code, addr, 1).ok()?;
    let insn = insns.first()?;
    let detail = d.cs.insn_detail(insn).ok()?;
    Some((insn.len(), detail.groups().iter().map(|g| g.0).collect()))
}

/// The groups that end a straight-line scan.
pub open spec fn is_stop_group(g: u8) -> bool {
    g == GRP_RET || g == GRP_INVALID || g == GRP_JUMP || g == GRP_IRET || g == GRP_PRIVILEGE
}

/// Reading the groups of one instruction in order up to the first group
/// that ends the scan: whether a call group came first (the instruction is
/// hooked), and whether the scan ends here.
pub open spec fn group_scan(groups: Seq<u8>) -> (bool, bool)
    decreases groups.len(),
{
    if groups.len() == 0 {
        (false, false)
    } else {
        let prev = group_scan(groups.drop_last());
        if prev.1 {
            prev
        } else {
            let g = groups.last();
            (prev.0 || g == GRP_CALL, is_stop_group(g))
        }
    }
}

/// A call instruction found by the scan, with the slot its hook records into.
#[derive(Clone, Copy, Debug, PartialEq, Eq, Structural)]
pub struct CallSite {
    pub addr: u64,
    pub slot: u64,
}

/// The call sites that the straight-line scan of `code` (placed at `start`)
/// finds from byte offset `off` on, in a map of `w` rows.
pub open spec fn scan_from(arch: TargetArch, code: Seq<u8>, start: u64, off: nat, w: u64) -> Seq<
    CallSite,
>
    decreases code.len() - off,
{
    if off >= code.len() || start + off > u64::MAX {
        seq![]
    } else {
        let addr = (start + off) as u64;
        match decoded(mode_at(arch, addr), code.subrange(off as int, code.len() as int), addr) {
            None => seq![],
            Some((len, groups)) => {
                let (hook, stop) = group_scan(groups);
                let here = if hook {
                    seq![CallSite { addr, slot: hashed_slot_of(addr, w) }]
                } else {
                    seq![]
                };
                if stop || len == 0 || off + len >= code.len() {
                    here
                } else {
                    here + scan_from(arch, code, start, off + len, w)
                }
            },
        }
    }
}

/// The call sites of the block at `start` whose bytes are `code`.
pub open spec fn scan_spec(arch: TargetArch, code: Seq<u8>, start: u64, w: u64) -> Seq<CallSite> {
    scan_from(arch, code, start, 0, w)
}

/// Whether a hook stands at `addr` in `hooks`.
pub open spec fn hooked(hooks: Seq<CallSite>, addr: u64) -> bool {
    exists|i: int| 0 <= i < hooks.len() && (#[trigger] hooks[i]).addr == addr
}

/// `hooks` after installing `site`: unchanged where its address is hooked
/// already.
pub open spec fn install_one(hooks: Seq<CallSite>, site: CallSite) -> Seq<CallSite> {
    if hooked(hooks, site.addr) {
        hooks
    } else {
        hooks.push(site)
    }
}

/// `hooks` after installing each of `sites` in turn.
pub open spec fn install_all(hooks: Seq<CallSite>, sites: Seq<CallSite>) -> Seq<CallSite>
    decreases sites.len(),
{
    if sites.len() == 0 {
        hooks
    } else {
        install_one(install_all(hooks, sites.drop_last()), sites.last())
    }
}

/// The runtime hooks placed on call sites, at most one per address.
pub struct HookRegistry {
    hooks: Vec<CallSite>,
}

impl HookRegistry {
    pub closed spec fn view(&self) -> Seq<CallSite> {
        self.hooks@
    }

    /// No two hooks share an address.
    pub open spec fn wf(&self) -> bool {
        forall|i: int, j: int|
            0 <= i < j < self@.len() ==> (#[trigger] self@[i]).addr != (#[trigger] self@[j]).addr
    }

    pub fn new() -> (r: HookRegistry)
        ensures
            r@ == Seq::<CallSite>::empty(),
            r.wf(),
    {
        HookRegistry { hooks: Vec::new() }
    }

    /// The hooks, in the order they were installed.
    pub fn sites(&self) -> (r: Vec<CallSite>)
        ensures
            r@ == self@,
    {
        self.hooks.clone()
    }

    /// Whether a hook stands at `addr`.
    pub fn is_hooked(&self, addr: u64) -> (r: bool)
        ensures
            r == hooked(self@, addr),
    {
        let mut i: usize = 0;
        while i < self.hooks.len()
            invariant
                i <= self@.len(),
                self@ == self.hooks@,
                forall|j: int| 0 <= j < i ==> (#[trigger] self@[j]).addr != addr,
            decreases self@.len() - i,
        {
            if self.hooks[i].addr == addr {
                return true;
            }
            i = i + 1;
        }
        false
    }

    /// Places a hook on `site` unless one stands at its address already;
    /// returns whether it was placed.
    pub fn install(&mut self, site: CallSite) -> (r: bool)
        requires
            old(self).wf(),
        ensures
            final(self).wf(),
            final(self)@ == install_one(old(self)@, site),
            r == !hooked(old(self)@, site.addr),
    {
        if self.is_hooked(site.addr) {
            false
        } else {
            self.hooks.push(site);
            true
        }
    }

    /// Installs each of `sites` in turn.
    pub fn install_sites(&mut self, sites: &Vec<CallSite>)
        requires
            old(self).wf(),
        ensures
            final(self).wf(),
            final(self)@ == install_all(old(self)@, sites@),
    {
        let mut i: usize = 0;
        while i < sites.len()
            invariant
                i <= sites@.len(),
                self.wf(),
                self@ == install_all(old(self)@, sites@.subrange(0, i as int)),
            decreases sites@.len() - i,
        {
            proof {
                assert(sites@.subrange(0, i + 1).drop_last() =~= sites@.subrange(0, i as int));
            }
            self.install(sites[i]);
            i = i + 1;
        }
        proof {
            assert(sites@.subrange(0, sites@.len() as int) =~= sites@);
        }
    }
}

/// Reads the groups of one instruction: whether it is hooked, and whether
/// the scan ends with it.
pub fn classify(groups: &Vec<u8>) -> (r: (bool, bool))
    ensures
        r == group_scan(groups@),
{
    let mut hook = false;
    let mut stop = false;
    let mut i: usize = 0;
    while i < groups.len()
        invariant
            i <= groups@.len(),
            (hook, stop) == group_scan(groups@.subrange(0, i as int)),
        decreases groups@.len() - i,
    {
        proof {
            assert(groups@.subrange(0, i + 1).drop_last() =~= groups@.subrange(0, i as int));
        }
        if !stop {
            let g = groups[i];
            hook = hook || g == GRP_CALL;
            stop = g == GRP_RET || g == GRP_INVALID || g == GRP_JUMP || g == GRP_IRET || g
                == GRP_PRIVILEGE;
        }
        i = i + 1;
    }
    proof {
        assert(groups@.subrange(0, groups@.len() as int) =~= groups@);
    }
    (hook, stop)
}

/// What the call hook captures, from the capture flag and the first two
/// call arguments as the calling convention gives them: the pair of guest
/// buffer addresses, or nothing where capture is off or an argument is
/// missing or null.
pub open spec fn capture_pair(enabled: bool, a0: Option<u64>, a1: Option<u64>) -> Option<(u64, u64)> {
    if enabled && a0 is Some && a0.unwrap() != 0 && a1 is Some && a1.unwrap() != 0 {
        Some((a0.unwrap(), a1.unwrap()))
    } else {
        None
    }
}

/// The error given where no disassembler could be built.
#[derive(Clone, Copy, Debug, PartialEq, Eq, Structural)]
pub enum RoutinesError {
    Disassembler,
}

/// Finds calls in translated blocks and hooks them to capture the first two
/// arguments as a buffer pair.
pub struct QemuCmpLogRoutinesHelper {
    filter: QemuInstrumentationFilter,
    arch: TargetArch,
    decoder: Decoder,
    thumb: Option<Decoder>,
}

impl QemuCmpLogRoutinesHelper {
    pub closed spec fn spec_filter(&self) -> QemuInstrumentationFilter {
        self.filter
    }

    pub closed spec fn spec_arch(&self) -> TargetArch {
        self.arch
    }

    /// Each decode is made in the encoding that `mode_at` picks.
    pub closed spec fn wf(&self) -> bool {
        &&& self.decoder.mode == mode_at(self.arch, 0)
        &&& (self.arch == TargetArch::Arm) == (self.thumb is Some)
        &&& (self.thumb is Some ==> self.thumb.unwrap().mode == CpuMode::Thumb)
    }

    /// A helper for code of `arch`, gated by `filter`.
    pub fn new(filter: QemuInstrumentationFilter, arch: TargetArch) -> (r: Result<
        QemuCmpLogRoutinesHelper,
        RoutinesError,
    >)
        ensures
            r matches Ok(h) ==> h.wf() && h.spec_filter() == filter && h.spec_arch() == arch,
    {
        let mode = match arch {
            TargetArch::X86 => CpuMode::X86,
            TargetArch::X86_64 => CpuMode::X86_64,
            TargetArch::Arm => CpuMode::Arm,
            TargetArch::Aarch64 => CpuMode::Aarch64,
        };
        let decoder = match Decoder::new(mode) {
            Ok(d) => d,
            Err(_) => return Err(RoutinesError::Disassembler),
        };
        let thumb = match arch {
            TargetArch::Arm => match Decoder::new(CpuMode::Thumb) {
                Ok(d) => Some(d),
                Err(_) => return Err(RoutinesError::Disassembler),
            },
            _ => None,
        };
        Ok(QemuCmpLogRoutinesHelper { filter, arch, decoder, thumb })
    }

    pub fn must_instrument(&self, addr: u64) -> (r: bool)
        ensures
            r == self.spec_filter().allows(addr),
    {
        self.filter.allowed(addr)
    }

    /// The disassembler for the instruction at `addr`.
    fn decoder_at(&self, addr: u64) -> (r: &Decoder)
        requires
            self.wf(),
        ensures
            r.mode == mode_at(self.arch, addr),
    {
        match &self.thumb {
            Some(t) => if addr % 2 == 1 {
                t
            } else {
                &self.decoder
            },
            None => &self.decoder,
        }
    }

    /// The straight-line scan of the block at `start` whose bytes are
    /// `code`: each call instruction met before the first instruction that
    /// ends the block or cannot be decoded, with its hashed slot in a map of
    /// `w` rows.
    pub fn scan_calls(&self, code: &[u8], start: u64, w: u64) -> (r: Vec<CallSite>)
        requires
            self.wf(),
            w > 0,
        ensures
            r@ == scan_spec(self.spec_arch(), code@, start, w),
    {
        let ghost arch = self.arch;
        let mut sites: Vec<CallSite> = Vec::new();
        let mut off: usize = 0;
        let mut done = false;
        while !done && off < code.len()
            invariant
                self.wf(),
                arch == self.arch,
                w > 0,
                off <= code@.len(),
                done ==> sites@ == scan_from(arch, code@, start, 0, w),
                !done ==> sites@ + scan_from(arch, code@, start, off as nat, w) == scan_from(
                    arch,
                    code@,
                    start,
                    0,
                    w,
                ),
            decreases code@.len() - off, if done { 0int } else { 1int },
        {
            let ghost tail = scan_from(arch, code@, start, off as nat, w);
            if start > u64::MAX - off as u64 {
                assert(tail == Seq::<CallSite>::empty());
                assert(sites@ + tail =~= sites@);
                done = true;
            } else {
                let addr: u64 = start + off as u64;
                let rest = slice_subrange(code, off, code.len());
                let ghost before = sites@;
                match decode_one(self.decoder_at(addr), rest, addr) {
                    None => {
                        assert(tail == Seq::<CallSite>::empty());
                        assert(sites@ + tail =~= sites@);
                        done = true;
                    },
                    Some((len, groups)) => {
                        let (hook, stop) = classify(&groups);
                        let ghost here: Seq<CallSite> = if hook {
                            seq![CallSite { addr, slot: hashed_slot_of(addr, w) }]
                        } else {
                            seq![]
                        };
                        if hook {
                            sites.push(CallSite { addr, slot: hashed_slot(addr, w) });
                        }
                        assert(sites@ =~= before + here);
                        if stop || len == 0 || len >= code.len() - off {
                            assert(tail == here);
                            done = true;
                        } else {
                            let ghost next = scan_from(arch, code@, start, (off + len) as nat, w);
                            assert(tail == here + next);
                            assert(before + (here + next) =~= sites@ + next);
                            off = off + len;
                        }
                    },
                }
            }
        }
        sites
    }

    /// The block hook: where `pc` may be instrumented, scans the block's
    /// bytes `code` and hooks each call found (an address hooked already is
    /// left as it is). Blocks themselves get no slot.
    pub fn gen_blocks_calls(&self, hooks: &mut HookRegistry, code: &[u8], pc: u64, w: u64) -> (r:
        Option<u64>)
        requires
            self.wf(),
            old(hooks).wf(),
            w > 0,
        ensures
            r is None,
            final(hooks).wf(),
            final(hooks)@ == (if self.spec_filter().allows(pc) {
                install_all(old(hooks)@, scan_spec(self.spec_arch(), code@, pc, w))
            } else {
                old(hooks)@
            }),
    {
        if !self.must_instrument(pc) {
            return None;
        }
        let sites = self.scan_calls(code, pc, w);
        hooks.install_sites(&sites);
        None
    }

    /// The call hook: the pair of guest buffers to capture (see
    /// `capture_pair`).
    pub fn on_call(enabled: bool, a0: Option<u64>, a1: Option<u64>) -> (r: Option<(u64, u64)>)
        ensures
            r == capture_pair(enabled, a0, a1),
    {
        if !enabled {
            return None;
        }
        let x: u64 = match a0 {
            Some(v) => v,
            None => 0,
        };
        let y: u64 = match a1 {
            Some(v) => v,
            None => 0,
        };
        if x == 0 || y == 0 {
            return None;
        }
        Some((x, y))
    }
}

/// A block whose first instruction is a call and whose second is a return
/// gets exactly one hook, at the call, with the call's hashed slot; nothing
/// past the return is looked at.
pub proof fn lemma_call_then_return(
    arch: TargetArch,
    code: Seq<u8>,
    start: u64,
    w: u64,
    call_len: nat,
    call_groups: Seq<u8>,
    ret_len: nat,
    ret_groups: Seq<u8>,
)
    requires
        w > 0,
        start + code.len() <= u64::MAX,
        0 < call_len < code.len(),
        decoded(mode_at(arch, start), code, start) == Some((call_len, call_groups)),
        group_scan(call_groups) == (true, false),
        decoded(
            mode_at(arch, (start + call_len) as u64),
            code.subrange(call_len as int, code.len() as int),
            (start + call_len) as u64,
        ) == Some((ret_len, ret_groups)),
        group_scan(ret_groups) == (false, true),
    ensures
        scan_spec(arch, code, start, w) == seq![CallSite { addr: start, slot: hashed_slot_of(start, w) }],
        install_all(seq![], scan_spec(arch, code, start, w)) == seq![CallSite { addr: start, slot: hashed_slot_of(start, w) }],
{
    assert(code.subrange(0, code.len() as int) =~= code);
    let site = CallSite { addr: start, slot: hashed_slot_of(start, w) };
    assert(scan_from(arch, code, start, call_len, w) == Seq::<CallSite>::empty());
    assert(seq![site] + Seq::<CallSite>::empty() =~= seq![site]);
    let one = seq![site];
    assert(one.drop_last() =~= Seq::<CallSite>::empty());
    assert(install_all(seq![], one.drop_last()) == Seq::<CallSite>::empty());
    assert(!hooked(Seq::<CallSite>::empty(), start));
    assert(Seq::<CallSite>::empty().push(site) =~= one);
}

} // verus!
