use qemu_cmplog::{
    gen_hashed_cmp_ids, gen_unique_cmp_ids, hash_me, hashed_slot, trace_cmp1_cmplog,
    trace_cmp2_cmplog, trace_cmp4_cmplog, trace_cmp8_cmplog, AddrRange, CallSite, CmpLogMap,
    HookRegistry, QemuCmpLogChildHelper, QemuCmpLogHelper, QemuCmpLogRoutinesHelper,
    QemuCmpsMapMetadata, QemuInstrumentationFilter, TargetArch, CMPLOG_MAP_W,
};

fn stable_state(w: u64) -> Option<QemuCmpsMapMetadata> {
    Some(QemuCmpsMapMetadata::with_width(w))
}

#[test]
fn stable_site_keeps_its_slot_across_executions() {
    let mut state = stable_state(256);
    let a = 0x4010_2000u64;
    assert_eq!(gen_unique_cmp_ids(None, &mut state, a, 4), Some(0));
    assert_eq!(gen_unique_cmp_ids(None, &mut state, a, 4), Some(0));
    assert_eq!(gen_unique_cmp_ids(None, &mut state, a, 4), Some(0));
    assert_eq!(state.as_ref().unwrap().current_id(), 1);
}

#[test]
fn ring_allocation_collides_after_wrap() {
    let helper = QemuCmpLogHelper::new(QemuInstrumentationFilter::AllowAll);
    let mut state = stable_state(2);
    let (b, c, d) = (0x100u64, 0x200u64, 0x300u64);
    assert_eq!(gen_unique_cmp_ids(Some(&helper), &mut state, b, 1), Some(0));
    assert_eq!(gen_unique_cmp_ids(Some(&helper), &mut state, c, 1), Some(1));
    assert_eq!(gen_unique_cmp_ids(Some(&helper), &mut state, d, 1), Some(0));
    assert_eq!(gen_unique_cmp_ids(Some(&helper), &mut state, b, 1), Some(0));
    assert_eq!(state.as_ref().unwrap().lookup(d), Some(0));
}

#[test]
fn ring_of_four_wraps_on_fifth_address() {
    let mut state = stable_state(4);
    let ids: Vec<Option<u64>> = (0..5u64)
        .map(|i| gen_unique_cmp_ids(None, &mut state, 0x1000 + i * 8, 2))
        .collect();
    assert_eq!(ids, vec![Some(0), Some(1), Some(2), Some(3), Some(0)]);
}

#[test]
fn missing_metadata_is_created_on_first_use() {
    let mut state: Option<QemuCmpsMapMetadata> = None;
    assert_eq!(gen_unique_cmp_ids(None, &mut state, 0x77, 8), Some(0));
    let meta = state.as_ref().unwrap();
    assert_eq!(meta.width(), CMPLOG_MAP_W);
    assert_eq!(meta.current_id(), 1);
    assert_eq!(meta.lookup(0x77), Some(0));
    assert_eq!(meta.lookup(0x78), None);
}

#[test]
fn stable_ids_stay_below_width() {
    let mut meta = QemuCmpsMapMetadata::with_width(3);
    for i in 0..20u64 {
        assert!(meta.allocate(i * 0x11) < 3);
    }
    assert_eq!(meta.allocate(0), 0);
}

#[test]
fn hashed_ids_are_pure_and_bounded() {
    let helper = QemuCmpLogChildHelper::default();
    let first = gen_hashed_cmp_ids(Some(&helper), 0x1000, 4);
    let _ = gen_hashed_cmp_ids(Some(&helper), 0x2000, 4);
    let again = gen_hashed_cmp_ids(None, 0x1000, 4);
    assert_eq!(first, again);
    assert_eq!(first, Some(39454));
    for a in 0..200u64 {
        let id = gen_hashed_cmp_ids(None, a * 0x1234_5678, 1).unwrap();
        assert!(id < CMPLOG_MAP_W);
        assert!(hashed_slot(a * 0x1234_5678, 7) < 7);
    }
}

#[test]
fn hash_me_values() {
    assert_eq!(hash_me(0), 0);
    assert_eq!(hash_me(1), 5364745905576871);
    assert_eq!(hash_me(0x1000), 3526973609411254814);
    assert_eq!(hash_me(0xdead_beef), 12839130764121933495);
    assert_eq!(hashed_slot(0xdead_beef, 256), 183);
}

#[test]
fn rejected_address_gets_no_slot_and_no_state() {
    let filter = QemuInstrumentationFilter::AllowList(vec![AddrRange { start: 0x1000, end: 0x2000 }]);
    let helper = QemuCmpLogHelper::new(filter.clone());
    let child = QemuCmpLogChildHelper::new(filter);
    let mut state: Option<QemuCmpsMapMetadata> = None;
    assert_eq!(gen_unique_cmp_ids(Some(&helper), &mut state, 0x3000, 4), None);
    assert!(state.is_none());
    assert_eq!(gen_hashed_cmp_ids(Some(&child), 0x3000, 4), None);
    assert_eq!(gen_unique_cmp_ids(Some(&helper), &mut state, 0x1800, 4), Some(0));
    assert!(gen_hashed_cmp_ids(Some(&child), 0x1800, 4).is_some());
}

#[test]
fn filter_lists() {
    let ranges = vec![AddrRange { start: 10, end: 20 }, AddrRange { start: 30, end: 31 }];
    let allow = QemuInstrumentationFilter::AllowList(ranges.clone());
    let deny = QemuInstrumentationFilter::DenyList(ranges);
    for (addr, inside) in [(9u64, false), (10, true), (19, true), (20, false), (30, true), (31, false)] {
        assert_eq!(allow.allowed(addr), inside);
        assert_eq!(deny.allowed(addr), !inside);
    }
    assert!(QemuInstrumentationFilter::default().allowed(u64::MAX));
    let helper = QemuCmpLogHelper::default();
    assert!(helper.must_instrument(0));
    let mut child = QemuCmpLogChildHelper::default();
    child.set_filter(QemuInstrumentationFilter::DenyList(vec![AddrRange { start: 0, end: 1 }]));
    assert!(!child.must_instrument(0));
    assert!(child.must_instrument(1));
}

#[test]
fn record_round_trips_and_overwrites() {
    let mut map = CmpLogMap::new(8);
    assert_eq!(map.width(), 8);
    assert_eq!(map.instruction(3), None);
    map.record(3, 4, 0xaabb, 0xccdd);
    assert_eq!(map.instruction(3), Some((4, 0xaabb, 0xccdd)));
    map.record(3, 1, 7, 9);
    assert_eq!(map.instruction(3), Some((1, 7, 9)));
    map.record(8, 8, 1, 2);
    assert_eq!(map.instruction(8), None);
    assert_eq!(map.instruction(2), None);
}

#[test]
fn trace_callbacks_record_widths() {
    let mut map = CmpLogMap::new(4);
    trace_cmp1_cmplog(&mut map, 0, 0x12, 0x34, 0);
    trace_cmp2_cmplog(&mut map, 1, 0x1234, 0x5678, 0);
    trace_cmp4_cmplog(&mut map, 2, 0xdead_beef, 1, 0);
    trace_cmp8_cmplog(&mut map, 3, u64::MAX, 0, 0);
    trace_cmp8_cmplog(&mut map, 9, 1, 1, 0);
    assert_eq!(map.instruction(0), Some((1, 0x12, 0x34)));
    assert_eq!(map.instruction(1), Some((2, 0x1234, 0x5678)));
    assert_eq!(map.instruction(2), Some((4, 0xdead_beef, 1)));
    assert_eq!(map.instruction(3), Some((8, u64::MAX, 0)));
}

#[test]
fn routine_capture_replaces_row() {
    let mut map = CmpLogMap::new(2);
    map.record(1, 8, 5, 6);
    map.record_routine(1, b"abc", b"abd");
    assert_eq!(map.instruction(1), None);
    assert_eq!(map.routine(1), Some((b"abc".to_vec(), b"abd".to_vec())));
    assert_eq!(map.routine(0), None);
    map.record_routine(5, b"x", b"y");
    assert_eq!(map.routine(5), None);
}

#[test]
fn call_hook_needs_flag_and_two_arguments() {
    assert_eq!(QemuCmpLogRoutinesHelper::on_call(true, Some(0x10), Some(0x20)), Some((0x10, 0x20)));
    assert_eq!(QemuCmpLogRoutinesHelper::on_call(false, Some(0x10), Some(0x20)), None);
    assert_eq!(QemuCmpLogRoutinesHelper::on_call(true, None, Some(0x20)), None);
    assert_eq!(QemuCmpLogRoutinesHelper::on_call(true, Some(0x10), Some(0)), None);
    assert_eq!(QemuCmpLogRoutinesHelper::on_call(true, Some(0), None), None);
}

fn x86_64_helper() -> QemuCmpLogRoutinesHelper {
    QemuCmpLogRoutinesHelper::new(QemuInstrumentationFilter::AllowAll, TargetArch::X86_64).unwrap()
}

#[test]
fn single_call_then_return_gets_one_hook() {
    let helper = x86_64_helper();
    // call +0; ret; call +0 (never reached)
    let code = [0xe8, 0, 0, 0, 0, 0xc3, 0xe8, 0, 0, 0, 0];
    let mut hooks = HookRegistry::new();
    assert_eq!(helper.gen_blocks_calls(&mut hooks, &code, 0x40_0000, 256), None);
    assert_eq!(
        hooks.sites(),
        vec![CallSite { addr: 0x40_0000, slot: hashed_slot(0x40_0000, 256) }]
    );
}

#[test]
fn scan_stops_at_undecodable_bytes_after_two_calls() {
    let helper = x86_64_helper();
    // call +0; call +0; then a byte that is no instruction in 64-bit mode
    let code = [0xe8, 0, 0, 0, 0, 0xe8, 0, 0, 0, 0, 0x06, 0xe8, 0, 0, 0, 0];
    let sites = helper.scan_calls(&code, 0x1000, CMPLOG_MAP_W);
    assert_eq!(
        sites,
        vec![
            CallSite { addr: 0x1000, slot: 39454 },
            CallSite { addr: 0x1005, slot: 60166 },
        ]
    );
}

#[test]
fn scan_skips_plain_instructions_and_stops_at_jump() {
    let helper = x86_64_helper();
    // nop; mov eax, 1; call +0; jmp +0; call +0
    let code = [0x90, 0xb8, 1, 0, 0, 0, 0xe8, 0, 0, 0, 0, 0xeb, 0x00, 0xe8, 0, 0, 0, 0];
    let sites = helper.scan_calls(&code, 0x2000, 16);
    assert_eq!(sites, vec![CallSite { addr: 0x2006, slot: hashed_slot(0x2006, 16) }]);
    assert!(helper.scan_calls(&[], 0x2000, 16).is_empty());
}

#[test]
fn hooks_are_installed_once_per_address() {
    let helper = x86_64_helper();
    let code = [0xe8, 0, 0, 0, 0, 0xc3];
    let mut hooks = HookRegistry::new();
    helper.gen_blocks_calls(&mut hooks, &code, 0x5000, 64);
    helper.gen_blocks_calls(&mut hooks, &code, 0x5000, 64);
    assert_eq!(hooks.sites().len(), 1);
    assert!(hooks.is_hooked(0x5000));
    assert!(!hooks.install(CallSite { addr: 0x5000, slot: 1 }));
    assert!(hooks.install(CallSite { addr: 0x6000, slot: 1 }));
    assert_eq!(hooks.sites().len(), 2);
}

#[test]
fn rejected_block_is_not_scanned() {
    let filter = QemuInstrumentationFilter::DenyList(vec![AddrRange { start: 0x5000, end: 0x6000 }]);
    let helper = QemuCmpLogRoutinesHelper::new(filter, TargetArch::X86_64).unwrap();
    let code = [0xe8, 0, 0, 0, 0, 0xc3];
    let mut hooks = HookRegistry::new();
    assert_eq!(helper.gen_blocks_calls(&mut hooks, &code, 0x5000, 64), None);
    assert!(hooks.sites().is_empty());
    assert!(!helper.must_instrument(0x5000));
}

#[test]
fn other_architectures_build() {
    for arch in [TargetArch::X86, TargetArch::Arm, TargetArch::Aarch64] {
        assert!(QemuCmpLogRoutinesHelper::new(QemuInstrumentationFilter::AllowAll, arch).is_ok());
    }
}

#[test]
fn metadata_entries_round_trip() {
    let mut meta = QemuCmpsMapMetadata::with_width(8);
    meta.allocate(0x10);
    meta.allocate(0x20);
    meta.allocate(0x10);
    let mut pairs = meta.entries_vec();
    pairs.sort();
    assert_eq!(pairs, vec![(0x10, 0), (0x20, 1)]);
    let mut back = QemuCmpsMapMetadata::from_entries(&pairs, meta.current_id(), 8).unwrap();
    assert_eq!(back.lookup(0x20), Some(1));
    assert_eq!(back.allocate(0x30), 2);
    assert!(QemuCmpsMapMetadata::from_entries(&pairs, 8, 8).is_none());
    assert!(QemuCmpsMapMetadata::from_entries(&vec![(1, 9)], 0, 8).is_none());
    assert!(QemuCmpsMapMetadata::from_entries(&vec![], 0, 0).is_none());
    let later = QemuCmpsMapMetadata::from_entries(&vec![(1, 2), (1, 3)], 0, 8).unwrap();
    assert_eq!(later.lookup(1), Some(3));
}

#[test]
fn arm_scan_picks_thumb_on_odd_addresses() {
    let helper =
        QemuCmpLogRoutinesHelper::new(QemuInstrumentationFilter::AllowAll, TargetArch::Arm).unwrap();
    // Thumb: bl; bx lr
    let thumb = [0x00, 0xf0, 0x00, 0xf8, 0x70, 0x47, 0x00, 0xf0, 0x00, 0xf8];
    assert_eq!(
        helper.scan_calls(&thumb, 0x8001, 64),
        vec![CallSite { addr: 0x8001, slot: hashed_slot(0x8001, 64) }]
    );
    // Arm: bl; bx lr
    let arm = [0x00, 0x00, 0x00, 0xeb, 0x1e, 0xff, 0x2f, 0xe1, 0x00, 0x00, 0x00, 0xeb];
    assert_eq!(
        helper.scan_calls(&arm, 0x8000, 64),
        vec![CallSite { addr: 0x8000, slot: hashed_slot(0x8000, 64) }]
    );
}
