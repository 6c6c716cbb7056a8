use qemu_cmplog::{StdMutationalPushStage, DEFAULT_MUTATIONAL_MAX_ITERATIONS};

#[test]
fn push_stage_round() {
    let mut stage = StdMutationalPushStage::new();
    assert!(stage.needs_scheduling());
    assert_eq!(stage.pre_exec(), None);
    stage.init(7, 2);
    assert_eq!(stage.current_corpus_id(), Some(7));
    for _ in 0..3 {
        assert_eq!(stage.pre_exec(), Some(7));
        stage.post_exec();
    }
    assert_eq!(stage.pre_exec(), None);
    stage.deinit();
    assert!(stage.needs_scheduling());
}

#[test]
fn push_stage_keeps_preset_entry() {
    let mut stage = StdMutationalPushStage::new();
    stage.set_current_corpus_id(3);
    assert!(!stage.needs_scheduling());
    stage.init(9, DEFAULT_MUTATIONAL_MAX_ITERATIONS - 1);
    assert_eq!(stage.current_corpus_id(), Some(3));
    for _ in 0..DEFAULT_MUTATIONAL_MAX_ITERATIONS {
        assert_eq!(stage.pre_exec(), Some(3));
        stage.post_exec();
    }
    assert_eq!(stage.pre_exec(), None);
}
