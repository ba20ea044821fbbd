use limbcheck::batch::Input;
use limbcheck::protocol::{
    binding_slot, plan_buffers, reversal_table, BufferRole, CompletionSlot, DispatchController,
    Phase, WORKGROUP_COUNT,
};
use limbcheck::RunError;

fn small_batch() -> Input {
    Input {
        n: 1,
        width: 4,
        value0: vec![0x04030201, 0, 0, 0],
        value1: vec![2, 0, 0, 0],
        value2: vec![3, 0, 0, 0],
    }
}

#[test]
fn binding_order_is_fixed() {
    assert_eq!(binding_slot(BufferRole::OperandA), 0);
    assert_eq!(binding_slot(BufferRole::OperandB), 1);
    assert_eq!(binding_slot(BufferRole::OperandAux), 2);
    assert_eq!(binding_slot(BufferRole::Output), 3);
}

#[test]
fn dispatch_size_is_a_fixed_constant() {
    assert_eq!(WORKGROUP_COUNT, 64);
}

#[test]
fn buffer_plan_flattens_operands_byte_exactly() {
    let plan = plan_buffers(&small_batch());
    let a = plan.operand_a;
    assert_eq!(a.size, 16);
    assert!(a.storage && a.copy_dst && !a.copy_src && !a.map_read);
    assert_eq!(a.binding, Some(0));
    assert_eq!(
        a.contents.unwrap(),
        vec![1, 2, 3, 4, 0, 0, 0, 0, 0, 0, 0, 0, 0, 0, 0, 0]
    );
    assert_eq!(plan.operand_b.binding, Some(1));
    assert_eq!(plan.operand_aux.binding, Some(2));
    assert_eq!(plan.output.binding, Some(3));
}

#[test]
fn output_buffer_is_zeroed_and_staging_is_mappable() {
    let plan = plan_buffers(&small_batch());
    let out = plan.output;
    assert_eq!(out.size, 16);
    assert!(out.storage && out.copy_src && out.copy_dst);
    assert!(out.contents.unwrap().iter().all(|&b| b == 0));
    let staging = plan.staging;
    assert_eq!(staging.size, 16);
    assert!(staging.map_read && staging.copy_dst);
    assert!(!staging.storage && !staging.copy_src);
    assert_eq!(staging.binding, None);
    assert!(staging.contents.is_none());
}

#[test]
fn reversal_table_counts_down() {
    assert_eq!(reversal_table(4), vec![3, 2, 1, 0]);
    assert_eq!(reversal_table(0), Vec::<usize>::new());
}

#[test]
fn controller_walks_the_phases_and_decodes_bytes() {
    let batch = small_batch();
    let mut ctrl = DispatchController::new(1, 4);
    assert_eq!(ctrl.phase, Phase::Idle);
    let _plan = ctrl.build_buffers(&batch);
    assert_eq!(ctrl.phase, Phase::BuffersBuilt);
    ctrl.record_submitted();
    assert_eq!(ctrl.phase, Phase::Submitted);
    ctrl.record_map_requested();
    assert_eq!(ctrl.phase, Phase::MapRequested);
    let bytes = vec![1, 0, 0, 0, 2, 0, 0, 0, 3, 0, 0, 0, 4, 0, 0, 0];
    assert_eq!(ctrl.record_map_complete(bytes), Ok(()));
    assert_eq!(ctrl.phase, Phase::MapComplete);
    let out = ctrl.decode_results();
    assert_eq!(ctrl.phase, Phase::Decoded);
    assert_eq!(out.values, vec![1, 2, 3, 4]);
    ctrl.release();
    assert_eq!(ctrl.phase, Phase::Released);
}

#[test]
fn short_mapping_is_a_fatal_map_failure() {
    let mut ctrl = DispatchController::new(1, 4);
    let _ = ctrl.build_buffers(&small_batch());
    ctrl.record_submitted();
    ctrl.record_map_requested();
    let short = vec![1, 0, 0, 0];
    assert_eq!(ctrl.record_map_complete(short), Err(RunError::MapFailure));
    assert_eq!(ctrl.phase, Phase::MapRequested);
}

#[test]
fn completion_slot_fires_exactly_once() {
    let mut slot = CompletionSlot::new();
    assert!(!slot.resolved);
    assert_eq!(slot.resolve(), Ok(()));
    assert!(slot.resolved);
    assert_eq!(slot.resolve(), Err(RunError::MapFailure));
}
