use cpu_profiler::aggregate::{Aggregator, StackCountKey, StackKey};
use cpu_profiler::filter::{TargetFilter, UnwindPath};
use cpu_profiler::instruction::{Instruction, OP_MEMORY_INDIRECT, OP_SP_RELATIVE};
use cpu_profiler::memory::Memory;
use cpu_profiler::sampler::{fallback_key, handle_sample, STACK_ID_NOT_CAPTURED};
use cpu_profiler::table::UnwindTable;
use cpu_profiler::walker::{walk, MAX_WALK_DEPTH};

fn demo_table() -> UnwindTable {
    let mut t = UnwindTable::new();
    let cfa = Instruction {
        op: OP_SP_RELATIVE,
        offset: 16,
    };
    let ra = Instruction {
        op: OP_MEMORY_INDIRECT,
        offset: -8,
    };
    assert!(t.push_row(100, cfa, ra));
    assert!(t.push_row(200, cfa, ra));
    assert!(t.push_row(300, cfa, ra));
    t
}

#[test]
fn selected_path_matches_only_the_target() {
    let mut f = TargetFilter::empty();
    assert_eq!(f.selected_path(7), UnwindPath::Fallback);
    f.set_target(7);
    assert_eq!(f.selected_path(7), UnwindPath::TableDriven);
    assert_eq!(f.selected_path(8), UnwindPath::Fallback);
    f.clear();
    assert_eq!(f.selected_path(7), UnwindPath::Fallback);
}

#[test]
fn fallback_key_uses_sentinel_for_uncaptured_stacks() {
    let k = fallback_key(42, Some(5), None);
    assert_eq!(k.pid, 42);
    assert_eq!(k.user_stack_id, 5);
    assert_eq!(k.kernel_stack_id, STACK_ID_NOT_CAPTURED);
    let k2 = fallback_key(42, None, Some(-3));
    assert_eq!(k2.user_stack_id, STACK_ID_NOT_CAPTURED);
    assert_eq!(k2.kernel_stack_id, -3);
}

#[test]
fn idle_pid_zero_is_never_sampled() {
    let f = TargetFilter::empty();
    let t = demo_table();
    let m = Memory::new();
    let mut agg = Aggregator::new(8);
    handle_sample(&f, &t, &m, &mut agg, 0, 0, 250, 0x1000, Some(1), Some(2));
    assert_eq!(agg.len(), 0);
}

#[test]
fn matched_target_records_the_walked_sequence() {
    let mut f = TargetFilter::empty();
    f.set_target(7);
    let t = demo_table();
    let mut m = Memory::new();
    m.store(0x1008, 0);
    let mut agg = Aggregator::new(8);
    handle_sample(&f, &t, &m, &mut agg, 7, 7, 250, 0x1000, None, None);
    handle_sample(&f, &t, &m, &mut agg, 7, 7, 250, 0x1000, None, None);
    assert_eq!(agg.len(), 1);
    let expected = walk(&t, &m, 250, 0x1000);
    assert_eq!(expected[0], 250);
    let key = StackKey::TableDriven {
        pid: 7,
        pcs: expected,
    };
    assert_eq!(agg.get(&key), Some(2));
}

#[test]
fn mismatched_target_records_opaque_ids_only() {
    let mut f = TargetFilter::empty();
    f.set_target(7);
    let t = demo_table();
    let m = Memory::new();
    let mut agg = Aggregator::new(8);
    // A different pid: the register snapshot and table contents must not
    // matter, only the opaque handles do.
    handle_sample(&f, &t, &m, &mut agg, 8, 9, 250, 0x1000, Some(11), Some(22));
    let empty_table = UnwindTable::new();
    handle_sample(
        &f,
        &empty_table,
        &Memory::new(),
        &mut agg,
        8,
        9,
        999,
        0,
        Some(11),
        Some(22),
    );
    assert_eq!(agg.len(), 1);
    let key = StackKey::Fallback {
        key: StackCountKey {
            pid: 9,
            user_stack_id: 11,
            kernel_stack_id: 22,
        },
    };
    assert_eq!(agg.get(&key), Some(2));
}

#[test]
fn empty_filter_always_takes_fallback() {
    let f = TargetFilter::empty();
    let t = demo_table();
    let m = Memory::new();
    let mut agg = Aggregator::new(8);
    handle_sample(&f, &t, &m, &mut agg, 3, 3, 250, 0x1000, None, None);
    let key = StackKey::Fallback {
        key: StackCountKey {
            pid: 3,
            user_stack_id: STACK_ID_NOT_CAPTURED,
            kernel_stack_id: STACK_ID_NOT_CAPTURED,
        },
    };
    assert_eq!(agg.get(&key), Some(1));
    // No table-driven identity was recorded.
    let td = StackKey::TableDriven {
        pid: 3,
        pcs: walk(&t, &m, 250, 0x1000),
    };
    assert_eq!(agg.get(&td), None);
}

#[test]
fn table_driven_key_is_zero_padded_to_full_depth() {
    let mut f = TargetFilter::empty();
    f.set_target(7);
    let t = demo_table();
    let m = Memory::new();
    let mut agg = Aggregator::new(8);
    // rip below every key: the walk truncates after one frame.
    handle_sample(&f, &t, &m, &mut agg, 7, 7, 50, 0x1000, None, None);
    let mut pcs = vec![0u64; MAX_WALK_DEPTH];
    pcs[0] = 50;
    let key = StackKey::TableDriven { pid: 7, pcs };
    assert_eq!(agg.get(&key), Some(1));
}
