use cpu_profiler::instruction::{Instruction, OP_MEMORY_INDIRECT, OP_PC_RELATIVE, OP_SP_RELATIVE};
use cpu_profiler::memory::Memory;
use cpu_profiler::table::UnwindTable;
use cpu_profiler::walker::{walk, MAX_WALK_DEPTH};

fn three_row_table() -> UnwindTable {
    let mut t = UnwindTable::new();
    let plain = Instruction {
        op: OP_PC_RELATIVE,
        offset: 0,
    };
    let cfa = Instruction {
        op: OP_SP_RELATIVE,
        offset: 16,
    };
    let ra = Instruction {
        op: OP_MEMORY_INDIRECT,
        offset: -8,
    };
    assert!(t.push_row(100, plain, plain));
    assert!(t.push_row(200, cfa, ra));
    assert!(t.push_row(300, plain, plain));
    t
}

#[test]
fn walk_output_length_is_always_max_depth() {
    let t = UnwindTable::new();
    let m = Memory::new();
    assert_eq!(walk(&t, &m, 0, 0).len(), MAX_WALK_DEPTH);
    assert_eq!(walk(&t, &m, 12345, 678).len(), MAX_WALK_DEPTH);
}

#[test]
fn walk_from_null_pc_yields_all_zeros() {
    let t = three_row_table();
    let m = Memory::new();
    let stack = walk(&t, &m, 0, 0x1000);
    assert_eq!(stack, vec![0u64; MAX_WALK_DEPTH]);
}

#[test]
fn walk_one_resolved_frame_then_truncation() {
    // Table pc = [100, 200, 300]; row 1 computes cfa = rsp + 16 and reads
    // the return address 8 bytes below it. Starting at rip = 250,
    // rsp = 0x1000: frame 0 records 250, row 1 governs (200 <= 250),
    // cfa = 0x1010, and the value at 0x1008 becomes the next pc.
    let t = three_row_table();
    let mut m = Memory::new();
    m.store(0x1010 - 8, 4242);
    let stack = walk(&t, &m, 250, 0x1000);
    assert_eq!(stack[0], 250);
    // Row 2 governs 4242, and its pc-relative instructions resolve to 4242
    // again, so the walk keeps recording 4242 until the depth bound.
    assert!(stack[1..].iter().all(|&pc| pc == 4242));
    assert_eq!(stack.len(), MAX_WALK_DEPTH);
}

#[test]
fn walk_stops_when_no_row_governs() {
    let t = three_row_table();
    let m = Memory::new();
    // 50 lies below every key: the first frame is recorded, resolution
    // fails, and the rest stays zero.
    let stack = walk(&t, &m, 50, 0x1000);
    assert_eq!(stack[0], 50);
    assert!(stack[1..].iter().all(|&pc| pc == 0));
}

#[test]
fn walk_stops_on_unreadable_return_address() {
    let t = three_row_table();
    let m = Memory::new();
    let stack = walk(&t, &m, 250, 0x1000);
    assert_eq!(stack[0], 250);
    assert!(stack[1..].iter().all(|&pc| pc == 0));
}

#[test]
fn walk_follows_a_chain_of_frames() {
    // Two linked frames, then a zero return address terminates the walk.
    let mut t = UnwindTable::new();
    let cfa = Instruction {
        op: OP_SP_RELATIVE,
        offset: 8,
    };
    let ra = Instruction {
        op: OP_MEMORY_INDIRECT,
        offset: -8,
    };
    assert!(t.push_row(1000, cfa, ra));
    assert!(t.push_row(2000, cfa, ra));
    let mut m = Memory::new();
    // Frame at rip 2500, rsp 0x100: cfa = 0x108, caller pc read at 0x100.
    m.store(0x100, 1500);
    // Frame at rip 1500, rsp 0x108: cfa = 0x110, caller pc read at 0x108.
    m.store(0x108, 0);
    let stack = walk(&t, &m, 2500, 0x100);
    assert_eq!(stack[0], 2500);
    assert_eq!(stack[1], 1500);
    assert!(stack[2..].iter().all(|&pc| pc == 0));
}

#[test]
fn walk_is_cut_off_at_the_depth_bound() {
    // A self-looping frame: rip stays 500, cfa stays rsp. The walk records
    // the depth bound's worth of entries and stops.
    let mut t = UnwindTable::new();
    let cfa = Instruction {
        op: OP_SP_RELATIVE,
        offset: 0,
    };
    let ra = Instruction {
        op: OP_PC_RELATIVE,
        offset: 0,
    };
    assert!(t.push_row(400, cfa, ra));
    let m = Memory::new();
    let stack = walk(&t, &m, 500, 0x1000);
    assert_eq!(stack, vec![500u64; MAX_WALK_DEPTH]);
}
