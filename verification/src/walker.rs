//! The stack walker.
//!
//! Starting from a captured register snapshot, the walker repeatedly asks the
//! frame resolver for the caller's frame, recording each program counter into
//! an output of fixed length [`MAX_WALK_DEPTH`]. It stops early when the
//! program counter reaches zero (top of stack / unknown caller) or when a
//! resolver step fails; the remaining slots stay zero-filled and mean
//! "unwinding truncated here", never the address zero.

use crate::memory::Memory;
use crate::table::{resolve, resolve_spec, UnwindTable};
use vstd::prelude::*;

verus! {

/// Maximum walk depth: the fixed length of every produced stack sequence.
/// The walker's own stack is tiny, so the output is deliberately small.
pub const MAX_WALK_DEPTH: usize = 48;

/// The meaningful prefix a walk records with `fuel` slots left: the current
/// program counter, then, unless it is zero or the resolver fails, whatever
/// a walk from the caller's frame records with one slot fewer.
pub open spec fn walk_frames(
    table: UnwindTable,
    mem: Memory,
    rip: u64,
    rsp: u64,
    fuel: nat,
) -> Seq<u64>
    decreases fuel,
{
    if fuel == 0 {
        Seq::empty()
    } else if rip == 0 {
        seq![0u64]
    } else {
        match resolve_spec(table, mem, rip, rsp) {
            None => seq![rip],
            Some((cfa, new_pc)) => seq![rip] + walk_frames(
                table,
                mem,
                new_pc,
                cfa,
                (fuel - 1) as nat,
            ),
        }
    }
}

/// A walk with `fuel` slots records at most `fuel` frames, and at least one
/// when any slot is left.
pub proof fn lemma_walk_frames_len(table: UnwindTable, mem: Memory, rip: u64, rsp: u64, fuel: nat)
    ensures
        walk_frames(table, mem, rip, rsp, fuel).len() <= fuel,
        fuel > 0 ==> walk_frames(table, mem, rip, rsp, fuel).len() >= 1,
    decreases fuel,
{
    if fuel > 0 && rip != 0 {
        match resolve_spec(table, mem, rip, rsp) {
            None => {},
            Some((cfa, new_pc)) => {
                lemma_walk_frames_len(table, mem, new_pc, cfa, (fuel - 1) as nat);
            },
        }
    }
}

/// The full output of a walk: the recorded frames, zero-padded to exactly
/// [`MAX_WALK_DEPTH`] entries.
pub open spec fn walk_output(table: UnwindTable, mem: Memory, rip: u64, rsp: u64) -> Seq<u64> {
    let frames = walk_frames(table, mem, rip, rsp, MAX_WALK_DEPTH as nat);
    frames + Seq::new((MAX_WALK_DEPTH - frames.len()) as nat, |i: int| 0u64)
}

/// A walk that starts at program counter zero records nothing but that zero:
/// the output is all zeros and no resolver step is consulted.
pub proof fn lemma_walk_null_pc(table: UnwindTable, mem: Memory, initial_sp: u64)
    ensures
        walk_output(table, mem, 0, initial_sp) == Seq::new(MAX_WALK_DEPTH as nat, |i: int| 0u64),
{
    assert(walk_output(table, mem, 0, initial_sp) =~= Seq::new(
        MAX_WALK_DEPTH as nat,
        |i: int| 0u64,
    ));
}

/// Walks the stack from the captured `(initial_pc, initial_sp)` snapshot.
/// The result always has exactly [`MAX_WALK_DEPTH`] entries; a stopped walk
/// leaves the remaining entries zero. The walk takes at most
/// [`MAX_WALK_DEPTH`] resolver steps and never panics.
pub fn walk(table: &UnwindTable, mem: &Memory, initial_pc: u64, initial_sp: u64) -> (stack: Vec<
    u64,
>)
    requires
        table.wf(),
    ensures
        stack@.len() == MAX_WALK_DEPTH,
        stack@ == walk_output(*table, *mem, initial_pc, initial_sp),
{
    let ghost full = walk_frames(*table, *mem, initial_pc, initial_sp, MAX_WALK_DEPTH as nat);
    let mut stack: Vec<u64> = Vec::new();
    let mut rip = initial_pc;
    let mut rsp = initial_sp;
    let mut stopped = false;
    proof {
        lemma_walk_frames_len(*table, *mem, initial_pc, initial_sp, MAX_WALK_DEPTH as nat);
    }
    while !stopped && stack.len() < MAX_WALK_DEPTH
        invariant
            table.wf(),
            stack@.len() <= MAX_WALK_DEPTH,
            full == walk_frames(*table, *mem, initial_pc, initial_sp, MAX_WALK_DEPTH as nat),
            !stopped ==> full == stack@ + walk_frames(
                *table,
                *mem,
                rip,
                rsp,
                (MAX_WALK_DEPTH - stack@.len()) as nat,
            ),
            stopped ==> full == stack@,
        decreases MAX_WALK_DEPTH - stack@.len() + (if stopped { 0int } else { 1int }),
    {
        let ghost fuel = (MAX_WALK_DEPTH - stack@.len()) as nat;
        let ghost prefix = stack@;
        stack.push(rip);
        if rip == 0 {
            stopped = true;
            proof {
                assert(full =~= prefix + seq![0u64]);
            }
        } else {
            match resolve(table, mem, rip, rsp) {
                None => {
                    stopped = true;
                    proof {
                        assert(full =~= prefix + seq![rip]);
                    }
                },
                Some((cfa, new_pc)) => {
                    proof {
                        let rest = walk_frames(*table, *mem, new_pc, cfa, (fuel - 1) as nat);
                        assert(prefix + (seq![rip] + rest) =~= (prefix + seq![rip]) + rest);
                    }
                    rsp = cfa;
                    rip = new_pc;
                },
            }
        }
    }
    proof {
        if !stopped {
            assert(walk_frames(*table, *mem, rip, rsp, 0) =~= Seq::<u64>::empty());
            assert(full =~= stack@);
        }
    }
    let ghost recorded = stack@;
    while stack.len() < MAX_WALK_DEPTH
        invariant
            recorded.len() <= stack@.len() <= MAX_WALK_DEPTH,
            recorded == full,
            stack@ == full + Seq::new((stack@.len() - full.len()) as nat, |i: int| 0u64),
        decreases MAX_WALK_DEPTH - stack@.len(),
    {
        let ghost before = stack@;
        stack.push(0);
        proof {
            assert(stack@ =~= full + Seq::new((stack@.len() - full.len()) as nat, |i: int| 0u64));
        }
    }
    proof {
        assert(stack@ =~= walk_output(*table, *mem, initial_pc, initial_sp));
    }
    stack
}

} // verus!
