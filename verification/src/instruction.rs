//! The primitive unwind operations.
//!
//! An unwind table row holds two instructions: one computes the canonical
//! frame address (CFA) of the current frame, the other the return address,
//! that is the caller's program counter. An instruction is a tagged operation
//! with a signed offset; any tag other than the three known ones is invalid
//! and evaluates to "no result".

use crate::memory::Memory;
use vstd::prelude::*;

verus! {

/// Tag of the memory-indirect operation: read 8 bytes at `cfa + offset`.
pub const OP_MEMORY_INDIRECT: u64 = 1;

/// Tag of the pc-relative operation: the result is `rip + offset`.
pub const OP_PC_RELATIVE: u64 = 2;

/// Tag of the sp-relative operation: the result is `rsp + offset`.
pub const OP_SP_RELATIVE: u64 = 3;

/// One primitive unwind operation: a tag and a signed byte offset.
#[derive(Clone, Copy, PartialEq, Eq, Structural)]
pub struct Instruction {
    pub op: u64,
    pub offset: i64,
}

/// `base + offset` in two's-complement 64-bit arithmetic: the sum wraps
/// around instead of overflowing, exactly as address arithmetic does on the
/// machine whose stack is being unwound.
pub open spec fn wrap_add_offset(base: u64, offset: i64) -> u64 {
    let s = base as int + offset as int;
    if s < 0 {
        (s + 0x1_0000_0000_0000_0000) as u64
    } else if s > u64::MAX as int {
        (s - 0x1_0000_0000_0000_0000) as u64
    } else {
        s as u64
    }
}

/// Computes [`wrap_add_offset`] without overflow and without panicking.
pub fn add_offset(base: u64, offset: i64) -> (r: u64)
    ensures
        r == wrap_add_offset(base, offset),
{
    if offset >= 0 {
        let o = offset as u64;
        if base <= u64::MAX - o {
            base + o
        } else {
            base - (u64::MAX - o) - 1
        }
    } else {
        let o = ((-(offset + 1)) as u64) + 1;
        if base >= o {
            base - o
        } else {
            base + (u64::MAX - o) + 1
        }
    }
}

/// What evaluating `ins` yields: the new CFA or the caller's program counter,
/// or `None` when the tag is invalid or a memory-indirect read fails.
/// `rip` and `rsp` are the registers of the frame being left; `cfa` is the
/// canonical frame address available to the instruction (zero while the CFA
/// itself is being computed).
pub open spec fn eval_spec(ins: Instruction, rip: u64, rsp: u64, cfa: u64, mem: Memory) -> Option<
    u64,
> {
    if ins.op == OP_MEMORY_INDIRECT {
        mem.spec_read(wrap_add_offset(cfa, ins.offset))
    } else if ins.op == OP_PC_RELATIVE {
        Some(wrap_add_offset(rip, ins.offset))
    } else if ins.op == OP_SP_RELATIVE {
        Some(wrap_add_offset(rsp, ins.offset))
    } else {
        None
    }
}

/// Evaluates one unwind instruction against the registers of the current
/// frame, the CFA computed so far, and the memory snapshot. Returns `None`
/// on an invalid tag or an unreadable address; never panics.
pub fn execute_instruction(ins: &Instruction, rip: u64, rsp: u64, cfa: u64, mem: &Memory) -> (r:
    Option<u64>)
    ensures
        r == eval_spec(*ins, rip, rsp, cfa, *mem),
{
    if ins.op == OP_MEMORY_INDIRECT {
        mem.read(add_offset(cfa, ins.offset))
    } else if ins.op == OP_PC_RELATIVE {
        Some(add_offset(rip, ins.offset))
    } else if ins.op == OP_SP_RELATIVE {
        Some(add_offset(rsp, ins.offset))
    } else {
        None
    }
}

} // verus!
