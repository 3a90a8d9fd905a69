//! The per-trigger entry point.
//!
//! One sampling trigger hands the core a process id, a thread-group id, a
//! register snapshot, and — for the fallback path — the opaque stack handles
//! the host's own capture mechanism produced. The core decides the path with
//! the target filter, builds the stack identity, and records it: samples of
//! the filtered process are keyed by the full walked program-counter
//! sequence, all others by the opaque handles. Process id zero (the idle
//! task) is never sampled.

use crate::aggregate::{Aggregator, StackCountKey, StackIdentity, StackKey};
use crate::filter::{TargetFilter, UnwindPath};
use crate::memory::Memory;
use crate::table::UnwindTable;
use crate::walker::{walk, walk_output};
use vstd::prelude::*;

verus! {

/// Sentinel stored in a fallback key when the host did not capture the
/// corresponding stack.
pub const STACK_ID_NOT_CAPTURED: i32 = -1;

/// The fallback key a sample yields: the thread-group id and the captured
/// handles, with the sentinel standing in for a handle the host did not
/// produce.
pub open spec fn fallback_key_spec(
    tgid: u32,
    user_stack_id: Option<i32>,
    kernel_stack_id: Option<i32>,
) -> StackCountKey {
    StackCountKey {
        pid: tgid,
        user_stack_id: match user_stack_id {
            Some(id) => id,
            None => STACK_ID_NOT_CAPTURED,
        },
        kernel_stack_id: match kernel_stack_id {
            Some(id) => id,
            None => STACK_ID_NOT_CAPTURED,
        },
    }
}

/// Builds the fallback key from the captured stack handles.
pub fn fallback_key(tgid: u32, user_stack_id: Option<i32>, kernel_stack_id: Option<i32>) -> (k:
    StackCountKey)
    ensures
        k == fallback_key_spec(tgid, user_stack_id, kernel_stack_id),
{
    StackCountKey {
        pid: tgid,
        user_stack_id: match user_stack_id {
            Some(id) => id,
            None => STACK_ID_NOT_CAPTURED,
        },
        kernel_stack_id: match kernel_stack_id {
            Some(id) => id,
            None => STACK_ID_NOT_CAPTURED,
        },
    }
}

/// The identity a table-driven sample records: the process id and the full
/// walked sequence.
pub open spec fn table_identity(
    table: UnwindTable,
    mem: Memory,
    pid: u32,
    rip: u64,
    rsp: u64,
) -> StackIdentity {
    StackIdentity::Table { pid, pcs: walk_output(table, mem, rip, rsp) }
}

/// The identity a fallback sample records.
pub open spec fn fallback_identity(k: StackCountKey) -> StackIdentity {
    StackIdentity::Fallback {
        pid: k.pid,
        user_stack_id: k.user_stack_id,
        kernel_stack_id: k.kernel_stack_id,
    }
}

/// The exact effect of one sampling trigger on the aggregator: nothing for
/// process id zero; otherwise one recording, keyed by the walked sequence
/// when the filter names the process and by the opaque handles when it does
/// not.
pub open spec fn sample_transition(
    filter: TargetFilter,
    table: UnwindTable,
    mem: Memory,
    pre: Aggregator,
    post: Aggregator,
    pid: u32,
    tgid: u32,
    rip: u64,
    rsp: u64,
    user_stack_id: Option<i32>,
    kernel_stack_id: Option<i32>,
) -> bool {
    if pid == 0 {
        post == pre
    } else if filter.is_target(pid) {
        Aggregator::recorded(pre, post, table_identity(table, mem, pid, rip, rsp))
    } else {
        Aggregator::recorded(
            pre,
            post,
            fallback_identity(fallback_key_spec(tgid, user_stack_id, kernel_stack_id)),
        )
    }
}

/// Handles one sampling trigger: decides the path, walks the stack when the
/// sampled process is the filtered one, and records the resulting identity.
/// Bounded work, no allocation beyond the walk output, no panic.
pub fn handle_sample(
    filter: &TargetFilter,
    table: &UnwindTable,
    mem: &Memory,
    agg: &mut Aggregator,
    pid: u32,
    tgid: u32,
    rip: u64,
    rsp: u64,
    user_stack_id: Option<i32>,
    kernel_stack_id: Option<i32>,
)
    requires
        table.wf(),
        old(agg).wf(),
    ensures
        final(agg).wf(),
        sample_transition(
            *filter,
            *table,
            *mem,
            *old(agg),
            *final(agg),
            pid,
            tgid,
            rip,
            rsp,
            user_stack_id,
            kernel_stack_id,
        ),
{
    if pid == 0 {
        return;
    }
    match filter.selected_path(pid) {
        UnwindPath::TableDriven => {
            let pcs = walk(table, mem, rip, rsp);
            agg.record(StackKey::TableDriven { pid, pcs });
        },
        UnwindPath::Fallback => {
            let key = fallback_key(tgid, user_stack_id, kernel_stack_id);
            agg.record(StackKey::Fallback { key });
        },
    }
}

/// Fallback path independence: when the filter is empty or names another
/// process, the effect of a trigger does not depend on the unwind table, the
/// memory snapshot, or the register snapshot — no table lookup contributes
/// to the recorded identity; only the opaque-id key path is exercised.
pub proof fn lemma_fallback_independent(
    filter: TargetFilter,
    table1: UnwindTable,
    mem1: Memory,
    rip1: u64,
    rsp1: u64,
    table2: UnwindTable,
    mem2: Memory,
    rip2: u64,
    rsp2: u64,
    pre: Aggregator,
    post1: Aggregator,
    post2: Aggregator,
    pid: u32,
    tgid: u32,
    user_stack_id: Option<i32>,
    kernel_stack_id: Option<i32>,
)
    requires
        !filter.is_target(pid),
        sample_transition(
            filter,
            table1,
            mem1,
            pre,
            post1,
            pid,
            tgid,
            rip1,
            rsp1,
            user_stack_id,
            kernel_stack_id,
        ),
        sample_transition(
            filter,
            table2,
            mem2,
            pre,
            post2,
            pid,
            tgid,
            rip2,
            rsp2,
            user_stack_id,
            kernel_stack_id,
        ),
    ensures
        post1@ == post2@,
        post1.spec_len() == post2.spec_len(),
        post1.spec_capacity() == post2.spec_capacity(),
{
}

} // verus!
