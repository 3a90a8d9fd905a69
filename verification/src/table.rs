//! The unwind table and the frame resolver.
//!
//! The table is three index-aligned, fixed-capacity columns: sorted program
//! counter keys, a CFA instruction per key, and a return-address instruction
//! per key. An external loader fills it before a session; the core only
//! reads it. Row `i` governs every program counter from `pc[i]` up to (but
//! excluding) `pc[i + 1]`.
//!
//! The resolver finds the governing row by a binary search whose step count
//! is bounded by a fixed constant, independent of the table length; the bound
//! is large enough that the search always converges for any well-formed
//! table, which is proved, not assumed.

use crate::instruction::{eval_spec, execute_instruction, Instruction};
use crate::memory::Memory;
use vstd::arithmetic::power2::{lemma2_to64, lemma_pow2_unfold, pow2};
use vstd::prelude::*;

verus! {

/// Capacity of the three table columns: a static bound, never exceeded.
pub const TABLE_CAPACITY: usize = 0xff_ffff;

/// Fixed bound on the number of binary-search steps per lookup.
pub const MAX_BIN_SEARCH_DEPTH: u64 = 24;

/// The unwind table: three parallel columns sharing one length.
pub struct UnwindTable {
    pc: Vec<u64>,
    cfa_instruction: Vec<Instruction>,
    ra_instruction: Vec<Instruction>,
}

impl UnwindTable {
    /// The sorted program-counter keys.
    pub closed spec fn pcs(&self) -> Seq<u64> {
        self.pc@
    }

    /// The CFA instruction of each row.
    pub closed spec fn cfa_instructions(&self) -> Seq<Instruction> {
        self.cfa_instruction@
    }

    /// The return-address instruction of each row.
    pub closed spec fn ra_instructions(&self) -> Seq<Instruction> {
        self.ra_instruction@
    }

    /// Well-formedness: the columns are index-aligned, the length is within
    /// the static capacity, and the keys are sorted strictly ascending (so
    /// also free of duplicates).
    pub open spec fn wf(&self) -> bool {
        &&& self.cfa_instructions().len() == self.pcs().len()
        &&& self.ra_instructions().len() == self.pcs().len()
        &&& self.pcs().len() <= TABLE_CAPACITY
        &&& forall|i: int, j: int|
            0 <= i < j < self.pcs().len() ==> self.pcs()[i] < self.pcs()[j]
    }

    /// An empty table.
    pub fn new() -> (t: UnwindTable)
        ensures
            t.wf(),
            t.pcs().len() == 0,
    {
        UnwindTable { pc: Vec::new(), cfa_instruction: Vec::new(), ra_instruction: Vec::new() }
    }

    /// Number of rows.
    pub fn len(&self) -> (n: usize)
        ensures
            n == self.pcs().len(),
    {
        self.pc.len()
    }

    /// Whether a row for `pc` would be accepted by [`Self::push_row`]: the
    /// table has room and `pc` is strictly greater than every present key.
    pub open spec fn accepts_row(&self, pc: u64) -> bool {
        &&& self.pcs().len() < TABLE_CAPACITY
        &&& (self.pcs().len() == 0 || self.pcs().last() < pc)
    }

    /// Appends one row. A write beyond capacity, or one that would break the
    /// sorted order of the keys, is rejected and leaves the table unchanged;
    /// the result says whether the row was accepted.
    pub fn push_row(&mut self, pc: u64, cfa_ins: Instruction, ra_ins: Instruction) -> (accepted:
        bool)
        requires
            old(self).wf(),
        ensures
            final(self).wf(),
            accepted == old(self).accepts_row(pc),
            accepted ==> final(self).pcs() == old(self).pcs().push(pc)
                && final(self).cfa_instructions() == old(self).cfa_instructions().push(cfa_ins)
                && final(self).ra_instructions() == old(self).ra_instructions().push(ra_ins),
            !accepted ==> final(self).pcs() == old(self).pcs()
                && final(self).cfa_instructions() == old(self).cfa_instructions()
                && final(self).ra_instructions() == old(self).ra_instructions(),
    {
        let n = self.pc.len();
        if n >= TABLE_CAPACITY {
            return false;
        }
        if n > 0 && self.pc[n - 1] >= pc {
            return false;
        }
        self.pc.push(pc);
        self.cfa_instruction.push(cfa_ins);
        self.ra_instruction.push(ra_ins);
        true
    }

    /// `i` is the row governing `query`: its key is the greatest one that is
    /// at most `query`.
    pub open spec fn is_row_for(&self, query: u64, i: int) -> bool {
        &&& 0 <= i < self.pcs().len()
        &&& self.pcs()[i] <= query
        &&& (i + 1 < self.pcs().len() ==> query < self.pcs()[i + 1])
    }

    /// The row governing `query`, or `None` when the table is empty or
    /// `query` lies below every key (in which case no row may be aliased to
    /// it: the lookup reports "no suitable row" instead).
    pub open spec fn row_of(&self, query: u64) -> Option<int> {
        if self.pcs().len() > 0 && self.pcs()[0] <= query {
            Some(choose|i: int| self.is_row_for(query, i))
        } else {
            None
        }
    }

    /// At most one row governs a given query.
    pub proof fn lemma_row_unique(&self, query: u64, i: int, j: int)
        requires
            self.wf(),
            self.is_row_for(query, i),
            self.is_row_for(query, j),
        ensures
            i == j,
    {
        if i < j {
            assert(self.pcs()[i + 1] <= self.pcs()[j]);
        }
        if j < i {
            assert(self.pcs()[j + 1] <= self.pcs()[i]);
        }
    }

    /// A row that governs `query` is the row [`Self::row_of`] yields.
    pub proof fn lemma_row_of_is(&self, query: u64, i: int)
        requires
            self.wf(),
            self.is_row_for(query, i),
        ensures
            self.row_of(query) == Some(i),
    {
        assert(self.pcs()[0] <= self.pcs()[i] || i == 0);
        let w = choose|k: int| self.is_row_for(query, k);
        self.lemma_row_unique(query, w, i);
    }

    /// Finds the row governing `query`: the greatest index whose key is at
    /// most `query`; `None` when the table is empty or `query` lies below
    /// every key. The search runs at most [`MAX_BIN_SEARCH_DEPTH`] steps,
    /// which suffices for any well-formed table.
    pub fn lookup(&self, query: u64) -> (r: Option<usize>)
        requires
            self.wf(),
        ensures
            match r {
                Some(i) => self.is_row_for(query, i as int) && self.row_of(query) == Some(
                    i as int,
                ),
                None => self.row_of(query) is None && (self.pcs().len() == 0
                    || query < self.pcs()[0]),
            },
    {
        let n = self.pc.len();
        if n == 0 {
            return None;
        }
        if query < self.pc[0] {
            return None;
        }
        let mut left: usize = 0;
        let mut right: usize = n - 1;
        let mut steps: u64 = 0;
        proof {
            lemma2_to64();
        }
        while left < right && steps < MAX_BIN_SEARCH_DEPTH
            invariant
                self.wf(),
                n == self.pcs().len(),
                left <= right < n,
                self.pcs()[left as int] <= query,
                right + 1 < n ==> query < self.pcs()[right as int + 1],
                steps <= MAX_BIN_SEARCH_DEPTH,
                right - left < pow2((MAX_BIN_SEARCH_DEPTH - steps) as nat),
            decreases right - left,
        {
            proof {
                lemma_pow2_unfold((MAX_BIN_SEARCH_DEPTH - steps) as nat);
            }
            let mid = left + (right - left + 1) / 2;
            if self.pc[mid] <= query {
                left = mid;
            } else {
                right = mid - 1;
            }
            steps = steps + 1;
        }
        proof {
            if left < right {
                assert(steps == MAX_BIN_SEARCH_DEPTH);
                assert(pow2(0) == 1);
            }
            assert(left == right);
            self.lemma_row_of_is(query, left as int);
        }
        Some(left)
    }
}

/// What one resolver step yields for registers `(rip, rsp)`: the pair
/// `(new_cfa, new_pc)` of the frame's canonical frame address and the
/// caller's program counter, or `None` when no row governs `rip`, or either
/// instruction of the governing row fails to evaluate. The CFA is computed
/// first; the return-address instruction may depend on it.
pub open spec fn resolve_spec(table: UnwindTable, mem: Memory, rip: u64, rsp: u64) -> Option<
    (u64, u64),
> {
    match table.row_of(rip) {
        None => None,
        Some(i) => match eval_spec(table.cfa_instructions()[i], rip, rsp, 0, mem) {
            None => None,
            Some(cfa) => match eval_spec(table.ra_instructions()[i], rip, rsp, cfa, mem) {
                None => None,
                Some(new_pc) => Some((cfa, new_pc)),
            },
        },
    }
}

/// One resolver step: looks up the row governing `rip`, evaluates its CFA
/// instruction against `(rip, rsp)`, then its return-address instruction
/// against `(rip, rsp)` and the fresh CFA. Any failure yields `None` and the
/// walker must stop; nothing is fabricated.
pub fn resolve(table: &UnwindTable, mem: &Memory, rip: u64, rsp: u64) -> (r: Option<(u64, u64)>)
    requires
        table.wf(),
    ensures
        r == resolve_spec(*table, *mem, rip, rsp),
{
    let i = match table.lookup(rip) {
        Some(i) => i,
        None => {
            return None;
        },
    };
    let cfa = match execute_instruction(&table.cfa_instruction[i], rip, rsp, 0, mem) {
        Some(cfa) => cfa,
        None => {
            return None;
        },
    };
    let new_pc = match execute_instruction(&table.ra_instruction[i], rip, rsp, cfa, mem) {
        Some(new_pc) => new_pc,
        None => {
            return None;
        },
    };
    Some((cfa, new_pc))
}

} // verus!
