//! A snapshot of the readable memory of the sampled process.
//!
//! The walker's memory-indirect instruction reads 8 bytes from an arbitrary
//! address, and the read may fail: the address can be unmapped or otherwise
//! inaccessible. The snapshot models exactly that: a set of addresses that
//! hold an 8-byte value, and a read that returns `None` everywhere else.
//! Failure is an ordinary value here, never undefined behaviour; the walker
//! treats it as "unwinding stops".

use vstd::prelude::*;

verus! {

/// What a lookup over a list of `(address, value)` cells yields: the value of
/// the first cell whose address matches, or `None` when no cell matches.
pub open spec fn cells_lookup(cells: Seq<(u64, u64)>, addr: u64) -> Option<u64>
    decreases cells.len(),
{
    if cells.len() == 0 {
        None
    } else if cells[0].0 == addr {
        Some(cells[0].1)
    } else {
        cells_lookup(cells.drop_first(), addr)
    }
}

/// A snapshot of readable process memory: each cell gives the 8-byte value
/// readable at one address. Reads at any other address fail.
pub struct Memory {
    cells: Vec<(u64, u64)>,
}

impl Memory {
    /// The value an 8-byte read at `addr` yields, or `None` when the address
    /// is not readable in this snapshot.
    pub closed spec fn spec_read(&self, addr: u64) -> Option<u64> {
        cells_lookup(self.cells@, addr)
    }

    /// A snapshot with no readable address at all.
    pub fn new() -> (m: Memory)
        ensures
            forall|a: u64| m.spec_read(a) == None::<u64>,
    {
        Memory { cells: Vec::new() }
    }

    /// Makes `addr` readable and holding `value`; every other address keeps
    /// its previous behaviour.
    pub fn store(&mut self, addr: u64, value: u64)
        ensures
            final(self).spec_read(addr) == Some(value),
            forall|a: u64| a != addr ==> final(self).spec_read(a) == old(self).spec_read(a),
    {
        self.cells.insert(0, (addr, value));
        proof {
            assert(self.cells@.drop_first() =~= old(self).cells@);
        }
    }

    /// Reads 8 bytes at `addr`, failing when the address is not readable.
    pub fn read(&self, addr: u64) -> (r: Option<u64>)
        ensures
            r == self.spec_read(addr),
    {
        let n = self.cells.len();
        let mut i: usize = 0;
        proof {
            assert(self.cells@.skip(0) =~= self.cells@);
        }
        while i < n
            invariant
                i <= n,
                n == self.cells@.len(),
                cells_lookup(self.cells@, addr) == cells_lookup(self.cells@.skip(i as int), addr),
            decreases n - i,
        {
            let (a, v) = self.cells[i];
            proof {
                assert(self.cells@.skip(i as int).drop_first() =~= self.cells@.skip(i + 1));
                assert(self.cells@.skip(i as int)[0] == self.cells@[i as int]);
            }
            if a == addr {
                return Some(v);
            }
            i = i + 1;
        }
        proof {
            assert(self.cells@.skip(n as int) =~= Seq::<(u64, u64)>::empty());
        }
        None
    }
}

} // verus!
