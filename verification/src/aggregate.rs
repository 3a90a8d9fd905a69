//! The aggregator: a fixed-capacity store mapping a stack identity to a
//! 64-bit count.
//!
//! A key is either the full program-counter sequence of a table-driven walk
//! or the pair of opaque stack handles of the fallback path, together with
//! the process id. At most one entry ever exists per key; recording a key
//! increments its count, creating the entry with count 1 when absent and
//! there is room, and silently dropping the sample when the store is full —
//! the documented overload policy, since no backpressure exists in this
//! execution model. Capacity is fixed at initialization; counts only grow
//! until an external drain reads and clears the store between reporting
//! windows.

use vstd::prelude::*;

verus! {

/// The fallback stack identity: the process and two opaque stack handles
/// from the host's own stack-capture mechanism. The field order and widths
/// are load-bearing: an external reporting collaborator reads this record
/// directly.
#[derive(Clone, Copy, PartialEq, Eq, Structural, Debug)]
pub struct StackCountKey {
    pub pid: u32,
    pub user_stack_id: i32,
    pub kernel_stack_id: i32,
}

/// A stack identity as recorded by the aggregator: either a process id with
/// the full walked program-counter sequence, or the fallback record.
pub enum StackKey {
    /// Identity from the table-driven path: the walked sequence, zero-padded
    /// to the fixed walk depth.
    TableDriven { pid: u32, pcs: Vec<u64> },
    /// Identity from the fallback path.
    Fallback { key: StackCountKey },
}

/// The mathematical identity a [`StackKey`] denotes; two keys count as the
/// same exactly when their identities are equal.
#[verifier::ext_equal]
pub enum StackIdentity {
    Table { pid: u32, pcs: Seq<u64> },
    Fallback { pid: u32, user_stack_id: i32, kernel_stack_id: i32 },
}

impl View for StackKey {
    type V = StackIdentity;

    open spec fn view(&self) -> StackIdentity {
        match self {
            StackKey::TableDriven { pid, pcs } => StackIdentity::Table { pid: *pid, pcs: pcs@ },
            StackKey::Fallback { key } => StackIdentity::Fallback {
                pid: key.pid,
                user_stack_id: key.user_stack_id,
                kernel_stack_id: key.kernel_stack_id,
            },
        }
    }
}

/// Element-wise equality of two program-counter vectors.
fn vec_u64_eq(a: &Vec<u64>, b: &Vec<u64>) -> (r: bool)
    ensures
        r == (a@ == b@),
{
    if a.len() != b.len() {
        return false;
    }
    let n = a.len();
    let mut i: usize = 0;
    while i < n
        invariant
            i <= n,
            n == a@.len(),
            n == b@.len(),
            forall|j: int| 0 <= j < i ==> a@[j] == b@[j],
        decreases n - i,
    {
        if a[i] != b[i] {
            return false;
        }
        i = i + 1;
    }
    proof {
        assert(a@ =~= b@);
    }
    true
}

/// Whether two keys denote the same stack identity.
pub fn key_eq(a: &StackKey, b: &StackKey) -> (r: bool)
    ensures
        r == (a@ == b@),
{
    match (a, b) {
        (
            StackKey::TableDriven { pid: pid_a, pcs: pcs_a },
            StackKey::TableDriven { pid: pid_b, pcs: pcs_b },
        ) => {
            let same = *pid_a == *pid_b && vec_u64_eq(pcs_a, pcs_b);
            proof {
                if same {
                    assert(a@ =~= b@);
                }
            }
            same
        },
        (StackKey::Fallback { key: key_a }, StackKey::Fallback { key: key_b }) => {
            let same = key_a.pid == key_b.pid && key_a.user_stack_id == key_b.user_stack_id
                && key_a.kernel_stack_id == key_b.kernel_stack_id;
            proof {
                if same {
                    assert(a@ =~= b@);
                }
            }
            same
        },
        _ => false,
    }
}

/// The associative view of a list of `(key, count)` entries: later entries
/// shadow earlier ones with the same identity, though a well-formed
/// aggregator never holds two entries with one identity.
pub open spec fn entries_map(s: Seq<(StackKey, u64)>) -> Map<StackIdentity, u64>
    decreases s.len(),
{
    if s.len() == 0 {
        Map::empty()
    } else {
        entries_map(s.drop_last()).insert(s.last().0@, s.last().1)
    }
}

/// No two entries of `s` share a stack identity.
pub open spec fn distinct_keys(s: Seq<(StackKey, u64)>) -> bool {
    forall|i: int, j: int| 0 <= i < j < s.len() ==> s[i].0@ != s[j].0@
}

/// An identity is in the map exactly when some entry carries it.
pub proof fn lemma_entries_map_contains(s: Seq<(StackKey, u64)>, k: StackIdentity)
    ensures
        entries_map(s).contains_key(k) <==> (exists|i: int| 0 <= i < s.len() && s[i].0@ == k),
    decreases s.len(),
{
    if s.len() > 0 {
        lemma_entries_map_contains(s.drop_last(), k);
        if s.last().0@ == k {
            assert(s[s.len() - 1].0@ == k);
        } else if entries_map(s.drop_last()).contains_key(k) {
            let i = choose|i: int| 0 <= i < s.drop_last().len() && s.drop_last()[i].0@ == k;
            assert(s[i].0@ == k);
        } else {
            assert forall|i: int| 0 <= i < s.len() implies s[i].0@ != k by {
                if i < s.len() - 1 {
                    assert(s.drop_last()[i] == s[i]);
                }
            }
        }
    }
}

/// With distinct identities, the map sends each entry's identity to that
/// entry's count.
pub proof fn lemma_entries_map_at(s: Seq<(StackKey, u64)>, i: int)
    requires
        distinct_keys(s),
        0 <= i < s.len(),
    ensures
        entries_map(s).contains_key(s[i].0@),
        entries_map(s)[s[i].0@] == s[i].1,
    decreases s.len(),
{
    if i < s.len() - 1 {
        assert(distinct_keys(s.drop_last()));
        assert(s.drop_last()[i] == s[i]);
        lemma_entries_map_at(s.drop_last(), i);
        assert(s.last().0@ != s[i].0@);
    }
}

/// With distinct identities, replacing the count at one index updates the
/// map at exactly that entry's identity.
pub proof fn lemma_entries_map_update(s: Seq<(StackKey, u64)>, i: int, v: u64)
    requires
        distinct_keys(s),
        0 <= i < s.len(),
    ensures
        entries_map(s.update(i, (s[i].0, v))) == entries_map(s).insert(s[i].0@, v),
    decreases s.len(),
{
    let s2 = s.update(i, (s[i].0, v));
    if i == s.len() - 1 {
        assert(s2.drop_last() =~= s.drop_last());
        assert(entries_map(s2) =~= entries_map(s).insert(s[i].0@, v));
    } else {
        assert(distinct_keys(s.drop_last()));
        assert(s.drop_last()[i] == s[i]);
        lemma_entries_map_update(s.drop_last(), i, v);
        assert(s2.drop_last() =~= s.drop_last().update(i, (s[i].0, v)));
        assert(s2.last() == s.last());
        assert(s.last().0@ != s[i].0@);
        assert(entries_map(s2) =~= entries_map(s).insert(s[i].0@, v));
    }
}

/// Appending an entry inserts its identity.
pub proof fn lemma_entries_map_push(s: Seq<(StackKey, u64)>, key: StackKey, v: u64)
    ensures
        entries_map(s.push((key, v))) == entries_map(s).insert(key@, v),
{
    assert(s.push((key, v)).drop_last() =~= s);
    assert(s.push((key, v)).last() == (key, v));
}

/// A count after one more sample: one higher, held at the ceiling of the
/// 64-bit range so that it never wraps and stays monotone.
pub open spec fn sat_inc(c: u64) -> u64 {
    if c < u64::MAX {
        (c + 1) as u64
    } else {
        c
    }
}

/// Counts never decrease: recording any sample keeps every present key
/// present and leaves its count at least as high as before.
pub proof fn lemma_record_monotone(
    pre: Aggregator,
    post: Aggregator,
    k: StackIdentity,
    k2: StackIdentity,
)
    requires
        Aggregator::recorded(pre, post, k),
        pre@.contains_key(k2),
    ensures
        post@.contains_key(k2),
        post@[k2] >= pre@[k2],
{
}

/// Exactness of repeated recording on a pre-existing key: a chain of
/// states, each obtained from the one before by recording the same key `k`,
/// ends with the count of `k` raised by exactly the number of recordings —
/// no update is lost once the entry exists, as long as the count stays
/// within the 64-bit range.
pub proof fn lemma_repeated_record_existing(states: Seq<Aggregator>, k: StackIdentity)
    requires
        states.len() >= 1,
        states[0]@.contains_key(k),
        states[0]@[k] + states.len() - 1 <= u64::MAX,
        forall|i: int|
            0 <= i < states.len() - 1 ==> Aggregator::recorded(
                #[trigger] states[i],
                states[i + 1],
                k,
            ),
    ensures
        states.last()@.contains_key(k),
        states.last()@[k] == states[0]@[k] + states.len() - 1,
    decreases states.len(),
{
    if states.len() > 1 {
        assert(Aggregator::recorded(states[0], states[1], k));
        let rest = states.drop_first();
        assert(rest[0] == states[1]);
        assert(rest.last() == states.last());
        assert(states[1]@[k] == states[0]@[k] + 1);
        assert forall|i: int|
            0 <= i < rest.len() - 1 implies Aggregator::recorded(
            #[trigger] rest[i],
            rest[i + 1],
            k,
        ) by {
            assert(rest[i] == states[i + 1]);
            assert(rest[i + 1] == states[i + 2]);
        }
        lemma_repeated_record_existing(rest, k);
    }
}

/// Exactness of repeated recording on a fresh key: starting from a state
/// without `k` and with room for it, a chain of recordings of `k` ends with
/// its count equal to the number of recordings. (Under truly concurrent
/// first creation the host's insert-if-absent race window may drop at most
/// one sample; that interleaving has no counterpart in this sequential
/// model, where creation is exact.)
pub proof fn lemma_repeated_record_fresh(states: Seq<Aggregator>, k: StackIdentity)
    requires
        states.len() >= 2,
        !states[0]@.contains_key(k),
        states[0].spec_len() < states[0].spec_capacity(),
        states.len() - 1 <= u64::MAX,
        forall|i: int|
            0 <= i < states.len() - 1 ==> Aggregator::recorded(
                #[trigger] states[i],
                states[i + 1],
                k,
            ),
    ensures
        states.last()@.contains_key(k),
        states.last()@[k] == states.len() - 1,
{
    assert(Aggregator::recorded(states[0], states[1], k));
    let rest = states.drop_first();
    assert(rest[0] == states[1]);
    assert(rest.last() == states.last());
    assert(states[1]@[k] == 1);
    assert forall|i: int|
        0 <= i < rest.len() - 1 implies Aggregator::recorded(
        #[trigger] rest[i],
        rest[i + 1],
        k,
    ) by {
        assert(rest[i] == states[i + 1]);
        assert(rest[i + 1] == states[i + 2]);
    }
    lemma_repeated_record_existing(rest, k);
}

/// The fixed-capacity store of per-stack sample counts.
pub struct Aggregator {
    entries: Vec<(StackKey, u64)>,
    capacity: usize,
}

impl View for Aggregator {
    type V = Map<StackIdentity, u64>;

    open spec fn view(&self) -> Map<StackIdentity, u64> {
        entries_map(self.entries_seq())
    }
}

impl Aggregator {
    /// The stored entries, in insertion order.
    pub closed spec fn entries_seq(&self) -> Seq<(StackKey, u64)> {
        self.entries@
    }

    /// The capacity fixed at initialization.
    pub closed spec fn spec_capacity(&self) -> usize {
        self.capacity
    }

    /// Number of keys currently present.
    pub open spec fn spec_len(&self) -> nat {
        self.entries_seq().len()
    }

    /// Well-formedness: within capacity, and at most one entry per identity.
    pub open spec fn wf(&self) -> bool {
        &&& self.entries_seq().len() <= self.spec_capacity()
        &&& distinct_keys(self.entries_seq())
    }

    /// How one recorded sample changes the store: an existing count rises by
    /// one; an absent key enters with count 1 when there is room; otherwise
    /// the sample is dropped and the store is unchanged.
    pub open spec fn recorded(pre: Aggregator, post: Aggregator, k: StackIdentity) -> bool {
        &&& post.spec_capacity() == pre.spec_capacity()
        &&& if pre@.contains_key(k) {
            post@ == pre@.insert(k, sat_inc(pre@[k])) && post.spec_len() == pre.spec_len()
        } else if pre.spec_len() < pre.spec_capacity() {
            post@ == pre@.insert(k, 1u64) && post.spec_len() == pre.spec_len() + 1
        } else {
            post@ == pre@ && post.spec_len() == pre.spec_len()
        }
    }

    /// An empty store whose capacity is fixed for its lifetime.
    pub fn new(capacity: usize) -> (a: Aggregator)
        ensures
            a.wf(),
            a@ == Map::<StackIdentity, u64>::empty(),
            a.spec_len() == 0,
            a.spec_capacity() == capacity,
    {
        Aggregator { entries: Vec::new(), capacity }
    }

    /// Number of keys currently present.
    pub fn len(&self) -> (n: usize)
        ensures
            n == self.spec_len(),
    {
        self.entries.len()
    }

    /// The capacity fixed at initialization.
    pub fn capacity(&self) -> (n: usize)
        ensures
            n == self.spec_capacity(),
    {
        self.capacity
    }

    /// Records one sample for `key`: see [`Self::recorded`] for the exact
    /// effect. Never panics and never allocates beyond the fixed capacity.
    pub fn record(&mut self, key: StackKey)
        requires
            old(self).wf(),
        ensures
            final(self).wf(),
            Aggregator::recorded(*old(self), *final(self), key@),
    {
        let n = self.entries.len();
        let mut i: usize = 0;
        while i < n
            invariant
                *self == *old(self),
                old(self).wf(),
                n == self.entries@.len(),
                i <= n,
                forall|j: int| 0 <= j < i ==> self.entries@[j].0@ != key@,
            decreases n - i,
        {
            if key_eq(&self.entries[i].0, &key) {
                let c = self.entries[i].1;
                let c2 = if c < u64::MAX {
                    c + 1
                } else {
                    c
                };
                let ghost s = self.entries@;
                self.entries[i].1 = c2;
                proof {
                    assert(self.entries@ =~= s.update(i as int, (s[i as int].0, c2)));
                    lemma_entries_map_at(s, i as int);
                    lemma_entries_map_update(s, i as int, c2);
                    assert forall|p: int, q: int|
                        0 <= p < q < self.entries@.len() implies self.entries@[p].0@
                        != self.entries@[q].0@ by {
                        assert(self.entries@[p].0 == s[p].0);
                        assert(self.entries@[q].0 == s[q].0);
                    }
                }
                return;
            }
            i = i + 1;
        }
        proof {
            lemma_entries_map_contains(self.entries@, key@);
        }
        if n < self.capacity {
            let ghost s = self.entries@;
            self.entries.push((key, 1));
            proof {
                lemma_entries_map_push(s, key, 1);
                assert forall|p: int, q: int|
                    0 <= p < q < self.entries@.len() implies self.entries@[p].0@
                    != self.entries@[q].0@ by {
                    if q < s.len() {
                        assert(self.entries@[p].0 == s[p].0);
                        assert(self.entries@[q].0 == s[q].0);
                    } else {
                        assert(self.entries@[p].0 == s[p].0);
                        assert(self.entries@[q].0 == key);
                    }
                }
            }
        }
    }

    /// The count recorded for `key`, or `None` when the key is absent.
    pub fn get(&self, key: &StackKey) -> (r: Option<u64>)
        requires
            self.wf(),
        ensures
            r == (if self@.contains_key(key@) {
                Some(self@[key@])
            } else {
                None::<u64>
            }),
    {
        let n = self.entries.len();
        let mut i: usize = 0;
        while i < n
            invariant
                self.wf(),
                n == self.entries@.len(),
                i <= n,
                forall|j: int| 0 <= j < i ==> self.entries@[j].0@ != key@,
            decreases n - i,
        {
            if key_eq(&self.entries[i].0, &key) {
                proof {
                    lemma_entries_map_at(self.entries@, i as int);
                }
                return Some(self.entries[i].1);
            }
            i = i + 1;
        }
        proof {
            lemma_entries_map_contains(self.entries@, key@);
        }
        None
    }

    /// Reads and clears the store: the external drain operation run between
    /// reporting windows. The returned entries carry pairwise distinct
    /// identities — no two recorded samples ever created two entries for one
    /// key — and denote exactly the drained counts.
    pub fn drain(&mut self) -> (out: Vec<(StackKey, u64)>)
        requires
            old(self).wf(),
        ensures
            final(self).wf(),
            final(self)@ == Map::<StackIdentity, u64>::empty(),
            final(self).spec_len() == 0,
            final(self).spec_capacity() == old(self).spec_capacity(),
            out@.len() == old(self).spec_len(),
            entries_map(out@) == old(self)@,
            distinct_keys(out@),
    {
        let mut out: Vec<(StackKey, u64)> = Vec::new();
        proof {
            assert(out@ + self.entries@ =~= self.entries@);
        }
        while self.entries.len() > 0
            invariant
                out@ + self.entries@ == old(self).entries_seq(),
                self.capacity == old(self).spec_capacity(),
            decreases self.entries@.len(),
        {
            let ghost out_before = out@;
            let ghost rest_before = self.entries@;
            let p = self.entries.remove(0);
            out.push(p);
            proof {
                assert(out@ + self.entries@ =~= out_before + rest_before);
            }
        }
        proof {
            assert(out@ =~= old(self).entries_seq());
        }
        out
    }
}

} // verus!
