use cpu_profiler::aggregate::{key_eq, Aggregator, StackCountKey, StackKey};

fn fb(pid: u32, user: i32, kernel: i32) -> StackKey {
    StackKey::Fallback {
        key: StackCountKey {
            pid,
            user_stack_id: user,
            kernel_stack_id: kernel,
        },
    }
}

fn td(pid: u32, pcs: Vec<u64>) -> StackKey {
    StackKey::TableDriven { pid, pcs }
}

#[test]
fn record_creates_with_one_then_increments() {
    let mut a = Aggregator::new(16);
    assert_eq!(a.get(&fb(1, 2, 3)), None);
    a.record(fb(1, 2, 3));
    assert_eq!(a.get(&fb(1, 2, 3)), Some(1));
    a.record(fb(1, 2, 3));
    a.record(fb(1, 2, 3));
    assert_eq!(a.get(&fb(1, 2, 3)), Some(3));
    assert_eq!(a.len(), 1);
}

#[test]
fn record_distinguishes_identities() {
    let mut a = Aggregator::new(16);
    a.record(fb(1, 2, 3));
    a.record(fb(1, 2, 4));
    a.record(fb(2, 2, 3));
    a.record(td(1, vec![10, 20, 0]));
    a.record(td(1, vec![10, 20, 0]));
    a.record(td(1, vec![10, 21, 0]));
    a.record(td(2, vec![10, 20, 0]));
    assert_eq!(a.len(), 6);
    assert_eq!(a.get(&fb(1, 2, 3)), Some(1));
    assert_eq!(a.get(&td(1, vec![10, 20, 0])), Some(2));
    assert_eq!(a.get(&td(1, vec![10, 21, 0])), Some(1));
    assert_eq!(a.get(&td(2, vec![10, 20, 0])), Some(1));
}

#[test]
fn no_two_entries_for_one_key() {
    let mut a = Aggregator::new(8);
    for _ in 0..5 {
        a.record(td(9, vec![1, 2, 3]));
        a.record(fb(9, 1, 2));
    }
    assert_eq!(a.len(), 2);
    let entries = a.drain();
    assert_eq!(entries.len(), 2);
    for i in 0..entries.len() {
        for j in (i + 1)..entries.len() {
            assert!(!key_eq(&entries[i].0, &entries[j].0));
        }
    }
}

#[test]
fn full_aggregator_drops_new_key_silently() {
    // Capacity 1, two distinct keys: the second record is a no-op and the
    // first key's count stays correct.
    let mut a = Aggregator::new(1);
    a.record(fb(1, 10, 20));
    a.record(fb(2, 10, 20));
    assert_eq!(a.len(), 1);
    assert_eq!(a.get(&fb(1, 10, 20)), Some(1));
    assert_eq!(a.get(&fb(2, 10, 20)), None);
    // The present key still counts up while the store is full.
    a.record(fb(1, 10, 20));
    assert_eq!(a.get(&fb(1, 10, 20)), Some(2));
}

#[test]
fn zero_capacity_aggregator_stays_empty() {
    let mut a = Aggregator::new(0);
    a.record(fb(1, 2, 3));
    assert_eq!(a.len(), 0);
    assert_eq!(a.get(&fb(1, 2, 3)), None);
}

#[test]
fn drain_reads_and_clears() {
    let mut a = Aggregator::new(4);
    a.record(fb(1, 2, 3));
    a.record(fb(1, 2, 3));
    a.record(td(5, vec![7, 0]));
    let entries = a.drain();
    assert_eq!(entries.len(), 2);
    let mut seen_fb = false;
    let mut seen_td = false;
    for (key, count) in &entries {
        if key_eq(key, &fb(1, 2, 3)) {
            assert_eq!(*count, 2);
            seen_fb = true;
        } else if key_eq(key, &td(5, vec![7, 0])) {
            assert_eq!(*count, 1);
            seen_td = true;
        }
    }
    assert!(seen_fb && seen_td);
    // The store is empty again but keeps its capacity.
    assert_eq!(a.len(), 0);
    assert_eq!(a.capacity(), 4);
    assert_eq!(a.get(&fb(1, 2, 3)), None);
    a.record(fb(1, 2, 3));
    assert_eq!(a.get(&fb(1, 2, 3)), Some(1));
}

#[test]
fn key_eq_compares_identities_not_representation() {
    assert!(key_eq(&fb(1, 2, 3), &fb(1, 2, 3)));
    assert!(!key_eq(&fb(1, 2, 3), &fb(1, 2, 4)));
    assert!(key_eq(&td(1, vec![5, 6]), &td(1, vec![5, 6])));
    assert!(!key_eq(&td(1, vec![5, 6]), &td(1, vec![5, 7])));
    assert!(!key_eq(&td(1, vec![5, 6]), &td(1, vec![5, 6, 0])));
    assert!(!key_eq(&td(1, vec![]), &fb(1, 0, 0)));
}
