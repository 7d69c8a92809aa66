use rust_playground::counted::Heap;
use rust_playground::rc_weak::{
    demonstrate_rc, rc_example, rc_refcell_example, refcell_example, weak_example, Node,
};

#[test]
fn last_of_n_releases_destroys_once() {
    for n in 1..8usize {
        let mut heap: Heap<String> = Heap::new();
        let first = heap.allocate(String::from("shared"));
        let mut owners = Vec::new();
        for _ in 1..n {
            owners.push(heap.clone_owner(&first));
        }
        owners.push(first);
        assert_eq!(heap.strong_count(&owners[0]), n);
        let mut freed = Vec::new();
        while let Some(h) = owners.pop() {
            let left = owners.len();
            let r = heap.release(h);
            if left == 0 {
                assert_eq!(r, Some(String::from("shared")));
            } else {
                assert_eq!(r, None);
                assert_eq!(heap.strong_count(&owners[0]), left);
            }
            freed.push(r);
        }
        assert_eq!(freed.iter().filter(|r| r.is_some()).count(), 1);
    }
}

#[test]
fn observer_after_destroy_is_gone() {
    let mut heap: Heap<i32> = Heap::new();
    let owner = heap.allocate(7);
    let second = heap.clone_owner(&owner);
    let observer = heap.downgrade(&owner);
    assert_eq!(heap.weak_count(&owner), 1);
    assert_eq!(heap.resolve(&observer), Some(&7));
    let temp = heap.upgrade(&observer).expect("value lives");
    assert_eq!(heap.strong_count(&owner), 3);
    assert_eq!(*heap.get(&temp), 7);
    assert_eq!(heap.release(temp), None);
    assert_eq!(heap.release(second), None);
    assert_eq!(heap.release(owner), Some(7));
    assert_eq!(heap.resolve(&observer), None);
    assert!(heap.upgrade(&observer).is_none());
    assert!(heap.upgrade(&observer).is_none());
    heap.release_observer(observer);
}

#[test]
fn observer_keeps_nothing_alive() {
    let mut heap: Heap<Node> = Heap::new();
    let parent = heap.allocate(Node { value: 1, parent: None, children: Vec::new() });
    let observer = heap.downgrade(&parent);
    let child = heap.allocate(Node { value: 2, parent: Some(observer), children: Vec::new() });
    assert_eq!(heap.strong_count(&parent), 1);
    let gone = heap.release(parent).expect("last owner");
    assert_eq!(gone.value, 1);
    let seen = match &heap.get(&child).parent {
        Some(w) => heap.resolve(w).map(|n| n.value),
        None => None,
    };
    assert_eq!(seen, None);
}

#[test]
fn shared_change_seen_by_all_owners() {
    let mut heap: Heap<Vec<i32>> = Heap::new();
    let a = heap.allocate(vec![1]);
    let b = heap.clone_owner(&a);
    heap.get_mut(&b).push(2);
    assert_eq!(heap.get(&a), &vec![1, 2]);
}

#[test]
fn rc_demonstrations_read_fixed_values() {
    let rc = rc_example();
    assert_eq!(rc.value, 42);
    assert_eq!(rc.counts, vec![1, 4, 4, 4, 3, 1]);
    assert_eq!(rc.freed, Some(42));
    let weak = weak_example();
    assert_eq!(weak.parent_strong, 1);
    assert_eq!(weak.parent_strong_with_child, 1);
    assert_eq!(weak.parent_weak_with_child, 1);
    assert_eq!(weak.parent_value_seen, Some(1));
    let cell = refcell_example();
    assert_eq!(cell.initial, 42);
    assert_eq!(cell.shared_reads, (42, 42));
    assert_eq!(cell.after_write, 100);
    let shared = rc_refcell_example();
    assert_eq!(shared.initial, vec![1, 2, 3]);
    assert_eq!(shared.after_first_push, vec![1, 2, 3, 4]);
    assert_eq!(shared.after_second_push, vec![1, 2, 3, 4, 5]);
    assert_eq!(shared.seen_by_third, vec![1, 2, 3, 4, 5]);
    let all = demonstrate_rc();
    assert_eq!(all.counting.counts, rc.counts);
    assert_eq!(all.shared.seen_by_third, shared.seen_by_third);
}
