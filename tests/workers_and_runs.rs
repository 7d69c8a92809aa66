use rust_playground::comparison::{
    demonstrate_comparisons, heap_allocation, make_objects, memory_comparison, stack_allocation,
};
use rust_playground::demonstrate_all;
use rust_playground::workers::{check_outcome, run_schedule, worker_append, worker_value};

#[test]
fn three_workers_any_order() {
    let orders = [[0usize, 1, 2], [0, 2, 1], [1, 0, 2], [1, 2, 0], [2, 0, 1], [2, 1, 0]];
    for order in orders.iter() {
        let mut shared = vec![1, 2, 3];
        run_schedule(&mut shared, &order.to_vec());
        assert_eq!(shared.len(), 6);
        assert_eq!(&shared[..3], &[1, 2, 3]);
        let mut appended = shared[3..].to_vec();
        appended.sort();
        assert_eq!(appended, vec![10, 11, 12]);
        assert!(check_outcome(&vec![1, 2, 3], &shared, 3));
    }
}

#[test]
fn outcome_check_refuses_bad_lists() {
    let initial = vec![1, 2, 3];
    assert!(check_outcome(&initial, &vec![1, 2, 3, 12, 10, 11], 3));
    assert!(!check_outcome(&initial, &vec![1, 2, 3, 10, 11], 3));
    assert!(!check_outcome(&initial, &vec![1, 2, 3, 10, 10, 11], 3));
    assert!(!check_outcome(&initial, &vec![1, 2, 4, 10, 11, 12], 3));
    assert!(!check_outcome(&initial, &vec![1, 2, 3, 10, 11, 13], 3));
    assert!(!check_outcome(&initial, &vec![1, 2, 3, 9, 10, 11], 3));
    assert!(!check_outcome(&initial, &vec![1, 2], 0));
    assert!(check_outcome(&vec![], &vec![], 0));
}

#[test]
fn worker_appends_its_value() {
    assert_eq!(worker_value(0), 10);
    assert_eq!(worker_value(2), 12);
    let mut shared = vec![1];
    worker_append(&mut shared, 1);
    assert_eq!(shared, vec![1, 11]);
}

#[test]
fn comparisons_read_fixed_values() {
    assert_eq!(stack_allocation(), (42, 100));
    let (x, y) = heap_allocation();
    assert_eq!((*x, *y), (42, 100));
    let objects = make_objects(3, 4);
    assert_eq!(objects.len(), 3);
    assert_eq!(objects[2].id, 2);
    assert_eq!(objects[1].data, vec![0u8; 4]);
    assert!(make_objects(0, 4).is_empty());
    let memory = memory_comparison();
    assert_eq!(memory.objects, 10);
    assert_eq!(memory.total_bytes, 10240);
    let report = demonstrate_comparisons();
    assert_eq!(report.stack, (42, 100));
    assert_eq!(report.heap, (42, 100));
    assert_eq!(report.memory.total_bytes, 10240);
}

#[test]
fn two_runs_read_the_same() {
    let first = demonstrate_all();
    let second = demonstrate_all();
    assert_eq!(first.borrows.rules, second.borrows.rules);
    assert_eq!(first.borrows.moved, second.borrows.moved);
    assert_eq!(first.borrows.interior, second.borrows.interior);
    assert_eq!(first.comparisons.memory.total_bytes, second.comparisons.memory.total_bytes);
    assert_eq!(first.shared.counting.counts, second.shared.counting.counts);
    assert_eq!(first.shared.shared.seen_by_third, second.shared.shared.seen_by_third);
    assert_eq!(first.shared.observing.parent_value_seen, second.shared.observing.parent_value_seen);
}
