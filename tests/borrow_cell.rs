use rust_playground::borrow_checker::{
    borrowing_rules, demonstrate_borrow_checker, interior_mutability_example, move_semantics,
    no_dangling_references,
};
use rust_playground::guarded::{BorrowError, GuardedCell};

#[test]
fn sequential_cycles_never_fail() {
    let mut cell = GuardedCell::new(5i32);
    for round in 0..100 {
        assert_eq!(cell.try_borrow(), Ok(()));
        assert_eq!(*cell.get(), 5 + round);
        cell.end_borrow();
        assert_eq!(cell.try_borrow_mut(), Ok(()));
        *cell.get_mut() += 1;
        cell.end_borrow_mut();
        assert_eq!(cell.readers(), 0);
        assert!(!cell.is_writing());
    }
    assert_eq!(cell.into_inner(), 105);
}

#[test]
fn exclusive_refused_while_read() {
    let mut cell = GuardedCell::new(1i32);
    assert_eq!(cell.try_borrow(), Ok(()));
    assert_eq!(cell.try_borrow(), Ok(()));
    assert_eq!(cell.try_borrow_mut(), Err(BorrowError::ReadersActive));
    assert_eq!(cell.readers(), 2);
    assert!(!cell.is_writing());
    cell.end_borrow();
    assert_eq!(cell.try_borrow_mut(), Err(BorrowError::ReadersActive));
    cell.end_borrow();
    assert_eq!(cell.try_borrow_mut(), Ok(()));
}

#[test]
fn any_borrow_refused_while_written() {
    let mut cell = GuardedCell::new(vec![1i32]);
    assert_eq!(cell.try_borrow_mut(), Ok(()));
    assert_eq!(cell.try_borrow(), Err(BorrowError::WriterActive));
    assert_eq!(cell.try_borrow_mut(), Err(BorrowError::WriterActive));
    cell.get_mut().push(2);
    assert_eq!(cell.get(), &vec![1, 2]);
    cell.end_borrow_mut();
    assert_eq!(cell.try_borrow(), Ok(()));
    assert_eq!(cell.get(), &vec![1, 2]);
}

#[test]
fn borrow_rules_read_and_write() {
    assert_eq!(borrowing_rules(), (42, 42, 100));
    assert_eq!(move_semantics(), 42);
    assert_eq!(interior_mutability_example(), (42, 42, 100));
    no_dangling_references();
    let report = demonstrate_borrow_checker();
    assert_eq!(report.rules, (42, 42, 100));
    assert_eq!(report.moved, 42);
    assert_eq!(report.interior, (42, 42, 100));
}
