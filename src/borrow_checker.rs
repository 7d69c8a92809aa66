//! Borrowing rules: many readers or one writer, moves that hand a value on,
//! and borrows that are checked when they are requested.
use vstd::prelude::*;
use crate::guarded::GuardedCell;

verus! {

pub struct Data {
    pub value: i32,
}

/// Two shared borrows read the value, then an exclusive one changes it.
/// Gives the two reads and the value after the change.
pub fn borrowing_rules() -> (r: (i32, i32, i32))
    ensures
        r == (42i32, 42i32, 100i32),
{
    let mut data = Data { value: 42 };
    let r1 = &data;
    let r2 = &data;
    let first = r1.value;
    let second = r2.value;
    let r3 = &mut data;
    r3.value = 100;
    (first, second, r3.value)
}

/// A value that goes out of scope takes its borrows with it: nothing can
/// refer to it afterwards.
pub fn no_dangling_references() {
    let _data = Data { value: 42 };
}

/// Hands a value to a new owner and reads it there.
pub fn move_semantics() -> (r: i32)
    ensures
        r == 42,
{
    let data1 = Data { value: 42 };
    let data2 = data1;
    data2.value
}

/// Two shared borrows of a checked cell, given back, then its exclusive
/// borrow to change it. Gives the two reads and the value after the change.
pub fn interior_mutability_example() -> (r: (i32, i32, i32))
    ensures
        r == (42i32, 42i32, 100i32),
{
    let mut data = GuardedCell::new(Data { value: 42 });
    data.try_borrow().unwrap();
    data.try_borrow().unwrap();
    let first = data.get().value;
    let second = data.get().value;
    data.end_borrow();
    data.end_borrow();

    data.try_borrow_mut().unwrap();
    data.get_mut().value = 100;
    let after = data.get().value;
    data.end_borrow_mut();
    (first, second, after)
}

/// What each rule's demonstration read.
pub struct BorrowReport {
    pub rules: (i32, i32, i32),
    pub moved: i32,
    pub interior: (i32, i32, i32),
}

pub fn demonstrate_borrow_checker() -> (r: BorrowReport)
    ensures
        r.rules == (42i32, 42i32, 100i32),
        r.moved == 42,
        r.interior == (42i32, 42i32, 100i32),
{
    let rules = borrowing_rules();
    no_dangling_references();
    let moved = move_semantics();
    let interior = interior_mutability_example();
    BorrowReport { rules, moved, interior }
}

} // verus!
