//! Ownership, borrowing, shared ownership and runtime-checked mutability,
//! each shown by a small demonstration whose readings are proved.
use vstd::prelude::*;
use crate::borrow_checker::{BorrowReport, demonstrate_borrow_checker};
use crate::comparison::{ComparisonReport, OBJECT_BYTES, OBJECT_COUNT, demonstrate_comparisons};
use crate::rc_weak::{RcDemo, demonstrate_rc, is_rc_demo};

pub mod borrow_checker;
pub mod comparison;
pub mod counted;
pub mod guarded;
pub mod rc_weak;
pub mod workers;

verus! {

/// The readings of the whole sequence of demonstrations but the threaded one.
pub struct Demonstration {
    pub borrows: BorrowReport,
    pub comparisons: ComparisonReport,
    pub shared: RcDemo,
}

/// Everything the sequence reads, as it always reads it.
pub open spec fn is_demonstration(d: &Demonstration) -> bool {
    &&& d.borrows.rules == (42i32, 42i32, 100i32)
    &&& d.borrows.moved == 42
    &&& d.borrows.interior == (42i32, 42i32, 100i32)
    &&& d.comparisons.stack == (42i32, 100i32)
    &&& d.comparisons.heap == (42i32, 100i32)
    &&& d.comparisons.memory.objects == OBJECT_COUNT
    &&& d.comparisons.memory.total_bytes == OBJECT_COUNT * OBJECT_BYTES
    &&& is_rc_demo(&d.shared)
}

/// Whether two runs read the same counts, values and final states.
pub open spec fn same_readings(a: &Demonstration, b: &Demonstration) -> bool {
    &&& a.borrows == b.borrows
    &&& a.comparisons.stack == b.comparisons.stack
    &&& a.comparisons.heap == b.comparisons.heap
    &&& a.comparisons.memory == b.comparisons.memory
    &&& a.shared.counting.value == b.shared.counting.value
    &&& a.shared.counting.counts@ == b.shared.counting.counts@
    &&& a.shared.counting.freed == b.shared.counting.freed
    &&& a.shared.observing == b.shared.observing
    &&& a.shared.checked == b.shared.checked
    &&& a.shared.shared.initial@ == b.shared.shared.initial@
    &&& a.shared.shared.after_first_push@ == b.shared.shared.after_first_push@
    &&& a.shared.shared.after_second_push@ == b.shared.shared.after_second_push@
    &&& a.shared.shared.seen_by_third@ == b.shared.shared.seen_by_third@
}

/// Runs the demonstrations in their fixed order.
pub fn demonstrate_all() -> (r: Demonstration)
    ensures
        is_demonstration(&r),
{
    let borrows = demonstrate_borrow_checker();
    let comparisons = demonstrate_comparisons();
    let shared = demonstrate_rc();
    Demonstration { borrows, comparisons, shared }
}

/// Running the sequence twice gives two runs that read the same counts,
/// values and final states.
pub proof fn lemma_runs_agree(first: &Demonstration, second: &Demonstration)
    requires
        is_demonstration(first),
        is_demonstration(second),
    ensures
        same_readings(first, second),
{
}

} // verus!
