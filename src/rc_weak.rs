//! Shared ownership with counted owners, observers that keep nothing alive,
//! and a shared list changed through any of its owners.
use vstd::prelude::*;
use crate::counted::{Heap, Observer, Owner, SlotView, lemma_value_changed};
use crate::guarded::{GuardedCell, idle};

verus! {

/// A tree node: it owns its children and only observes its parent, so no
/// ownership cycle can form.
pub struct Node {
    pub value: i32,
    pub parent: Option<Observer>,
    pub children: Vec<Owner>,
}

/// Owner counts of a value with four owners, two of them released.
pub struct RcReport {
    pub value: i32,
    /// The owner count: at first, as seen by each of three new owners, after
    /// one of them is released, after all three are.
    pub counts: Vec<usize>,
    /// What releasing the first owner, the last one left, hands back.
    pub freed: Option<i32>,
}

pub fn rc_example() -> (r: RcReport)
    ensures
        r.value == 42,
        r.counts@ == seq![1usize, 4, 4, 4, 3, 1],
        r.freed == Some(42i32),
{
    let mut heap: Heap<i32> = Heap::new();
    let data = heap.allocate(42);
    let value = *heap.get(&data);
    let mut counts: Vec<usize> = Vec::new();
    counts.push(heap.strong_count(&data));
    let ref1 = heap.clone_owner(&data);
    let ref2 = heap.clone_owner(&data);
    let ref3 = heap.clone_owner(&data);
    counts.push(heap.strong_count(&ref1));
    counts.push(heap.strong_count(&ref2));
    counts.push(heap.strong_count(&ref3));
    let _ = heap.release(ref1);
    counts.push(heap.strong_count(&data));
    let _ = heap.release(ref2);
    let _ = heap.release(ref3);
    counts.push(heap.strong_count(&data));
    let freed = heap.release(data);
    proof {
        assert(counts@ =~= seq![1usize, 4, 4, 4, 3, 1]);
    }
    RcReport { value, counts, freed }
}

/// Counts of a parent that a child observes, and what the child sees of it.
pub struct WeakReport {
    pub parent_strong: usize,
    pub parent_strong_with_child: usize,
    pub parent_weak_with_child: usize,
    pub parent_value_seen: Option<i32>,
}

pub fn weak_example() -> (r: WeakReport)
    ensures
        r.parent_strong == 1,
        r.parent_strong_with_child == 1,
        r.parent_weak_with_child == 1,
        r.parent_value_seen == Some(1i32),
{
    let mut heap: Heap<Node> = Heap::new();
    let parent = heap.allocate(Node { value: 1, parent: None, children: Vec::new() });
    let parent_strong = heap.strong_count(&parent);
    let observer = heap.downgrade(&parent);
    let child = heap.allocate(Node { value: 2, parent: Some(observer), children: Vec::new() });
    let parent_strong_with_child = heap.strong_count(&parent);
    let parent_weak_with_child = heap.weak_count(&parent);
    let child_node = heap.get(&child);
    let parent_value_seen = match &child_node.parent {
        Some(w) => match heap.resolve(w) {
            Some(node) => Some(node.value),
            None => None,
        },
        None => None,
    };
    WeakReport { parent_strong, parent_strong_with_child, parent_weak_with_child, parent_value_seen }
}

/// Reads through a cell with runtime-checked borrows.
pub struct RefCellReport {
    pub initial: i32,
    pub shared_reads: (i32, i32),
    pub after_write: i32,
}

pub fn refcell_example() -> (r: RefCellReport)
    ensures
        r.initial == 42,
        r.shared_reads == (42i32, 42i32),
        r.after_write == 100,
{
    let mut data = GuardedCell::new(42i32);
    data.try_borrow().unwrap();
    let initial = *data.get();
    data.end_borrow();

    data.try_borrow().unwrap();
    data.try_borrow().unwrap();
    let first = *data.get();
    let second = *data.get();
    data.end_borrow();
    data.end_borrow();

    data.try_borrow_mut().unwrap();
    *data.get_mut() = 100;
    let after_write = *data.get();
    data.end_borrow_mut();
    RefCellReport { initial, shared_reads: (first, second), after_write }
}

/// A shared list in slot `i` of `s`, with no borrow outstanding.
pub open spec fn holds_idle_list(s: Seq<SlotView<GuardedCell<Vec<i32>>>>, i: int) -> bool {
    &&& 0 <= i < s.len()
    &&& s[i].value is Some
    &&& s[i].value->0.state() == idle()
    &&& s[i].value->0.wf()
}

/// The list in slot `i` of `s`.
pub open spec fn list_in(s: Seq<SlotView<GuardedCell<Vec<i32>>>>, i: int) -> Seq<i32> {
    s[i].value->0.value()@
}

/// Appends `x` to the shared list that `h` owns, under its exclusive borrow.
fn push_through(heap: &mut Heap<GuardedCell<Vec<i32>>>, h: &Owner, x: i32)
    requires
        old(heap).wf(),
        old(heap).owns(h),
        holds_idle_list(old(heap)@, h.slot() as int),
    ensures
        final(heap).wf(),
        final(heap)@.len() == old(heap)@.len(),
        holds_idle_list(final(heap)@, h.slot() as int),
        list_in(final(heap)@, h.slot() as int) == list_in(old(heap)@, h.slot() as int).push(x),
        final(heap)@[h.slot() as int].strong == old(heap)@[h.slot() as int].strong,
{
    let cell = heap.get_mut(h);
    cell.try_borrow_mut().unwrap();
    cell.get_mut().push(x);
    cell.end_borrow_mut();
    proof {
        lemma_value_changed(old(heap)@, h.slot() as int, *cell);
    }
}

/// A copy of the shared list that `h` owns, read under a shared borrow.
fn snapshot(heap: &mut Heap<GuardedCell<Vec<i32>>>, h: &Owner) -> (r: Vec<i32>)
    requires
        old(heap).wf(),
        old(heap).owns(h),
        holds_idle_list(old(heap)@, h.slot() as int),
    ensures
        r@ == list_in(old(heap)@, h.slot() as int),
        final(heap).wf(),
        final(heap)@.len() == old(heap)@.len(),
        holds_idle_list(final(heap)@, h.slot() as int),
        list_in(final(heap)@, h.slot() as int) == list_in(old(heap)@, h.slot() as int),
        final(heap)@[h.slot() as int].strong == old(heap)@[h.slot() as int].strong,
{
    let cell = heap.get_mut(h);
    cell.try_borrow().unwrap();
    let list = cell.get();
    let mut r: Vec<i32> = Vec::new();
    let mut k: usize = 0;
    while k < list.len()
        invariant
            k <= list@.len(),
            r@ == list@.subrange(0, k as int),
        decreases list@.len() - k,
    {
        r.push(list[k]);
        proof {
            assert(r@ =~= list@.subrange(0, k + 1));
        }
        k = k + 1;
    }
    proof {
        assert(r@ =~= list@);
    }
    cell.end_borrow();
    proof {
        lemma_value_changed(old(heap)@, h.slot() as int, *cell);
    }
    r
}

/// The shared list as read after each change, and once more through a third
/// owner.
pub struct SharedListReport {
    pub initial: Vec<i32>,
    pub after_first_push: Vec<i32>,
    pub after_second_push: Vec<i32>,
    pub seen_by_third: Vec<i32>,
}

pub fn rc_refcell_example() -> (r: SharedListReport)
    ensures
        r.initial@ == seq![1i32, 2, 3],
        r.after_first_push@ == seq![1i32, 2, 3, 4],
        r.after_second_push@ == seq![1i32, 2, 3, 4, 5],
        r.seen_by_third@ == seq![1i32, 2, 3, 4, 5],
{
    let mut heap: Heap<GuardedCell<Vec<i32>>> = Heap::new();
    let data = heap.allocate(GuardedCell::new(vec![1i32, 2, 3]));
    let ref1 = heap.clone_owner(&data);
    let ref2 = heap.clone_owner(&data);
    let ref3 = heap.clone_owner(&data);
    let initial = snapshot(&mut heap, &data);
    push_through(&mut heap, &ref1, 4);
    let after_first_push = snapshot(&mut heap, &data);
    push_through(&mut heap, &ref2, 5);
    let after_second_push = snapshot(&mut heap, &data);
    let seen_by_third = snapshot(&mut heap, &ref3);
    proof {
        assert(after_first_push@ =~= seq![1i32, 2, 3, 4]);
        assert(after_second_push@ =~= seq![1i32, 2, 3, 4, 5]);
    }
    SharedListReport { initial, after_first_push, after_second_push, seen_by_third }
}

} // verus!

verus! {

/// What the single-threaded shared-ownership demonstrations read.
pub struct RcDemo {
    pub counting: RcReport,
    pub observing: WeakReport,
    pub checked: RefCellReport,
    pub shared: SharedListReport,
}

/// Everything that the shared-ownership demonstrations read, as they always
/// read it.
pub open spec fn is_rc_demo(r: &RcDemo) -> bool {
    &&& r.counting.value == 42
    &&& r.counting.counts@ == seq![1usize, 4, 4, 4, 3, 1]
    &&& r.counting.freed == Some(42i32)
    &&& r.observing.parent_strong == 1
    &&& r.observing.parent_strong_with_child == 1
    &&& r.observing.parent_weak_with_child == 1
    &&& r.observing.parent_value_seen == Some(1i32)
    &&& r.checked.initial == 42
    &&& r.checked.shared_reads == (42i32, 42i32)
    &&& r.checked.after_write == 100
    &&& r.shared.initial@ == seq![1i32, 2, 3]
    &&& r.shared.after_first_push@ == seq![1i32, 2, 3, 4]
    &&& r.shared.after_second_push@ == seq![1i32, 2, 3, 4, 5]
    &&& r.shared.seen_by_third@ == seq![1i32, 2, 3, 4, 5]
}

pub fn demonstrate_rc() -> (r: RcDemo)
    ensures
        is_rc_demo(&r),
{
    let counting = rc_example();
    let observing = weak_example();
    let checked = refcell_example();
    let shared = rc_refcell_example();
    RcDemo { counting, observing, checked, shared }
}

} // verus!
