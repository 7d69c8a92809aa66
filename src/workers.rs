//! Workers that each append one value of their own to a shared list, in
//! whatever order they happen to run.
use vstd::prelude::*;

verus! {

/// The value that worker `w` appends.
pub open spec fn value_of(w: int) -> int {
    w + 10
}

/// Workers numbered below `n` whose values fit in an `i32`.
pub open spec fn workers_fit(n: int) -> bool {
    value_of(n) <= i32::MAX
}

/// An order in which the workers `0..n` each run exactly once.
pub open spec fn is_schedule(order: Seq<usize>, n: nat) -> bool {
    &&& order.len() == n
    &&& order.no_duplicates()
    &&& forall|i: int| 0 <= i < order.len() ==> order[i] < n
}

/// The list after the workers ran in `order` on `initial`.
pub open spec fn after_appends(initial: Seq<i32>, order: Seq<usize>) -> Seq<i32> {
    initial + order.map_values(|w: usize| value_of(w as int) as i32)
}

/// A final list that `n` workers can leave behind from `initial`: the
/// initial values unchanged in front, then one value of each worker, every
/// value once.
pub open spec fn is_outcome(initial: Seq<i32>, fin: Seq<i32>, n: nat) -> bool {
    &&& fin.len() == initial.len() + n
    &&& fin.subrange(0, initial.len() as int) == initial
    &&& forall|p: int|
        initial.len() <= p < fin.len() ==> 0 <= #[trigger] fin[p] - 10 < n
    &&& forall|p: int, q: int|
        initial.len() <= p < fin.len() && initial.len() <= q < fin.len() && #[trigger] fin[p]
            == #[trigger] fin[q] ==> p == q
}

/// Whether the part of `fin` after the initial values holds the value of
/// worker `w`.
pub open spec fn holds_value_of(initial: Seq<i32>, fin: Seq<i32>, w: usize) -> bool {
    fin.subrange(initial.len() as int, fin.len() as int).contains(value_of(w as int) as i32)
}

pub fn worker_value(worker: usize) -> (r: i32)
    requires
        workers_fit(worker as int),
    ensures
        r == value_of(worker as int),
{
    worker as i32 + 10
}

/// What one worker does while it holds the list: appends its value.
pub fn worker_append(shared: &mut Vec<i32>, worker: usize)
    requires
        workers_fit(worker as int),
    ensures
        final(shared)@ == old(shared)@.push(value_of(worker as int) as i32),
{
    shared.push(worker_value(worker));
}

/// Runs the workers one after another in `order`.
pub fn run_schedule(shared: &mut Vec<i32>, order: &Vec<usize>)
    requires
        forall|i: int| 0 <= i < order@.len() ==> workers_fit(#[trigger] order@[i] as int),
    ensures
        final(shared)@ == after_appends(old(shared)@, order@),
{
    let ghost initial = shared@;
    let mut k: usize = 0;
    while k < order.len()
        invariant
            k <= order@.len(),
            forall|i: int| 0 <= i < order@.len() ==> workers_fit(#[trigger] order@[i] as int),
            shared@ == after_appends(initial, order@.subrange(0, k as int)),
        decreases order@.len() - k,
    {
        worker_append(shared, order[k]);
        proof {
            assert(order@.subrange(0, k + 1) =~= order@.subrange(0, k as int).push(order@[k as int]));
            assert(shared@ =~= after_appends(initial, order@.subrange(0, k + 1)));
        }
        k = k + 1;
    }
    proof {
        assert(order@.subrange(0, k as int) =~= order@);
    }
}

/// Whether `fin` is a list that `n` workers can leave behind from `initial`.
pub fn check_outcome(initial: &Vec<i32>, fin: &Vec<i32>, n: usize) -> (r: bool)
    ensures
        r == is_outcome(initial@, fin@, n as nat),
{
    if fin.len() < initial.len() || fin.len() - initial.len() != n {
        return false;
    }
    let start = initial.len();
    let mut i: usize = 0;
    while i < start
        invariant
            start == initial@.len(),
            fin@.len() == start + n,
            i <= start,
            forall|j: int| 0 <= j < i ==> fin@[j] == initial@[j],
        decreases start - i,
    {
        if fin[i] != initial[i] {
            proof {
                assert(fin@.subrange(0, start as int)[i as int] != initial@[i as int]);
            }
            return false;
        }
        i = i + 1;
    }
    proof {
        assert(fin@.subrange(0, start as int) =~= initial@);
    }
    let mut p: usize = start;
    while p < fin.len()
        invariant
            start == initial@.len(),
            fin@.len() == start + n,
            start <= p <= fin@.len(),
            fin@.subrange(0, start as int) == initial@,
            forall|a: int| start <= a < p ==> 0 <= #[trigger] fin@[a] - 10 < n,
            forall|a: int, b: int|
                start <= a < p && start <= b < p && #[trigger] fin@[a] == #[trigger] fin@[b] ==> a
                    == b,
        decreases fin@.len() - p,
    {
        let x = fin[p];
        if x < 10 || (x - 10) as usize >= n {
            return false;
        }
        let mut q: usize = start;
        while q < p
            invariant
                start == initial@.len(),
                fin@.len() == start + n,
                start <= q <= p < fin@.len(),
                x == fin@[p as int],
                forall|b: int| start <= b < q ==> fin@[b] != x,
            decreases p - q,
        {
            if fin[q] == x {
                proof {
                    assert(fin@[q as int] == fin@[p as int] && q != p);
                }
                return false;
            }
            q = q + 1;
        }
        p = p + 1;
    }
    true
}

/// Workers `0..n` run in any order on any initial list: the list grows by
/// exactly `n`, keeps its initial values in front, and holds after them the
/// value of every worker exactly once and nothing else.
pub proof fn lemma_any_schedule_outcome(initial: Seq<i32>, order: Seq<usize>, n: nat)
    requires
        is_schedule(order, n),
        workers_fit(n as int),
    ensures
        is_outcome(initial, after_appends(initial, order), n),
        forall|w: usize| w < n ==> #[trigger] holds_value_of(initial, after_appends(initial, order), w),
{
    let fin = after_appends(initial, order);
    let s = initial.len() as int;
    assert(fin.subrange(0, s) =~= initial);
    assert forall|p: int, q: int|
        s <= p < fin.len() && s <= q < fin.len() && #[trigger] fin[p] == #[trigger] fin[q] implies p
        == q by {
        assert(fin[p] == value_of(order[p - s] as int));
        assert(fin[q] == value_of(order[q - s] as int));
    }
    lemma_schedule_covers(order, n);
    assert forall|w: usize| w < n implies #[trigger] holds_value_of(initial, fin, w) by {
        assert(order.contains(w));
        let i = choose|i: int| 0 <= i < order.len() && order[i] == w;
        assert(fin.subrange(s, fin.len() as int)[i] == value_of(w as int));
    }
}

/// A schedule of `n` workers runs each of them.
proof fn lemma_schedule_covers(order: Seq<usize>, n: nat)
    requires
        is_schedule(order, n),
    ensures
        forall|w: usize| w < n ==> #[trigger] order.contains(w),
{
    let ints = order.map_values(|w: usize| w as int);
    assert(ints.no_duplicates()) by {
        assert forall|a: int, b: int|
            0 <= a < ints.len() && 0 <= b < ints.len() && a != b implies ints[a] != ints[b] by {
            assert(order[a] != order[b]);
        }
    }
    ints.unique_seq_to_set();
    let range = vstd::set_lib::set_int_range(0, n as int);
    vstd::set_lib::lemma_int_range(0, n as int);
    assert(ints.to_set().subset_of(range));
    vstd::set_lib::lemma_len_subset(ints.to_set(), range);
    vstd::set_lib::lemma_subset_equality(ints.to_set(), range);
    assert forall|w: usize| w < n implies #[trigger] order.contains(w) by {
        assert(range.contains(w as int));
        assert(ints.to_set().contains(w as int));
        let i = choose|i: int| 0 <= i < ints.len() && ints[i] == w as int;
        assert(order[i] == w);
    }
}

} // verus!
