//! Values with several owners: each value lives in a slot of a `Heap` that
//! counts its owners and its observers. The value is destroyed when its last
//! owner is released; an observer can then only report that it is gone.
use vstd::prelude::*;

verus! {

/// One slot as seen in contracts: the value while it lives, its owner count
/// and its observer count.
pub struct SlotView<T> {
    pub value: Option<T>,
    pub strong: nat,
    pub weak: nat,
}

pub open spec fn slot_wf<T>(s: SlotView<T>) -> bool {
    s.value is Some <==> s.strong > 0
}

/// The slot after one owner is released.
pub open spec fn released<T>(s: SlotView<T>) -> SlotView<T> {
    if s.strong == 1 {
        SlotView { value: None, strong: 0, weak: s.weak }
    } else {
        SlotView { strong: (s.strong - 1) as nat, ..s }
    }
}

/// What releasing one owner hands back: the value, exactly when that owner
/// was the last.
pub open spec fn release_gives<T>(s: SlotView<T>) -> Option<T> {
    if s.strong == 1 {
        s.value
    } else {
        None
    }
}

/// Whether an observer of the slot resolves to an owner.
pub open spec fn resolves<T>(s: SlotView<T>) -> bool {
    s.value is Some
}

/// The slot after `k` owners are released one after another.
pub open spec fn released_n<T>(s: SlotView<T>, k: nat) -> SlotView<T>
    decreases k,
{
    if k == 0 {
        s
    } else {
        released(released_n(s, (k - 1) as nat))
    }
}

struct Slot<T> {
    value: Option<T>,
    strong: usize,
    weak: usize,
}

impl<T> Slot<T> {
    spec fn view(&self) -> SlotView<T> {
        SlotView { value: self.value, strong: self.strong as nat, weak: self.weak as nat }
    }
}

/// An owning handle: while it is held, the value of its slot lives.
pub struct Owner {
    index: usize,
}

/// A non-owning handle: it keeps no value alive.
pub struct Observer {
    index: usize,
}

impl Owner {
    pub closed spec fn slot(&self) -> nat {
        self.index as nat
    }
}

impl Observer {
    pub closed spec fn slot(&self) -> nat {
        self.index as nat
    }
}

pub struct Heap<T> {
    slots: Vec<Slot<T>>,
}

impl<T> View for Heap<T> {
    type V = Seq<SlotView<T>>;

    closed spec fn view(&self) -> Seq<SlotView<T>> {
        self.slots@.map_values(|s: Slot<T>| s.view())
    }
}

proof fn lemma_released_prefix<T>(s: SlotView<T>, k: nat)
    requires
        slot_wf(s),
        k <= s.strong,
    ensures
        released_n(s, k).strong == s.strong - k,
        released_n(s, k).weak == s.weak,
        k < s.strong ==> released_n(s, k).value == s.value,
        k == s.strong ==> released_n(s, k).value is None,
    decreases k,
{
    if k > 0 {
        lemma_released_prefix(s, (k - 1) as nat);
    }
}

/// A value with `n` owners, all of them released one after another, is
/// destroyed exactly once: no release before the `n`-th hands it back, the
/// `n`-th does, and afterwards no owner is left.
pub proof fn lemma_destroyed_at_last_release<T>(s: SlotView<T>, n: nat)
    requires
        slot_wf(s),
        s.strong == n,
        n > 0,
    ensures
        forall|k: nat| k + 1 < n ==> (#[trigger] released_n(s, k)).value == s.value
            && release_gives(released_n(s, k)) is None,
        release_gives(released_n(s, (n - 1) as nat)) == s.value,
        s.value is Some,
        released_n(s, n).value is None,
        released_n(s, n).strong == 0,
{
    assert forall|k: nat| k + 1 < n implies (#[trigger] released_n(s, k)).value == s.value
        && release_gives(released_n(s, k)) is None by {
        lemma_released_prefix(s, k);
    }
    lemma_released_prefix(s, (n - 1) as nat);
    lemma_released_prefix(s, n);
}

/// Once every owner of a value has been released, an observer of it no longer
/// resolves, and no owner is left through which it could come back.
pub proof fn lemma_observer_after_destroy<T>(s: SlotView<T>, n: nat)
    requires
        slot_wf(s),
        s.strong == n,
        n > 0,
    ensures
        !resolves(released_n(s, n)),
        released_n(s, n).weak == s.weak,
{
    lemma_released_prefix(s, n);
}

pub open spec fn slots_wf<T>(s: Seq<SlotView<T>>) -> bool {
    forall|i: int| 0 <= i < s.len() ==> #[trigger] slot_wf(s[i])
}

/// A new value put in a slot that has an owner keeps the slots well formed.
pub proof fn lemma_value_changed<T>(s: Seq<SlotView<T>>, i: int, x: T)
    requires
        slots_wf(s),
        0 <= i < s.len(),
        s[i].strong > 0,
    ensures
        slots_wf(s.update(i, SlotView { value: Some(x), ..s[i] })),
{
    assert(slot_wf(s[i]));
    lemma_wf_update(s, i, SlotView { value: Some(x), ..s[i] });
}

proof fn lemma_wf_update<T>(s: Seq<SlotView<T>>, i: int, v: SlotView<T>)
    requires
        slots_wf(s),
        0 <= i < s.len(),
        slot_wf(v),
    ensures
        slots_wf(s.update(i, v)),
{
    assert forall|j: int| 0 <= j < s.len() implies #[trigger] slot_wf(s.update(i, v)[j]) by {
        if j != i {
            assert(slot_wf(s[j]));
        }
    }
}

impl<T> Heap<T> {
    pub open spec fn wf(&self) -> bool {
        slots_wf(self@)
    }

    /// An owner of a slot whose value lives.
    pub open spec fn owns(&self, h: &Owner) -> bool {
        h.slot() < self@.len() && self@[h.slot() as int].strong > 0
    }

    pub fn new() -> (r: Self)
        ensures
            r@ == Seq::<SlotView<T>>::empty(),
            r.wf(),
    {
        Heap { slots: Vec::new() }
    }

    /// Puts `value` in a new slot with one owner, which is returned.
    pub fn allocate(&mut self, value: T) -> (r: Owner)
        requires
            old(self).wf(),
        ensures
            r.slot() == old(self)@.len(),
            final(self)@ == old(self)@.push(SlotView { value: Some(value), strong: 1, weak: 0 }),
            final(self).wf(),
    {
        let index = self.slots.len();
        self.slots.push(Slot { value: Some(value), strong: 1, weak: 0 });
        proof {
            assert(self@ =~= old(self)@.push(SlotView { value: Some(value), strong: 1, weak: 0 }));
        }
        Owner { index }
    }

    /// A second owner of the value that `h` owns.
    pub fn clone_owner(&mut self, h: &Owner) -> (r: Owner)
        requires
            old(self).wf(),
            old(self).owns(h),
            old(self)@[h.slot() as int].strong < usize::MAX,
        ensures
            r.slot() == h.slot(),
            final(self)@ == old(self)@.update(
                h.slot() as int,
                SlotView { strong: old(self)@[h.slot() as int].strong + 1, ..old(self)@[h.slot() as int] },
            ),
            final(self).wf(),
    {
        let i = h.index;
        let mut slot = self.slots.remove(i);
        slot.strong = slot.strong + 1;
        self.slots.insert(i, slot);
        proof {
            assert(self@ =~= old(self)@.update(
                h.slot() as int,
                SlotView { strong: old(self)@[h.slot() as int].strong + 1, ..old(self)@[h.slot() as int] },
            ));
            assert(slot_wf(old(self)@[h.slot() as int]));
            lemma_wf_update(
                old(self)@,
                h.slot() as int,
                SlotView { strong: old(self)@[h.slot() as int].strong + 1, ..old(self)@[h.slot() as int] },
            );
        }
        Owner { index: i }
    }

    /// Releases one owner. The value is destroyed, and handed back, exactly
    /// when this was its last owner.
    pub fn release(&mut self, h: Owner) -> (r: Option<T>)
        requires
            old(self).wf(),
            old(self).owns(&h),
        ensures
            r == release_gives(old(self)@[h.slot() as int]),
            final(self)@ == old(self)@.update(h.slot() as int, released(old(self)@[h.slot() as int])),
            final(self).wf(),
    {
        let i = h.index;
        let mut slot = self.slots.remove(i);
        let r = if slot.strong == 1 {
            slot.strong = 0;
            slot.value.take()
        } else {
            slot.strong = slot.strong - 1;
            None
        };
        self.slots.insert(i, slot);
        proof {
            assert(self@ =~= old(self)@.update(h.slot() as int, released(old(self)@[h.slot() as int])));
            assert(slot_wf(old(self)@[h.slot() as int]));
            lemma_wf_update(
                old(self)@,
                h.slot() as int,
                released(old(self)@[h.slot() as int]),
            );
        }
        r
    }

    /// An observer of the value that `h` owns.
    pub fn downgrade(&mut self, h: &Owner) -> (r: Observer)
        requires
            old(self).wf(),
            old(self).owns(h),
            old(self)@[h.slot() as int].weak < usize::MAX,
        ensures
            r.slot() == h.slot(),
            final(self)@ == old(self)@.update(
                h.slot() as int,
                SlotView { weak: old(self)@[h.slot() as int].weak + 1, ..old(self)@[h.slot() as int] },
            ),
            final(self).wf(),
    {
        let i = h.index;
        let mut slot = self.slots.remove(i);
        slot.weak = slot.weak + 1;
        self.slots.insert(i, slot);
        proof {
            assert(self@ =~= old(self)@.update(
                h.slot() as int,
                SlotView { weak: old(self)@[h.slot() as int].weak + 1, ..old(self)@[h.slot() as int] },
            ));
            assert(slot_wf(old(self)@[h.slot() as int]));
            lemma_wf_update(
                old(self)@,
                h.slot() as int,
                SlotView { weak: old(self)@[h.slot() as int].weak + 1, ..old(self)@[h.slot() as int] },
            );
        }
        Observer { index: i }
    }

    /// Releases an observer; the value, if it lives, is not affected.
    pub fn release_observer(&mut self, w: Observer)
        requires
            old(self).wf(),
            w.slot() < old(self)@.len(),
            old(self)@[w.slot() as int].weak > 0,
        ensures
            final(self)@ == old(self)@.update(
                w.slot() as int,
                SlotView { weak: (old(self)@[w.slot() as int].weak - 1) as nat, ..old(self)@[w.slot() as int] },
            ),
            final(self).wf(),
    {
        let i = w.index;
        let mut slot = self.slots.remove(i);
        slot.weak = slot.weak - 1;
        self.slots.insert(i, slot);
        proof {
            assert(self@ =~= old(self)@.update(
                w.slot() as int,
                SlotView { weak: (old(self)@[w.slot() as int].weak - 1) as nat, ..old(self)@[w.slot() as int] },
            ));
            assert(slot_wf(old(self)@[w.slot() as int]));
            lemma_wf_update(
                old(self)@,
                w.slot() as int,
                SlotView { weak: (old(self)@[w.slot() as int].weak - 1) as nat, ..old(self)@[w.slot() as int] },
            );
        }
    }

    /// Resolves an observer: a new owner while the value lives, `None` once it
    /// has been destroyed.
    pub fn upgrade(&mut self, w: &Observer) -> (r: Option<Owner>)
        requires
            old(self).wf(),
            w.slot() < old(self)@.len(),
            old(self)@[w.slot() as int].strong < usize::MAX,
        ensures
            r is Some <==> resolves(old(self)@[w.slot() as int]),
            r is Some ==> r->0.slot() == w.slot() && final(self)@ == old(self)@.update(
                w.slot() as int,
                SlotView { strong: old(self)@[w.slot() as int].strong + 1, ..old(self)@[w.slot() as int] },
            ),
            r is None ==> final(self)@ == old(self)@,
            final(self).wf(),
    {
        let i = w.index;
        proof {
            assert(self@[w.slot() as int] == self.slots@[w.slot() as int].view());
            assert(slot_wf(self@[w.slot() as int]));
        }
        if self.slots[i].strong == 0 {
            None
        } else {
            let mut slot = self.slots.remove(i);
            slot.strong = slot.strong + 1;
            self.slots.insert(i, slot);
            proof {
                assert(self@ =~= old(self)@.update(
                    w.slot() as int,
                    SlotView { strong: old(self)@[w.slot() as int].strong + 1, ..old(self)@[w.slot() as int] },
                ));
                assert(slot_wf(old(self)@[w.slot() as int]));
                lemma_wf_update(
                    old(self)@,
                    w.slot() as int,
                    SlotView { strong: old(self)@[w.slot() as int].strong + 1, ..old(self)@[w.slot() as int] },
                );
            }
            Some(Owner { index: i })
        }
    }

    /// The value that `h` owns.
    pub fn get(&self, h: &Owner) -> (r: &T)
        requires
            self.wf(),
            self.owns(h),
        ensures
            self@[h.slot() as int].value == Some(*r),
    {
        proof {
            assert(slot_wf(self@[h.slot() as int]));
        }
        self.slots[h.index].value.as_ref().unwrap()
    }

    /// Changes the value that `h` owns, as every owner of it then sees; the
    /// heap stays well formed (`lemma_value_changed`).
    pub fn get_mut(&mut self, h: &Owner) -> (r: &mut T)
        requires
            old(self).wf(),
            old(self).owns(h),
        ensures
            old(self)@[h.slot() as int].value == Some(*r),
            final(self)@ == old(self)@.update(
                h.slot() as int,
                SlotView { value: Some(*final(r)), ..old(self)@[h.slot() as int] },
            ),
    {
        proof {
            assert(slot_wf(self@[h.slot() as int]));
            assert(self@[h.slot() as int] == self.slots@[h.slot() as int].view());
        }
        let slot = &mut self.slots[h.index];
        slot.value.as_mut().unwrap()
    }

    /// Temporary access through an observer: the value while it lives, `None`
    /// once it has been destroyed.
    pub fn resolve(&self, w: &Observer) -> (r: Option<&T>)
        requires
            w.slot() < self@.len(),
        ensures
            r is Some <==> resolves(self@[w.slot() as int]),
            r is Some ==> self@[w.slot() as int].value == Some(*r->0),
    {
        proof {
            assert(self@[w.slot() as int] == self.slots@[w.slot() as int].view());
        }
        self.slots[w.index].value.as_ref()
    }

    pub fn strong_count(&self, h: &Owner) -> (r: usize)
        requires
            h.slot() < self@.len(),
        ensures
            r == self@[h.slot() as int].strong,
    {
        self.slots[h.index].strong
    }

    pub fn weak_count(&self, h: &Owner) -> (r: usize)
        requires
            h.slot() < self@.len(),
        ensures
            r == self@[h.slot() as int].weak,
    {
        self.slots[h.index].weak
    }
}

} // verus!
