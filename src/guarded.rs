//! A cell whose borrows are checked when they are requested: any number of
//! shared borrows, or one exclusive borrow, at a time.
use vstd::prelude::*;

verus! {

/// Why a borrow request was turned down.
#[derive(Debug, Clone, Copy, PartialEq, Eq, Structural)]
pub enum BorrowError {
    /// An exclusive borrow is outstanding.
    WriterActive,
    /// At least one shared borrow is outstanding.
    ReadersActive,
    /// The count of shared borrows cannot grow further.
    ReaderLimit,
}

/// Borrow bookkeeping of a cell: outstanding shared borrows and whether an
/// exclusive one is held.
pub struct BorrowState {
    pub readers: nat,
    pub writer: bool,
}

pub open spec fn idle() -> BorrowState {
    BorrowState { readers: 0, writer: false }
}

/// What a request for a shared borrow gives in state `s`.
pub open spec fn shared_outcome(s: BorrowState) -> Result<(), BorrowError> {
    if s.writer {
        Err(BorrowError::WriterActive)
    } else if s.readers >= usize::MAX {
        Err(BorrowError::ReaderLimit)
    } else {
        Ok(())
    }
}

/// What a request for an exclusive borrow gives in state `s`.
pub open spec fn exclusive_outcome(s: BorrowState) -> Result<(), BorrowError> {
    if s.writer {
        Err(BorrowError::WriterActive)
    } else if s.readers > 0 {
        Err(BorrowError::ReadersActive)
    } else {
        Ok(())
    }
}

/// The state after a request for a shared borrow.
pub open spec fn after_shared(s: BorrowState) -> BorrowState {
    if shared_outcome(s) is Ok {
        BorrowState { readers: s.readers + 1, ..s }
    } else {
        s
    }
}

/// The state after a request for an exclusive borrow.
pub open spec fn after_exclusive(s: BorrowState) -> BorrowState {
    if exclusive_outcome(s) is Ok {
        BorrowState { writer: true, ..s }
    } else {
        s
    }
}

/// The state after one shared borrow is given back.
pub open spec fn after_end_shared(s: BorrowState) -> BorrowState {
    BorrowState { readers: (s.readers - 1) as nat, ..s }
}

/// The state after the exclusive borrow is given back.
pub open spec fn after_end_exclusive(s: BorrowState) -> BorrowState {
    BorrowState { writer: false, ..s }
}

/// One cycle: a shared borrow taken and given back, then the exclusive
/// borrow taken and given back.
pub open spec fn cycle(s: BorrowState) -> BorrowState {
    after_end_exclusive(after_exclusive(after_end_shared(after_shared(s))))
}

/// The state after `k` cycles.
pub open spec fn cycles(s: BorrowState, k: nat) -> BorrowState
    decreases k,
{
    if k == 0 {
        s
    } else {
        cycle(cycles(s, (k - 1) as nat))
    }
}

pub struct GuardedCell<T> {
    value: T,
    readers: usize,
    writer: bool,
}

impl<T> GuardedCell<T> {
    pub closed spec fn value(&self) -> T {
        self.value
    }

    pub closed spec fn state(&self) -> BorrowState {
        BorrowState { readers: self.readers as nat, writer: self.writer }
    }

    /// Never a writer together with readers.
    pub open spec fn wf(&self) -> bool {
        !(self.state().writer && self.state().readers > 0)
    }

    pub fn new(value: T) -> (r: Self)
        ensures
            r.value() == value,
            r.state() == idle(),
            r.wf(),
    {
        GuardedCell { value, readers: 0, writer: false }
    }

    pub fn readers(&self) -> (r: usize)
        ensures
            r == self.state().readers,
    {
        self.readers
    }

    pub fn is_writing(&self) -> (r: bool)
        ensures
            r == self.state().writer,
    {
        self.writer
    }

    /// Requests a shared borrow; on success the caller may read until it
    /// calls `end_borrow`.
    pub fn try_borrow(&mut self) -> (r: Result<(), BorrowError>)
        requires
            old(self).wf(),
        ensures
            r == shared_outcome(old(self).state()),
            final(self).state() == after_shared(old(self).state()),
            final(self).value() == old(self).value(),
            final(self).wf(),
    {
        if self.writer {
            Err(BorrowError::WriterActive)
        } else if self.readers == usize::MAX {
            Err(BorrowError::ReaderLimit)
        } else {
            self.readers = self.readers + 1;
            Ok(())
        }
    }

    /// Gives back one shared borrow.
    pub fn end_borrow(&mut self)
        requires
            old(self).wf(),
            old(self).state().readers > 0,
        ensures
            final(self).state() == after_end_shared(old(self).state()),
            final(self).value() == old(self).value(),
            final(self).wf(),
    {
        self.readers = self.readers - 1;
    }

    /// Requests the exclusive borrow; on success the caller may write until it
    /// calls `end_borrow_mut`.
    pub fn try_borrow_mut(&mut self) -> (r: Result<(), BorrowError>)
        requires
            old(self).wf(),
        ensures
            r == exclusive_outcome(old(self).state()),
            final(self).state() == after_exclusive(old(self).state()),
            final(self).value() == old(self).value(),
            final(self).wf(),
    {
        if self.writer {
            Err(BorrowError::WriterActive)
        } else if self.readers > 0 {
            Err(BorrowError::ReadersActive)
        } else {
            self.writer = true;
            Ok(())
        }
    }

    /// Gives back the exclusive borrow.
    pub fn end_borrow_mut(&mut self)
        requires
            old(self).wf(),
            old(self).state().writer,
        ensures
            final(self).state() == after_end_exclusive(old(self).state()),
            final(self).value() == old(self).value(),
            final(self).wf(),
    {
        self.writer = false;
    }

    /// Reads the value under a borrow that is held.
    pub fn get(&self) -> (r: &T)
        requires
            self.state().readers > 0 || self.state().writer,
        ensures
            *r == self.value(),
    {
        &self.value
    }

    /// Writes through the exclusive borrow.
    pub fn get_mut(&mut self) -> (r: &mut T)
        requires
            old(self).state().writer,
        ensures
            *r == old(self).value(),
            final(self).value() == *final(r),
            final(self).state() == old(self).state(),
    {
        &mut self.value
    }

    /// Gives up the cell and hands back its value.
    pub fn into_inner(self) -> (r: T)
        ensures
            r == self.value(),
    {
        self.value
    }
}

/// Cycles run one after another on a cell with no borrows never fail: in
/// every cycle each request is granted, and the cell ends each cycle, and so
/// all of them, with no borrows.
pub proof fn lemma_sequential_cycles_succeed(k: nat)
    ensures
        cycles(idle(), k) == idle(),
        forall|j: nat| j < k ==> shared_outcome(#[trigger] cycles(idle(), j)) is Ok
            && exclusive_outcome(after_end_shared(after_shared(cycles(idle(), j)))) is Ok,
    decreases k,
{
    if k > 0 {
        lemma_sequential_cycles_succeed((k - 1) as nat);
        assert(cycle(idle()) == idle());
    }
}

/// A request that conflicts with an outstanding borrow is always refused, with
/// an error that names the borrow in the way, and leaves the state as it was.
pub proof fn lemma_conflicts_refused(s: BorrowState)
    requires
        !(s.writer && s.readers > 0),
    ensures
        s.readers > 0 ==> exclusive_outcome(s) == Err::<(), BorrowError>(BorrowError::ReadersActive)
            && after_exclusive(s) == s,
        s.writer ==> exclusive_outcome(s) == Err::<(), BorrowError>(BorrowError::WriterActive)
            && after_exclusive(s) == s,
        s.writer ==> shared_outcome(s) == Err::<(), BorrowError>(BorrowError::WriterActive)
            && after_shared(s) == s,
{
}

} // verus!
