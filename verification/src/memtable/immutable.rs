use crate::memtable::table::{Memtable, SeriesReadings};
use std::sync::Arc;
use vstd::prelude::*;

verus! {

/// A memtable that takes no more writes, shared by reference count.
pub struct ImmutableMemtable {
    inner: Arc<Memtable>,
}

impl ImmutableMemtable {
    /// The readings the table holds.
    pub closed spec fn view(&self) -> SeriesReadings {
        self.inner@
    }

    /// The count the table keeps of its readings.
    pub closed spec fn point_count(&self) -> nat {
        self.inner.point_count()
    }

    /// The count is the number of readings held.
    pub closed spec fn wf(&self) -> bool {
        self.inner.wf()
    }

    /// A well-formed table's count is the number of readings it holds.
    pub proof fn lemma_wf_counts(&self)
        requires
            self.wf(),
        ensures
            self.point_count() == crate::memtable::table::points_in(self@),
    {
    }

    /// Freezes `memtable`.
    pub fn new(memtable: Memtable) -> (t: Self)
        ensures
            t@ == memtable@,
            t.point_count() == memtable.point_count(),
            t.wf() == memtable.wf(),
    {
        ImmutableMemtable { inner: Arc::new(memtable) }
    }

    /// Another handle to the frozen table.
    pub fn inner(&self) -> (t: Arc<Memtable>)
        ensures
            t@ == self@,
            t.point_count() == self.point_count(),
            t.wf() == self.wf(),
    {
        Arc::clone(&self.inner)
    }
}

} // verus!
