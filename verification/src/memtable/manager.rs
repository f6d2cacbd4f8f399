use crate::memtable::immutable::ImmutableMemtable;
use crate::memtable::table::{lemma_points_in_empty, points_in, Memtable, SeriesReadings};
use crate::types::sample::SampleReading;
use vstd::prelude::*;

verus! {

/// The readings held by a sequence of tables, in total.
pub open spec fn points_in_tables(tables: Seq<SeriesReadings>) -> nat
    decreases tables.len(),
{
    if tables.len() == 0 {
        0
    } else {
        points_in_tables(tables.drop_last()) + points_in(tables.last())
    }
}

/// The number of readings at which the active table is frozen: the threshold,
/// or one where the threshold is zero.
pub open spec fn frozen_size(threshold: usize) -> nat {
    if threshold == 0 {
        1
    } else {
        threshold as nat
    }
}

/// The views of a list of frozen tables.
pub open spec fn table_views(tables: Seq<ImmutableMemtable>) -> Seq<SeriesReadings> {
    tables.map_values(|t: ImmutableMemtable| t@)
}

/// Takes writes into an active memtable, and freezes it once it holds
/// `rotate_threshold` readings; frozen tables wait, oldest first, to be taken.
pub struct MemtableManager {
    active: Memtable,
    immutable: Vec<ImmutableMemtable>,
    rotate_threshold: usize,
}

impl MemtableManager {
    /// The readings of the active table.
    pub closed spec fn active(&self) -> SeriesReadings {
        self.active@
    }

    /// The frozen tables not yet taken, oldest first.
    pub closed spec fn frozen(&self) -> Seq<SeriesReadings> {
        table_views(self.immutable@)
    }

    /// The number of readings at which the active table is frozen.
    pub closed spec fn threshold(&self) -> usize {
        self.rotate_threshold
    }

    /// Every reading held, active or frozen.
    pub open spec fn points(&self) -> nat {
        points_in(self.active()) + points_in_tables(self.frozen())
    }

    /// The active table holds fewer readings than `frozen_size(threshold)`, and
    /// every frozen table holds exactly that many.
    pub closed spec fn wf(&self) -> bool {
        &&& self.active.wf()
        &&& self.active.point_count() < frozen_size(self.rotate_threshold)
        &&& forall|i: int|
            0 <= i < self.immutable@.len() ==> {
                &&& (#[trigger] self.immutable@[i]).wf()
                &&& self.immutable@[i].point_count() == frozen_size(self.rotate_threshold)
            }
    }

    /// A manager with an empty active table and no frozen tables.
    pub fn new(rotate_threshold: usize) -> (m: Self)
        ensures
            m.wf(),
            m.active().dom().is_empty(),
            m.frozen().len() == 0,
            m.threshold() == rotate_threshold,
    {
        MemtableManager {
            active: Memtable::new(),
            immutable: Vec::new(),
            rotate_threshold,
        }
    }

    /// Appends a reading to the active table; if that brings the table to the
    /// threshold, the table is frozen and a new empty one takes its place.
    pub fn insert(&mut self, series_id: u64, timestamp: i64, value_bits: u64)
        requires
            old(self).wf(),
        ensures
            final(self).wf(),
            final(self).threshold() == old(self).threshold(),
            ({
                let grown = old(self).active().insert(
                    series_id,
                    (if old(self).active().contains_key(series_id) {
                        old(self).active()[series_id]
                    } else {
                        Seq::empty()
                    }).push(SampleReading { timestamp, value_bits }),
                );
                if points_in(old(self).active()) + 1 >= old(self).threshold() {
                    &&& final(self).frozen() == old(self).frozen().push(grown)
                    &&& final(self).active().dom().is_empty()
                } else {
                    &&& final(self).frozen() == old(self).frozen()
                    &&& final(self).active() == grown
                }
            }),
            final(self).points() == old(self).points() + 1,
    {
        let ghost old_frozen = self.frozen();
        let ghost old_active = self.active();
        self.active.insert(series_id, timestamp, value_bits);
        if self.active.total_points() >= self.rotate_threshold {
            let mut rotated = Memtable::new();
            std::mem::swap(&mut rotated, &mut self.active);
            let frozen = ImmutableMemtable::new(rotated);
            self.immutable.push(frozen);
            proof {
                assert(self.frozen() =~= old_frozen.push(frozen@));
                assert(self.frozen().drop_last() =~= old_frozen);
                lemma_points_in_empty();
                assert(self.active() =~= Map::empty());
            }
        }
    }

    /// Takes every frozen table, oldest first, leaving none behind.
    pub fn immutable_tables(&mut self) -> (tables: Vec<ImmutableMemtable>)
        requires
            old(self).wf(),
        ensures
            final(self).wf(),
            table_views(tables@) == old(self).frozen(),
            forall|i: int|
                0 <= i < tables@.len() ==> {
                    &&& (#[trigger] tables@[i]).wf()
                    &&& tables@[i].point_count() == points_in(tables@[i]@)
                    &&& tables@[i].point_count() == frozen_size(old(self).threshold())
                },
            final(self).frozen().len() == 0,
            final(self).active() == old(self).active(),
            final(self).threshold() == old(self).threshold(),
    {
        let mut tables: Vec<ImmutableMemtable> = Vec::new();
        std::mem::swap(&mut tables, &mut self.immutable);
        proof {
            assert forall|i: int| 0 <= i < tables@.len() implies (#[trigger] tables@[i]).wf()
                && tables@[i].point_count() == points_in(tables@[i]@) by {
                tables@[i].lemma_wf_counts();
            }
            assert(self.frozen() =~= Seq::<SeriesReadings>::empty());
        }
        tables
    }
}

/// Writes are bounded: the active table always holds fewer readings than
/// `frozen_size(threshold)`, and every frozen table holds exactly that many
/// (one reading each where the threshold is zero).
pub proof fn law_rotation_bounds(m: &MemtableManager)
    requires
        m.wf(),
    ensures
        points_in(m.active()) < frozen_size(m.threshold()),
        forall|i: int|
            0 <= i < m.frozen().len() ==> points_in(#[trigger] m.frozen()[i]) == frozen_size(
                m.threshold(),
            ),
{
    assert forall|i: int| 0 <= i < m.frozen().len() implies points_in(#[trigger] m.frozen()[i])
        == frozen_size(m.threshold()) by {
        assert(m.immutable@[i].wf());
        assert(m.frozen()[i] == m.immutable@[i]@);
        m.immutable@[i].lemma_wf_counts();
    }
}

} // verus!
