use crate::types::sample::SampleReading;
use std::collections::BTreeMap;
use vstd::prelude::*;

verus! {

broadcast use {vstd::std_specs::btree::group_btree_axioms, vstd::laws_cmp::group_laws_cmp};

/// The readings of each series, by series id.
pub type SeriesReadings = Map<u64, Seq<SampleReading>>;

/// The number of readings held, over all series.
pub open spec fn points_in(m: SeriesReadings) -> nat
    decreases m.dom().len(),
{
    if m.dom().finite() && m.dom().len() > 0 {
        let k = m.dom().choose();
        m[k].len() + points_in(m.remove(k))
    } else {
        0
    }
}

/// The readings of `id`, none where it has none.
pub open spec fn readings_at(m: SeriesReadings, id: u64) -> Seq<SampleReading> {
    if m.contains_key(id) {
        m[id]
    } else {
        Seq::empty()
    }
}

/// `m` with `r` appended to the readings of `id`.
pub open spec fn with_reading(m: SeriesReadings, id: u64, r: SampleReading) -> SeriesReadings {
    m.insert(id, readings_at(m, id).push(r))
}

/// Adding a reading appends it to the readings of its series: the series
/// then holds its earlier readings, in order, followed by the new one; every
/// other series is unchanged.
pub proof fn law_with_reading_appends(m: SeriesReadings, id: u64, r: SampleReading, k: u64)
    ensures
        with_reading(m, id, r).contains_key(id),
        with_reading(m, id, r)[id].len() == (if m.contains_key(id) {
            m[id].len() + 1
        } else {
            1
        }),
        with_reading(m, id, r)[id].last() == r,
        m.contains_key(id) ==> with_reading(m, id, r)[id].drop_last() == m[id],
        k != id ==> with_reading(m, id, r).contains_key(k) == m.contains_key(k),
        k != id && m.contains_key(k) ==> with_reading(m, id, r)[k] == m[k],
{
    if m.contains_key(id) {
        assert(m[id].push(r).drop_last() =~= m[id]);
    }
}

/// The readings of `id` among a sequence of inserts, in insertion order.
pub open spec fn readings_of(inserts: Seq<(u64, SampleReading)>, id: u64) -> Seq<SampleReading>
    decreases inserts.len(),
{
    if inserts.len() == 0 {
        Seq::empty()
    } else if inserts.last().0 == id {
        readings_of(inserts.drop_last(), id).push(inserts.last().1)
    } else {
        readings_of(inserts.drop_last(), id)
    }
}

/// The readings held after each `(id, reading)` of `inserts` is added in turn
/// to an empty table.
pub open spec fn table_after(inserts: Seq<(u64, SampleReading)>) -> SeriesReadings
    decreases inserts.len(),
{
    if inserts.len() == 0 {
        Map::empty()
    } else {
        with_reading(table_after(inserts.drop_last()), inserts.last().0, inserts.last().1)
    }
}

/// From an empty table, the readings of each series are the readings inserted
/// for it, in the order they arrived; a series never inserted holds none.
pub proof fn law_readings_in_arrival_order(inserts: Seq<(u64, SampleReading)>, id: u64)
    ensures
        readings_at(table_after(inserts), id) == readings_of(inserts, id),
        table_after(inserts).contains_key(id) <==> readings_of(inserts, id).len() > 0,
    decreases inserts.len(),
{
    if inserts.len() > 0 {
        let rest = inserts.drop_last();
        law_readings_in_arrival_order(rest, id);
        law_with_reading_appends(table_after(rest), inserts.last().0, inserts.last().1, id);
        if inserts.last().0 == id {
            let before = readings_at(table_after(rest), id);
            assert(table_after(inserts)[id] =~= before.push(inserts.last().1));
        }
    } else {
        assert(readings_at(Map::empty(), id) =~= Seq::<SampleReading>::empty());
    }
}

/// Counting can start from any series: the total is that series' readings plus the rest.
pub proof fn lemma_points_in_remove(m: SeriesReadings, k: u64)
    requires
        m.dom().finite(),
        m.contains_key(k),
    ensures
        points_in(m) == m[k].len() + points_in(m.remove(k)),
    decreases m.dom().len(),
{
    let c = m.dom().choose();
    if c != k {
        let mc = m.remove(c);
        let mk = m.remove(k);
        lemma_points_in_remove(mc, k);
        lemma_points_in_remove(mk, c);
        assert(mc.remove(k) =~= mk.remove(c));
    }
}

/// Appending one reading adds one to the total.
pub proof fn lemma_points_with_reading(m: SeriesReadings, id: u64, r: SampleReading)
    requires
        m.dom().finite(),
    ensures
        with_reading(m, id, r).dom().finite(),
        points_in(with_reading(m, id, r)) == points_in(m) + 1,
{
    let m2 = with_reading(m, id, r);
    lemma_points_in_remove(m2, id);
    if m.contains_key(id) {
        lemma_points_in_remove(m, id);
        assert(m2.remove(id) =~= m.remove(id));
    } else {
        assert(m2.remove(id) =~= m);
    }
}

/// The empty map holds no readings.
pub proof fn lemma_points_in_empty()
    ensures
        points_in(Map::empty()) == 0,
{
}

/// An in-memory table of recent readings, grouped by series in id order.
pub struct Memtable {
    series: BTreeMap<u64, Vec<SampleReading>>,
    total_points: usize,
}

impl Memtable {
    /// The readings of each series, in arrival order.
    pub closed spec fn view(&self) -> SeriesReadings {
        self.series@.map_values(|v: Vec<SampleReading>| v@)
    }

    /// The count the table keeps of its readings.
    pub closed spec fn point_count(&self) -> nat {
        self.total_points as nat
    }

    /// The count is the number of readings held, and every series listed has
    /// at least one reading.
    #[verifier::type_invariant]
    pub open spec fn wf(&self) -> bool {
        &&& self@.dom().finite()
        &&& self.point_count() == points_in(self@)
        &&& forall|k: u64| #[trigger] self@.contains_key(k) ==> self@[k].len() > 0
    }

    /// A table that holds no readings.
    pub fn new() -> (t: Self)
        ensures
            t.wf(),
            t@.dom().is_empty(),
            t.point_count() == 0,
    {
        let series: BTreeMap<u64, Vec<SampleReading>> = BTreeMap::new();
        assert(series@.map_values(|v: Vec<SampleReading>| v@) =~= Map::empty());
        let t = Memtable { series, total_points: 0 };
        t
    }

    /// Appends a reading to the series `series_id`. The value is given by its
    /// bit pattern (`f64::to_bits`).
    pub fn insert(&mut self, series_id: u64, timestamp: i64, value_bits: u64)
        requires
            old(self).point_count() < usize::MAX,
        ensures
            final(self).wf(),
            final(self)@ == with_reading(
                old(self)@,
                series_id,
                SampleReading { timestamp, value_bits },
            ),
            final(self).point_count() == old(self).point_count() + 1,
            final(self)@.contains_key(series_id),
            final(self)@[series_id] == (if old(self)@.contains_key(series_id) {
                old(self)@[series_id]
            } else {
                Seq::empty()
            }).push(SampleReading { timestamp, value_bits }),
            forall|k: u64|
                k != series_id ==> (#[trigger] final(self)@.contains_key(k) == old(
                    self,
                )@.contains_key(k)),
            forall|k: u64|
                k != series_id && old(self)@.contains_key(k) ==> #[trigger] final(self)@[k] == old(
                    self,
                )@[k],
    {
        proof {
            use_type_invariant(&*self);
        }
        let ghost before = self@;
        let mut table = Memtable::new();
        std::mem::swap(&mut table, self);
        let Memtable { mut series, total_points } = table;
        let mut readings = match series.remove(&series_id) {
            Some(v) => v,
            None => Vec::new(),
        };
        let ghost prior = readings@;
        assert(prior == readings_at(before, series_id));
        readings.push(SampleReading { timestamp, value_bits });
        series.insert(series_id, readings);
        proof {
            let r = SampleReading { timestamp, value_bits };
            assert(series@.map_values(|v: Vec<SampleReading>| v@) =~= with_reading(
                before,
                series_id,
                r,
            ));
            lemma_points_with_reading(before, series_id, r);
        }
        *self = Memtable { series, total_points: total_points + 1 };
    }

    /// The readings, by series id.
    pub fn series(&self) -> (s: &BTreeMap<u64, Vec<SampleReading>>)
        ensures
            s@.map_values(|v: Vec<SampleReading>| v@) == self@,
    {
        &self.series
    }

    /// The number of readings held.
    pub fn total_points(&self) -> (n: usize)
        ensures
            n == self.point_count(),
    {
        self.total_points
    }
}

} // verus!
