use crate::cache::model::{
    all_of_type, lemma_ascending, lemma_insert_keeps_order, lemma_invalid_stays, lemma_position_is,
    merge_outcome, merge_prefix, ordered, placement, holds_interval, MergeOutcome, Placement,
};
use crate::cache::CacheError;
use crate::types::usage::{EnergyType, Reading};
use vstd::prelude::*;

verus! {

/// The counts of one successful merge.
#[derive(Debug, Clone, Copy, PartialEq, Eq, Structural)]
pub struct MergeReport {
    /// Readings that were new and went into the store.
    pub inserted: usize,
    /// Readings whose interval the store already held.
    pub duplicate: usize,
    /// Readings of another kind of energy than the merge was for.
    pub rejected: usize,
}

/// The readings that are known, for each kind of energy in ascending order of
/// time and without overlap.
pub struct ReadingStore {
    electricity: Vec<Reading>,
    gas: Vec<Reading>,
}

/// A copy of the readings, in the same order.
fn copy_readings(v: &Vec<Reading>) -> (c: Vec<Reading>)
    ensures
        c@ == v@,
{
    let mut c: Vec<Reading> = Vec::new();
    let mut i: usize = 0;
    while i < v.len()
        invariant
            i <= v.len(),
            c@ == v@.take(i as int),
        decreases v.len() - i,
    {
        c.push(v[i]);
        i += 1;
        assert(c@ =~= v@.take(i as int));
    }
    assert(v@.take(i as int) =~= v@);
    c
}

/// Decides what becomes of `r` when it is merged into the ordered readings `work`.
pub fn place(work: &Vec<Reading>, energy_type: EnergyType, r: Reading) -> (p: Placement)
    requires
        ordered(work@),
    ensures
        p == placement(work@, energy_type, r),
{
    if r.interval_start >= r.interval_end {
        return Placement::Invalid;
    }
    if r.energy_type != energy_type {
        return Placement::Rejected;
    }
    let mut k: usize = 0;
    while k < work.len() && work[k].interval_start < r.interval_start
        invariant
            k <= work.len(),
            forall|j: int| 0 <= j < k ==> (#[trigger] work@[j]).interval_start < r.interval_start,
        decreases work.len() - k,
    {
        k += 1;
    }
    let ghost s = work@;
    proof {
        lemma_position_is(s, r.interval_start as int, k as int);
        assert forall|j: int| k < j < s.len() implies (#[trigger] s[j]).interval_start > r.interval_start by {
            assert(s[k as int].interval_end <= s[j].interval_start);
            assert(s[k as int].well_formed());
        }
    }
    if k < work.len() && work[k].interval_start == r.interval_start && work[k].interval_end
        == r.interval_end {
        assert(s[k as int].same_interval(r));
        return Placement::Duplicate;
    }
    assert(!holds_interval(s, r));
    let before = k > 0 && work[k - 1].interval_end > r.interval_start;
    let after = k < work.len() && work[k].interval_start < r.interval_end;
    if before {
        assert(s[k - 1].well_formed());
        assert(s[k - 1].overlaps(r));
        return Placement::Invalid;
    }
    if after {
        assert(s[k as int].well_formed());
        assert(s[k as int].overlaps(r));
        return Placement::Invalid;
    }
    proof {
        assert forall|j: int| 0 <= j < s.len() implies !(#[trigger] s[j]).overlaps(r) by {
            if j < k {
                if j < k - 1 {
                    assert(s[j].interval_end <= s[k - 1].interval_start);
                    assert(s[k - 1].well_formed());
                }
            } else if j > k {
                assert(s[k as int].interval_end <= s[j].interval_start);
                assert(s[k as int].well_formed());
            }
        }
    }
    Placement::Insert { at: k }
}

impl ReadingStore {
    /// The readings of one kind of energy, in the order in which the store
    /// holds them.
    pub closed spec fn readings(&self, energy_type: EnergyType) -> Seq<Reading> {
        match energy_type {
            EnergyType::Electricity => self.electricity@,
            EnergyType::Gas => self.gas@,
        }
    }

    /// What holds of every store: the readings of each kind of energy are of
    /// that kind, in ascending order of time and without overlap.
    pub open spec fn wf(&self) -> bool {
        &&& ordered(self.readings(EnergyType::Electricity))
        &&& all_of_type(self.readings(EnergyType::Electricity), EnergyType::Electricity)
        &&& ordered(self.readings(EnergyType::Gas))
        &&& all_of_type(self.readings(EnergyType::Gas), EnergyType::Gas)
    }

    /// A store without readings.
    pub fn new() -> (store: ReadingStore)
        ensures
            store.wf(),
            store.readings(EnergyType::Electricity) == Seq::<Reading>::empty(),
            store.readings(EnergyType::Gas) == Seq::<Reading>::empty(),
    {
        ReadingStore { electricity: Vec::new(), gas: Vec::new() }
    }

    /// A store of the given readings, where each list is of its kind of energy
    /// and in order; `None` where one is not.
    pub fn from_parts(electricity: Vec<Reading>, gas: Vec<Reading>) -> (store: Option<ReadingStore>)
        ensures
            store is Some <==> {
                &&& ordered(electricity@)
                &&& all_of_type(electricity@, EnergyType::Electricity)
                &&& ordered(gas@)
                &&& all_of_type(gas@, EnergyType::Gas)
            },
            store matches Some(s) ==> {
                &&& s.wf()
                &&& s.readings(EnergyType::Electricity) == electricity@
                &&& s.readings(EnergyType::Gas) == gas@
            },
    {
        if is_ordered(&electricity, EnergyType::Electricity) && is_ordered(
            &gas,
            EnergyType::Gas,
        ) {
            Some(ReadingStore { electricity, gas })
        } else {
            None
        }
    }

    /// The reading of the given kind of energy that starts last, if the store
    /// holds one of that kind.
    pub fn most_recent_reading(&self, energy_type: EnergyType) -> (recent: Option<Reading>)
        requires
            self.wf(),
        ensures
            recent is None <==> self.readings(energy_type).len() == 0,
            recent matches Some(r) ==> {
                &&& r == self.readings(energy_type).last()
                &&& forall|i: int|
                    0 <= i < self.readings(energy_type).len() ==> (
                    #[trigger] self.readings(energy_type)[i]).interval_start <= r.interval_start
            },
    {
        let v = match energy_type {
            EnergyType::Electricity => &self.electricity,
            EnergyType::Gas => &self.gas,
        };
        if v.len() == 0 {
            None
        } else {
            let r = v[v.len() - 1];
            proof {
                lemma_ascending(v@);
            }
            Some(r)
        }
    }

    /// How many readings of the given kind of energy the store holds.
    pub fn count(&self, energy_type: EnergyType) -> (n: usize)
        ensures
            n == self.readings(energy_type).len(),
    {
        match energy_type {
            EnergyType::Electricity => self.electricity.len(),
            EnergyType::Gas => self.gas.len(),
        }
    }

    /// The reading of the given kind of energy at `index` in ascending order
    /// of time, or `None` behind the last one.
    pub fn reading_at(&self, energy_type: EnergyType, index: usize) -> (reading: Option<Reading>)
        ensures
            reading == if index < self.readings(energy_type).len() {
                Some(self.readings(energy_type)[index as int])
            } else {
                None
            },
    {
        let v = match energy_type {
            EnergyType::Electricity => &self.electricity,
            EnergyType::Gas => &self.gas,
        };
        if index < v.len() {
            Some(v[index])
        } else {
            None
        }
    }

    /// All readings of the given kind of energy, in strictly ascending order of
    /// their start. Each call walks the store anew.
    pub fn all_readings(&self, energy_type: EnergyType) -> (all: Vec<Reading>)
        requires
            self.wf(),
        ensures
            all@ == self.readings(energy_type),
            forall|i: int, j: int|
                0 <= i < j < all@.len() ==> (#[trigger] all@[i]).interval_start < (
                #[trigger] all@[j]).interval_start,
    {
        let v = match energy_type {
            EnergyType::Electricity => &self.electricity,
            EnergyType::Gas => &self.gas,
        };
        proof {
            lemma_ascending(v@);
        }
        copy_readings(v)
    }

    /// Merges a batch of readings into those of one kind of energy.
    ///
    /// The readings are taken one after the other. One with an empty or
    /// inverted interval, or whose interval overlaps a stored one without being
    /// the same, fails the whole batch: the store is then as it was, and the
    /// error gives the index of that reading. Otherwise a reading of another
    /// kind of energy is counted as rejected, one whose interval the store
    /// holds as duplicate, and every other goes in at its place in time.
    pub fn merge(&mut self, energy_type: EnergyType, new_readings: &Vec<Reading>) -> (result: Result<MergeReport, CacheError>)
        requires
            old(self).wf(),
        ensures
            final(self).wf(),
            forall|other: EnergyType|
                other != energy_type ==> final(self).readings(other) == old(self).readings(other),
            match merge_outcome(old(self).readings(energy_type), energy_type, new_readings@) {
                MergeOutcome::Merged { readings, inserted, duplicate, rejected } => {
                    &&& result matches Ok(report)
                    &&& report.inserted == inserted
                    &&& report.duplicate == duplicate
                    &&& report.rejected == rejected
                    &&& final(self).readings(energy_type) == readings
                },
                MergeOutcome::Invalid { index } => {
                    &&& result matches Err(CacheError::InvalidReading { index: at })
                    &&& at == index
                    &&& final(self).readings(energy_type) == old(self).readings(energy_type)
                },
            },
    {
        let mut work = match energy_type {
            EnergyType::Electricity => copy_readings(&self.electricity),
            EnergyType::Gas => copy_readings(&self.gas),
        };
        let ghost start = work@;
        let ghost batch = new_readings@;
        let mut report = MergeReport { inserted: 0, duplicate: 0, rejected: 0 };
        let mut i: usize = 0;
        while i < new_readings.len()
            invariant
                i <= new_readings.len(),
                batch == new_readings@,
                *self == *old(self),
                old(self).wf(),
                start == old(self).readings(energy_type),
                ordered(work@),
                all_of_type(work@, energy_type),
                report.inserted + report.duplicate + report.rejected == i,
                merge_prefix(start, energy_type, batch, i as nat) == (MergeOutcome::Merged {
                    readings: work@,
                    inserted: report.inserted as nat,
                    duplicate: report.duplicate as nat,
                    rejected: report.rejected as nat,
                }),
            decreases new_readings.len() - i,
        {
            let r = new_readings[i];
            let p = place(&work, energy_type, r);
            assert(merge_prefix(start, energy_type, batch, (i + 1) as nat) == match p {
                Placement::Invalid => MergeOutcome::Invalid { index: i as nat },
                Placement::Rejected => MergeOutcome::Merged {
                    readings: work@,
                    inserted: report.inserted as nat,
                    duplicate: report.duplicate as nat,
                    rejected: report.rejected as nat + 1,
                },
                Placement::Duplicate => MergeOutcome::Merged {
                    readings: work@,
                    inserted: report.inserted as nat,
                    duplicate: report.duplicate as nat + 1,
                    rejected: report.rejected as nat,
                },
                Placement::Insert { at } => MergeOutcome::Merged {
                    readings: work@.insert(at as int, r),
                    inserted: report.inserted as nat + 1,
                    duplicate: report.duplicate as nat,
                    rejected: report.rejected as nat,
                },
            });
            match p {
                Placement::Invalid => {
                    proof {
                        lemma_invalid_stays(start, energy_type, batch, (i + 1) as nat, batch.len());
                    }
                    return Err(CacheError::InvalidReading { index: i });
                },
                Placement::Rejected => {
                    report.rejected = report.rejected + 1;
                },
                Placement::Duplicate => {
                    report.duplicate = report.duplicate + 1;
                },
                Placement::Insert { at } => {
                    proof {
                        assert(work@.len() == work.len());
                        lemma_insert_keeps_order(work@, energy_type, r);
                    }
                    work.insert(at, r);
                    report.inserted = report.inserted + 1;
                },
            }
            i += 1;
        }
        match energy_type {
            EnergyType::Electricity => {
                self.electricity = work;
            },
            EnergyType::Gas => {
                self.gas = work;
            },
        }
        Ok(report)
    }
}

/// Whether the readings are all of the given kind of energy, cover non-empty
/// intervals and each end before the next starts.
pub fn is_ordered(v: &Vec<Reading>, energy_type: EnergyType) -> (ok: bool)
    ensures
        ok == (ordered(v@) && all_of_type(v@, energy_type)),
{
    let mut i: usize = 0;
    while i < v.len()
        invariant
            i <= v.len(),
            ordered(v@.take(i as int)),
            all_of_type(v@.take(i as int), energy_type),
        decreases v.len() - i,
    {
        let r = v[i];
        if r.energy_type != energy_type || r.interval_start >= r.interval_end {
            assert(!v@[i as int].well_formed() || v@[i as int].energy_type != energy_type);
            return false;
        }
        if i > 0 && v[i - 1].interval_end > r.interval_start {
            assert(v@[i - 1].interval_end > v@[i as int].interval_start);
            return false;
        }
        proof {
            let t = v@.take(i as int);
            let u = v@.take(i + 1);
            assert forall|a: int, b: int| 0 <= a < b < u.len() implies (#[trigger] u[a]).interval_end <= (#[trigger] u[b]).interval_start by {
                if b < i {
                    assert(t[a].interval_end <= t[b].interval_start);
                } else if a < i - 1 {
                    assert(t[a].interval_end <= t[i - 1].interval_start);
                    assert(t[i - 1].well_formed());
                }
            }
            assert forall|a: int| 0 <= a < u.len() implies (#[trigger] u[a]).well_formed() && u[a].energy_type == energy_type by {
                if a < i {
                    assert(t[a].well_formed());
                }
            }
        }
        i += 1;
    }
    assert(v@.take(i as int) =~= v@);
    true
}

} // verus!
