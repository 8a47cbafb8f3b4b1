use crate::types::usage::{EnergyType, Reading};
use vstd::prelude::*;

verus! {

/// Every reading covers a non-empty interval, and each one ends before the
/// next one starts.
pub open spec fn ordered(s: Seq<Reading>) -> bool {
    &&& forall|i: int| 0 <= i < s.len() ==> (#[trigger] s[i]).well_formed()
    &&& forall|i: int, j: int|
        0 <= i < j < s.len() ==> (#[trigger] s[i]).interval_end <= (#[trigger] s[j]).interval_start
}

/// Every reading is of the given kind of energy.
pub open spec fn all_of_type(s: Seq<Reading>, energy_type: EnergyType) -> bool {
    forall|i: int| 0 <= i < s.len() ==> (#[trigger] s[i]).energy_type == energy_type
}

/// Some reading of `s` covers the interval of `r`.
pub open spec fn holds_interval(s: Seq<Reading>, r: Reading) -> bool {
    exists|i: int| 0 <= i < s.len() && (#[trigger] s[i]).same_interval(r)
}

/// Some reading of `s` shares an instant with `r`.
pub open spec fn overlaps_any(s: Seq<Reading>, r: Reading) -> bool {
    exists|i: int| 0 <= i < s.len() && (#[trigger] s[i]).overlaps(r)
}

/// The index of the first reading of `s` that starts at `start` or later, and
/// the length of `s` if there is none.
pub open spec fn position(s: Seq<Reading>, start: int) -> int
    decreases s.len(),
{
    if s.len() == 0 || s[0].interval_start >= start {
        0
    } else {
        1 + position(s.skip(1), start)
    }
}

/// What becomes of one incoming reading.
#[derive(Debug, Clone, Copy, PartialEq, Eq, Structural)]
pub enum Placement {
    /// Its interval is empty or inverted, or overlaps a stored one: the batch fails.
    Invalid,
    /// It is of another kind of energy than the merge is for: it is left out.
    Rejected,
    /// The store already holds a reading of its interval: it is left out.
    Duplicate,
    /// It is new, and goes in at this index.
    Insert { at: usize },
}

/// What becomes of the reading `r` when it is merged into the readings `s` of
/// the kind of energy `energy_type`.
pub open spec fn placement(s: Seq<Reading>, energy_type: EnergyType, r: Reading) -> Placement {
    if !r.well_formed() {
        Placement::Invalid
    } else if r.energy_type != energy_type {
        Placement::Rejected
    } else if holds_interval(s, r) {
        Placement::Duplicate
    } else if overlaps_any(s, r) {
        Placement::Invalid
    } else {
        Placement::Insert { at: position(s, r.interval_start as int) as usize }
    }
}

/// What a merge comes to: the readings after it with the three counts, or the
/// index of the first reading of the batch that cannot be merged.
pub enum MergeOutcome {
    Merged { readings: Seq<Reading>, inserted: nat, duplicate: nat, rejected: nat },
    Invalid { index: nat },
}

/// The outcome of merging the first `n` readings of `batch`, one after the
/// other, into `s`.
pub open spec fn merge_prefix(s: Seq<Reading>, energy_type: EnergyType, batch: Seq<Reading>, n: nat) -> MergeOutcome
    decreases n,
{
    if n == 0 {
        MergeOutcome::Merged { readings: s, inserted: 0, duplicate: 0, rejected: 0 }
    } else {
        match merge_prefix(s, energy_type, batch, (n - 1) as nat) {
            MergeOutcome::Invalid { index } => MergeOutcome::Invalid { index },
            MergeOutcome::Merged { readings, inserted, duplicate, rejected } => {
                let r = batch[n - 1];
                match placement(readings, energy_type, r) {
                    Placement::Invalid => MergeOutcome::Invalid { index: (n - 1) as nat },
                    Placement::Rejected => MergeOutcome::Merged {
                        readings,
                        inserted,
                        duplicate,
                        rejected: rejected + 1,
                    },
                    Placement::Duplicate => MergeOutcome::Merged {
                        readings,
                        inserted,
                        duplicate: duplicate + 1,
                        rejected,
                    },
                    Placement::Insert { at } => MergeOutcome::Merged {
                        readings: readings.insert(at as int, r),
                        inserted: inserted + 1,
                        duplicate,
                        rejected,
                    },
                }
            },
        }
    }
}

/// The outcome of merging the whole of `batch` into `s`.
pub open spec fn merge_outcome(s: Seq<Reading>, energy_type: EnergyType, batch: Seq<Reading>) -> MergeOutcome {
    merge_prefix(s, energy_type, batch, batch.len())
}

/// `position` is the one index that parts the readings that start before
/// `start` from a reading that does not.
pub proof fn lemma_position_is(s: Seq<Reading>, start: int, k: int)
    requires
        0 <= k <= s.len(),
        forall|j: int| 0 <= j < k ==> (#[trigger] s[j]).interval_start < start,
        k < s.len() ==> s[k].interval_start >= start,
    ensures
        position(s, start) == k,
    decreases k,
{
    if k > 0 {
        assert(s[0].interval_start < start);
        let rest = s.skip(1);
        assert forall|j: int| 0 <= j < k - 1 implies (#[trigger] rest[j]).interval_start < start by {
            assert(rest[j] == s[j + 1]);
        }
        lemma_position_is(rest, start, k - 1);
    }
}

/// `position` lies within the readings or just behind them; every reading
/// before it starts before `start`, and the reading at it does not.
pub proof fn lemma_position_parts(s: Seq<Reading>, start: int)
    ensures
        0 <= position(s, start) <= s.len(),
        forall|j: int| 0 <= j < position(s, start) ==> (#[trigger] s[j]).interval_start < start,
        position(s, start) < s.len() ==> s[position(s, start)].interval_start >= start,
    decreases s.len(),
{
    if s.len() == 0 || s[0].interval_start >= start {
    } else {
        let rest = s.skip(1);
        lemma_position_parts(rest, start);
        let k = position(rest, start);
        assert forall|j: int| 0 <= j < k + 1 implies (#[trigger] s[j]).interval_start < start by {
            if j > 0 {
                assert(s[j] == rest[j - 1]);
            }
        }
        if k + 1 < s.len() {
            assert(s[k + 1] == rest[k]);
        }
    }
}

/// A reading that is placed by `Insert` goes in between the readings that end
/// before it starts and those that start after it ends, so the order is kept.
pub proof fn lemma_insert_keeps_order(s: Seq<Reading>, energy_type: EnergyType, r: Reading)
    requires
        ordered(s),
        all_of_type(s, energy_type),
        s.len() <= usize::MAX,
        placement(s, energy_type, r) is Insert,
    ensures
        placement(s, energy_type, r)->at == position(s, r.interval_start as int),
        0 <= position(s, r.interval_start as int) <= s.len(),
        ordered(s.insert(position(s, r.interval_start as int), r)),
        all_of_type(s.insert(position(s, r.interval_start as int), r), energy_type),
{
    let k = position(s, r.interval_start as int);
    lemma_position_parts(s, r.interval_start as int);
    let t = s.insert(k, r);
    assert forall|j: int| 0 <= j < k implies (#[trigger] s[j]).interval_end <= r.interval_start by {
        assert(!s[j].overlaps(r));
    }
    assert forall|j: int| k <= j < s.len() implies r.interval_end <= (#[trigger] s[j]).interval_start by {
        assert(!s[j].overlaps(r));
        assert(s[j].well_formed());
        if j > k {
            assert(s[k].interval_end <= s[j].interval_start);
            assert(s[k].well_formed());
        }
    }
    assert forall|i: int| 0 <= i < t.len() implies (#[trigger] t[i]).well_formed() by {
        if i < k {
            assert(t[i] == s[i]);
        } else if i > k {
            assert(t[i] == s[i - 1]);
        }
    }
    assert forall|i: int, j: int| 0 <= i < j < t.len() implies (#[trigger] t[i]).interval_end <= (#[trigger] t[j]).interval_start by {
        if i < k {
            assert(t[i] == s[i]);
        } else if i > k {
            assert(t[i] == s[i - 1]);
        }
        if j < k {
            assert(t[j] == s[j]);
        } else if j > k {
            assert(t[j] == s[j - 1]);
        }
    }
    assert forall|i: int| 0 <= i < t.len() implies (#[trigger] t[i]).energy_type == energy_type by {
        if i < k {
            assert(t[i] == s[i]);
        } else if i > k {
            assert(t[i] == s[i - 1]);
        }
    }
}

/// Once a reading of the batch has failed, the merge has failed, at that reading.
pub proof fn lemma_invalid_stays(s: Seq<Reading>, energy_type: EnergyType, batch: Seq<Reading>, m: nat, n: nat)
    requires
        m <= n,
        merge_prefix(s, energy_type, batch, m) is Invalid,
    ensures
        merge_prefix(s, energy_type, batch, n) == merge_prefix(s, energy_type, batch, m),
    decreases n,
{
    if m < n {
        lemma_invalid_stays(s, energy_type, batch, m, (n - 1) as nat);
    }
}

/// In ordered readings each one starts before the next: the starts ascend
/// strictly.
pub proof fn lemma_ascending(s: Seq<Reading>)
    requires
        ordered(s),
    ensures
        forall|i: int, j: int|
            0 <= i < j < s.len() ==> (#[trigger] s[i]).interval_start < (#[trigger] s[j]).interval_start,
        forall|i: int| 0 <= i < s.len() ==> (#[trigger] s[i]).interval_start <= s.last().interval_start,
{
    assert forall|i: int, j: int| 0 <= i < j < s.len() implies (#[trigger] s[i]).interval_start < (#[trigger] s[j]).interval_start by {
        assert(s[i].well_formed());
        assert(s[i].interval_end <= s[j].interval_start);
    }
    assert forall|i: int| 0 <= i < s.len() implies (#[trigger] s[i]).interval_start <= s.last().interval_start by {
        if i < s.len() - 1 {
            assert(s[i].interval_start < s[s.len() - 1].interval_start);
        }
    }
}

/// What holds of a merge holds after each reading of the batch: the readings
/// are ordered, one more for each reading counted as inserted, and every
/// reading taken so far is counted once.
proof fn lemma_prefix_keeps_order(s: Seq<Reading>, energy_type: EnergyType, batch: Seq<Reading>, n: nat)
    requires
        ordered(s),
        all_of_type(s, energy_type),
        n <= batch.len(),
        s.len() + n <= usize::MAX,
    ensures
        merge_prefix(s, energy_type, batch, n) matches MergeOutcome::Merged {
            readings,
            inserted,
            duplicate,
            rejected,
        } ==> {
            &&& ordered(readings)
            &&& all_of_type(readings, energy_type)
            &&& readings.len() == s.len() + inserted
            &&& inserted + duplicate + rejected == n
        },
    decreases n,
{
    if n > 0 {
        lemma_prefix_keeps_order(s, energy_type, batch, (n - 1) as nat);
        match merge_prefix(s, energy_type, batch, (n - 1) as nat) {
            MergeOutcome::Invalid { index } => {},
            MergeOutcome::Merged { readings, inserted, duplicate, rejected } => {
                if placement(readings, energy_type, batch[n - 1]) is Insert {
                    lemma_insert_keeps_order(readings, energy_type, batch[n - 1]);
                }
            },
        }
    }
}

/// Every reading that was there before is there after each reading of the batch.
proof fn lemma_prefix_only_grows(s: Seq<Reading>, energy_type: EnergyType, batch: Seq<Reading>, n: nat)
    requires
        ordered(s),
        all_of_type(s, energy_type),
        n <= batch.len(),
        s.len() + n <= usize::MAX,
    ensures
        merge_prefix(s, energy_type, batch, n) matches MergeOutcome::Merged { readings, .. } ==> forall|
            i: int,
        |
            0 <= i < s.len() ==> readings.contains(#[trigger] s[i]),
    decreases n,
{
    if n > 0 {
        lemma_prefix_only_grows(s, energy_type, batch, (n - 1) as nat);
        lemma_prefix_keeps_order(s, energy_type, batch, (n - 1) as nat);
        match merge_prefix(s, energy_type, batch, (n - 1) as nat) {
            MergeOutcome::Invalid { index } => {},
            MergeOutcome::Merged { readings, inserted, duplicate, rejected } => {
                let r = batch[n - 1];
                if placement(readings, energy_type, r) is Insert {
                    lemma_insert_keeps_order(readings, energy_type, r);
                    let k = position(readings, r.interval_start as int);
                    let grown = readings.insert(k, r);
                    assert forall|i: int| 0 <= i < s.len() implies grown.contains(#[trigger] s[i]) by {
                        let j = choose|j: int| 0 <= j < readings.len() && readings[j] == s[i];
                        if j < k {
                            assert(grown[j] == s[i]);
                        } else {
                            assert(grown[j + 1] == s[i]);
                        }
                    }
                }
            },
        }
    } else {
        assert forall|i: int| 0 <= i < s.len() implies s.contains(#[trigger] s[i]) by {}
    }
}

/// Merging keeps the order: whatever batch is merged into ordered readings of
/// one kind of energy, what comes out of a successful merge is ordered again
/// and of that kind, so its readings come in strictly ascending order of
/// their start. It holds one reading more for each one counted as inserted,
/// and every reading of the batch is counted once.
pub proof fn lemma_merge_keeps_order(s: Seq<Reading>, energy_type: EnergyType, batch: Seq<Reading>)
    requires
        ordered(s),
        all_of_type(s, energy_type),
        s.len() + batch.len() <= usize::MAX,
    ensures
        merge_outcome(s, energy_type, batch) matches MergeOutcome::Merged {
            readings,
            inserted,
            duplicate,
            rejected,
        } ==> {
            &&& ordered(readings)
            &&& all_of_type(readings, energy_type)
            &&& readings.len() == s.len() + inserted
            &&& inserted + duplicate + rejected == batch.len()
            &&& forall|i: int, j: int|
                0 <= i < j < readings.len() ==> (#[trigger] readings[i]).interval_start < (
                #[trigger] readings[j]).interval_start
        },
{
    lemma_prefix_keeps_order(s, energy_type, batch, batch.len());
    match merge_outcome(s, energy_type, batch) {
        MergeOutcome::Merged { readings, .. } => {
            lemma_ascending(readings);
        },
        MergeOutcome::Invalid { .. } => {},
    }
}

/// A merge only adds: every reading that was there before a successful merge
/// is there after it.
pub proof fn lemma_merge_only_grows(s: Seq<Reading>, energy_type: EnergyType, batch: Seq<Reading>)
    requires
        ordered(s),
        all_of_type(s, energy_type),
        s.len() + batch.len() <= usize::MAX,
    ensures
        merge_outcome(s, energy_type, batch) matches MergeOutcome::Merged { readings, .. } ==> forall|
            i: int,
        |
            0 <= i < s.len() ==> readings.contains(#[trigger] s[i]),
{
    lemma_prefix_only_grows(s, energy_type, batch, batch.len());
}

/// Merging one reading a second time changes nothing: where the first merge
/// succeeded, the second succeeds too, inserts nothing and leaves the readings
/// as the first left them.
pub proof fn lemma_merge_idempotent(s: Seq<Reading>, energy_type: EnergyType, r: Reading)
    requires
        ordered(s),
        all_of_type(s, energy_type),
        s.len() <= usize::MAX,
    ensures
        merge_outcome(s, energy_type, seq![r]) matches MergeOutcome::Merged { readings, .. } ==> (
        merge_outcome(readings, energy_type, seq![r]) matches MergeOutcome::Merged {
            readings: again,
            inserted,
            ..
        } && again == readings && inserted == 0),
{
    reveal_with_fuel(merge_prefix, 3);
    let batch = seq![r];
    assert(batch[0] == r);
    match placement(s, energy_type, r) {
        Placement::Insert { at } => {
            lemma_insert_keeps_order(s, energy_type, r);
            let once = s.insert(at as int, r);
            assert(once[at as int].same_interval(r));
            assert(holds_interval(once, r));
        },
        _ => {},
    }
}

} // verus!
