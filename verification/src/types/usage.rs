use vstd::prelude::*;

verus! {

/// The two kinds of energy that are metered.
#[derive(Debug, Clone, Copy, PartialEq, Eq, Structural)]
pub enum EnergyType {
    Electricity,
    Gas,
}

/// Raw meter reading as the metering service and the cache file give it.
///
/// The two ends of the interval are instants, in microseconds since the Unix
/// epoch. `consumption` is the bit pattern of the single-precision quantity
/// that was measured: the library carries it and never computes with it.
#[derive(Debug, Clone, Copy, PartialEq, Eq, Structural)]
pub struct MeterReading {
    pub consumption: u32,
    pub interval_end: i64,
    pub interval_start: i64,
}

/// One interval measurement of one kind of energy.
#[derive(Debug, Clone, Copy, PartialEq, Eq, Structural)]
pub struct Reading {
    pub energy_type: EnergyType,
    pub interval_start: i64,
    pub interval_end: i64,
    pub consumption: u32,
}

/// One page of readings as the metering service answers with it.
pub struct RawUsageData {
    pub count: i32,
    pub next: Option<String>,
    pub previous: Option<String>,
    pub results: Vec<MeterReading>,
}

impl MeterReading {
    /// This reading as one of the given kind of energy.
    pub open spec fn tagged(self, energy_type: EnergyType) -> Reading {
        Reading {
            energy_type,
            interval_start: self.interval_start,
            interval_end: self.interval_end,
            consumption: self.consumption,
        }
    }

    /// This reading as one of the given kind of energy.
    pub fn with_type(self, energy_type: EnergyType) -> (reading: Reading)
        ensures
            reading == self.tagged(energy_type),
    {
        Reading {
            energy_type,
            interval_start: self.interval_start,
            interval_end: self.interval_end,
            consumption: self.consumption,
        }
    }
}

impl Reading {
    /// The interval is not empty: it starts before it ends.
    pub open spec fn well_formed(self) -> bool {
        self.interval_start < self.interval_end
    }

    /// Both readings cover the same interval.
    pub open spec fn same_interval(self, other: Reading) -> bool {
        self.interval_start == other.interval_start && self.interval_end == other.interval_end
    }

    /// The two half-open intervals share an instant.
    pub open spec fn overlaps(self, other: Reading) -> bool {
        self.interval_start < other.interval_end && other.interval_start < self.interval_end
    }

    /// The reading without its kind of energy.
    pub open spec fn raw(self) -> MeterReading {
        MeterReading {
            consumption: self.consumption,
            interval_end: self.interval_end,
            interval_start: self.interval_start,
        }
    }

    /// The reading without its kind of energy, as the cache file holds it.
    pub fn to_raw(self) -> (raw: MeterReading)
        ensures
            raw == self.raw(),
    {
        MeterReading {
            consumption: self.consumption,
            interval_end: self.interval_end,
            interval_start: self.interval_start,
        }
    }
}

/// The readings of a page, each as a reading of the given kind of energy.
pub open spec fn tagged_all(records: Seq<MeterReading>, energy_type: EnergyType) -> Seq<Reading> {
    Seq::new(records.len(), |i: int| records[i].tagged(energy_type))
}

/// The readings without their kind of energy.
pub open spec fn raw_all(readings: Seq<Reading>) -> Seq<MeterReading> {
    Seq::new(readings.len(), |i: int| readings[i].raw())
}

/// Tags each raw reading with the given kind of energy, in the order given.
pub fn tag_readings(records: &Vec<MeterReading>, energy_type: EnergyType) -> (readings: Vec<Reading>)
    ensures
        readings@ == tagged_all(records@, energy_type),
{
    let mut readings: Vec<Reading> = Vec::new();
    let mut i: usize = 0;
    while i < records.len()
        invariant
            i <= records.len(),
            readings@ == tagged_all(records@.take(i as int), energy_type),
        decreases records.len() - i,
    {
        readings.push(records[i].with_type(energy_type));
        i += 1;
        assert(readings@ =~= tagged_all(records@.take(i as int), energy_type));
    }
    assert(records@.take(i as int) =~= records@);
    readings
}

/// Strips the kind of energy from each reading, in the order given.
pub fn untag_readings(readings: &Vec<Reading>) -> (records: Vec<MeterReading>)
    ensures
        records@ == raw_all(readings@),
{
    let mut records: Vec<MeterReading> = Vec::new();
    let mut i: usize = 0;
    while i < readings.len()
        invariant
            i <= readings.len(),
            records@ == raw_all(readings@.take(i as int)),
        decreases readings.len() - i,
    {
        records.push(readings[i].to_raw());
        i += 1;
        assert(records@ =~= raw_all(readings@.take(i as int)));
    }
    assert(readings@.take(i as int) =~= readings@);
    records
}

impl RawUsageData {
    /// The readings of this page as readings of the given kind of energy, ready
    /// to be merged into a store.
    pub fn readings(&self, energy_type: EnergyType) -> (readings: Vec<Reading>)
        ensures
            readings@ == tagged_all(self.results@, energy_type),
    {
        tag_readings(&self.results, energy_type)
    }
}

} // verus!
