use crate::cache::model::{all_of_type, merge_outcome, ordered, MergeOutcome};
use crate::cache::store::{MergeReport, ReadingStore};
use crate::cache::CacheError;
use crate::types::usage::{raw_all, tag_readings, tagged_all, untag_readings, EnergyType, MeterReading, Reading};
use vstd::prelude::*;

verus! {

/// The content of the cache file: the readings of each kind of energy.
#[derive(Debug)]
pub struct UsageData {
    pub electricity_records: Vec<MeterReading>,
    pub gas_records: Vec<MeterReading>,
}

/// Why the bytes of the cache file could not be read as a snapshot.
#[derive(Debug, Clone, Copy, PartialEq, Eq, Structural)]
pub enum ParseFailure {
    /// The bytes could not be read from the file.
    Io,
    /// The bytes are not a well-formed document.
    Syntax,
    /// The document is well-formed, and no snapshot: a field is missing or of
    /// the wrong kind.
    Data,
    /// The bytes end before the document does: the file was cut short.
    Eof,
}

/// What is to be done before the cache file can be opened.
#[derive(Debug, Clone, Copy, PartialEq, Eq, Structural)]
pub struct PathSetup {
    /// The directories above the file are to be made, as far as they are missing.
    pub create_parents: bool,
    /// An empty file is to be made at the path.
    pub create_file: bool,
}

/// A step in the replacement of the cache file by a new snapshot. The snapshot
/// is written to a temporary file beside the cache file, which then takes the
/// cache file's place by a rename; after a failure the temporary file is
/// removed and the cache file is as it was.
#[derive(Debug, Clone, Copy, PartialEq, Eq, Structural)]
pub enum FlushStep {
    /// The snapshot is to be written to the temporary file.
    WriteTemp,
    /// The temporary file is to be renamed to the cache file.
    Rename,
    /// The temporary file is to be removed.
    RemoveTemp,
    /// The cache file holds the snapshot.
    Done,
    /// The cache file is as it was, and the flush has failed.
    Failed,
}

/// The step that follows `step`, given whether the work of `step` succeeded.
pub open spec fn flush_after(step: FlushStep, succeeded: bool) -> FlushStep {
    match step {
        FlushStep::WriteTemp => if succeeded {
            FlushStep::Rename
        } else {
            FlushStep::RemoveTemp
        },
        FlushStep::Rename => if succeeded {
            FlushStep::Done
        } else {
            FlushStep::RemoveTemp
        },
        FlushStep::RemoveTemp => FlushStep::Failed,
        FlushStep::Done => FlushStep::Done,
        FlushStep::Failed => FlushStep::Failed,
    }
}

/// Says which step follows `step`, given whether the work of `step` succeeded.
pub fn next_flush_step(step: FlushStep, succeeded: bool) -> (next: FlushStep)
    ensures
        next == flush_after(step, succeeded),
{
    match step {
        FlushStep::WriteTemp => if succeeded {
            FlushStep::Rename
        } else {
            FlushStep::RemoveTemp
        },
        FlushStep::Rename => if succeeded {
            FlushStep::Done
        } else {
            FlushStep::RemoveTemp
        },
        FlushStep::RemoveTemp => FlushStep::Failed,
        FlushStep::Done => FlushStep::Done,
        FlushStep::Failed => FlushStep::Failed,
    }
}

/// The cache file is renamed over only after the whole snapshot was written,
/// and a flush is done only after that rename succeeded: a failed flush never
/// touches the cache file.
pub proof fn lemma_flush_is_atomic(step: FlushStep, succeeded: bool)
    ensures
        flush_after(step, succeeded) == FlushStep::Rename ==> step == FlushStep::WriteTemp
            && succeeded,
        flush_after(step, succeeded) == FlushStep::Done ==> step == FlushStep::Done || (step
            == FlushStep::Rename && succeeded),
        step != FlushStep::Done ==> !succeeded ==> flush_after(step, succeeded) != FlushStep::Done,
{
}

/// The records can stand in a store as readings of the given kind of energy.
pub open spec fn records_ok(records: Seq<MeterReading>, energy_type: EnergyType) -> bool {
    ordered(tagged_all(records, energy_type))
}

/// A cache of readings that is kept in one file.
pub struct FileCache {
    cache_path: String,
    readings: ReadingStore,
}

impl UsageData {
    /// Both lists of records can stand in a store.
    pub open spec fn valid(&self) -> bool {
        &&& records_ok(self.electricity_records@, EnergyType::Electricity)
        &&& records_ok(self.gas_records@, EnergyType::Gas)
    }

    /// The store that holds these records, or `None` where the records of one
    /// kind of energy are not in order, overlap or cover an empty interval.
    pub fn into_store(&self) -> (store: Option<ReadingStore>)
        ensures
            store is Some <==> self.valid(),
            store matches Some(s) ==> {
                &&& s.wf()
                &&& s.readings(EnergyType::Electricity) == tagged_all(
                    self.electricity_records@,
                    EnergyType::Electricity,
                )
                &&& s.readings(EnergyType::Gas) == tagged_all(self.gas_records@, EnergyType::Gas)
            },
    {
        let electricity = tag_readings(&self.electricity_records, EnergyType::Electricity);
        let gas = tag_readings(&self.gas_records, EnergyType::Gas);
        ReadingStore::from_parts(electricity, gas)
    }

    /// The records of a store, as they are written to the cache file. Read
    /// back, they give the readings of that store.
    pub fn of_store(store: &ReadingStore) -> (data: UsageData)
        requires
            store.wf(),
        ensures
            data.electricity_records@ == raw_all(store.readings(EnergyType::Electricity)),
            data.gas_records@ == raw_all(store.readings(EnergyType::Gas)),
            data.valid(),
            tagged_all(data.electricity_records@, EnergyType::Electricity) == store.readings(
                EnergyType::Electricity,
            ),
            tagged_all(data.gas_records@, EnergyType::Gas) == store.readings(EnergyType::Gas),
    {
        let electricity = store.all_readings(EnergyType::Electricity);
        let gas = store.all_readings(EnergyType::Gas);
        proof {
            lemma_snapshot_round_trip(store.readings(EnergyType::Electricity), EnergyType::Electricity);
            lemma_snapshot_round_trip(store.readings(EnergyType::Gas), EnergyType::Gas);
        }
        UsageData {
            electricity_records: untag_readings(&electricity),
            gas_records: untag_readings(&gas),
        }
    }
}

/// Writing readings out and reading them back changes nothing: ordered
/// readings of one kind of energy, stripped of their kind as the cache file
/// holds them, are valid records, and tagged with their kind again they are
/// the readings that were written, in the same order.
pub proof fn lemma_snapshot_round_trip(s: Seq<Reading>, energy_type: EnergyType)
    requires
        ordered(s),
        all_of_type(s, energy_type),
    ensures
        tagged_all(raw_all(s), energy_type) == s,
        records_ok(raw_all(s), energy_type),
{
    assert(tagged_all(raw_all(s), energy_type) =~= s);
}

/// Says what is to be done so that the cache file can be opened: the
/// directories above it are made, and the file where there is none yet. A path
/// with nothing above it is no place for the cache.
pub fn plan_path_setup(path: &str, has_parent: bool, file_exists: bool) -> (setup: Result<PathSetup, CacheError>)
    ensures
        has_parent ==> setup == Ok::<PathSetup, CacheError>(
            PathSetup { create_parents: true, create_file: !file_exists },
        ),
        !has_parent ==> (setup matches Err(CacheError::IoFailure { path: p }) && p@ == path@),
{
    if has_parent {
        Ok(PathSetup { create_parents: true, create_file: !file_exists })
    } else {
        Err(CacheError::IoFailure { path: path.to_owned() })
    }
}

impl FileCache {
    /// The path of the cache file.
    pub closed spec fn path(&self) -> Seq<char> {
        self.cache_path@
    }

    /// The readings that the cache holds.
    pub closed spec fn store(&self) -> ReadingStore {
        self.readings
    }

    /// What holds of every cache: its store is in order.
    pub open spec fn wf(&self) -> bool {
        self.store().wf()
    }

    /// A cache for the file at `cache_path`, without readings yet.
    pub fn new(cache_path: &str) -> (cache: FileCache)
        ensures
            cache.wf(),
            cache.path() == cache_path@,
            cache.store().readings(EnergyType::Electricity) == Seq::<Reading>::empty(),
            cache.store().readings(EnergyType::Gas) == Seq::<Reading>::empty(),
    {
        FileCache { cache_path: cache_path.to_owned(), readings: ReadingStore::new() }
    }

    /// The path of the cache file.
    pub fn cache_path(&self) -> (path: &str)
        ensures
            path@ == self.path(),
    {
        self.cache_path.as_str()
    }

    /// The store that holds the readings of the cache.
    pub fn reading_store(&self) -> (store: &ReadingStore)
        ensures
            *store == self.store(),
    {
        &self.readings
    }

    /// Takes what was read from the cache file: how many bytes the file holds,
    /// and what they parsed to.
    ///
    /// Bytes that could not be read fail with `IoFailure`. A file of zero
    /// bytes is an empty cache. A valid snapshot becomes the content of the
    /// cache. Everything else is a file that holds something and no cache:
    /// bytes that are no document, a document that was cut short or is no
    /// snapshot, a snapshot whose records are not in order. It fails with
    /// `CorruptCache`. Every failure leaves the cache as it was.
    pub fn load(&mut self, file_len: usize, parsed: Result<UsageData, ParseFailure>) -> (result: Result<(), CacheError>)
        requires
            old(self).wf(),
        ensures
            final(self).wf(),
            final(self).path() == old(self).path(),
            if parsed matches Err(ParseFailure::Io) {
                &&& result matches Err(CacheError::IoFailure { path })
                &&& path@ == old(self).path()
                &&& final(self).store() == old(self).store()
            } else if file_len == 0 {
                &&& result is Ok
                &&& final(self).store().readings(EnergyType::Electricity) == Seq::<Reading>::empty()
                &&& final(self).store().readings(EnergyType::Gas) == Seq::<Reading>::empty()
            } else {
                match parsed {
                    Ok(data) if data.valid() => {
                        &&& result is Ok
                        &&& final(self).store().readings(EnergyType::Electricity) == tagged_all(
                            data.electricity_records@,
                            EnergyType::Electricity,
                        )
                        &&& final(self).store().readings(EnergyType::Gas) == tagged_all(
                            data.gas_records@,
                            EnergyType::Gas,
                        )
                    },
                    _ => {
                        &&& result matches Err(CacheError::CorruptCache { path })
                        &&& path@ == old(self).path()
                        &&& final(self).store() == old(self).store()
                    },
                }
            },
    {
        match parsed {
            Err(ParseFailure::Io) => Err(CacheError::IoFailure { path: self.cache_path.clone() }),
            Ok(data) => {
                if file_len == 0 {
                    self.readings = ReadingStore::new();
                    Ok(())
                } else {
                    match data.into_store() {
                        Some(store) => {
                            self.readings = store;
                            Ok(())
                        },
                        None => Err(CacheError::CorruptCache { path: self.cache_path.clone() }),
                    }
                }
            },
            Err(_) => {
                if file_len == 0 {
                    self.readings = ReadingStore::new();
                    Ok(())
                } else {
                    Err(CacheError::CorruptCache { path: self.cache_path.clone() })
                }
            },
        }
    }

    /// The snapshot that is to be written to the cache file. Loaded again, it
    /// gives the readings that the cache holds now.
    pub fn flush(&self) -> (data: UsageData)
        requires
            self.wf(),
        ensures
            data.valid(),
            data.electricity_records@ == raw_all(self.store().readings(EnergyType::Electricity)),
            data.gas_records@ == raw_all(self.store().readings(EnergyType::Gas)),
            tagged_all(data.electricity_records@, EnergyType::Electricity) == self.store().readings(
                EnergyType::Electricity,
            ),
            tagged_all(data.gas_records@, EnergyType::Gas) == self.store().readings(EnergyType::Gas),
    {
        UsageData::of_store(&self.readings)
    }

    /// What the flush has come to at `step`: success once it is done, an
    /// `IoFailure` under the cache's path once it has failed, and `None` while
    /// there is work left.
    pub fn flush_result(&self, step: FlushStep) -> (result: Option<Result<(), CacheError>>)
        ensures
            step == FlushStep::Done ==> result == Some(Ok::<(), CacheError>(())),
            step == FlushStep::Failed ==> (result matches Some(Err(CacheError::IoFailure { path }))
                && path@ == self.path()),
            step != FlushStep::Done && step != FlushStep::Failed ==> result is None,
    {
        match step {
            FlushStep::Done => Some(Ok(())),
            FlushStep::Failed => Some(Err(CacheError::IoFailure { path: self.cache_path.clone() })),
            _ => None,
        }
    }

    /// The reading of the given kind of energy that starts last, if the cache
    /// holds one of that kind.
    pub fn most_recent_reading(&self, type_: EnergyType) -> (recent: Option<Reading>)
        requires
            self.wf(),
        ensures
            recent is None <==> self.store().readings(type_).len() == 0,
            recent matches Some(r) ==> {
                &&& r == self.store().readings(type_).last()
                &&& forall|i: int|
                    0 <= i < self.store().readings(type_).len() ==> (
                    #[trigger] self.store().readings(type_)[i]).interval_start <= r.interval_start
            },
    {
        self.readings.most_recent_reading(type_)
    }

    /// All readings of the given kind of energy, in ascending order of time.
    pub fn all_readings(&self, type_: EnergyType) -> (all: Vec<Reading>)
        requires
            self.wf(),
        ensures
            all@ == self.store().readings(type_),
            forall|i: int, j: int|
                0 <= i < j < all@.len() ==> (#[trigger] all@[i]).interval_start < (
                #[trigger] all@[j]).interval_start,
    {
        self.readings.all_readings(type_)
    }

    /// Merges a batch of readings into the cache, as `ReadingStore::merge` does.
    pub fn merge(&mut self, type_: EnergyType, new_readings: &Vec<Reading>) -> (result: Result<MergeReport, CacheError>)
        requires
            old(self).wf(),
        ensures
            final(self).wf(),
            final(self).path() == old(self).path(),
            forall|other: EnergyType|
                other != type_ ==> final(self).store().readings(other) == old(self).store().readings(
                    other,
                ),
            match merge_outcome(old(self).store().readings(type_), type_, new_readings@) {
                MergeOutcome::Merged { readings, inserted, duplicate, rejected } => {
                    &&& result matches Ok(report)
                    &&& report.inserted == inserted
                    &&& report.duplicate == duplicate
                    &&& report.rejected == rejected
                    &&& final(self).store().readings(type_) == readings
                },
                MergeOutcome::Invalid { index } => {
                    &&& result matches Err(CacheError::InvalidReading { index: at })
                    &&& at == index
                    &&& final(self).store().readings(type_) == old(self).store().readings(type_)
                },
            },
    {
        self.readings.merge(type_, new_readings)
    }
}

} // verus!
