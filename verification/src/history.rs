//! The mileage history: odometer readings that are put in the order of
//! their dates whenever one is added, and once more whenever the current
//! mileage is asked for.

use crate::error::EmptyLedgerError;
use crate::mileage::is_latest;
use crate::mileage::is_sorted_by_date;
use crate::mileage::latest_reading;
use crate::mileage::lemma_filing_twice_keeps_latest;
use crate::mileage::lemma_sorted_by_date;
use crate::mileage::lemma_sorted_by_date_ends_with_latest;
use crate::mileage::lemma_sorted_by_date_of_sorted;
use crate::mileage::lemma_sorting_after_push_files;
use crate::mileage::sort_by_date;
use crate::mileage::sorted_by_date;
use crate::mileage::with_record;
use crate::mileage::MileageRecord;
use vstd::prelude::*;

verus! {

/// The odometer readings of one vehicle.
#[derive(Debug)]
pub struct MileageHistory {
    pub(crate) records: Vec<MileageRecord>,
}

impl View for MileageHistory {
    type V = Seq<MileageRecord>;

    closed spec fn view(&self) -> Seq<MileageRecord> {
        self.records@
    }
}

impl MileageHistory {
    /// A history without readings.
    pub fn new() -> (r: MileageHistory)
        ensures
            r@ == Seq::<MileageRecord>::empty(),
    {
        MileageHistory { records: Vec::new() }
    }

    /// Adds `record` and puts the readings in the order of their dates.
    /// Readings of one date keep the order in which they were added.
    pub fn add_record(&mut self, record: MileageRecord)
        ensures
            final(self)@ == sorted_by_date(old(self)@.push(record)),
            is_sorted_by_date(final(self)@),
            final(self)@.len() == old(self)@.len() + 1,
    {
        proof {
            lemma_sorted_by_date(self.records@.push(record));
        }
        self.records.push(record);
        sort_by_date(&mut self.records);
    }

    /// The current mileage: the reading of the greatest date, and among
    /// those of that date the one that was added last. It fails on a history
    /// without readings.
    pub fn get_current_mileage(&self) -> (r: Result<u32, EmptyLedgerError>)
        ensures
            r == latest_reading(sorted_by_date(self@)),
            r is Err <==> self@.len() == 0,
    {
        let records = {
            let mut records = self.records.clone();
            assert(records@ =~= self.records@);
            sort_by_date(&mut records);
            records
        };
        proof {
            lemma_sorted_by_date(self.records@);
        }
        if records.len() == 0 {
            Err(EmptyLedgerError::NoObservations)
        } else {
            Ok(records[records.len() - 1].mileage)
        }
    }
}

/// A reading that is added to the history a second time does not change the
/// current mileage.
pub proof fn lemma_duplicate_keeps_current_mileage(history: MileageHistory, record: MileageRecord)
    ensures
        ({
            let once = sorted_by_date(history@.push(record));
            let twice = sorted_by_date(once.push(record));
            latest_reading(sorted_by_date(twice)) == latest_reading(sorted_by_date(once))
        }),
{
    let sorted = sorted_by_date(history@);
    let once = sorted_by_date(history@.push(record));
    let twice = sorted_by_date(once.push(record));
    assert(history@.push(record).drop_last() =~= history@);
    assert(once == with_record(sorted, record));
    lemma_sorted_by_date(history@.push(record));
    lemma_sorting_after_push_files(once, record);
    lemma_sorted_by_date(once.push(record));
    lemma_sorted_by_date_of_sorted(once);
    lemma_sorted_by_date_of_sorted(twice);
    lemma_filing_twice_keeps_latest(sorted, record);
}

/// Adding readings one by one, and sorting each time, leaves the history as
/// if all had been added first and sorted once.
pub proof fn lemma_add_record_sorts_all(added: Seq<MileageRecord>, record: MileageRecord)
    ensures
        sorted_by_date(sorted_by_date(added).push(record)) == sorted_by_date(added.push(record)),
{
    lemma_sorted_by_date(added);
    lemma_sorted_by_date_of_sorted(sorted_by_date(added));
    assert(sorted_by_date(added).push(record).drop_last() =~= sorted_by_date(added));
    assert(added.push(record).drop_last() =~= added);
}

/// The current mileage of a history that holds the readings `added` is the
/// reading that was added for the greatest date, and among those of that
/// date the one that was added last, in whatever order they were added.
pub proof fn lemma_current_mileage_is_latest(
    history: MileageHistory,
    added: Seq<MileageRecord>,
    at: int,
)
    requires
        history@ == sorted_by_date(added),
        is_latest(added, at),
    ensures
        latest_reading(sorted_by_date(history@)) == Ok::<u32, EmptyLedgerError>(
            added[at].mileage,
        ),
{
    lemma_sorted_by_date(added);
    lemma_sorted_by_date_of_sorted(history@);
    lemma_sorted_by_date_ends_with_latest(added, at);
}

} // verus!
