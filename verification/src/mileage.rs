//! The mileage ledger: dated odometer readings, kept in the order of their
//! dates, and the latest of them.
//!
//! Readings may arrive in any order of dates. A reading is filed behind
//! those of its own date, so of two readings of one date the one that
//! arrived later counts as the later one.

use crate::calendar::Date;
use crate::error::EmptyLedgerError;
use vstd::prelude::*;

verus! {

/// An odometer reading and the day on which it was taken.
#[derive(Clone, Copy, Debug)]
pub struct MileageRecord {
    pub date: Date,
    pub mileage: u32,
}

impl MileageRecord {
    /// The day number of the day on which the reading was taken.
    pub open spec fn day(self) -> int {
        self.date@.day_number()
    }
}

/// Whether the dates of `records` never go back.
pub open spec fn is_sorted_by_date(records: Seq<MileageRecord>) -> bool {
    forall|i: int, j: int| 0 <= i <= j < records.len() ==> records[i].day() <= records[j].day()
}

/// Where a reading of day number `day` is filed in `records`: behind the
/// last reading that is not of a later day.
pub open spec fn insertion_point(records: Seq<MileageRecord>, day: int) -> int
    decreases records.len(),
{
    if records.len() == 0 {
        0
    } else if records.last().day() <= day {
        records.len() as int
    } else {
        insertion_point(records.drop_last(), day)
    }
}

/// `records` with `record` filed in it.
pub open spec fn with_record(records: Seq<MileageRecord>, record: MileageRecord) -> Seq<
    MileageRecord,
> {
    records.insert(insertion_point(records, record.day()), record)
}

/// `records` put in the order of their dates, those of one date in the order
/// in which they stand in `records`.
pub open spec fn sorted_by_date(records: Seq<MileageRecord>) -> Seq<MileageRecord>
    decreases records.len(),
{
    if records.len() == 0 {
        records
    } else {
        with_record(sorted_by_date(records.drop_last()), records.last())
    }
}

/// The reading that stands last in `records`.
pub open spec fn latest_reading(records: Seq<MileageRecord>) -> Result<u32, EmptyLedgerError> {
    if records.len() == 0 {
        Err(EmptyLedgerError::NoObservations)
    } else {
        Ok(records.last().mileage)
    }
}

/// The insertion point lies behind every reading up to the given day and
/// before every later one.
pub proof fn lemma_insertion_point(records: Seq<MileageRecord>, day: int)
    ensures
        0 <= insertion_point(records, day) <= records.len(),
        insertion_point(records, day) > 0 ==> records[insertion_point(records, day) - 1].day()
            <= day,
        forall|i: int|
            insertion_point(records, day) <= i < records.len() ==> records[i].day() > day,
    decreases records.len(),
{
    if records.len() > 0 && records.last().day() > day {
        let front = records.drop_last();
        lemma_insertion_point(front, day);
        assert forall|i: int|
            insertion_point(records, day) <= i < records.len() implies records[i].day() > day by {
            if i < front.len() {
                assert(records[i] == front[i]);
            }
        }
    }
}

/// Filing keeps every reading and adds the new one.
pub proof fn lemma_with_record_len(records: Seq<MileageRecord>, record: MileageRecord)
    ensures
        with_record(records, record).len() == records.len() + 1,
        with_record(records, record).contains(record),
{
    lemma_insertion_point(records, record.day());
    let at = insertion_point(records, record.day());
    assert(with_record(records, record)[at] == record);
}

/// Filing a reading in a ledger that is in the order of its dates leaves it
/// in that order.
pub proof fn lemma_with_record_sorted(records: Seq<MileageRecord>, record: MileageRecord)
    requires
        is_sorted_by_date(records),
    ensures
        is_sorted_by_date(with_record(records, record)),
{
    lemma_insertion_point(records, record.day());
    let at = insertion_point(records, record.day());
    let filed = with_record(records, record);
    assert forall|i: int, j: int| 0 <= i <= j < filed.len() implies filed[i].day()
        <= filed[j].day() by {
        if i < at {
            assert(filed[i] == records[i]);
            assert(records[i].day() <= records[at - 1].day());
        } else if i > at {
            assert(filed[i] == records[i - 1]);
        }
        if j < at {
            assert(filed[j] == records[j]);
        } else if j > at {
            assert(filed[j] == records[j - 1]);
        }
    }
}

/// Sorting puts the readings in the order of their dates and keeps their
/// number.
pub proof fn lemma_sorted_by_date(records: Seq<MileageRecord>)
    ensures
        is_sorted_by_date(sorted_by_date(records)),
        sorted_by_date(records).len() == records.len(),
    decreases records.len(),
{
    if records.len() > 0 {
        lemma_sorted_by_date(records.drop_last());
        lemma_with_record_sorted(sorted_by_date(records.drop_last()), records.last());
        lemma_with_record_len(sorted_by_date(records.drop_last()), records.last());
    }
}

/// Sorting changes nothing in a ledger that is in the order of its dates.
pub proof fn lemma_sorted_by_date_of_sorted(records: Seq<MileageRecord>)
    requires
        is_sorted_by_date(records),
    ensures
        sorted_by_date(records) == records,
    decreases records.len(),
{
    if records.len() > 0 {
        let front = records.drop_last();
        lemma_sorted_by_date_of_sorted(front);
        assert(insertion_point(front, records.last().day()) == front.len()) by {
            if front.len() > 0 {
                assert(front.last() == records[records.len() - 2]);
            }
        }
        assert(front.insert(front.len() as int, records.last()) =~= records);
    }
}

/// Sorting keeps the readings: each as often as it stood there before.
pub proof fn lemma_sorted_by_date_keeps_readings(records: Seq<MileageRecord>)
    ensures
        sorted_by_date(records).to_multiset() == records.to_multiset(),
    decreases records.len(),
{
    if records.len() > 0 {
        let front = records.drop_last();
        let sorted_front = sorted_by_date(front);
        lemma_sorted_by_date_keeps_readings(front);
        lemma_insertion_point(sorted_front, records.last().day());
        vstd::seq_lib::to_multiset_insert(
            sorted_front,
            insertion_point(sorted_front, records.last().day()),
            records.last(),
        );
        front.to_multiset_ensures();
        assert(front.push(records.last()) =~= records);
    }
}

/// Whether the reading at `at` is the latest of `records`, whatever their
/// order: none is of a later day, and none behind it is of the same day.
pub open spec fn is_latest(records: Seq<MileageRecord>, at: int) -> bool {
    &&& 0 <= at < records.len()
    &&& forall|i: int| 0 <= i < at ==> records[i].day() <= records[at].day()
    &&& forall|i: int| at < i < records.len() ==> records[i].day() < records[at].day()
}

/// In whatever order the readings were added, the one that stands last once
/// they are sorted is the latest: that of the greatest date, and among those
/// of that date the one that was added last.
pub proof fn lemma_sorted_by_date_ends_with_latest(records: Seq<MileageRecord>, at: int)
    requires
        is_latest(records, at),
    ensures
        sorted_by_date(records).len() > 0,
        sorted_by_date(records).last() == records[at],
        latest_reading(sorted_by_date(records)) == Ok::<u32, EmptyLedgerError>(
            records[at].mileage,
        ),
    decreases records.len(),
{
    let front = records.drop_last();
    let sorted_front = sorted_by_date(front);
    let record = records.last();
    lemma_sorted_by_date(front);
    lemma_insertion_point(sorted_front, record.day());
    if at == records.len() - 1 {
        if sorted_front.len() > 0 {
            let last = sorted_front.last();
            lemma_sorted_by_date_keeps_readings(front);
            sorted_front.to_multiset_ensures();
            front.to_multiset_ensures();
            assert(sorted_front.contains(last));
            assert(sorted_front.to_multiset().count(last) > 0);
            assert(front.contains(last));
            let i = choose|i: int| 0 <= i < front.len() && front[i] == last;
            assert(records[i] == last);
        }
    } else {
        assert(is_latest(front, at)) by {
            assert(forall|i: int| 0 <= i < front.len() ==> front[i] == records[i]);
        }
        lemma_sorted_by_date_ends_with_latest(front, at);
        assert(front[at] == records[at]);
    }
}

/// Adding a reading to readings that stand in the order of their dates, and
/// sorting them, files the reading: the history and the ledger keep the same
/// readings in the same order.
pub proof fn lemma_sorting_after_push_files(records: Seq<MileageRecord>, record: MileageRecord)
    requires
        is_sorted_by_date(records),
    ensures
        sorted_by_date(records.push(record)) == with_record(records, record),
{
    lemma_sorted_by_date_of_sorted(records);
    assert(records.push(record).drop_last() =~= records);
}

/// Files `record` in `records`: behind the last reading that is not of a
/// later day.
pub fn insert_by_date(records: &mut Vec<MileageRecord>, record: MileageRecord)
    ensures
        final(records)@ == with_record(old(records)@, record),
{
    let day = record.date.day_number();
    let mut position = records.len();
    proof {
        assert(records@.take(position as int) =~= records@);
    }
    while position > 0 && records[position - 1].date.day_number() > day
        invariant
            position <= records.len(),
            records@ == old(records)@,
            day == record.day(),
            insertion_point(records@, day as int) == insertion_point(
                records@.take(position as int),
                day as int,
            ),
        decreases position,
    {
        proof {
            let front = records@.take(position as int);
            assert(front.last() == records@[position - 1]);
            assert(front.drop_last() =~= records@.take(position - 1));
        }
        position -= 1;
    }
    proof {
        let front = records@.take(position as int);
        if position > 0 {
            assert(front.last() == records@[position - 1]);
        }
    }
    records.insert(position, record);
}

/// Puts `records` in the order of their dates. Readings of one date keep
/// their order.
pub fn sort_by_date(records: &mut Vec<MileageRecord>)
    ensures
        final(records)@ == sorted_by_date(old(records)@),
{
    let mut sorted: Vec<MileageRecord> = Vec::new();
    let mut done: usize = 0;
    while done < records.len()
        invariant
            done <= records.len(),
            records@ == old(records)@,
            sorted@ == sorted_by_date(records@.take(done as int)),
        decreases records.len() - done,
    {
        proof {
            let next = records@.take(done + 1);
            assert(next.last() == records@[done as int]);
            assert(next.drop_last() =~= records@.take(done as int));
        }
        insert_by_date(&mut sorted, records[done]);
        done += 1;
    }
    proof {
        assert(records@.take(records.len() as int) =~= records@);
    }
    *records = sorted;
}

/// The ledger of odometer readings of one vehicle.
#[derive(Debug)]
pub struct MileageRecords {
    pub(crate) records: Vec<MileageRecord>,
}

impl View for MileageRecords {
    type V = Seq<MileageRecord>;

    closed spec fn view(&self) -> Seq<MileageRecord> {
        self.records@
    }
}

impl MileageRecords {
    /// What holds of every ledger: its readings stand in the order of their
    /// dates.
    #[verifier::type_invariant]
    pub closed spec fn wf(self) -> bool {
        is_sorted_by_date(self.records@)
    }

    /// A ledger without readings.
    pub fn new() -> (r: MileageRecords)
        ensures
            r.wf(),
            r@ == Seq::<MileageRecord>::empty(),
    {
        MileageRecords { records: Vec::new() }
    }

    /// Files `record` in the ledger, behind the readings of its own date, and
    /// hands the ledger back for the next reading.
    pub fn add(&mut self, record: MileageRecord) -> (ret: &mut Self)
        ensures
            ret@ == with_record(old(self)@, record),
            ret.wf(),
            *final(self) == *final(ret),
    {
        proof {
            use_type_invariant(&*self);
            lemma_with_record_sorted(self.records@, record);
        }
        let mut records: Vec<MileageRecord> = Vec::new();
        core::mem::swap(&mut self.records, &mut records);
        insert_by_date(&mut records, record);
        self.records = records;
        self
    }

    /// The latest reading: that of the greatest date, and among those of
    /// that date the one that was added last. It fails on a ledger without
    /// readings.
    pub fn get_latest_mileage(&self) -> (r: Result<u32, EmptyLedgerError>)
        ensures
            r == latest_reading(self@),
            is_sorted_by_date(self@),
    {
        proof {
            use_type_invariant(self);
        }
        if self.records.len() == 0 {
            Err(EmptyLedgerError::NoObservations)
        } else {
            Ok(self.records[self.records.len() - 1].mileage)
        }
    }
}

/// The readings of a ledger stand in the order of their dates, so none is of
/// a later day than the last.
pub proof fn lemma_ledger_is_sorted(ledger: MileageRecords)
    requires
        ledger.wf(),
    ensures
        is_sorted_by_date(ledger@),
        forall|i: int| 0 <= i < ledger@.len() ==> ledger@[i].day() <= ledger@.last().day(),
{
}

/// Filing a reading a second time does not change which reading stands
/// last.
pub proof fn lemma_filing_twice_keeps_latest(records: Seq<MileageRecord>, record: MileageRecord)
    ensures
        latest_reading(with_record(with_record(records, record), record)) == latest_reading(
            with_record(records, record),
        ),
{
    let once = with_record(records, record);
    lemma_insertion_point(records, record.day());
    lemma_insertion_point(once, record.day());
    let first = insertion_point(records, record.day());
    let second = insertion_point(once, record.day());
    assert(once[first] == record);
    assert(second == first + 1) by {
        assert(forall|i: int| first < i < once.len() ==> once[i] == records[i - 1]);
        if second <= first {
            assert(once[first].day() > record.day());
        }
    }
    if second < once.len() {
        assert(with_record(once, record).last() == once.last());
    } else {
        assert(with_record(once, record).last() == record);
    }
}

/// A reading that is added to the ledger a second time does not change the
/// latest reading.
pub proof fn lemma_duplicate_keeps_latest_reading(ledger: MileageRecords, record: MileageRecord)
    requires
        ledger.wf(),
    ensures
        latest_reading(with_record(with_record(ledger@, record), record)) == latest_reading(
            with_record(ledger@, record),
        ),
{
    lemma_filing_twice_keeps_latest(ledger@, record);
}

/// The latest reading of a ledger that holds the readings `added` is the
/// reading that was added for the greatest date, and among those of that
/// date the one that was added last, in whatever order they were added.
pub proof fn lemma_latest_mileage_is_latest(
    ledger: MileageRecords,
    added: Seq<MileageRecord>,
    at: int,
)
    requires
        ledger.wf(),
        ledger@ == sorted_by_date(added),
        is_latest(added, at),
    ensures
        latest_reading(ledger@) == Ok::<u32, EmptyLedgerError>(added[at].mileage),
{
    lemma_sorted_by_date_ends_with_latest(added, at);
}

/// A ledger to which readings were added one by one holds them as if they
/// had been sorted all at once.
pub proof fn lemma_add_sorts_all(added: Seq<MileageRecord>, record: MileageRecord)
    ensures
        with_record(sorted_by_date(added), record) == sorted_by_date(added.push(record)),
{
    assert(added.push(record).drop_last() =~= added);
}

/// A reading of an earlier day than the last of the ledger does not change
/// the latest reading, and one of the last day or a later day becomes the
/// latest reading.
pub proof fn lemma_latest_reading_after_add(ledger: MileageRecords, record: MileageRecord)
    requires
        ledger.wf(),
    ensures
        ledger@.len() > 0 && record.day() < ledger@.last().day() ==> latest_reading(
            with_record(ledger@, record),
        ) == latest_reading(ledger@),
        ledger@.len() == 0 || record.day() >= ledger@.last().day() ==> latest_reading(
            with_record(ledger@, record),
        ) == Ok::<u32, EmptyLedgerError>(record.mileage),
{
    lemma_insertion_point(ledger@, record.day());
}

} // verus!
