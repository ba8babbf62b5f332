use mileage_budget::calendar::Date;
use mileage_budget::error::ArithmeticError;
use mileage_budget::error::EmptyLedgerError;
use mileage_budget::error::ValidationError;
use mileage_budget::history::MileageHistory;
use mileage_budget::mileage::insert_by_date;
use mileage_budget::mileage::sort_by_date;
use mileage_budget::mileage::MileageRecord;
use mileage_budget::mileage::MileageRecords;
use mileage_budget::trip::Trip;
use mileage_budget::trip::Trips;

fn on(year: i32, month: u32, day: u32) -> Date {
    Date::from_ymd(year, month, day).unwrap()
}

fn reading(year: i32, month: u32, day: u32, mileage: u32) -> MileageRecord {
    MileageRecord { date: on(year, month, day), mileage }
}

fn readings_of(records: &Vec<MileageRecord>) -> Vec<u32> {
    let mut mileages = Vec::new();
    for record in records {
        mileages.push(record.mileage);
    }
    mileages
}

fn trip(name: &str, start: Date, end: Date, mileage: u32) -> Trip {
    Trip::new(String::from(name), start, end, mileage).unwrap()
}

#[test]
fn empty_ledger_has_no_observations() {
    let ledger = MileageRecords::new();
    assert_eq!(ledger.get_latest_mileage(), Err(EmptyLedgerError::NoObservations));
}

#[test]
fn ledger_with_one_reading_returns_it() {
    let mut ledger = MileageRecords::new();
    ledger.add(reading(2023, 8, 1, 62568));
    assert_eq!(ledger.get_latest_mileage(), Ok(62568));
}

#[test]
fn latest_reading_is_that_of_the_greatest_date() {
    let mut ledger = MileageRecords::new();
    ledger
        .add(reading(2023, 8, 1, 62568))
        .add(reading(2023, 8, 6, 62821))
        .add(reading(2023, 8, 11, 62890));
    assert_eq!(ledger.get_latest_mileage(), Ok(62890));
}

#[test]
fn latest_reading_does_not_depend_on_the_order_of_insertion() {
    let mut ledger = MileageRecords::new();
    ledger
        .add(reading(2023, 8, 11, 62890))
        .add(reading(2023, 8, 1, 62568))
        .add(reading(2023, 8, 6, 62821));
    assert_eq!(ledger.get_latest_mileage(), Ok(62890));
    let mut ledger = MileageRecords::new();
    ledger
        .add(reading(2023, 8, 6, 62821))
        .add(reading(2023, 8, 11, 62890))
        .add(reading(2023, 8, 1, 62568));
    assert_eq!(ledger.get_latest_mileage(), Ok(62890));
}

#[test]
fn latest_reading_goes_by_date_and_not_by_mileage() {
    let mut ledger = MileageRecords::new();
    ledger.add(reading(2023, 8, 11, 100)).add(reading(2023, 8, 1, 900));
    assert_eq!(ledger.get_latest_mileage(), Ok(100));
}

#[test]
fn of_two_readings_of_one_date_the_later_added_wins() {
    let mut ledger = MileageRecords::new();
    ledger.add(reading(2023, 8, 1, 100)).add(reading(2023, 8, 1, 200));
    assert_eq!(ledger.get_latest_mileage(), Ok(200));
    let mut ledger = MileageRecords::new();
    ledger.add(reading(2023, 8, 1, 200)).add(reading(2023, 8, 1, 100));
    assert_eq!(ledger.get_latest_mileage(), Ok(100));
}

#[test]
fn duplicate_of_an_earlier_reading_keeps_the_latest() {
    let mut ledger = MileageRecords::new();
    ledger.add(reading(2023, 8, 1, 62568)).add(reading(2023, 8, 6, 62821));
    assert_eq!(ledger.get_latest_mileage(), Ok(62821));
    ledger.add(reading(2023, 8, 1, 62568));
    assert_eq!(ledger.get_latest_mileage(), Ok(62821));
    ledger.add(reading(2023, 8, 1, 62568));
    assert_eq!(ledger.get_latest_mileage(), Ok(62821));
}

#[test]
fn duplicate_of_the_latest_reading_keeps_the_latest() {
    let mut ledger = MileageRecords::new();
    ledger.add(reading(2023, 8, 1, 62568)).add(reading(2023, 8, 6, 62821));
    ledger.add(reading(2023, 8, 6, 62821));
    assert_eq!(ledger.get_latest_mileage(), Ok(62821));
    ledger.add(reading(2023, 8, 6, 62821));
    assert_eq!(ledger.get_latest_mileage(), Ok(62821));
}

#[test]
fn insert_by_date_files_behind_readings_of_the_same_date() {
    let mut records = vec![reading(2023, 8, 1, 1), reading(2023, 8, 6, 2), reading(2023, 8, 6, 3)];
    insert_by_date(&mut records, reading(2023, 8, 6, 4));
    assert_eq!(readings_of(&records), vec![1, 2, 3, 4]);
    insert_by_date(&mut records, reading(2023, 8, 1, 5));
    assert_eq!(readings_of(&records), vec![1, 5, 2, 3, 4]);
    insert_by_date(&mut records, reading(2023, 7, 31, 6));
    assert_eq!(readings_of(&records), vec![6, 1, 5, 2, 3, 4]);
    insert_by_date(&mut records, reading(2023, 8, 3, 7));
    assert_eq!(readings_of(&records), vec![6, 1, 5, 7, 2, 3, 4]);
}

#[test]
fn insert_by_date_into_nothing() {
    let mut records = Vec::new();
    insert_by_date(&mut records, reading(2023, 8, 6, 4));
    assert_eq!(readings_of(&records), vec![4]);
}

#[test]
fn sort_by_date_orders_by_date_and_keeps_ties_in_order() {
    let mut records = vec![
        reading(2023, 8, 11, 1),
        reading(2023, 8, 1, 2),
        reading(2023, 8, 6, 3),
        reading(2023, 8, 1, 4),
        reading(2022, 8, 11, 5),
        reading(2023, 8, 11, 6),
    ];
    sort_by_date(&mut records);
    assert_eq!(readings_of(&records), vec![5, 2, 4, 3, 1, 6]);
    sort_by_date(&mut records);
    assert_eq!(readings_of(&records), vec![5, 2, 4, 3, 1, 6]);
}

#[test]
fn sort_by_date_of_nothing_is_nothing() {
    let mut records: Vec<MileageRecord> = Vec::new();
    sort_by_date(&mut records);
    assert!(records.is_empty());
}

#[test]
fn empty_history_has_no_observations() {
    let history = MileageHistory::new();
    assert_eq!(history.get_current_mileage(), Err(EmptyLedgerError::NoObservations));
}

#[test]
fn history_returns_the_reading_of_the_greatest_date() {
    let mut history = MileageHistory::new();
    history.add_record(reading(2023, 8, 11, 62890));
    assert_eq!(history.get_current_mileage(), Ok(62890));
    history.add_record(reading(2023, 8, 1, 62568));
    assert_eq!(history.get_current_mileage(), Ok(62890));
    history.add_record(reading(2023, 8, 12, 63000));
    assert_eq!(history.get_current_mileage(), Ok(63000));
}

#[test]
fn history_lets_the_later_added_of_one_date_win() {
    let mut history = MileageHistory::new();
    history.add_record(reading(2023, 8, 11, 1));
    history.add_record(reading(2023, 8, 11, 2));
    history.add_record(reading(2023, 8, 10, 3));
    assert_eq!(history.get_current_mileage(), Ok(2));
}

#[test]
fn history_and_ledger_agree() {
    let readings = vec![
        reading(2023, 8, 6, 10),
        reading(2023, 8, 1, 20),
        reading(2023, 8, 11, 30),
        reading(2023, 8, 11, 40),
        reading(2023, 8, 2, 50),
    ];
    let mut history = MileageHistory::new();
    let mut ledger = MileageRecords::new();
    assert_eq!(history.get_current_mileage(), ledger.get_latest_mileage());
    for record in readings {
        history.add_record(record);
        ledger.add(record);
        assert_eq!(history.get_current_mileage(), ledger.get_latest_mileage());
    }
    assert_eq!(ledger.get_latest_mileage(), Ok(40));
}

#[test]
fn trip_that_ends_before_it_starts_is_an_invalid_period() {
    let made = Trip::new(String::from("back"), on(2023, 8, 17), on(2023, 8, 14), 200);
    assert_eq!(made.err(), Some(ValidationError::InvalidPeriod));
}

#[test]
fn trip_of_one_day_is_valid() {
    assert!(Trip::new(String::from("day trip"), on(2023, 8, 14), on(2023, 8, 14), 200).is_ok());
}

#[test]
fn trip_is_past_once_its_end_lies_before_today() {
    let offsite = trip("Offsite", on(2023, 8, 14), on(2023, 8, 17), 200);
    assert!(!offsite.is_past(on(2023, 8, 1)));
    assert!(!offsite.is_past(on(2023, 8, 15)));
    assert!(!offsite.is_past(on(2023, 8, 17)));
    assert!(offsite.is_past(on(2023, 8, 18)));
    assert!(offsite.is_past(on(2024, 1, 1)));
}

#[test]
fn trip_keeps_what_it_was_made_with() {
    let offsite = trip("Offsite", on(2023, 8, 14), on(2023, 8, 17), 200);
    assert_eq!(offsite.name().as_str(), "Offsite");
    assert_eq!(offsite.start(), on(2023, 8, 14));
    assert_eq!(offsite.end(), on(2023, 8, 17));
    assert_eq!(offsite.estimated_mileage(), 200);
}

#[test]
fn no_trips_have_no_upcoming_mileage() {
    assert_eq!(Trips::new().total_upcoming_mileage(on(2023, 8, 1)), Ok(0));
}

#[test]
fn upcoming_mileage_sums_the_trips_that_are_not_past() {
    let mut trips = Trips::new();
    trips
        .add(trip("Offsite", on(2023, 8, 14), on(2023, 8, 17), 200))
        .add(trip("Offsite", on(2023, 9, 22), on(2023, 9, 23), 240));
    assert_eq!(trips.total_upcoming_mileage(on(2023, 8, 12)), Ok(440));
    assert_eq!(trips.total_upcoming_mileage(on(2023, 8, 17)), Ok(440));
    assert_eq!(trips.total_upcoming_mileage(on(2023, 8, 18)), Ok(240));
    assert_eq!(trips.total_upcoming_mileage(on(2023, 9, 23)), Ok(240));
    assert_eq!(trips.total_upcoming_mileage(on(2023, 9, 24)), Ok(0));
}

#[test]
fn upcoming_mileage_does_not_depend_on_the_order_of_insertion() {
    let today = on(2023, 8, 18);
    let mut trips = Trips::new();
    trips
        .add(trip("past", on(2023, 8, 14), on(2023, 8, 17), 200))
        .add(trip("today", on(2023, 8, 10), on(2023, 8, 18), 30))
        .add(trip("later", on(2023, 9, 22), on(2023, 9, 23), 240));
    assert_eq!(trips.total_upcoming_mileage(today), Ok(270));
    let mut trips = Trips::new();
    trips
        .add(trip("later", on(2023, 9, 22), on(2023, 9, 23), 240))
        .add(trip("past", on(2023, 8, 14), on(2023, 8, 17), 200))
        .add(trip("today", on(2023, 8, 10), on(2023, 8, 18), 30));
    assert_eq!(trips.total_upcoming_mileage(today), Ok(270));
    let mut trips = Trips::new();
    trips
        .add(trip("today", on(2023, 8, 10), on(2023, 8, 18), 30))
        .add(trip("later", on(2023, 9, 22), on(2023, 9, 23), 240))
        .add(trip("past", on(2023, 8, 14), on(2023, 8, 17), 200));
    assert_eq!(trips.total_upcoming_mileage(today), Ok(270));
}

#[test]
fn upcoming_mileage_counts_trips_outside_any_contract() {
    let mut trips = Trips::new();
    trips.add(trip("far", on(2099, 1, 1), on(2099, 1, 2), 77));
    assert_eq!(trips.total_upcoming_mileage(on(2023, 8, 1)), Ok(77));
}

#[test]
fn upcoming_mileage_that_does_not_fit_is_an_overflow() {
    let mut trips = Trips::new();
    trips
        .add(trip("long", on(2023, 8, 14), on(2023, 8, 17), u32::MAX))
        .add(trip("short", on(2023, 9, 22), on(2023, 9, 23), 1));
    assert_eq!(trips.total_upcoming_mileage(on(2023, 8, 1)), Err(ArithmeticError::Overflow));
    assert_eq!(trips.total_upcoming_mileage(on(2023, 8, 18)), Ok(1));
}

#[test]
fn upcoming_mileage_fits_up_to_the_greatest_sum() {
    let mut trips = Trips::new();
    trips
        .add(trip("long", on(2023, 8, 14), on(2023, 8, 17), u32::MAX - 1))
        .add(trip("past", on(2023, 1, 1), on(2023, 1, 2), u32::MAX))
        .add(trip("short", on(2023, 9, 22), on(2023, 9, 23), 1));
    assert_eq!(trips.total_upcoming_mileage(on(2023, 8, 1)), Ok(u32::MAX));
}
