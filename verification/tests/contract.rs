use mileage_budget::calendar::Date;
use mileage_budget::contract::daily_budget;
use mileage_budget::contract::day_count;
use mileage_budget::contract::Contract;
use mileage_budget::contract::Contracts;
use mileage_budget::error::ArithmeticError;
use mileage_budget::error::BudgetError;
use mileage_budget::error::DivisionError;
use mileage_budget::error::ValidationError;

fn day(year: i32, month: u32, day: u32) -> Date {
    Date::from_ymd(year, month, day).unwrap()
}

fn volvia() -> Contract {
    Contract::new(String::from("Volvia"), day(2023, 6, 1), day(2024, 5, 31), 59620, 15000)
        .unwrap()
}

fn one_day_contract() -> Contract {
    Contract::new(String::from("short"), day(2023, 6, 1), day(2023, 6, 2), 100, 50).unwrap()
}

#[test]
fn contract_keeps_what_it_was_made_with() {
    let contract = volvia();
    assert_eq!(contract.id().as_str(), "Volvia");
    assert_eq!(contract.start(), day(2023, 6, 1));
    assert_eq!(contract.end(), day(2024, 5, 31));
    assert_eq!(contract.mileage_start(), 59620);
    assert_eq!(contract.mileage_allowance(), 15000);
}

#[test]
fn contract_with_end_before_start_is_an_invalid_period() {
    let made = Contract::new(String::from("c"), day(2024, 5, 31), day(2023, 6, 1), 0, 1);
    assert_eq!(made.err(), Some(ValidationError::InvalidPeriod));
    let made = Contract::new(String::from("c"), day(2023, 6, 2), day(2023, 6, 1), 0, 1);
    assert_eq!(made.err(), Some(ValidationError::InvalidPeriod));
}

#[test]
fn contract_with_end_on_start_is_an_invalid_period() {
    let made = Contract::new(String::from("c"), day(2023, 6, 1), day(2023, 6, 1), 0, 1);
    assert_eq!(made.err(), Some(ValidationError::InvalidPeriod));
}

#[test]
fn contract_of_one_day_is_valid() {
    let contract = one_day_contract();
    assert_eq!(contract.days(), Ok(1));
    assert_eq!(contract.per_day_budget(), Ok(50));
}

#[test]
fn total_days_is_at_least_one() {
    assert!(one_day_contract().days().unwrap() >= 1);
    assert!(volvia().days().unwrap() >= 1);
    let longest = Contract::new(
        String::from("all of time"),
        day(-262_143, 1, 1),
        day(262_142, 12, 31),
        0,
        0,
    )
    .unwrap();
    assert_eq!(longest.days(), Ok(191_491_528));
}

#[test]
fn end_to_end_contract_figures() {
    let contract = volvia();
    assert_eq!(contract.days(), Ok(365));
    assert_eq!(contract.per_day_budget(), Ok(41));
}

#[test]
fn end_to_end_figures_on_the_first_of_august() {
    let contract = volvia();
    let today = day(2023, 8, 1);
    assert_eq!(contract.days_past(today), Ok(61));
    assert_eq!(contract.mileage_used(62568), Ok(2948));
    assert_eq!(contract.mileage_left(62568, 0), Ok(59620 + 15000 - 62568 - 0));
    assert_eq!(contract.mileage_left(62568, 0), Ok(12052));
}

#[test]
fn further_figures_on_the_first_of_august() {
    let contract = volvia();
    let today = day(2023, 8, 1);
    assert_eq!(contract.days_left(today), Ok(304));
    assert_eq!(contract.mileage_used_per_day(today, 62568), Ok(48));
    assert_eq!(contract.mileage_left_per_day(today, 62568, 0), Ok(12052 / 304));
    assert_eq!(contract.days_past_this_week(today), Ok(1));
    assert_eq!(contract.days_left_this_week(today), Ok(6));
    assert_eq!(contract.mileage_left_this_week(today, 62568, 0), Ok(39 * 6));
    assert_eq!(contract.days_past_this_month(today), Ok(0));
    assert_eq!(contract.days_left_this_month(today), Ok(30));
    assert_eq!(contract.mileage_left_this_month(today, 62568, 0), Ok(39 * 30));
}

#[test]
fn upcoming_trips_lower_what_is_left() {
    let contract = volvia();
    let today = day(2023, 8, 12);
    assert_eq!(contract.mileage_left(62890, 440), Ok(11290));
    assert_eq!(contract.days_left(today), Ok(293));
    assert_eq!(contract.mileage_left_per_day(today, 62890, 440), Ok(38));
    assert_eq!(contract.days_left_this_week(today), Ok(2));
    assert_eq!(contract.mileage_left_this_week(today, 62890, 440), Ok(76));
    assert_eq!(contract.days_left_this_month(today), Ok(19));
    assert_eq!(contract.mileage_left_this_month(today, 62890, 440), Ok(722));
}

#[test]
fn status_follows_the_period() {
    let contract = volvia();
    let before = day(2023, 5, 31);
    let first = day(2023, 6, 1);
    let last = day(2024, 5, 31);
    let after = day(2024, 6, 1);
    assert!(!contract.is_started(before));
    assert!(contract.is_started(first));
    assert!(contract.is_started(after));
    assert!(!contract.is_finished(before));
    assert!(!contract.is_finished(last));
    assert!(contract.is_finished(after));
    assert!(!contract.is_ongoing(before));
    assert!(contract.is_ongoing(first));
    assert!(contract.is_ongoing(day(2023, 12, 24)));
    assert!(contract.is_ongoing(last));
    assert!(!contract.is_ongoing(after));
}

#[test]
fn assert_during_period_fails_outside_the_period() {
    let contract = volvia();
    assert_eq!(contract.assert_during_period(day(2023, 6, 1)), Ok(()));
    assert_eq!(contract.assert_during_period(day(2024, 5, 31)), Ok(()));
    assert_eq!(
        contract.assert_during_period(day(2023, 5, 31)),
        Err(BudgetError::ContractNotActive)
    );
    assert_eq!(
        contract.assert_during_period(day(2024, 6, 1)),
        Err(BudgetError::ContractNotActive)
    );
}

#[test]
fn asserted_today_hands_the_day_back() {
    let contract = volvia();
    assert_eq!(contract.asserted_today(day(2023, 8, 1)), Ok(day(2023, 8, 1)));
    assert_eq!(contract.asserted_today(day(2022, 8, 1)), Err(BudgetError::ContractNotActive));
}

#[test]
fn mileage_used_at_the_start_reading_is_zero() {
    assert_eq!(volvia().mileage_used(59620), Ok(0));
    assert_eq!(one_day_contract().mileage_used(100), Ok(0));
}

#[test]
fn mileage_used_below_the_start_reading_is_rejected() {
    assert_eq!(volvia().mileage_used(59619), Err(ValidationError::CurrentMileageBelowStart));
    assert_eq!(volvia().mileage_used(0), Err(ValidationError::CurrentMileageBelowStart));
}

#[test]
fn mileage_used_up_to_the_greatest_reading() {
    assert_eq!(volvia().mileage_used(u32::MAX), Ok(u32::MAX - 59620));
}

#[test]
fn per_day_budget_rounds_down() {
    let contract = volvia();
    let budget = contract.per_day_budget().unwrap() as u64;
    let days = contract.days().unwrap() as u64;
    assert!(budget * days <= 15000);
    assert!(15000 - budget * days < days);
    assert_eq!(15000 - budget * days, 35);
}

#[test]
fn daily_budget_divides_and_rounds_down() {
    assert_eq!(daily_budget(15000, 365), Ok(41));
    assert_eq!(daily_budget(0, 365), Ok(0));
    assert_eq!(daily_budget(364, 365), Ok(0));
    assert_eq!(daily_budget(u32::MAX, 1), Ok(u32::MAX));
}

#[test]
fn daily_budget_over_no_days_is_a_division_by_zero() {
    assert_eq!(daily_budget(15000, 0), Err(DivisionError::DivisionByZero));
    assert_eq!(daily_budget(0, 0), Err(DivisionError::DivisionByZero));
}

#[test]
fn day_count_takes_what_fits() {
    assert_eq!(day_count(0), Ok(0));
    assert_eq!(day_count(365), Ok(365));
    assert_eq!(day_count(u32::MAX as i64), Ok(u32::MAX));
}

#[test]
fn day_count_of_a_negative_number_is_a_negative_duration() {
    assert_eq!(day_count(-1), Err(ArithmeticError::NegativeDuration));
    assert_eq!(day_count(i64::MIN), Err(ArithmeticError::NegativeDuration));
}

#[test]
fn day_count_of_too_many_days_is_an_overflow() {
    assert_eq!(day_count(u32::MAX as i64 + 1), Err(ArithmeticError::Overflow));
    assert_eq!(day_count(i64::MAX), Err(ArithmeticError::Overflow));
}

#[test]
fn on_the_last_day_nothing_fails_as_inactive() {
    let contract = volvia();
    let today = day(2024, 5, 31);
    assert_eq!(contract.days_left(today), Ok(0));
    assert_eq!(contract.days_past(today), Ok(365));
    assert_eq!(contract.mileage_left(70000, 120), Ok(4500));
    assert_eq!(contract.mileage_left_per_day(today, 70000, 120), Ok(4500));
    assert_eq!(contract.mileage_used_per_day(today, 70000), Ok((70000 - 59620) / 365));
    assert_eq!(contract.days_left_this_week(today), Ok(3));
    assert_eq!(contract.mileage_left_this_week(today, 70000, 120), Ok(4500 * 3));
    assert_eq!(contract.days_left_this_month(today), Ok(0));
    assert_eq!(contract.mileage_left_this_month(today, 70000, 120), Ok(0));
    assert_eq!(contract.days_past_this_week(today), Ok(4));
    assert_eq!(contract.days_past_this_month(today), Ok(30));
}

#[test]
fn on_the_first_day_nothing_has_passed() {
    let contract = volvia();
    let today = day(2023, 6, 1);
    assert_eq!(contract.days_past(today), Ok(0));
    assert_eq!(contract.days_left(today), Ok(365));
    assert_eq!(contract.mileage_used_per_day(today, 59620), Ok(0));
    assert_eq!(contract.mileage_used_per_day(today, 59900), Ok(0));
    assert_eq!(contract.mileage_left_per_day(today, 59620, 0), Ok(41));
}

#[test]
fn on_the_day_before_the_start_every_dated_query_is_inactive() {
    let contract = volvia();
    let today = day(2023, 5, 31);
    let inactive = BudgetError::ContractNotActive;
    assert_eq!(contract.assert_during_period(today), Err(inactive));
    assert_eq!(contract.asserted_today(today), Err(inactive));
    assert_eq!(contract.days_past(today), Err(inactive));
    assert_eq!(contract.days_left(today), Err(inactive));
    assert_eq!(contract.mileage_used_per_day(today, 62568), Err(inactive));
    assert_eq!(contract.mileage_used_per_day(today, 0), Err(inactive));
    assert_eq!(contract.mileage_left_per_day(today, 62568, 0), Err(inactive));
    assert_eq!(contract.days_past_this_week(today), Err(inactive));
    assert_eq!(contract.days_left_this_week(today), Err(inactive));
    assert_eq!(contract.days_past_this_month(today), Err(inactive));
    assert_eq!(contract.days_left_this_month(today), Err(inactive));
    assert_eq!(contract.mileage_left_this_week(today, 62568, 0), Err(inactive));
    assert_eq!(contract.mileage_left_this_month(today, 62568, 0), Err(inactive));
}

#[test]
fn on_the_day_after_the_end_every_dated_query_is_inactive() {
    let contract = volvia();
    let today = day(2024, 6, 1);
    let inactive = BudgetError::ContractNotActive;
    assert_eq!(contract.days_past(today), Err(inactive));
    assert_eq!(contract.days_left(today), Err(inactive));
    assert_eq!(contract.mileage_used_per_day(today, 62568), Err(inactive));
    assert_eq!(contract.mileage_left_per_day(today, 62568, 0), Err(inactive));
    assert_eq!(contract.mileage_left_this_week(today, 62568, 0), Err(inactive));
    assert_eq!(contract.mileage_left_this_month(today, 62568, 0), Err(inactive));
}

#[test]
fn undated_queries_answer_outside_the_period() {
    let contract = volvia();
    assert_eq!(contract.days(), Ok(365));
    assert_eq!(contract.per_day_budget(), Ok(41));
    assert_eq!(contract.mileage_used(62568), Ok(2948));
    assert_eq!(contract.mileage_left(62568, 0), Ok(12052));
}

#[test]
fn mileage_used_per_day_rejects_a_reading_below_the_start() {
    let contract = volvia();
    assert_eq!(
        contract.mileage_used_per_day(day(2023, 8, 1), 59619),
        Err(BudgetError::Validation(ValidationError::CurrentMileageBelowStart))
    );
    assert_eq!(
        contract.mileage_used_per_day(day(2023, 6, 1), 0),
        Err(BudgetError::Validation(ValidationError::CurrentMileageBelowStart))
    );
}

#[test]
fn mileage_left_is_negative_over_budget() {
    let contract = volvia();
    assert_eq!(contract.mileage_left(80000, 0), Ok(-5380));
    assert_eq!(contract.mileage_left(74620, 1), Ok(-1));
    assert_eq!(contract.mileage_left(74620, 0), Ok(0));
    assert!(contract.is_over_budget(80000, 0));
    assert!(contract.is_over_budget(74620, 1));
    assert!(!contract.is_over_budget(74620, 0));
    assert!(!contract.is_over_budget(62568, 0));
}

#[test]
fn mileage_left_at_the_extremes() {
    let none = Contract::new(String::from("none"), day(2023, 1, 1), day(2023, 1, 2), 0, 0)
        .unwrap();
    assert_eq!(none.mileage_left(u32::MAX, u32::MAX), Ok(-2 * (u32::MAX as i64)));
    let all = Contract::new(
        String::from("all"),
        day(2023, 1, 1),
        day(2023, 1, 2),
        u32::MAX,
        u32::MAX,
    )
    .unwrap();
    assert_eq!(all.mileage_left(0, 0), Ok(2 * (u32::MAX as i64)));
    assert_eq!(all.mileage_left_per_day(day(2023, 1, 1), 0, 0), Ok(2 * (u32::MAX as i64)));
    assert_eq!(
        all.mileage_left_this_month(day(2023, 1, 1), 0, 0),
        Ok(2 * (u32::MAX as i64) * 30)
    );
    assert_eq!(
        none.mileage_left_this_week(day(2023, 1, 2), u32::MAX, u32::MAX),
        Ok(-2 * (u32::MAX as i64) * 7)
    );
}

#[test]
fn mileage_left_per_day_rounds_toward_zero() {
    let contract = volvia();
    let today = day(2023, 8, 12);
    assert_eq!(contract.mileage_left(80000, 0), Ok(-5380));
    assert_eq!(contract.mileage_left_per_day(today, 80000, 0), Ok(-18));
    assert_eq!(contract.mileage_left_this_week(today, 80000, 0), Ok(-36));
    assert_eq!(contract.mileage_left_this_month(today, 80000, 0), Ok(-18 * 19));
    assert_eq!(contract.mileage_left_per_day(today, 74620, 1), Ok(0));
}

#[test]
fn week_runs_from_monday_to_sunday() {
    let contract = volvia();
    assert_eq!(contract.days_past_this_week(day(2023, 8, 7)), Ok(0));
    assert_eq!(contract.days_left_this_week(day(2023, 8, 7)), Ok(7));
    assert_eq!(contract.days_past_this_week(day(2023, 8, 13)), Ok(6));
    assert_eq!(contract.days_left_this_week(day(2023, 8, 13)), Ok(1));
}

#[test]
fn month_rolls_over_from_december_to_january() {
    let contract = volvia();
    assert_eq!(contract.days_left_this_month(day(2023, 12, 1)), Ok(30));
    assert_eq!(contract.days_left_this_month(day(2023, 12, 31)), Ok(0));
    assert_eq!(contract.days_left_this_month(day(2024, 1, 1)), Ok(30));
    assert_eq!(contract.days_left_this_month(day(2024, 2, 1)), Ok(28));
    assert_eq!(contract.days_past_this_month(day(2024, 2, 29)), Ok(28));
}

#[test]
fn contracts_are_found_by_identifier() {
    let mut contracts = Contracts::new();
    assert!(contracts.get(String::from("Volvia")).is_none());
    contracts.add(one_day_contract());
    contracts.add(volvia());
    let found = contracts.get(String::from("Volvia")).unwrap();
    assert_eq!(found.mileage_allowance(), 15000);
    let found = contracts.get(String::from("short")).unwrap();
    assert_eq!(found.mileage_allowance(), 50);
    assert!(contracts.get(String::from("volvia")).is_none());
    assert!(contracts.get(String::new()).is_none());
}

#[test]
fn the_first_of_two_contracts_with_one_identifier_is_found() {
    let mut contracts = Contracts::new();
    contracts.add(
        Contract::new(String::from("twin"), day(2023, 1, 1), day(2023, 12, 31), 10, 1000).unwrap(),
    );
    contracts.add(
        Contract::new(String::from("twin"), day(2024, 1, 1), day(2024, 12, 31), 20, 2000).unwrap(),
    );
    assert_eq!(contracts.get(String::from("twin")).unwrap().mileage_start(), 10);
}
