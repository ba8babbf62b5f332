//! The contract: a period of days, the odometer reading at its start and the
//! mileage it allows, with the budget figures derived from them.

use crate::calendar::day_of_week_index;
use crate::calendar::days_between;
use crate::calendar::days_from_date_to_period_end;
use crate::calendar::days_from_period_start_to_date;
use crate::calendar::days_remaining_in_month;
use crate::calendar::lemma_date_is_valid;
use crate::calendar::whole_days_between;
use crate::calendar::CivilDate;
use crate::calendar::Date;
use crate::error::ArithmeticError;
use crate::error::BudgetError;
use crate::error::DivisionError;
use crate::error::ValidationError;
use vstd::prelude::*;

verus! {

/// `a / b` rounded toward zero, for a positive `b`.
pub open spec fn div_toward_zero(a: int, b: int) -> int {
    if a >= 0 {
        a / b
    } else {
        -((-a) / b)
    }
}

/// A number of whole days as a count: an error where it is negative or does
/// not fit in 32 bits.
pub open spec fn day_count_of(days: int) -> Result<u32, ArithmeticError> {
    if days < 0 {
        Err(ArithmeticError::NegativeDuration)
    } else if days > u32::MAX {
        Err(ArithmeticError::Overflow)
    } else {
        Ok(days as u32)
    }
}

/// The mileage that each of `days` days may use of `allowance`, rounded
/// down: an error where there are no days.
pub open spec fn daily_budget_of(allowance: u32, days: u32) -> Result<u32, DivisionError> {
    if days == 0 {
        Err(DivisionError::DivisionByZero)
    } else {
        Ok((allowance / days) as u32)
    }
}

/// Turns a signed number of whole days into a count.
pub fn day_count(days: i64) -> (r: Result<u32, ArithmeticError>)
    ensures
        r == day_count_of(days as int),
{
    if days < 0 {
        Err(ArithmeticError::NegativeDuration)
    } else if days > u32::MAX as i64 {
        Err(ArithmeticError::Overflow)
    } else {
        Ok(days as u32)
    }
}

/// Spreads `allowance` evenly over `days` days, rounding down.
pub fn daily_budget(allowance: u32, days: u32) -> (r: Result<u32, DivisionError>)
    ensures
        r == daily_budget_of(allowance, days),
{
    if days == 0 {
        Err(DivisionError::DivisionByZero)
    } else {
        Ok(allowance / days)
    }
}

/// A contract as a mathematical value: the model of a [`Contract`], with
/// the budget figures as functions of it.
pub struct ContractView {
    pub id: Seq<char>,
    pub start: CivilDate,
    pub end: CivilDate,
    pub mileage_start: u32,
    pub mileage_allowance: u32,
}

impl ContractView {
    /// The number of whole days from the start to the end of the period.
    pub open spec fn total_days(self) -> int {
        days_between(self.start, self.end)
    }

    /// Whether the period lasts at least one whole day.
    pub open spec fn is_valid(self) -> bool {
        self.total_days() >= 1
    }

    /// Whether the period has begun on `today`.
    pub open spec fn is_started(self, today: CivilDate) -> bool {
        days_between(self.start, today) >= 0
    }

    /// Whether the period is over on `today`.
    pub open spec fn is_finished(self, today: CivilDate) -> bool {
        days_between(self.end, today) > 0
    }

    /// Whether `today` lies in the period, both ends included.
    pub open spec fn is_ongoing(self, today: CivilDate) -> bool {
        self.is_started(today) && !self.is_finished(today)
    }

    /// The length of the period in days.
    pub open spec fn days(self) -> Result<u32, ArithmeticError> {
        day_count_of(self.total_days())
    }

    /// The mileage that each day of the period may use.
    pub open spec fn per_day_budget(self) -> Result<u32, BudgetError> {
        match self.days() {
            Err(e) => Err(BudgetError::Arithmetic(e)),
            Ok(days) => match daily_budget_of(self.mileage_allowance, days) {
                Err(e) => Err(BudgetError::Division(e)),
                Ok(budget) => Ok(budget),
            },
        }
    }

    /// `today`, where it lies in the period.
    pub open spec fn asserted_today(self, today: CivilDate) -> Result<CivilDate, BudgetError> {
        if self.is_ongoing(today) {
            Ok(today)
        } else {
            Err(BudgetError::ContractNotActive)
        }
    }

    /// The whole days from the start of the period to `today`.
    pub open spec fn days_past(self, today: CivilDate) -> Result<u32, BudgetError> {
        if self.is_ongoing(today) {
            Ok(days_between(self.start, today) as u32)
        } else {
            Err(BudgetError::ContractNotActive)
        }
    }

    /// The whole days from `today` to the end of the period.
    pub open spec fn days_left(self, today: CivilDate) -> Result<u32, BudgetError> {
        if self.is_ongoing(today) {
            Ok(days_between(today, self.end) as u32)
        } else {
            Err(BudgetError::ContractNotActive)
        }
    }

    /// The mileage driven since the start of the period, at an odometer
    /// reading of `current_mileage`.
    pub open spec fn mileage_used(self, current_mileage: u32) -> Result<u32, ValidationError> {
        if current_mileage < self.mileage_start {
            Err(ValidationError::CurrentMileageBelowStart)
        } else {
            Ok((current_mileage - self.mileage_start) as u32)
        }
    }

    /// The mileage that is left of the allowance once the planned trips are
    /// driven. It is negative where the allowance is exceeded.
    pub open spec fn mileage_left(self, current_mileage: u32, upcoming_trip_mileage: u32) -> int {
        self.mileage_start + self.mileage_allowance - current_mileage - upcoming_trip_mileage
    }

    /// The mileage driven per day of the period that has passed: 0 on the
    /// first day, when no day has passed yet.
    pub open spec fn mileage_used_per_day(self, today: CivilDate, current_mileage: u32) -> Result<
        u32,
        BudgetError,
    > {
        match self.days_past(today) {
            Err(e) => Err(e),
            Ok(days_past) => match self.mileage_used(current_mileage) {
                Err(e) => Err(BudgetError::Validation(e)),
                Ok(used) => if days_past == 0 {
                    Ok(0)
                } else {
                    Ok((used / days_past) as u32)
                },
            },
        }
    }

    /// The mileage left per day that is left of the period, rounded toward
    /// zero: all that is left on the last day, when no day is left.
    pub open spec fn mileage_left_per_day(
        self,
        today: CivilDate,
        current_mileage: u32,
        upcoming_trip_mileage: u32,
    ) -> Result<i64, BudgetError> {
        match self.days_left(today) {
            Err(e) => Err(e),
            Ok(days_left) => {
                let left = self.mileage_left(current_mileage, upcoming_trip_mileage);
                if days_left == 0 {
                    Ok(left as i64)
                } else {
                    Ok(div_toward_zero(left, days_left as int) as i64)
                }
            },
        }
    }

    /// The days of the week of `today` that have passed before `today`.
    pub open spec fn days_past_this_week(self, today: CivilDate) -> Result<u32, BudgetError> {
        if self.is_ongoing(today) {
            Ok(today.weekday() as u32)
        } else {
            Err(BudgetError::ContractNotActive)
        }
    }

    /// The days of the week of `today` from `today` on.
    pub open spec fn days_left_this_week(self, today: CivilDate) -> Result<u32, BudgetError> {
        if self.is_ongoing(today) {
            Ok((7 - today.weekday()) as u32)
        } else {
            Err(BudgetError::ContractNotActive)
        }
    }

    /// The days of the month of `today` that have passed before `today`.
    pub open spec fn days_past_this_month(self, today: CivilDate) -> Result<u32, BudgetError> {
        if self.is_ongoing(today) {
            Ok((today.day - 1) as u32)
        } else {
            Err(BudgetError::ContractNotActive)
        }
    }

    /// The days of the month of `today` that follow `today`.
    pub open spec fn days_left_this_month(self, today: CivilDate) -> Result<u32, BudgetError> {
        if self.is_ongoing(today) {
            Ok(today.days_remaining_in_month() as u32)
        } else {
            Err(BudgetError::ContractNotActive)
        }
    }

    /// The mileage left for the rest of the week, at the daily rate of
    /// [`Self::mileage_left_per_day`].
    pub open spec fn mileage_left_this_week(
        self,
        today: CivilDate,
        current_mileage: u32,
        upcoming_trip_mileage: u32,
    ) -> Result<i64, BudgetError> {
        match self.mileage_left_per_day(today, current_mileage, upcoming_trip_mileage) {
            Err(e) => Err(e),
            Ok(per_day) => Ok((per_day * (7 - today.weekday())) as i64),
        }
    }

    /// The mileage left for the rest of the month, at the daily rate of
    /// [`Self::mileage_left_per_day`].
    pub open spec fn mileage_left_this_month(
        self,
        today: CivilDate,
        current_mileage: u32,
        upcoming_trip_mileage: u32,
    ) -> Result<i64, BudgetError> {
        match self.mileage_left_per_day(today, current_mileage, upcoming_trip_mileage) {
            Err(e) => Err(e),
            Ok(per_day) => Ok((per_day * today.days_remaining_in_month()) as i64),
        }
    }

    /// Whether every query that depends on the evaluation date fails on
    /// `today`, saying that the contract is not active.
    pub open spec fn refuses(
        self,
        today: CivilDate,
        current_mileage: u32,
        upcoming_trip_mileage: u32,
    ) -> bool {
        let inactive = BudgetError::ContractNotActive;
        &&& self.asserted_today(today) == Err::<CivilDate, BudgetError>(inactive)
        &&& self.days_past(today) == Err::<u32, BudgetError>(inactive)
        &&& self.days_left(today) == Err::<u32, BudgetError>(inactive)
        &&& self.mileage_used_per_day(today, current_mileage) == Err::<u32, BudgetError>(inactive)
        &&& self.mileage_left_per_day(today, current_mileage, upcoming_trip_mileage) == Err::<
            i64,
            BudgetError,
        >(inactive)
        &&& self.days_past_this_week(today) == Err::<u32, BudgetError>(inactive)
        &&& self.days_left_this_week(today) == Err::<u32, BudgetError>(inactive)
        &&& self.days_past_this_month(today) == Err::<u32, BudgetError>(inactive)
        &&& self.days_left_this_month(today) == Err::<u32, BudgetError>(inactive)
        &&& self.mileage_left_this_week(today, current_mileage, upcoming_trip_mileage) == Err::<
            i64,
            BudgetError,
        >(inactive)
        &&& self.mileage_left_this_month(today, current_mileage, upcoming_trip_mileage) == Err::<
            i64,
            BudgetError,
        >(inactive)
    }

    /// Whether no query that depends on the evaluation date fails on `today`
    /// for the contract not being active: each is answered, but for the
    /// mileage used per day, which may still reject the reading.
    pub open spec fn accepts(
        self,
        today: CivilDate,
        current_mileage: u32,
        upcoming_trip_mileage: u32,
    ) -> bool {
        &&& self.asserted_today(today) == Ok::<CivilDate, BudgetError>(today)
        &&& self.days_past(today) is Ok
        &&& self.days_left(today) is Ok
        &&& match self.mileage_used(current_mileage) {
            Ok(_) => self.mileage_used_per_day(today, current_mileage) is Ok,
            Err(e) => self.mileage_used_per_day(today, current_mileage) == Err::<u32, BudgetError>(
                BudgetError::Validation(e),
            ),
        }
        &&& self.mileage_left_per_day(today, current_mileage, upcoming_trip_mileage) is Ok
        &&& self.days_past_this_week(today) is Ok
        &&& self.days_left_this_week(today) is Ok
        &&& self.days_past_this_month(today) is Ok
        &&& self.days_left_this_month(today) is Ok
        &&& self.mileage_left_this_week(today, current_mileage, upcoming_trip_mileage) is Ok
        &&& self.mileage_left_this_month(today, current_mileage, upcoming_trip_mileage) is Ok
    }
}

/// A mileage allowance over a period of days. A contract does not change
/// once it is made.
#[derive(Debug)]
pub struct Contract {
    pub(crate) id: String,
    pub(crate) start: Date,
    pub(crate) end: Date,
    pub(crate) mileage_start: u32,
    pub(crate) mileage_allowance: u32,
}

impl View for Contract {
    type V = ContractView;

    closed spec fn view(&self) -> ContractView {
        ContractView {
            id: self.id@,
            start: self.start@,
            end: self.end@,
            mileage_start: self.mileage_start,
            mileage_allowance: self.mileage_allowance,
        }
    }
}

impl Contract {
    /// What holds of every `Contract`: its dates are dates, and its period
    /// lasts at least one whole day.
    #[verifier::type_invariant]
    pub closed spec fn wf(self) -> bool {
        &&& self.start.wf()
        &&& self.end.wf()
        &&& self@.is_valid()
    }

    /// A contract for the period from `start` to `end`, which must lie at
    /// least one whole day after `start`.
    pub fn new(
        id: String,
        start: Date,
        end: Date,
        mileage_start: u32,
        mileage_allowance: u32,
    ) -> (r: Result<Contract, ValidationError>)
        ensures
            match r {
                Ok(contract) => {
                    &&& days_between(start@, end@) >= 1
                    &&& contract.wf()
                    &&& contract@ == (ContractView {
                        id: id@,
                        start: start@,
                        end: end@,
                        mileage_start,
                        mileage_allowance,
                    })
                },
                Err(e) => days_between(start@, end@) < 1 && e == ValidationError::InvalidPeriod,
            },
    {
        proof {
            use_type_invariant(start);
            use_type_invariant(end);
        }
        if whole_days_between(start, end) < 1 {
            return Err(ValidationError::InvalidPeriod);
        }
        Ok(Contract { id, start, end, mileage_start, mileage_allowance })
    }

    /// The identifier of the contract.
    pub fn id(&self) -> (r: &String)
        ensures
            r@ == self@.id,
    {
        &self.id
    }

    /// The first day of the period.
    pub fn start(&self) -> (r: Date)
        ensures
            r@ == self@.start,
    {
        self.start
    }

    /// The last day of the period.
    pub fn end(&self) -> (r: Date)
        ensures
            r@ == self@.end,
    {
        self.end
    }

    /// The odometer reading at the start of the period.
    pub fn mileage_start(&self) -> (r: u32)
        ensures
            r == self@.mileage_start,
    {
        self.mileage_start
    }

    /// The mileage that the contract allows over the whole period.
    pub fn mileage_allowance(&self) -> (r: u32)
        ensures
            r == self@.mileage_allowance,
    {
        self.mileage_allowance
    }

    /// The length of the period in days. It is at least 1.
    pub fn days(&self) -> (r: Result<u32, ArithmeticError>)
        ensures
            r == self@.days(),
            r is Ok,
            r->Ok_0 >= 1,
    {
        proof {
            use_type_invariant(self);
        }
        day_count(whole_days_between(self.start, self.end))
    }

    /// Whether the period has begun on `today`.
    pub fn is_started(&self, today: Date) -> (r: bool)
        ensures
            r == self@.is_started(today@),
    {
        today.day_number() >= self.start.day_number()
    }

    /// Whether the period is over on `today`.
    pub fn is_finished(&self, today: Date) -> (r: bool)
        ensures
            r == self@.is_finished(today@),
    {
        today.day_number() > self.end.day_number()
    }

    /// Whether `today` lies in the period, both ends included.
    pub fn is_ongoing(&self, today: Date) -> (r: bool)
        ensures
            r == self@.is_ongoing(today@),
    {
        self.is_started(today) && !self.is_finished(today)
    }

    /// Fails unless `today` lies in the period.
    pub fn assert_during_period(&self, today: Date) -> (r: Result<(), BudgetError>)
        ensures
            match r {
                Ok(()) => self@.is_ongoing(today@),
                Err(e) => !self@.is_ongoing(today@) && e == BudgetError::ContractNotActive,
            },
    {
        if !self.is_ongoing(today) {
            return Err(BudgetError::ContractNotActive);
        }
        Ok(())
    }

    /// Hands `today` back if it lies in the period, and fails otherwise. The
    /// queries that depend on the evaluation date start here.
    pub fn asserted_today(&self, today: Date) -> (r: Result<Date, BudgetError>)
        ensures
            match r {
                Ok(date) => date == today && self@.asserted_today(today@) == Ok::<
                    CivilDate,
                    BudgetError,
                >(today@),
                Err(e) => self@.asserted_today(today@) == Err::<CivilDate, BudgetError>(e),
            },
    {
        match self.assert_during_period(today) {
            Ok(()) => Ok(today),
            Err(e) => Err(e),
        }
    }

    /// The whole days from the start of the period to `today`.
    pub fn days_past(&self, today: Date) -> (r: Result<u32, BudgetError>)
        ensures
            r == self@.days_past(today@),
    {
        let today = match self.asserted_today(today) {
            Ok(today) => today,
            Err(e) => return Err(e),
        };
        Ok(days_from_period_start_to_date(self.start, today) as u32)
    }

    /// The whole days from `today` to the end of the period.
    pub fn days_left(&self, today: Date) -> (r: Result<u32, BudgetError>)
        ensures
            r == self@.days_left(today@),
    {
        let today = match self.asserted_today(today) {
            Ok(today) => today,
            Err(e) => return Err(e),
        };
        Ok(days_from_date_to_period_end(today, self.end) as u32)
    }

    /// The mileage that each day of the period may use: the allowance
    /// divided by the days of the period, rounded down.
    pub fn per_day_budget(&self) -> (r: Result<u32, BudgetError>)
        ensures
            r == self@.per_day_budget(),
            r is Ok,
    {
        let days = match self.days() {
            Ok(days) => days,
            Err(e) => return Err(BudgetError::Arithmetic(e)),
        };
        match daily_budget(self.mileage_allowance, days) {
            Ok(budget) => Ok(budget),
            Err(e) => Err(BudgetError::Division(e)),
        }
    }

    /// The mileage driven since the start of the period, at an odometer
    /// reading of `current_mileage`.
    pub fn mileage_used(&self, current_mileage: u32) -> (r: Result<u32, ValidationError>)
        ensures
            r == self@.mileage_used(current_mileage),
    {
        if current_mileage < self.mileage_start {
            Err(ValidationError::CurrentMileageBelowStart)
        } else {
            Ok(current_mileage - self.mileage_start)
        }
    }

    /// The mileage that is left of the allowance at an odometer reading of
    /// `current_mileage`, once `upcoming_trip_mileage` more is driven. It is
    /// negative where the allowance is exceeded, and never fails.
    pub fn mileage_left(&self, current_mileage: u32, upcoming_trip_mileage: u32) -> (r: Result<
        i64,
        ValidationError,
    >)
        ensures
            r == Ok::<i64, ValidationError>(
                self@.mileage_left(current_mileage, upcoming_trip_mileage) as i64,
            ),
            r->Ok_0 == self@.mileage_left(current_mileage, upcoming_trip_mileage),
    {
        let total_allowed_mileage = self.mileage_start as i64 + self.mileage_allowance as i64;
        Ok(total_allowed_mileage - current_mileage as i64 - upcoming_trip_mileage as i64)
    }

    /// Whether the odometer reading and the planned trips together exceed
    /// the allowance.
    pub fn is_over_budget(&self, current_mileage: u32, upcoming_trip_mileage: u32) -> (r: bool)
        ensures
            r == (self@.mileage_left(current_mileage, upcoming_trip_mileage) < 0),
    {
        match self.mileage_left(current_mileage, upcoming_trip_mileage) {
            Ok(left) => left < 0,
            Err(_) => false,
        }
    }

    /// The mileage driven per day of the period that has passed. On the
    /// first day of the period, when no day has passed, it is 0.
    pub fn mileage_used_per_day(&self, today: Date, current_mileage: u32) -> (r: Result<
        u32,
        BudgetError,
    >)
        ensures
            r == self@.mileage_used_per_day(today@, current_mileage),
    {
        let days_passed = match self.days_past(today) {
            Ok(days) => days,
            Err(e) => return Err(e),
        };
        let mileage_used = match self.mileage_used(current_mileage) {
            Ok(used) => used,
            Err(e) => return Err(BudgetError::Validation(e)),
        };
        if days_passed == 0 {
            Ok(0)
        } else {
            Ok(mileage_used / days_passed)
        }
    }

    /// The mileage left per day that is left of the period, rounded toward
    /// zero. On the last day of the period, when no day is left, it is all
    /// the mileage that is left.
    pub fn mileage_left_per_day(
        &self,
        today: Date,
        current_mileage: u32,
        upcoming_trip_mileage: u32,
    ) -> (r: Result<i64, BudgetError>)
        ensures
            r == self@.mileage_left_per_day(today@, current_mileage, upcoming_trip_mileage),
            r matches Ok(per_day) ==> -(2 * u32::MAX as int) <= per_day <= 2 * u32::MAX as int,
    {
        let days_left = match self.days_left(today) {
            Ok(days) => days,
            Err(e) => return Err(e),
        };
        let mileage_left = match self.mileage_left(current_mileage, upcoming_trip_mileage) {
            Ok(left) => left,
            Err(e) => return Err(BudgetError::Validation(e)),
        };
        if days_left == 0 {
            Ok(mileage_left)
        } else {
            let per_day = mileage_left / days_left as i64;
            proof {
                lemma_div_toward_zero_bound(mileage_left as int, days_left as int);
            }
            Ok(per_day)
        }
    }

    /// The days of the week of `today` that have passed before `today`:
    /// 0 on a Monday.
    pub fn days_past_this_week(&self, today: Date) -> (r: Result<u32, BudgetError>)
        ensures
            r == self@.days_past_this_week(today@),
            r matches Ok(days) ==> days == today@.weekday() && days <= 6,
    {
        let today = match self.asserted_today(today) {
            Ok(today) => today,
            Err(e) => return Err(e),
        };
        Ok(day_of_week_index(today))
    }

    /// The days of the week of `today` from `today` on: 7 on a Monday.
    pub fn days_left_this_week(&self, today: Date) -> (r: Result<u32, BudgetError>)
        ensures
            r == self@.days_left_this_week(today@),
            r matches Ok(days) ==> days == 7 - today@.weekday() && 1 <= days <= 7,
    {
        match self.days_past_this_week(today) {
            Ok(days_past) => Ok(7 - days_past),
            Err(e) => Err(e),
        }
    }

    /// The days of the month of `today` that have passed before `today`.
    pub fn days_past_this_month(&self, today: Date) -> (r: Result<u32, BudgetError>)
        ensures
            r == self@.days_past_this_month(today@),
    {
        let today = match self.asserted_today(today) {
            Ok(today) => today,
            Err(e) => return Err(e),
        };
        Ok(today.day() - 1)
    }

    /// The days of the month of `today` that follow `today`.
    pub fn days_left_this_month(&self, today: Date) -> (r: Result<u32, BudgetError>)
        ensures
            r == self@.days_left_this_month(today@),
            r matches Ok(days) ==> days == today@.days_remaining_in_month() && days <= 30,
    {
        let today = match self.asserted_today(today) {
            Ok(today) => today,
            Err(e) => return Err(e),
        };
        Ok(days_remaining_in_month(today))
    }

    /// The mileage left for the days of this week from `today` on, if each
    /// of them uses [`Self::mileage_left_per_day`].
    pub fn mileage_left_this_week(
        &self,
        today: Date,
        current_mileage: u32,
        upcoming_trip_mileage: u32,
    ) -> (r: Result<i64, BudgetError>)
        ensures
            r == self@.mileage_left_this_week(today@, current_mileage, upcoming_trip_mileage),
    {
        let mileage_left_per_day = match self.mileage_left_per_day(
            today,
            current_mileage,
            upcoming_trip_mileage,
        ) {
            Ok(per_day) => per_day,
            Err(e) => return Err(e),
        };
        let days_left_this_week = match self.days_left_this_week(today) {
            Ok(days) => days,
            Err(e) => return Err(e),
        };
        proof {
            lemma_product_bound(mileage_left_per_day as int, days_left_this_week as int);
        }
        Ok(days_left_this_week as i64 * mileage_left_per_day)
    }

    /// The mileage left for the days of this month after `today`, if each of
    /// them uses [`Self::mileage_left_per_day`].
    pub fn mileage_left_this_month(
        &self,
        today: Date,
        current_mileage: u32,
        upcoming_trip_mileage: u32,
    ) -> (r: Result<i64, BudgetError>)
        ensures
            r == self@.mileage_left_this_month(today@, current_mileage, upcoming_trip_mileage),
    {
        let mileage_left_per_day = match self.mileage_left_per_day(
            today,
            current_mileage,
            upcoming_trip_mileage,
        ) {
            Ok(per_day) => per_day,
            Err(e) => return Err(e),
        };
        let days_left_this_month = match self.days_left_this_month(today) {
            Ok(days) => days,
            Err(e) => return Err(e),
        };
        proof {
            lemma_product_bound(mileage_left_per_day as int, days_left_this_month as int);
        }
        Ok(days_left_this_month as i64 * mileage_left_per_day)
    }
}

/// Where the first contract with the identifier `id` stands in `contracts`.
pub open spec fn position_of_id(contracts: Seq<Contract>, id: Seq<char>) -> Option<int>
    decreases contracts.len(),
{
    if contracts.len() == 0 {
        None
    } else {
        match position_of_id(contracts.drop_last(), id) {
            Some(at) => Some(at),
            None => if contracts.last()@.id == id {
                Some(contracts.len() - 1)
            } else {
                None
            },
        }
    }
}

/// The position of an identifier is that of a contract which has it, with
/// none before it that has it too; there is no position only where no
/// contract has the identifier.
pub proof fn lemma_position_of_id(contracts: Seq<Contract>, id: Seq<char>)
    ensures
        match position_of_id(contracts, id) {
            Some(at) => {
                &&& 0 <= at < contracts.len()
                &&& contracts[at]@.id == id
                &&& forall|i: int| 0 <= i < at ==> contracts[i]@.id != id
            },
            None => forall|i: int| 0 <= i < contracts.len() ==> contracts[i]@.id != id,
        },
    decreases contracts.len(),
{
    if contracts.len() > 0 {
        let front = contracts.drop_last();
        lemma_position_of_id(front, id);
        assert(forall|i: int| 0 <= i < front.len() ==> front[i] == contracts[i]);
    }
}

/// The contracts of one vehicle.
#[derive(Debug)]
pub struct Contracts {
    pub(crate) contracts: Vec<Contract>,
}

impl View for Contracts {
    type V = Seq<Contract>;

    closed spec fn view(&self) -> Seq<Contract> {
        self.contracts@
    }
}

impl Contracts {
    /// No contracts.
    pub fn new() -> (r: Contracts)
        ensures
            r@ == Seq::<Contract>::empty(),
    {
        Contracts { contracts: Vec::new() }
    }

    /// Adds `contract` behind the others.
    pub fn add(&mut self, contract: Contract)
        ensures
            final(self)@ == old(self)@.push(contract),
    {
        self.contracts.push(contract);
    }

    /// The first contract with the identifier `id`, if there is one.
    pub fn get(&self, id: String) -> (r: Option<&Contract>)
        ensures
            match position_of_id(self@, id@) {
                Some(at) => r == Some(&self@[at]),
                None => r is None,
            },
    {
        let mut at: usize = 0;
        while at < self.contracts.len()
            invariant
                at <= self.contracts.len(),
                forall|i: int| 0 <= i < at ==> self.contracts@[i]@.id != id@,
            decreases self.contracts.len() - at,
        {
            if self.contracts[at].id == id {
                proof {
                    lemma_position_of_id(self.contracts@, id@);
                }
                return Some(&self.contracts[at]);
            }
            at += 1;
        }
        proof {
            lemma_position_of_id(self.contracts@, id@);
        }
        None
    }
}

/// The period of a contract lasts at least one day, and its length can be
/// counted: [`Contract::days`] never fails.
pub proof fn lemma_total_days_at_least_one(contract: Contract)
    requires
        contract.wf(),
    ensures
        contract@.days() == Ok::<u32, ArithmeticError>(contract@.total_days() as u32),
        1 <= contract@.total_days() <= u32::MAX,
{
    lemma_date_is_valid(contract.start);
    lemma_date_is_valid(contract.end);
}

/// At the odometer reading of the contract's start no mileage is used, and
/// every lower reading is rejected.
pub proof fn lemma_mileage_used_from_start(contract: Contract, current_mileage: u32)
    requires
        contract.wf(),
    ensures
        contract@.mileage_used(contract@.mileage_start) == Ok::<u32, ValidationError>(0),
        current_mileage < contract@.mileage_start ==> contract@.mileage_used(current_mileage)
            == Err::<u32, ValidationError>(ValidationError::CurrentMileageBelowStart),
        current_mileage >= contract@.mileage_start ==> contract@.mileage_used(current_mileage)
            is Ok,
{
}

/// What is used, what the planned trips will use and what is left make up
/// the allowance.
pub proof fn lemma_used_and_left_make_the_allowance(
    contract: Contract,
    current_mileage: u32,
    upcoming_trip_mileage: u32,
)
    requires
        contract.wf(),
        contract@.mileage_used(current_mileage) is Ok,
    ensures
        contract@.mileage_used(current_mileage)->Ok_0 + upcoming_trip_mileage
            + contract@.mileage_left(current_mileage, upcoming_trip_mileage)
            == contract@.mileage_allowance,
{
}

/// The daily budget rounds down: over all days of the period it uses no more
/// than the allowance, and what it leaves of the allowance is less than the
/// number of days.
pub proof fn lemma_per_day_budget_rounds_down(contract: Contract)
    requires
        contract.wf(),
    ensures
        contract@.days() is Ok,
        contract@.per_day_budget() is Ok,
        contract@.per_day_budget()->Ok_0 * contract@.days()->Ok_0
            <= contract@.mileage_allowance,
        contract@.mileage_allowance - contract@.per_day_budget()->Ok_0 * contract@.days()->Ok_0
            < contract@.days()->Ok_0,
{
    lemma_total_days_at_least_one(contract);
    let days = contract@.total_days();
    let allowance = contract@.mileage_allowance as int;
    assert(0 <= allowance / days <= allowance && (allowance / days) * days <= allowance
        && allowance - (allowance / days) * days < days) by (nonlinear_arith)
        requires
            days >= 1,
            allowance >= 0,
    ;
}

/// Outside the period every query that depends on the evaluation date fails,
/// and says that the contract is not active; inside it none fails that way.
pub proof fn lemma_queries_answer_inside_the_period_only(
    contract: Contract,
    today: Date,
    current_mileage: u32,
    upcoming_trip_mileage: u32,
)
    requires
        contract.wf(),
        today.wf(),
    ensures
        !contract@.is_ongoing(today@) ==> contract@.refuses(
            today@,
            current_mileage,
            upcoming_trip_mileage,
        ),
        contract@.is_ongoing(today@) ==> contract@.accepts(
            today@,
            current_mileage,
            upcoming_trip_mileage,
        ),
{
}

/// On the last day of the period every query that depends on the evaluation
/// date is answered: no day is left, and the mileage left per day is all the
/// mileage that is left.
pub proof fn lemma_last_day_is_active(
    contract: Contract,
    today: Date,
    current_mileage: u32,
    upcoming_trip_mileage: u32,
)
    requires
        contract.wf(),
        today.wf(),
        days_between(today@, contract@.end) == 0,
    ensures
        contract@.is_ongoing(today@),
        contract@.accepts(today@, current_mileage, upcoming_trip_mileage),
        contract@.days_left(today@) == Ok::<u32, BudgetError>(0),
        contract@.mileage_left_per_day(today@, current_mileage, upcoming_trip_mileage) == Ok::<
            i64,
            BudgetError,
        >(contract@.mileage_left(current_mileage, upcoming_trip_mileage) as i64),
        i64::MIN <= contract@.mileage_left(current_mileage, upcoming_trip_mileage) <= i64::MAX,
{
    lemma_total_days_at_least_one(contract);
}

/// On the first day of the period every query that depends on the evaluation
/// date is answered: no day has passed, and the mileage used per day is 0
/// for every reading that is not rejected.
pub proof fn lemma_first_day_is_active(
    contract: Contract,
    today: Date,
    current_mileage: u32,
    upcoming_trip_mileage: u32,
)
    requires
        contract.wf(),
        today.wf(),
        days_between(contract@.start, today@) == 0,
    ensures
        contract@.is_ongoing(today@),
        contract@.accepts(today@, current_mileage, upcoming_trip_mileage),
        contract@.days_past(today@) == Ok::<u32, BudgetError>(0),
        current_mileage >= contract@.mileage_start ==> contract@.mileage_used_per_day(
            today@,
            current_mileage,
        ) == Ok::<u32, BudgetError>(0),
{
    lemma_total_days_at_least_one(contract);
}

/// On the day before the period starts every query that depends on the
/// evaluation date fails, and says that the contract is not active.
pub proof fn lemma_day_before_start_is_inactive(
    contract: Contract,
    today: Date,
    current_mileage: u32,
    upcoming_trip_mileage: u32,
)
    requires
        contract.wf(),
        today.wf(),
        days_between(today@, contract@.start) == 1,
    ensures
        !contract@.is_ongoing(today@),
        contract@.refuses(today@, current_mileage, upcoming_trip_mileage),
{
}

/// On the day after the period ends every query that depends on the
/// evaluation date fails, and says that the contract is not active.
pub proof fn lemma_day_after_end_is_inactive(
    contract: Contract,
    today: Date,
    current_mileage: u32,
    upcoming_trip_mileage: u32,
)
    requires
        contract.wf(),
        today.wf(),
        days_between(contract@.end, today@) == 1,
    ensures
        !contract@.is_ongoing(today@),
        contract@.refuses(today@, current_mileage, upcoming_trip_mileage),
{
}

/// A quotient rounded toward zero is no further from zero than the dividend.
proof fn lemma_div_toward_zero_bound(a: int, b: int)
    requires
        b >= 1,
    ensures
        a >= 0 ==> 0 <= div_toward_zero(a, b) <= a,
        a < 0 ==> a <= div_toward_zero(a, b) <= 0,
{
    if a >= 0 {
        assert(0 <= a / b <= a) by (nonlinear_arith)
            requires
                a >= 0,
                b >= 1,
        ;
    } else {
        assert(0 <= (-a) / b <= -a) by (nonlinear_arith)
            requires
                -a >= 0,
                b >= 1,
        ;
    }
}

/// A daily rate times a number of days of a week or month fits in 64 bits.
proof fn lemma_product_bound(per_day: int, days: int)
    requires
        -(2 * u32::MAX as int) <= per_day <= 2 * u32::MAX as int,
        0 <= days <= 31,
    ensures
        -(62 * u32::MAX as int) <= days * per_day <= 62 * u32::MAX as int,
        days * per_day == per_day * days,
{
    assert(-(62 * u32::MAX as int) <= days * per_day <= 62 * u32::MAX as int
        && days * per_day == per_day * days) by (nonlinear_arith)
        requires
            -(2 * u32::MAX as int) <= per_day <= 2 * u32::MAX as int,
            0 <= days <= 31,
    ;
}

} // verus!
