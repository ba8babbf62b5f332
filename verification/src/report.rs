//! The figures of a budget report: every budget query of a contract,
//! answered for one evaluation date, one odometer reading and one sum of
//! upcoming trip mileage.

use crate::calendar::CivilDate;
use crate::calendar::Date;
use crate::contract::position_of_id;
use crate::contract::Contract;
use crate::contract::ContractView;
use crate::error::BudgetError;
use crate::error::ReportError;
use crate::mileage::latest_reading;
use crate::mileage::MileageRecord;
use crate::trip::total_upcoming_mileage_of;
use crate::trip::Trip;
use crate::vehicle::Vehicle;
use vstd::prelude::*;

verus! {

/// The answers to the budget queries of one contract on one day.
#[derive(Clone, Copy, Debug, PartialEq, Eq, Structural)]
pub struct BudgetReport {
    /// The length of the contract's period in days.
    pub contract_days: u32,
    /// The mileage that each day of the period may use.
    pub per_day_budget: u32,
    /// The days of the period that have passed.
    pub days_past: u32,
    /// The mileage driven since the start of the period.
    pub mileage_used: u32,
    /// The mileage driven per day that has passed.
    pub mileage_used_per_day: u32,
    /// The days of the period that are left.
    pub days_left: u32,
    /// The mileage that is left of the allowance.
    pub mileage_left: i64,
    /// The mileage left per day that is left.
    pub mileage_left_per_day: i64,
    /// The mileage left for the rest of the week.
    pub mileage_left_this_week: i64,
    /// The mileage left for the rest of the month.
    pub mileage_left_this_month: i64,
}

/// The report on `contract` for `today`: the answer of each query, or the
/// failure of the first query that fails, in the order of the report's
/// figures.
pub open spec fn budget_report_of(
    contract: ContractView,
    today: CivilDate,
    current_mileage: u32,
    upcoming_trip_mileage: u32,
) -> Result<BudgetReport, BudgetError> {
    let used_per_day = contract.mileage_used_per_day(today, current_mileage);
    let left = contract.mileage_left(current_mileage, upcoming_trip_mileage);
    let left_per_day = contract.mileage_left_per_day(
        today,
        current_mileage,
        upcoming_trip_mileage,
    );
    let left_this_week = contract.mileage_left_this_week(
        today,
        current_mileage,
        upcoming_trip_mileage,
    );
    let left_this_month = contract.mileage_left_this_month(
        today,
        current_mileage,
        upcoming_trip_mileage,
    );
    if contract.days() is Err {
        Err(BudgetError::Arithmetic(contract.days()->Err_0))
    } else if contract.per_day_budget() is Err {
        Err(contract.per_day_budget()->Err_0)
    } else if contract.days_past(today) is Err {
        Err(contract.days_past(today)->Err_0)
    } else if contract.mileage_used(current_mileage) is Err {
        Err(BudgetError::Validation(contract.mileage_used(current_mileage)->Err_0))
    } else if used_per_day is Err {
        Err(used_per_day->Err_0)
    } else if contract.days_left(today) is Err {
        Err(contract.days_left(today)->Err_0)
    } else if left_per_day is Err {
        Err(left_per_day->Err_0)
    } else if left_this_week is Err {
        Err(left_this_week->Err_0)
    } else if left_this_month is Err {
        Err(left_this_month->Err_0)
    } else {
        Ok(
            BudgetReport {
                contract_days: contract.days()->Ok_0,
                per_day_budget: contract.per_day_budget()->Ok_0,
                days_past: contract.days_past(today)->Ok_0,
                mileage_used: contract.mileage_used(current_mileage)->Ok_0,
                mileage_used_per_day: used_per_day->Ok_0,
                days_left: contract.days_left(today)->Ok_0,
                mileage_left: left as i64,
                mileage_left_per_day: left_per_day->Ok_0,
                mileage_left_this_week: left_this_week->Ok_0,
                mileage_left_this_month: left_this_month->Ok_0,
            },
        )
    }
}

/// The report on the contract `id` of a vehicle for `today`, from the
/// latest reading of its ledger and the upcoming mileage of its trips.
pub open spec fn report_of(
    contracts: Seq<Contract>,
    records: Seq<MileageRecord>,
    trips: Seq<Trip>,
    id: Seq<char>,
    today: CivilDate,
) -> Result<BudgetReport, ReportError> {
    match position_of_id(contracts, id) {
        None => Err(ReportError::UnknownContract),
        Some(at) => match latest_reading(records) {
            Err(e) => Err(ReportError::Ledger(e)),
            Ok(mileage) => match total_upcoming_mileage_of(trips, today) {
                Err(e) => Err(ReportError::Budget(BudgetError::Arithmetic(e))),
                Ok(trips_mileage) => match budget_report_of(
                    contracts[at]@,
                    today,
                    mileage,
                    trips_mileage,
                ) {
                    Err(e) => Err(ReportError::Budget(e)),
                    Ok(report) => Ok(report),
                },
            },
        },
    }
}

/// Answers every budget query of `contract` for `today`, at an odometer
/// reading of `current_mileage` and with `upcoming_trip_mileage` still to be
/// driven on planned trips.
pub fn budget_report(
    contract: &Contract,
    today: Date,
    current_mileage: u32,
    upcoming_trip_mileage: u32,
) -> (r: Result<BudgetReport, BudgetError>)
    ensures
        r == budget_report_of(contract@, today@, current_mileage, upcoming_trip_mileage),
{
    let contract_days = match contract.days() {
        Ok(days) => days,
        Err(e) => return Err(BudgetError::Arithmetic(e)),
    };
    let per_day_budget = match contract.per_day_budget() {
        Ok(budget) => budget,
        Err(e) => return Err(e),
    };
    let days_past = match contract.days_past(today) {
        Ok(days) => days,
        Err(e) => return Err(e),
    };
    let mileage_used = match contract.mileage_used(current_mileage) {
        Ok(used) => used,
        Err(e) => return Err(BudgetError::Validation(e)),
    };
    let mileage_used_per_day = match contract.mileage_used_per_day(today, current_mileage) {
        Ok(used) => used,
        Err(e) => return Err(e),
    };
    let days_left = match contract.days_left(today) {
        Ok(days) => days,
        Err(e) => return Err(e),
    };
    let mileage_left = match contract.mileage_left(current_mileage, upcoming_trip_mileage) {
        Ok(left) => left,
        Err(e) => return Err(BudgetError::Validation(e)),
    };
    let mileage_left_per_day = match contract.mileage_left_per_day(
        today,
        current_mileage,
        upcoming_trip_mileage,
    ) {
        Ok(left) => left,
        Err(e) => return Err(e),
    };
    let mileage_left_this_week = match contract.mileage_left_this_week(
        today,
        current_mileage,
        upcoming_trip_mileage,
    ) {
        Ok(left) => left,
        Err(e) => return Err(e),
    };
    let mileage_left_this_month = match contract.mileage_left_this_month(
        today,
        current_mileage,
        upcoming_trip_mileage,
    ) {
        Ok(left) => left,
        Err(e) => return Err(e),
    };
    Ok(
        BudgetReport {
            contract_days,
            per_day_budget,
            days_past,
            mileage_used,
            mileage_used_per_day,
            days_left,
            mileage_left,
            mileage_left_per_day,
            mileage_left_this_week,
            mileage_left_this_month,
        },
    )
}

/// Draws up the report on the contract `contract_id` of `vehicle` for
/// `today`: looks up the contract, takes the latest reading of the mileage
/// ledger and the upcoming mileage of the trips, and answers every budget
/// query with them.
pub fn report(vehicle: &Vehicle, contract_id: String, today: Date) -> (r: Result<
    BudgetReport,
    ReportError,
>)
    ensures
        r == report_of(
            vehicle.contracts@,
            vehicle.mileage_records@,
            vehicle.trips@,
            contract_id@,
            today@,
        ),
{
    let insurance = match vehicle.contracts.get(contract_id) {
        Some(contract) => contract,
        None => return Err(ReportError::UnknownContract),
    };
    let mileage = match vehicle.mileage_records.get_latest_mileage() {
        Ok(mileage) => mileage,
        Err(e) => return Err(ReportError::Ledger(e)),
    };
    let trips_mileage = match vehicle.trips.total_upcoming_mileage(today) {
        Ok(mileage) => mileage,
        Err(e) => return Err(ReportError::Budget(BudgetError::Arithmetic(e))),
    };
    match budget_report(insurance, today, mileage, trips_mileage) {
        Ok(report) => Ok(report),
        Err(e) => Err(ReportError::Budget(e)),
    }
}

} // verus!
