//! A contract together with the history of odometer readings that it is
//! measured by.

use crate::calendar::Date;
use crate::contract::Contract;
use crate::contract::ContractView;
use crate::error::BudgetError;
use crate::error::ValidationError;
use crate::history::MileageHistory;
use crate::mileage::latest_reading;
use crate::mileage::sorted_by_date;
use crate::mileage::MileageRecord;
use vstd::prelude::*;

verus! {

/// The odometer reading that a plan goes by: the current mileage of the
/// history, and the reading at the contract's start while the history holds
/// no reading.
pub open spec fn current_mileage_of(contract: ContractView, history: Seq<MileageRecord>) -> u32 {
    match latest_reading(sorted_by_date(history)) {
        Ok(mileage) => mileage,
        Err(_) => contract.mileage_start,
    }
}

/// A contract and the odometer readings taken under it. No trips are
/// planned in a drive plan.
#[derive(Debug)]
pub struct DrivePlan {
    pub contract: Contract,
    pub history: MileageHistory,
}

impl DrivePlan {
    /// The odometer reading that the plan goes by.
    pub open spec fn current_mileage(self) -> u32 {
        current_mileage_of(self.contract@, self.history@)
    }

    /// The mileage driven since the start of the contract.
    pub fn mileage_used(&self) -> (r: Result<u32, ValidationError>)
        ensures
            r == self.contract@.mileage_used(self.current_mileage()),
    {
        let current_mileage = self.history.get_current_mileage();

        match current_mileage {
            Ok(mileage) => self.contract.mileage_used(mileage),
            Err(_e) => self.contract.mileage_used(self.contract.mileage_start()),
        }
    }

    /// The mileage that is left of the allowance. It is negative where the
    /// allowance is exceeded, and never fails.
    pub fn mileage_left(&self) -> (r: Result<i64, ValidationError>)
        ensures
            r == Ok::<i64, ValidationError>(
                self.contract@.mileage_left(self.current_mileage(), 0) as i64,
            ),
            r->Ok_0 == self.contract@.mileage_left(self.current_mileage(), 0),
    {
        let current_mileage = self.history.get_current_mileage();

        match current_mileage {
            Ok(mileage) => self.contract.mileage_left(mileage, 0),
            Err(_e) => self.contract.mileage_left(self.contract.mileage_start(), 0),
        }
    }

    /// The mileage driven per day of the contract that has passed on
    /// `today`.
    pub fn mileage_used_per_day(&self, today: Date) -> (r: Result<u32, BudgetError>)
        ensures
            r == self.contract@.mileage_used_per_day(today@, self.current_mileage()),
    {
        let current_mileage = self.history.get_current_mileage();

        match current_mileage {
            Ok(mileage) => self.contract.mileage_used_per_day(today, mileage),
            Err(_e) => self.contract.mileage_used_per_day(today, self.contract.mileage_start()),
        }
    }

    /// The mileage left per day that is left of the contract on `today`.
    pub fn mileage_left_per_day(&self, today: Date) -> (r: Result<i64, BudgetError>)
        ensures
            r == self.contract@.mileage_left_per_day(today@, self.current_mileage(), 0),
    {
        let current_mileage = self.history.get_current_mileage();

        match current_mileage {
            Ok(mileage) => self.contract.mileage_left_per_day(today, mileage, 0),
            Err(_e) => self.contract.mileage_left_per_day(today, self.contract.mileage_start(), 0),
        }
    }
}

/// While the history holds no reading, nothing counts as driven: the mileage
/// used is 0.
pub proof fn lemma_plan_without_readings_has_used_nothing(plan: DrivePlan)
    requires
        plan.contract.wf(),
        plan.history@.len() == 0,
    ensures
        plan.current_mileage() == plan.contract@.mileage_start,
        plan.contract@.mileage_used(plan.current_mileage()) == Ok::<u32, ValidationError>(0),
        plan.contract@.mileage_left(plan.current_mileage(), 0)
            == plan.contract@.mileage_allowance,
{
}

} // verus!
