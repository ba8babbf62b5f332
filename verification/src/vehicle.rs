//! A vehicle: its contracts, its mileage ledger and its planned trips.

use crate::contract::Contract;
use crate::contract::Contracts;
use crate::mileage::MileageRecord;
use crate::mileage::MileageRecords;
use crate::trip::Trip;
use crate::trip::Trips;
use vstd::prelude::*;

verus! {

/// The vehicles of one owner.
#[derive(Debug)]
pub struct Vehicles {}

/// One vehicle with all that is recorded of it.
#[derive(Debug)]
pub struct Vehicle {
    pub contracts: Contracts,
    pub mileage_records: MileageRecords,
    pub trips: Trips,
}

impl Vehicle {
    /// A vehicle of which nothing is recorded yet.
    pub fn new(_id: String) -> (r: Vehicle)
        ensures
            r.contracts@ == Seq::<Contract>::empty(),
            r.mileage_records@ == Seq::<MileageRecord>::empty(),
            r.mileage_records.wf(),
            r.trips@ == Seq::<Trip>::empty(),
    {
        Vehicle {
            contracts: Contracts::new(),
            mileage_records: MileageRecords::new(),
            trips: Trips::new(),
        }
    }
}

} // verus!
