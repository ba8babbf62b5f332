//! The errors that the budget queries return.

use vstd::prelude::*;

verus! {

/// An input that cannot describe a real contract, trip or reading.
#[derive(Clone, Copy, Debug, PartialEq, Eq, Structural)]
pub enum ValidationError {
    /// The period does not end late enough after its start.
    InvalidPeriod,
    /// The odometer reading lies below the reading at the contract's start.
    CurrentMileageBelowStart,
}

/// A count that cannot be represented.
#[derive(Clone, Copy, Debug, PartialEq, Eq, Structural)]
pub enum ArithmeticError {
    /// A period would last a negative number of days.
    NegativeDuration,
    /// The count does not fit the integer width of the result.
    Overflow,
}

/// A rate whose denominator is zero.
#[derive(Clone, Copy, Debug, PartialEq, Eq, Structural)]
pub enum DivisionError {
    /// The number of days to divide by is zero.
    DivisionByZero,
}

/// A query on a ledger that holds nothing.
#[derive(Clone, Copy, Debug, PartialEq, Eq, Structural)]
pub enum EmptyLedgerError {
    /// The ledger holds no observation.
    NoObservations,
}

/// Why a budget query on a contract failed.
#[derive(Clone, Copy, Debug, PartialEq, Eq, Structural)]
pub enum BudgetError {
    /// The evaluation date lies outside the contract's period.
    ContractNotActive,
    /// An input was rejected.
    Validation(ValidationError),
    /// A count could not be represented.
    Arithmetic(ArithmeticError),
    /// A rate could not be computed.
    Division(DivisionError),
}

/// Why no report could be drawn up for a vehicle.
#[derive(Clone, Copy, Debug, PartialEq, Eq, Structural)]
pub enum ReportError {
    /// The vehicle has no contract with the identifier asked for.
    UnknownContract,
    /// The mileage ledger gave no reading.
    Ledger(EmptyLedgerError),
    /// A figure of the report could not be computed.
    Budget(BudgetError),
}

} // verus!
