//! Mileage budget accounting for a vehicle contract.
//!
//! A [`contract::Contract`] grants a mileage allowance over a period of
//! calendar days. Together with a ledger of odometer readings
//! ([`mileage::MileageRecords`]) and a ledger of planned trips
//! ([`trip::Trips`]) it answers how much of the allowance is used, how much
//! is left, and how the remainder spreads over the coming days, the rest of
//! the week and the rest of the month. [`report::report`] answers all of it
//! at once for a [`vehicle::Vehicle`].
//!
//! Every query takes the evaluation date as an argument; nothing in this
//! crate reads a clock. No query panics: what cannot be answered is an error
//! of [`error`].
//!
//! The calendar is `chrono`'s ([`calendar`]). Everything else is verified
//! with Verus: each function against a contract over the mathematical model
//! of its arguments, and the laws that relate the functions as proof
//! functions beside them.

pub mod calendar;
pub mod contract;
pub mod drive_plan;
pub mod error;
pub mod history;
pub mod mileage;
pub mod report;
pub mod trip;
pub mod vehicle;
