//! Month-by-month interest schedules for capitalizing bank deposits.
//!
//! Given a principal, an opening date, a closing date and an annual
//! percentage, the crate works out one payment for every month boundary the
//! deposit crosses: the interest accrued at the boundary and the balance
//! after it has been added.
//!
//! * [`calendar`] holds calendar dates, their model and the day arithmetic
//!   the schedule is walked with;
//! * [`decimal`] holds arbitrary-precision decimal numbers and the exact
//!   meaning of the operations applied to them;
//! * [`deposit`] holds payments, plans and the kinds of deposit, with the
//!   accrual rules in [`deposit::accrual`] and the plan of a capitalizing
//!   deposit in [`deposit::fixed`].
//!
//! Dates are computed with `chrono` and decimals with `bigdecimal`. What
//! those calls return is stated, not proved, in the contracts of the few
//! functions that make them; everything else is proved from there.

pub mod calendar;
pub mod decimal;
pub mod deposit;
