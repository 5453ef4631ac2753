//! Deposits and their payment plans.
//!
//! A deposit is opened on one date and closed on a later one. Between the
//! two, every day whose successor falls in another month is a month
//! boundary, and a plan holds one [`Payment`] for every boundary.
//!
//! * [`accrual`] holds the rules: which days are boundaries, what a
//!   boundary pays, and the laws every schedule obeys;
//! * [`fixed`] holds the plan of a deposit that capitalizes its interest.

pub mod accrual;
pub mod fixed;

use crate::calendar::{Date, Month};
use crate::decimal::{Decimal, DecimalView};
use crate::deposit::accrual::{
    at_payment_scale, boundary_dates, plan_outcome, totals_non_decreasing,
};
pub use crate::deposit::fixed::CapitalizationDepositPlan;
use vstd::prelude::*;

verus! {

/// Why a plan could not be made.
#[derive(Clone, Copy, Debug, PartialEq, Eq, Structural)]
pub enum DepositError {
    /// The closing date is not after the opening date.
    InvalidDateRange,
    /// A scale met during the computation is further than
    /// [`crate::decimal::SCALE_LIMIT`] from zero.
    ScaleOutOfRange,
    /// The text names no kind of deposit.
    UnknownDepositType,
    /// The kind of deposit has no accrual rule.
    Unimplemented,
}

impl DepositError {
    /// A short description of the error.
    pub open spec fn message_spec(self) -> Seq<char> {
        match self {
            DepositError::InvalidDateRange => "The closing date is not after the opening date"@,
            DepositError::ScaleOutOfRange => "A decimal scale is out of range"@,
            DepositError::UnknownDepositType => "Failed to parse deposit type"@,
            DepositError::Unimplemented => "This type of deposit is not supported"@,
        }
    }

    /// A short description of the error.
    pub fn message(&self) -> (text: &'static str)
        ensures
            text@ == self.message_spec(),
    {
        match self {
            DepositError::InvalidDateRange => "The closing date is not after the opening date",
            DepositError::ScaleOutOfRange => "A decimal scale is out of range",
            DepositError::UnknownDepositType => "Failed to parse deposit type",
            DepositError::Unimplemented => "This type of deposit is not supported",
        }
    }
}

/// The month a payment belongs to.
///
/// `boundary_day` is the day of the month on which the boundary fell. A
/// boundary always falls on the last day of its month, so the number is
/// also the length of that month. It is the factor that enters the interest
/// of the boundary, however many days of the month the deposit has run.
#[derive(Clone, Copy, Debug, PartialEq, Eq, Structural)]
pub struct PaymentMonth {
    pub month: Month,
    pub boundary_day: u32,
}

/// The interest accrued at one month boundary and the balance after it.
#[derive(Debug)]
pub struct Payment {
    pub month: PaymentMonth,
    pub amount: Decimal,
    pub total: Decimal,
}

/// The mathematical model of a [`Payment`].
pub struct PaymentView {
    pub month: Month,
    pub boundary_day: int,
    pub amount: DecimalView,
    pub total: DecimalView,
}

impl View for Payment {
    type V = PaymentView;

    open spec fn view(&self) -> PaymentView {
        PaymentView {
            month: self.month.month,
            boundary_day: self.month.boundary_day as int,
            amount: self.amount@,
            total: self.total@,
        }
    }
}

impl Clone for Payment {
    fn clone(&self) -> (copy: Payment)
        ensures
            copy@ == self@,
    {
        Payment { month: self.month, amount: self.amount.clone(), total: self.total.clone() }
    }
}

/// The models of a sequence of payments, in the same order.
pub open spec fn payment_views(payments: Seq<Payment>) -> Seq<PaymentView> {
    payments.map_values(|p: Payment| p@)
}

/// A deposit product that has worked out its payments.
pub trait DepositPlan {
    /// The models of the payments of the plan, in the order of their
    /// boundaries.
    spec fn payments_view(&self) -> Seq<PaymentView>;

    /// The payments of the plan, in the order of their boundaries.
    fn get_payments(&self) -> (payments: &Vec<Payment>)
        ensures
            payment_views(payments@) == self.payments_view(),
    ;
}

/// The kinds of deposit that can be asked for.
#[derive(Clone, Copy, Debug, PartialEq, Eq, Structural)]
pub enum DepositType {
    /// Interest is capitalized at every month boundary.
    FIXED,
    /// Interest is not capitalized. No accrual rule exists for this kind.
    SAVE,
}

/// The kind of deposit that `text` names, if it names one. Names are
/// matched exactly, letter case included.
pub open spec fn deposit_type_named(text: Seq<char>) -> Option<DepositType> {
    if text == "fixed"@ {
        Some(DepositType::FIXED)
    } else if text == "save"@ {
        Some(DepositType::SAVE)
    } else {
        None
    }
}

/// Whether two texts hold the same characters.
fn same_text(a: &str, b: &str) -> (same: bool)
    ensures
        same == (a@ == b@),
{
    let len = a.unicode_len();
    if len != b.unicode_len() {
        return false;
    }
    let mut i: usize = 0;
    while i < len
        invariant
            i <= len,
            len == a@.len(),
            len == b@.len(),
            forall|k: int| 0 <= k < i ==> a@[k] == b@[k],
        decreases len - i,
    {
        if a.get_char(i) != b.get_char(i) {
            return false;
        }
        i = i + 1;
    }
    assert(a@ =~= b@);
    true
}

impl DepositType {
    /// The name of the kind.
    pub open spec fn label(self) -> Seq<char> {
        match self {
            DepositType::FIXED => "fixed"@,
            DepositType::SAVE => "save"@,
        }
    }

    /// The kind of deposit named by `deposit_type`: `"fixed"` or `"save"`.
    /// Any other text fails with [`DepositError::UnknownDepositType`].
    pub fn from_str(deposit_type: &str) -> (parsed: Result<DepositType, DepositError>)
        ensures
            parsed == match deposit_type_named(deposit_type@) {
                Some(kind) => Ok::<DepositType, DepositError>(kind),
                None => Err::<DepositType, DepositError>(DepositError::UnknownDepositType),
            },
    {
        if same_text(deposit_type, "fixed") {
            Ok(DepositType::FIXED)
        } else if same_text(deposit_type, "save") {
            Ok(DepositType::SAVE)
        } else {
            Err(DepositError::UnknownDepositType)
        }
    }

    /// The name of the kind, as [`DepositType::from_str`] reads it.
    pub fn to_string(&self) -> (text: String)
        ensures
            text@ == self.label(),
            deposit_type_named(text@) == Some(*self),
    {
        proof {
            lemma_label_names_kind(*self);
        }
        match self {
            DepositType::FIXED => "fixed".to_owned(),
            DepositType::SAVE => "save".to_owned(),
        }
    }

    /// Makes the plan of a deposit of this kind.
    ///
    /// A [`DepositType::FIXED`] deposit gets the plan that
    /// [`CapitalizationDepositPlan::new`] makes. A [`DepositType::SAVE`]
    /// deposit has no accrual rule, and asking for its plan fails with
    /// [`DepositError::Unimplemented`] whatever the other arguments are.
    pub fn make_plan(
        &self,
        current_amount: Decimal,
        open_date: Date,
        prolongation_date: Date,
        rate: Decimal,
    ) -> (made: Result<CapitalizationDepositPlan, DepositError>)
        requires
            open_date.wf(),
            prolongation_date.wf(),
        ensures
            *self == DepositType::SAVE ==> made == Err::<CapitalizationDepositPlan, DepositError>(
                DepositError::Unimplemented,
            ),
            *self == DepositType::FIXED ==> match made {
                Ok(plan) => plan.made_for(
                    current_amount@,
                    open_date@,
                    prolongation_date@,
                    rate@,
                ),
                Err(error) => plan_outcome(
                    current_amount@,
                    open_date@,
                    prolongation_date@,
                    rate@,
                ) == Err::<Seq<PaymentView>, DepositError>(error),
            },
            made matches Ok(plan) ==> plan.payments_view().len() == boundary_dates(
                open_date@,
                prolongation_date@,
            ).len() && at_payment_scale(plan.payments_view()),
            made matches Ok(plan) ==> (current_amount@.non_negative() && rate@.non_negative()
                ==> totals_non_decreasing(plan.payments_view())),
    {
        match self {
            DepositType::FIXED => CapitalizationDepositPlan::new(
                current_amount,
                open_date,
                prolongation_date,
                rate,
            ),
            DepositType::SAVE => Err(DepositError::Unimplemented),
        }
    }
}

impl core::str::FromStr for DepositType {
    type Err = DepositError;

    fn from_str(deposit_type: &str) -> (parsed: Result<DepositType, DepositError>)
        ensures
            parsed == match deposit_type_named(deposit_type@) {
                Some(kind) => Ok::<DepositType, DepositError>(kind),
                None => Err::<DepositType, DepositError>(DepositError::UnknownDepositType),
            },
    {
        DepositType::from_str(deposit_type)
    }
}

/// The name of a kind of deposit names that kind and no other.
pub proof fn lemma_label_names_kind(kind: DepositType)
    ensures
        deposit_type_named(kind.label()) == Some(kind),
{
    reveal_strlit("fixed");
    reveal_strlit("save");
    assert("fixed"@.len() != "save"@.len());
}

} // verus!
