//! The plan of a deposit that capitalizes its interest.

use crate::calendar::{CivilDate, Date};
use crate::decimal::{Decimal, DecimalView};
use crate::deposit::accrual::{
    at_payment_scale, balance_after, boundary_dates, calculate_payments, plan_outcome,
    totals_non_decreasing,
};
use crate::deposit::{payment_views, DepositError, DepositPlan, Payment, PaymentView};
use vstd::prelude::*;

verus! {

/// The plan of a deposit whose interest is added to the balance at every
/// month boundary, so that the next boundary accrues on the larger balance.
///
/// A plan is computed once, when it is made, and never changes afterwards.
#[derive(Debug)]
pub struct CapitalizationDepositPlan {
    current_amount: Decimal,
    open_date: Date,
    prolongation_date: Date,
    rate: Decimal,
    payments: Vec<Payment>,
    final_amount: Decimal,
}

impl DepositPlan for CapitalizationDepositPlan {
    closed spec fn payments_view(&self) -> Seq<PaymentView> {
        payment_views(self.payments@)
    }

    fn get_payments(&self) -> (payments: &Vec<Payment>)
        ensures
            self.wf(),
    {
        proof {
            use_type_invariant(self);
        }
        &self.payments
    }
}

impl CapitalizationDepositPlan {
    /// The principal the plan was made for.
    pub closed spec fn principal_view(&self) -> DecimalView {
        self.current_amount@
    }

    /// The opening date the plan was made for.
    pub closed spec fn open_view(&self) -> CivilDate {
        self.open_date@
    }

    /// The closing date the plan was made for.
    pub closed spec fn close_view(&self) -> CivilDate {
        self.prolongation_date@
    }

    /// The annual rate the plan was made for.
    pub closed spec fn rate_view(&self) -> DecimalView {
        self.rate@
    }

    /// The balance after the last payment.
    pub closed spec fn final_view(&self) -> DecimalView {
        self.final_amount@
    }

    /// Every plan is well formed.
    #[verifier::type_invariant]
    spec fn well_formed(&self) -> bool {
        self.wf()
    }

    /// The plan holds the schedule of the deposit it was made for, and its
    /// final balance is the balance after the last payment of that
    /// schedule.
    pub open spec fn wf(&self) -> bool {
        &&& plan_outcome(
            self.principal_view(),
            self.open_view(),
            self.close_view(),
            self.rate_view(),
        ) == Ok::<Seq<PaymentView>, DepositError>(self.payments_view())
        &&& self.final_view() == balance_after(self.principal_view(), self.payments_view())
    }

    /// The plan was made for the given deposit.
    pub open spec fn made_for(
        &self,
        principal: DecimalView,
        open: CivilDate,
        close: CivilDate,
        rate: DecimalView,
    ) -> bool {
        &&& self.wf()
        &&& self.principal_view() == principal
        &&& self.open_view() == open
        &&& self.close_view() == close
        &&& self.rate_view() == rate
    }

    /// Makes the plan of a deposit of `current_amount`, opened on
    /// `open_date` and closed on `prolongation_date`, at the annual
    /// percentage `rate`.
    ///
    /// Fails with [`DepositError::InvalidDateRange`] when the closing date
    /// is not after the opening date, and with
    /// [`DepositError::ScaleOutOfRange`] when there is a month boundary to
    /// accrue on and a scale is out of range.
    pub fn new(
        current_amount: Decimal,
        open_date: Date,
        prolongation_date: Date,
        rate: Decimal,
    ) -> (made: Result<Self, DepositError>)
        requires
            open_date.wf(),
            prolongation_date.wf(),
        ensures
            match made {
                Ok(plan) => plan.made_for(
                    current_amount@,
                    open_date@,
                    prolongation_date@,
                    rate@,
                ),
                Err(error) => plan_outcome(
                    current_amount@,
                    open_date@,
                    prolongation_date@,
                    rate@,
                ) == Err::<Seq<PaymentView>, DepositError>(error),
            },
            !open_date@.before(prolongation_date@) <==> made == Err::<Self, DepositError>(
                DepositError::InvalidDateRange,
            ),
            made matches Ok(plan) ==> plan.payments_view().len() == boundary_dates(
                open_date@,
                prolongation_date@,
            ).len() && at_payment_scale(plan.payments_view()),
            made matches Ok(plan) ==> (current_amount@.non_negative() && rate@.non_negative()
                ==> totals_non_decreasing(plan.payments_view())),
    {
        let payments = match calculate_payments(
            &current_amount,
            &open_date,
            &prolongation_date,
            &rate,
        ) {
            Ok(payments) => payments,
            Err(error) => {
                return Err(error);
            },
        };
        let final_amount = if payments.len() > 0 {
            payments[payments.len() - 1].total.clone()
        } else {
            current_amount.clone()
        };
        Ok(
            CapitalizationDepositPlan {
                current_amount,
                open_date,
                prolongation_date,
                rate,
                payments,
                final_amount,
            },
        )
    }

    /// The principal the plan was made for.
    pub fn current_amount(&self) -> (amount: &Decimal)
        ensures
            amount@ == self.principal_view(),
    {
        &self.current_amount
    }

    /// The opening date the plan was made for.
    pub fn open_date(&self) -> (date: Date)
        ensures
            date@ == self.open_view(),
    {
        self.open_date
    }

    /// The closing date the plan was made for.
    pub fn prolongation_date(&self) -> (date: Date)
        ensures
            date@ == self.close_view(),
    {
        self.prolongation_date
    }

    /// The annual rate the plan was made for.
    pub fn rate(&self) -> (rate: &Decimal)
        ensures
            rate@ == self.rate_view(),
    {
        &self.rate
    }

    /// The balance after the last payment; the principal when there is no
    /// payment.
    pub fn final_amount(&self) -> (amount: &Decimal)
        ensures
            amount@ == self.final_view(),
            self.wf(),
    {
        proof {
            use_type_invariant(self);
        }
        &self.final_amount
    }
}

/// Two plans made for the same deposit hold the same payments and the same
/// final balance.
pub proof fn lemma_same_deposit_same_plan(
    first: CapitalizationDepositPlan,
    second: CapitalizationDepositPlan,
)
    requires
        first.wf(),
        second.wf(),
        first.principal_view() == second.principal_view(),
        first.open_view() == second.open_view(),
        first.close_view() == second.close_view(),
        first.rate_view() == second.rate_view(),
    ensures
        first.payments_view() == second.payments_view(),
        first.final_view() == second.final_view(),
{
}

} // verus!
