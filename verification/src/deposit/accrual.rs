//! The accrual rules of a capitalizing deposit.
//!
//! Every day from the opening date on whose successor still lies before the
//! closing date is inspected. A day whose successor falls in another month
//! is a month boundary and yields one payment. The interest of a boundary
//! is the daily rate times the running balance times the day of the month
//! of the boundary day; it is cut to three decimals for the payment, and
//! the balance plus the uncut interest, cut to three decimals in turn, is
//! the balance the next boundary accrues on.

use crate::calendar::{
    add_days, days_between, days_from_to, days_in_month, lemma_days_from_to, lemma_next_is_nearest,
    lemma_next_keeps_order, lemma_next_valid, lemma_plus_days_increasing, lemma_plus_days_valid,
    lemma_reachable, month_with_number, CivilDate, Date, Month,
};
use crate::decimal::{
    decimal_quotient, lemma_plus_non_negative, lemma_sum_at_scale_not_below,
    lemma_times_non_negative, lemma_with_scale_non_negative, product, quotient, rescale, sum,
    Decimal, DecimalView,
};
use crate::deposit::{payment_views, DepositError, Payment, PaymentMonth, PaymentView};
use vstd::prelude::*;

verus! {

/// The number of decimals every amount and every total is cut to.
pub const PAYMENT_SCALE: i64 = 3;

/// The daily rate of an annual percentage: the rate divided by 100 and then
/// by 365.
pub open spec fn daily_rate_of(rate: DecimalView) -> DecimalView {
    decimal_quotient(decimal_quotient(rate, 100), 365)
}

/// The scales of the rate and of both quotients that lead to its daily rate
/// are in range.
pub open spec fn rate_supported(rate: DecimalView) -> bool {
    &&& rate.scale_in_range()
    &&& decimal_quotient(rate, 100).scale_in_range()
    &&& daily_rate_of(rate).scale_in_range()
}

/// The interest that `balance` earns at a boundary that falls on day `day`
/// of its month, before any digit is cut off.
pub open spec fn interest(balance: DecimalView, daily_rate: DecimalView, day: int) -> DecimalView {
    daily_rate.times(balance).times(DecimalView { unscaled: day, scale: 0 })
}

/// The payment made at the boundary day `day` on the balance `balance`.
pub open spec fn payment_on(
    balance: DecimalView,
    daily_rate: DecimalView,
    day: CivilDate,
) -> PaymentView {
    let accrued = interest(balance, daily_rate, day.day);
    PaymentView {
        month: month_with_number(day.month).unwrap(),
        boundary_day: day.day,
        amount: accrued.with_scale(PAYMENT_SCALE as int),
        total: balance.plus(accrued).with_scale(PAYMENT_SCALE as int),
    }
}

/// The balance that the next boundary accrues on: the total of the last
/// payment, or the principal before the first.
pub open spec fn balance_after(principal: DecimalView, payments: Seq<PaymentView>) -> DecimalView {
    if payments.len() == 0 {
        principal
    } else {
        payments.last().total
    }
}

/// The payments made while the first `days` days of a deposit opened on
/// `open` are inspected, in the order of their boundaries.
pub open spec fn schedule(
    principal: DecimalView,
    daily_rate: DecimalView,
    open: CivilDate,
    days: nat,
) -> Seq<PaymentView>
    decreases days,
{
    if days == 0 {
        Seq::empty()
    } else {
        let earlier = schedule(principal, daily_rate, open, (days - 1) as nat);
        let day = open.plus_days((days - 1) as nat);
        if day.ends_month() {
            earlier.push(payment_on(balance_after(principal, earlier), daily_rate, day))
        } else {
            earlier
        }
    }
}

/// The number of month boundaries among the first `days` days from `open`
/// on: the days whose successor falls in another month.
pub open spec fn month_boundaries(open: CivilDate, days: nat) -> nat
    decreases days,
{
    if days == 0 {
        0
    } else {
        month_boundaries(open, (days - 1) as nat) + if open.plus_days(
            (days - 1) as nat,
        ).ends_month() {
            1nat
        } else {
            0nat
        }
    }
}

/// The number of days of a deposit that are inspected for a boundary,
/// counted from the opening date on: one less than the days between the two
/// dates, so that the successor of every inspected day still lies before
/// the closing date.
pub open spec fn inspected_days(open: CivilDate, close: CivilDate) -> nat {
    (days_from_to(open, close) - 1) as nat
}

/// The month boundaries of a deposit as dates: the days from the opening
/// date on that end a month and whose successor lies before the closing
/// date.
pub open spec fn boundary_dates(open: CivilDate, close: CivilDate) -> Set<CivilDate> {
    Set::new(
        |d: CivilDate| d.valid() && !d.before(open) && d.next().before(close) && d.ends_month(),
    )
}

/// What making a plan gives: the schedule, or the reason why there is none.
///
/// A closing date that is not after the opening date is an error. A deposit
/// without month boundary has an empty schedule, whatever its principal and
/// rate. Otherwise the scales of the principal and of the rate have to be in
/// range for the deposit to have a schedule.
pub open spec fn plan_outcome(
    principal: DecimalView,
    open: CivilDate,
    close: CivilDate,
    rate: DecimalView,
) -> Result<Seq<PaymentView>, DepositError> {
    let days = inspected_days(open, close);
    if !open.before(close) {
        Err(DepositError::InvalidDateRange)
    } else if boundary_dates(open, close).len() == 0 {
        Ok(Seq::empty())
    } else if !(principal.scale_in_range() && rate_supported(rate)) {
        Err(DepositError::ScaleOutOfRange)
    } else {
        Ok(schedule(principal, daily_rate_of(rate), open, days))
    }
}

/// The totals of `payments` never decrease from one payment to the next.
pub open spec fn totals_non_decreasing(payments: Seq<PaymentView>) -> bool {
    forall|i: int, j: int|
        0 <= i <= j < payments.len() ==> (#[trigger] payments[i]).total.unscaled <= (
        #[trigger] payments[j]).total.unscaled
}

/// Every amount and every total of `payments` is at [`PAYMENT_SCALE`].
pub open spec fn at_payment_scale(payments: Seq<PaymentView>) -> bool {
    forall|i: int|
        0 <= i < payments.len() ==> (#[trigger] payments[i]).amount.scale == PAYMENT_SCALE
            && payments[i].total.scale == PAYMENT_SCALE
}

/// The daily rate of the annual percentage `rate`, or `None` when a scale
/// on the way to it is out of range.
pub fn daily_rate(rate: &Decimal) -> (daily: Option<Decimal>)
    ensures
        daily is Some <==> rate_supported(rate@),
        daily matches Some(d) ==> d@ == daily_rate_of(rate@) && (rate@.non_negative()
            ==> d@.non_negative()),
{
    if !rate.scale_in_range() {
        return None;
    }
    let per_cent = quotient(rate, 100);
    if !per_cent.scale_in_range() {
        return None;
    }
    let per_day = quotient(&per_cent, 365);
    if !per_day.scale_in_range() {
        return None;
    }
    Some(per_day)
}

/// The payment of the boundary day `day` on the balance `balance`.
///
/// The amount is `daily_rate * balance * day of the month`, cut to three
/// decimals; the total is the balance plus the uncut interest, cut to three
/// decimals.
pub fn build_payment(balance: &Decimal, daily_rate: &Decimal, day: &Date) -> (payment: Payment)
    requires
        balance@.scale_in_range(),
        daily_rate@.scale_in_range(),
        day.wf(),
    ensures
        payment@ == payment_on(balance@, daily_rate@, day@),
{
    let on_balance = product(daily_rate, balance);
    let accrued = product(&on_balance, &Decimal::from_u32(day.day));
    let total = rescale(&sum(balance, &accrued), PAYMENT_SCALE);
    Payment {
        month: PaymentMonth { month: Month::from_u32(day.month).unwrap(), boundary_day: day.day },
        amount: rescale(&accrued, PAYMENT_SCALE),
        total,
    }
}

/// Walks the days of a deposit and makes the payment of every month
/// boundary among them.
///
/// The days inspected are the opening date and those after it whose
/// successor still lies before the closing date. No arithmetic is done, and
/// so no scale is looked at, before the first boundary is met.
pub fn calculate_payments(
    principal: &Decimal,
    open: &Date,
    close: &Date,
    rate: &Decimal,
) -> (made: Result<Vec<Payment>, DepositError>)
    requires
        open.wf(),
        close.wf(),
    ensures
        match made {
            Ok(payments) => plan_outcome(principal@, open@, close@, rate@) == Ok::<
                Seq<PaymentView>,
                DepositError,
            >(payment_views(payments@)),
            Err(error) => plan_outcome(principal@, open@, close@, rate@) == Err::<
                Seq<PaymentView>,
                DepositError,
            >(error),
        },
        made matches Ok(payments) ==> payments@.len() == boundary_dates(open@, close@).len()
            && at_payment_scale(payment_views(payments@)),
        made matches Ok(payments) ==> (principal@.non_negative() && rate@.non_negative()
            ==> totals_non_decreasing(payment_views(payments@))),
{
    let total_days = days_between(open, close);
    if total_days <= 0 {
        proof {
            if total_days < 0 {
                lemma_plus_days_valid(close@, (-total_days) as nat);
            }
        }
        return Err(DepositError::InvalidDateRange);
    }
    proof {
        lemma_plus_days_valid(open@, total_days as nat);
        lemma_days_from_to(open@, close@, total_days as nat);
    }
    let ghost days = (total_days - 1) as nat;
    let mut payments: Vec<Payment> = Vec::new();
    let mut balance = principal.clone();
    let mut daily: Option<Decimal> = None;
    let mut offset: i64 = 0;
    while offset < total_days - 1
        invariant
            open.wf(),
            close.wf(),
            0 <= offset <= total_days - 1,
            days == total_days - 1,
            open@.plus_days(total_days as nat) == close@,
            open@.before(close@),
            days == inspected_days(open@, close@),
            payments@.len() == month_boundaries(open@, offset as nat),
            balance@ == balance_after(principal@, payment_views(payments@)),
            payments@.len() == 0 ==> daily is None,
            payments@.len() > 0 ==> {
                &&& principal@.scale_in_range()
                &&& rate_supported(rate@)
                &&& balance@.scale_in_range()
                &&& daily matches Some(d) && d@ == daily_rate_of(rate@) && d@.scale_in_range()
                    && (rate@.non_negative() ==> d@.non_negative())
                &&& payment_views(payments@) == schedule(
                    principal@,
                    daily_rate_of(rate@),
                    open@,
                    offset as nat,
                )
            },
        decreases total_days - 1 - offset,
    {
        proof {
            lemma_plus_days_increasing(open@, offset as nat, total_days as nat);
            lemma_plus_days_increasing(open@, (offset + 1) as nat, total_days as nat);
        }
        let day = add_days(open, offset).unwrap();
        assert(day@.plus_days(1) == open@.plus_days((offset + 1) as nat)) by {
            reveal_with_fuel(CivilDate::plus_days, 2);
        }
        let next = add_days(&day, 1).unwrap();
        if day.month != next.month {
            if daily.is_none() {
                let found = if principal.scale_in_range() {
                    daily_rate(rate)
                } else {
                    None
                };
                if found.is_none() {
                    proof {
                        assert(day@.ends_month());
                        assert(month_boundaries(open@, (offset + 1) as nat) >= 1);
                        lemma_month_boundaries_increasing(open@, (offset + 1) as nat, days);
                        lemma_boundary_count(open@, close@);
                    }
                    return Err(DepositError::ScaleOutOfRange);
                }
                daily = found;
            }
            let payment = build_payment(&balance, daily.as_ref().unwrap(), &day);
            balance = payment.total.clone();
            proof {
                let before = payment_views(payments@);
                let after = payment_views(payments@.push(payment));
                assert(after =~= before.push(payment@));
                lemma_schedule_len(principal@, daily_rate_of(rate@), open@, offset as nat);
                assert(before =~= schedule(
                    principal@,
                    daily_rate_of(rate@),
                    open@,
                    offset as nat,
                ));
            }
            payments.push(payment);
        }
        offset = offset + 1;
    }
    proof {
        let views = payment_views(payments@);
        lemma_boundary_count(open@, close@);
        if payments@.len() > 0 {
            lemma_schedule_scales(principal@, daily_rate_of(rate@), open@, days);
            if principal@.non_negative() && rate@.non_negative() {
                lemma_plus_days_valid(open@, 0);
                lemma_schedule_totals(principal@, daily_rate_of(rate@), open@, days);
            }
        } else {
            assert(views =~= Seq::<PaymentView>::empty());
        }
    }
    Ok(payments)
}

/// The days that end a month among the first `days` days from `open` on,
/// as dates.
spec fn month_ends_within(open: CivilDate, days: nat) -> Set<CivilDate> {
    Set::new(
        |d: CivilDate|
            d.valid() && !d.before(open) && d.before(open.plus_days(days)) && d.ends_month(),
    )
}

/// [`month_boundaries`] counts the dates of [`month_ends_within`].
proof fn lemma_month_ends_within_count(open: CivilDate, days: nat)
    requires
        open.valid(),
    ensures
        month_ends_within(open, days).finite(),
        month_ends_within(open, days).len() == month_boundaries(open, days),
    decreases days,
{
    if days == 0 {
        assert(month_ends_within(open, days) =~= Set::<CivilDate>::empty());
    } else {
        let fewer = (days - 1) as nat;
        let last = open.plus_days(fewer);
        lemma_month_ends_within_count(open, fewer);
        lemma_plus_days_valid(open, fewer);
        lemma_next_valid(last);
        assert forall|d: CivilDate|
            d.valid() implies (d.before(last.next()) <==> d.before(last) || d == last) by {
            if last.before(d) {
                lemma_next_is_nearest(last, d);
            }
        }
        if last.ends_month() {
            assert(month_ends_within(open, days) =~= month_ends_within(open, fewer).insert(last));
        } else {
            assert(month_ends_within(open, days) =~= month_ends_within(open, fewer));
        }
    }
}

/// The number of month boundaries among the inspected days of a deposit is
/// the number of dates from the opening date on that end a month and whose
/// successor lies before the closing date.
pub proof fn lemma_boundary_count(open: CivilDate, close: CivilDate)
    requires
        open.valid(),
        close.valid(),
        open.before(close),
    ensures
        boundary_dates(open, close).finite(),
        boundary_dates(open, close).len() == month_boundaries(open, inspected_days(open, close)),
{
    lemma_reachable(open, close);
    let days = inspected_days(open, close);
    let last = open.plus_days(days);
    lemma_plus_days_valid(open, days);
    assert(last.next() == close);
    assert forall|d: CivilDate| d.valid() implies (d.next().before(close) <==> d.before(last)) by {
        lemma_next_keeps_order(d, last);
    }
    assert(boundary_dates(open, close) =~= month_ends_within(open, days));
    lemma_month_ends_within_count(open, days);
}

/// A schedule holds one payment for every month boundary among the days it
/// inspects, whatever the principal and the rate.
pub proof fn lemma_schedule_len(
    principal: DecimalView,
    daily_rate: DecimalView,
    open: CivilDate,
    days: nat,
)
    ensures
        schedule(principal, daily_rate, open, days).len() == month_boundaries(open, days),
    decreases days,
{
    if days > 0 {
        lemma_schedule_len(principal, daily_rate, open, (days - 1) as nat);
    }
}

/// The schedule of a deposit holds as many payments as there are dates from
/// the opening date on that end a month and whose successor lies before the
/// closing date, whatever the principal and the rate.
pub proof fn lemma_payment_count(
    principal: DecimalView,
    daily_rate: DecimalView,
    open: CivilDate,
    close: CivilDate,
)
    requires
        open.valid(),
        close.valid(),
        open.before(close),
    ensures
        boundary_dates(open, close).finite(),
        schedule(principal, daily_rate, open, inspected_days(open, close)).len()
            == boundary_dates(open, close).len(),
{
    lemma_schedule_len(principal, daily_rate, open, inspected_days(open, close));
    lemma_boundary_count(open, close);
}

/// Inspecting more days never makes the number of boundaries smaller.
pub proof fn lemma_month_boundaries_increasing(open: CivilDate, fewer: nat, more: nat)
    requires
        fewer <= more,
    ensures
        month_boundaries(open, fewer) <= month_boundaries(open, more),
    decreases more,
{
    if fewer < more {
        lemma_month_boundaries_increasing(open, fewer, (more - 1) as nat);
    }
}

/// A payment carries the month of its boundary day, and its boundary day is
/// the last day of that month: the day of the month and the length of the
/// month are the same number there.
pub proof fn lemma_boundary_day_is_month_length(
    balance: DecimalView,
    daily_rate: DecimalView,
    day: CivilDate,
)
    requires
        day.valid(),
        day.ends_month(),
    ensures
        payment_on(balance, daily_rate, day).month.number_spec() == day.month,
        payment_on(balance, daily_rate, day).boundary_day == days_in_month(day.year, day.month),
{
    lemma_next_valid(day);
}

/// Every amount and every total of a schedule has exactly
/// [`PAYMENT_SCALE`] decimals.
pub proof fn lemma_schedule_scales(
    principal: DecimalView,
    daily_rate: DecimalView,
    open: CivilDate,
    days: nat,
)
    ensures
        at_payment_scale(schedule(principal, daily_rate, open, days)),
    decreases days,
{
    if days > 0 {
        lemma_schedule_scales(principal, daily_rate, open, (days - 1) as nat);
    }
}

/// When neither the principal nor the daily rate is negative, the totals of
/// a schedule never decrease and the balance never becomes negative.
pub proof fn lemma_schedule_totals(
    principal: DecimalView,
    daily_rate: DecimalView,
    open: CivilDate,
    days: nat,
)
    requires
        principal.non_negative(),
        daily_rate.non_negative(),
        open.valid(),
    ensures
        totals_non_decreasing(schedule(principal, daily_rate, open, days)),
        balance_after(
            principal,
            schedule(principal, daily_rate, open, days),
        ).non_negative(),
    decreases days,
{
    if days > 0 {
        let earlier = schedule(principal, daily_rate, open, (days - 1) as nat);
        let day = open.plus_days((days - 1) as nat);
        lemma_schedule_totals(principal, daily_rate, open, (days - 1) as nat);
        lemma_schedule_scales(principal, daily_rate, open, (days - 1) as nat);
        lemma_plus_days_valid(open, (days - 1) as nat);
        if day.ends_month() {
            let balance = balance_after(principal, earlier);
            let factor = DecimalView { unscaled: day.day, scale: 0 };
            let accrued = interest(balance, daily_rate, day.day);
            let payment = payment_on(balance, daily_rate, day);
            lemma_times_non_negative(daily_rate, balance);
            lemma_times_non_negative(daily_rate.times(balance), factor);
            lemma_plus_non_negative(balance, accrued);
            lemma_with_scale_non_negative(balance.plus(accrued), PAYMENT_SCALE as int);
            if earlier.len() > 0 {
                assert(earlier[earlier.len() - 1].total.scale == PAYMENT_SCALE);
                lemma_sum_at_scale_not_below(balance, accrued);
            }
            let all = earlier.push(payment);
            assert forall|i: int, j: int| 0 <= i <= j < all.len() implies (#[trigger] all[i])
                .total.unscaled <= (#[trigger] all[j]).total.unscaled by {
                if j < earlier.len() {
                    assert(all[i] == earlier[i] && all[j] == earlier[j]);
                } else if i < earlier.len() {
                    assert(all[i] == earlier[i]);
                    assert(earlier[i].total.unscaled <= earlier[earlier.len() - 1].total.unscaled);
                }
            }
        }
    }
}

/// A deposit closed on the day after it was opened has a plan, and the plan
/// holds no payment.
pub proof fn lemma_closed_next_day(principal: DecimalView, open: CivilDate, rate: DecimalView)
    requires
        open.valid(),
    ensures
        plan_outcome(principal, open, open.next(), rate) == Ok::<Seq<PaymentView>, DepositError>(
            Seq::empty(),
        ),
{
    lemma_next_valid(open);
    assert(open.plus_days(1) == open.next()) by {
        reveal_with_fuel(CivilDate::plus_days, 2);
    }
    lemma_days_from_to(open, open.next(), 1);
    lemma_boundary_count(open, open.next());
}

/// A deposit whose closing date is not after its opening date has no plan:
/// making one fails, and does not give an empty schedule.
pub proof fn lemma_closed_too_early(
    principal: DecimalView,
    open: CivilDate,
    close: CivilDate,
    rate: DecimalView,
)
    requires
        !open.before(close),
    ensures
        plan_outcome(principal, open, close, rate) == Err::<Seq<PaymentView>, DepositError>(
            DepositError::InvalidDateRange,
        ),
{
}

} // verus!
