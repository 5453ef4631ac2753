use bigdecimal::num_bigint::{BigInt, Sign};
use bigdecimal::BigDecimal;
use deposit_plan::calendar::{month_length, Date, Month, MAX_YEAR, MIN_YEAR};
use deposit_plan::decimal::{Decimal, SCALE_LIMIT};
use deposit_plan::deposit::accrual::calculate_payments;
use deposit_plan::deposit::{
    CapitalizationDepositPlan, DepositError, DepositPlan, DepositType, Payment,
};

fn dec(text: &str) -> Decimal {
    let parsed: BigDecimal = text.parse().unwrap();
    let (unscaled, scale) = parsed.into_bigint_and_exponent();
    let (sign, magnitude) = unscaled.to_u32_digits();
    Decimal { negative: sign == Sign::Minus, magnitude, scale }
}

fn big(d: &Decimal) -> BigDecimal {
    let sign = if d.negative { Sign::Minus } else { Sign::Plus };
    BigDecimal::new(BigInt::new(sign, d.magnitude.clone()), d.scale)
}

fn date(year: i32, month: u32, day: u32) -> Date {
    Date::new(year, month, day).unwrap()
}

fn plan(principal: &str, open: Date, close: Date, rate: &str) -> CapitalizationDepositPlan {
    CapitalizationDepositPlan::new(dec(principal), open, close, dec(rate)).unwrap()
}

fn assert_payment(payment: &Payment, month: Month, day: u32, amount: &str, total: &str) {
    assert_eq!(payment.month.month, month);
    assert_eq!(payment.month.boundary_day, day);
    assert_eq!(payment.amount.scale, 3);
    assert_eq!(payment.total.scale, 3);
    assert_eq!(big(&payment.amount), amount.parse::<BigDecimal>().unwrap());
    assert_eq!(big(&payment.total), total.parse::<BigDecimal>().unwrap());
}

fn same_payments(first: &[Payment], second: &[Payment]) -> bool {
    first.len() == second.len()
        && first.iter().zip(second.iter()).all(|(a, b)| {
            a.month == b.month
                && a.amount.negative == b.amount.negative
                && a.amount.magnitude == b.amount.magnitude
                && a.amount.scale == b.amount.scale
                && a.total.negative == b.total.negative
                && a.total.magnitude == b.total.magnitude
                && a.total.scale == b.total.scale
        })
}

#[test]
fn three_months_at_twelve_per_cent() {
    let plan = plan("1000.000", date(2024, 1, 15), date(2024, 4, 15), "12");
    let payments = plan.get_payments();
    assert_eq!(payments.len(), 3);
    assert_payment(&payments[0], Month::January, 31, "10.191", "1010.191");
    assert_payment(&payments[1], Month::February, 29, "9.631", "1019.822");
    assert_payment(&payments[2], Month::March, 31, "10.393", "1030.215");
    assert!(big(&payments[0].total) < big(&payments[1].total));
    assert!(big(&payments[1].total) < big(&payments[2].total));
    assert_eq!(big(plan.final_amount()), "1030.215".parse::<BigDecimal>().unwrap());
}

#[test]
fn a_year_has_a_payment_for_every_month_end_before_the_last_day() {
    let plan = plan("1000.000", date(2023, 1, 1), date(2024, 1, 1), "7.5");
    let payments = plan.get_payments();
    assert_eq!(payments.len(), 11);
    let expected = [
        (Month::January, 31, "6.369", "1006.369"),
        (Month::February, 28, "5.790", "1012.159"),
        (Month::March, 31, "6.447", "1018.606"),
        (Month::April, 30, "6.279", "1024.885"),
        (Month::May, 31, "6.528", "1031.413"),
        (Month::June, 30, "6.358", "1037.771"),
        (Month::July, 31, "6.610", "1044.381"),
        (Month::August, 31, "6.652", "1051.033"),
        (Month::September, 30, "6.478", "1057.511"),
        (Month::October, 31, "6.736", "1064.247"),
        (Month::November, 30, "6.560", "1070.807"),
    ];
    for (payment, (month, day, amount, total)) in payments.iter().zip(expected.iter()) {
        assert_payment(payment, *month, *day, amount, total);
    }
}

#[test]
fn the_boundary_next_to_the_closing_date_is_not_paid() {
    let short = plan("1000", date(2024, 1, 30), date(2024, 2, 1), "12");
    assert_eq!(short.get_payments().len(), 0);
    let longer = plan("1000", date(2024, 1, 30), date(2024, 2, 2), "12");
    assert_eq!(longer.get_payments().len(), 1);
    assert_payment(&longer.get_payments()[0], Month::January, 31, "10.191", "1010.191");
}

#[test]
fn a_deposit_opened_on_a_month_end_pays_for_it() {
    let plan = plan("1000", date(2024, 1, 31), date(2024, 2, 2), "12");
    assert_eq!(plan.get_payments().len(), 1);
    assert_payment(&plan.get_payments()[0], Month::January, 31, "10.191", "1010.191");
}

#[test]
fn boundary_day_is_the_last_day_of_the_month() {
    let leap = plan("500", date(2024, 2, 28), date(2024, 3, 2), "365");
    assert_payment(&leap.get_payments()[0], Month::February, 29, "145", "645");
    let common = plan("500", date(2023, 2, 27), date(2023, 3, 2), "365");
    assert_payment(&common.get_payments()[0], Month::February, 28, "140", "640");
}

#[test]
fn december_boundary_crosses_into_the_next_year() {
    let plan = plan(
        "1234567890123456789012345678901234.56789",
        date(2023, 12, 30),
        date(2024, 3, 2),
        "19.99",
    );
    let payments = plan.get_payments();
    assert_eq!(payments.len(), 3);
    assert_payment(
        &payments[0],
        Month::December,
        31,
        "20960256872071368152960561472830.302",
        "1255528146995528157165306240374064.870",
    );
    assert_payment(
        &payments[1],
        Month::January,
        31,
        "21316116093470105307226537646504.226",
        "1276844263088998262472532778020569.096",
    );
    assert_payment(
        &payments[2],
        Month::February,
        29,
        "20279435280967758431176766486200.112",
        "1297123698369966020903709544506769.208",
    );
}

#[test]
fn payment_count_equals_month_ends_inside_the_interval() {
    let open = date(2020, 3, 17);
    let close = date(2031, 8, 5);
    let plan = plan("1", open, close, "1");
    let mut expected = 0;
    let mut day = chrono::NaiveDate::from_ymd_opt(2020, 3, 17).unwrap();
    let last = chrono::NaiveDate::from_ymd_opt(2031, 8, 5).unwrap();
    while day.succ_opt().unwrap() < last {
        let next = day.succ_opt().unwrap();
        if chrono::Datelike::month(&day) != chrono::Datelike::month(&next) {
            expected += 1;
        }
        day = next;
    }
    assert_eq!(expected, 137);
    assert_eq!(plan.get_payments().len(), expected);
}

#[test]
fn totals_never_decrease_for_non_negative_inputs() {
    let inputs = [("1000.000", "12"), ("0", "12"), ("1000.0009", "0"), ("0.001", "0.5")];
    for (principal, rate) in inputs {
        let plan = plan(principal, date(2021, 5, 20), date(2024, 5, 20), rate);
        let payments = plan.get_payments();
        assert_eq!(payments.len(), 36);
        for pair in payments.windows(2) {
            assert!(big(&pair[0].total) <= big(&pair[1].total));
        }
    }
}

#[test]
fn the_first_total_may_lie_below_a_principal_with_more_decimals() {
    let plan = plan("1000.0005", date(2024, 1, 31), date(2024, 2, 2), "0");
    let payments = plan.get_payments();
    assert_payment(&payments[0], Month::January, 31, "0", "1000.000");
    assert!(big(&payments[0].total) < "1000.0005".parse::<BigDecimal>().unwrap());
}

#[test]
fn the_balance_takes_the_uncut_interest() {
    let plan = plan("1000.0005", date(2024, 1, 31), date(2024, 2, 2), "5");
    assert_payment(&plan.get_payments()[0], Month::January, 31, "4.246", "1004.247");
}

#[test]
fn amounts_and_totals_have_three_decimals() {
    let plan = plan("123.456789", date(2022, 1, 1), date(2023, 1, 1), "3.14159");
    assert_eq!(plan.get_payments().len(), 11);
    for payment in plan.get_payments() {
        assert_eq!(payment.amount.scale, 3);
        assert_eq!(payment.total.scale, 3);
    }
}

#[test]
fn negative_principal_is_accrued_as_it_is() {
    let plan = plan("-1000.000", date(2024, 1, 15), date(2024, 3, 15), "12");
    let payments = plan.get_payments();
    assert_eq!(payments.len(), 2);
    assert_payment(&payments[0], Month::January, 31, "-10.191", "-1010.191");
    assert_payment(&payments[1], Month::February, 29, "-9.631", "-1019.822");
}

#[test]
fn same_inputs_give_the_same_payments() {
    let first = plan("1000.000", date(2024, 1, 15), date(2025, 4, 15), "12.75");
    let second = plan("1000.000", date(2024, 1, 15), date(2025, 4, 15), "12.75");
    assert_eq!(first.get_payments().len(), 15);
    assert!(same_payments(first.get_payments(), second.get_payments()));
    let made = calculate_payments(
        &dec("1000.000"),
        &date(2024, 1, 15),
        &date(2025, 4, 15),
        &dec("12.75"),
    )
    .unwrap();
    assert!(same_payments(first.get_payments(), &made));
}

#[test]
fn closing_the_day_after_opening_gives_an_empty_plan() {
    let plan = plan("1000.000", date(2024, 3, 10), date(2024, 3, 11), "12");
    assert!(plan.get_payments().is_empty());
    assert_eq!(big(plan.final_amount()), "1000.000".parse::<BigDecimal>().unwrap());
}

#[test]
fn closing_the_day_after_opening_is_empty_even_over_a_month_end() {
    let over_month_end = plan("1000.000", date(2024, 1, 31), date(2024, 2, 1), "12");
    assert!(over_month_end.get_payments().is_empty());
    let over_year_end = plan("1000.000", date(2023, 12, 31), date(2024, 1, 1), "12");
    assert!(over_year_end.get_payments().is_empty());
}

#[test]
fn closing_before_or_on_the_opening_date_is_an_error() {
    let same = CapitalizationDepositPlan::new(
        dec("1000.000"),
        date(2024, 3, 10),
        date(2024, 3, 10),
        dec("12"),
    );
    assert_eq!(same.err(), Some(DepositError::InvalidDateRange));
    let earlier = CapitalizationDepositPlan::new(
        dec("1000.000"),
        date(2024, 3, 10),
        date(2024, 3, 9),
        dec("12"),
    );
    assert_eq!(earlier.err(), Some(DepositError::InvalidDateRange));
    let much_earlier = CapitalizationDepositPlan::new(
        dec("1000.000"),
        date(2024, 3, 10),
        date(1999, 12, 31),
        dec("12"),
    );
    assert_eq!(much_earlier.err(), Some(DepositError::InvalidDateRange));
    let made = calculate_payments(&dec("1"), &date(2024, 3, 10), &date(2024, 3, 10), &dec("1"));
    assert_eq!(made.err(), Some(DepositError::InvalidDateRange));
}

#[test]
fn a_plan_without_boundary_looks_at_no_scale() {
    let mut rate = dec("12");
    rate.scale = i64::MAX;
    let mut principal = dec("1000");
    principal.scale = i64::MIN;
    let made = CapitalizationDepositPlan::new(principal, date(2024, 3, 1), date(2024, 3, 31), rate);
    let plan = made.unwrap();
    assert!(plan.get_payments().is_empty());
    assert_eq!(plan.final_amount().scale, i64::MIN);
}

#[test]
fn a_rate_scale_out_of_range_is_an_error_at_the_first_boundary() {
    for scale in [SCALE_LIMIT + 1, -SCALE_LIMIT - 1, i64::MAX, i64::MIN, SCALE_LIMIT] {
        let mut rate = dec("12");
        rate.scale = scale;
        let made =
            CapitalizationDepositPlan::new(dec("1000"), date(2024, 3, 1), date(2024, 4, 2), rate);
        assert_eq!(made.err(), Some(DepositError::ScaleOutOfRange));
    }
}

#[test]
fn a_principal_scale_out_of_range_is_an_error_at_the_first_boundary() {
    for scale in [SCALE_LIMIT + 1, -SCALE_LIMIT - 1, i64::MAX, i64::MIN] {
        let mut principal = dec("1000");
        principal.scale = scale;
        let made = calculate_payments(&principal, &date(2024, 3, 1), &date(2024, 4, 2), &dec("12"));
        assert_eq!(made.err(), Some(DepositError::ScaleOutOfRange));
    }
}

#[test]
fn an_invalid_date_range_is_reported_before_any_scale() {
    let mut rate = dec("12");
    rate.scale = i64::MAX;
    let open = date(2024, 4, 2);
    let close = date(2024, 3, 1);
    let made = CapitalizationDepositPlan::new(dec("1000"), open, close, rate);
    assert_eq!(made.err(), Some(DepositError::InvalidDateRange));
}

#[test]
fn plans_at_the_ends_of_the_calendar() {
    let first = plan("1000", date(MIN_YEAR, 1, 1), date(MIN_YEAR, 2, 2), "12");
    assert_eq!(first.get_payments().len(), 1);
    assert_payment(&first.get_payments()[0], Month::January, 31, "10.191", "1010.191");
    let last = plan("1000", date(MAX_YEAR, 11, 30), date(MAX_YEAR, 12, 31), "12");
    assert_eq!(last.get_payments().len(), 1);
    assert_payment(&last.get_payments()[0], Month::November, 30, "9.863", "1009.863");
}

#[test]
fn a_plan_remembers_what_it_was_made_for() {
    let plan = plan("1000.000", date(2024, 1, 15), date(2024, 4, 15), "12");
    assert_eq!(big(plan.current_amount()), "1000.000".parse::<BigDecimal>().unwrap());
    assert_eq!(plan.current_amount().scale, 3);
    assert_eq!(big(plan.rate()), "12".parse::<BigDecimal>().unwrap());
    assert_eq!(plan.open_date(), date(2024, 1, 15));
    assert_eq!(plan.prolongation_date(), date(2024, 4, 15));
    assert_eq!(big(plan.final_amount()), big(&plan.get_payments()[2].total));
}

#[test]
fn deposit_type_names_are_read_exactly() {
    assert_eq!(DepositType::from_str("fixed"), Ok(DepositType::FIXED));
    assert_eq!(DepositType::from_str("save"), Ok(DepositType::SAVE));
    let others =
        ["", "Fixed", "FIXED", "SAVE", "fixed ", " save", "fixe", "saved", "sav\u{e9}", "other"];
    for text in others {
        assert_eq!(DepositType::from_str(text), Err(DepositError::UnknownDepositType));
    }
}

#[test]
fn deposit_type_parses_through_the_standard_trait() {
    assert_eq!("fixed".parse::<DepositType>(), Ok(DepositType::FIXED));
    assert_eq!("save".parse::<DepositType>(), Ok(DepositType::SAVE));
    assert_eq!("term".parse::<DepositType>(), Err(DepositError::UnknownDepositType));
}

#[test]
fn deposit_type_names_are_written_as_they_are_read() {
    assert_eq!(DepositType::FIXED.to_string(), "fixed");
    assert_eq!(DepositType::SAVE.to_string(), "save");
    for kind in [DepositType::FIXED, DepositType::SAVE] {
        assert_eq!(DepositType::from_str(&kind.to_string()), Ok(kind));
    }
}

#[test]
fn a_fixed_deposit_gets_the_capitalization_plan() {
    let made = DepositType::FIXED
        .make_plan(dec("1000.000"), date(2024, 1, 15), date(2024, 4, 15), dec("12"))
        .unwrap();
    let direct = plan("1000.000", date(2024, 1, 15), date(2024, 4, 15), "12");
    assert_eq!(made.get_payments().len(), 3);
    assert!(same_payments(made.get_payments(), direct.get_payments()));
    let failed =
        DepositType::FIXED.make_plan(dec("1"), date(2024, 1, 15), date(2024, 1, 15), dec("12"));
    assert_eq!(failed.err(), Some(DepositError::InvalidDateRange));
}

#[test]
fn a_save_deposit_is_not_supported() {
    let made = DepositType::SAVE.make_plan(
        dec("1000.000"),
        date(2024, 1, 15),
        date(2024, 4, 15),
        dec("12"),
    );
    assert_eq!(made.err(), Some(DepositError::Unimplemented));
    let parsed = DepositType::from_str("save").unwrap();
    let made = parsed.make_plan(dec("0"), date(2024, 1, 15), date(2024, 1, 16), dec("0"));
    assert_eq!(made.err(), Some(DepositError::Unimplemented));
    let made = parsed.make_plan(dec("1"), date(2024, 1, 15), date(2024, 1, 15), dec("1"));
    assert_eq!(made.err(), Some(DepositError::Unimplemented));
}

#[test]
fn error_messages() {
    assert_eq!(
        DepositError::InvalidDateRange.message(),
        "The closing date is not after the opening date"
    );
    assert_eq!(DepositError::ScaleOutOfRange.message(), "A decimal scale is out of range");
    assert_eq!(DepositError::UnknownDepositType.message(), "Failed to parse deposit type");
    assert_eq!(DepositError::Unimplemented.message(), "This type of deposit is not supported");
}

#[test]
fn boundaries_are_the_month_ends_of_the_calendar() {
    let cases = [
        (date(1999, 11, 17), date(2001, 3, 1)),
        (date(2096, 1, 1), date(2104, 12, 31)),
        (date(-1, 10, 31), date(1, 3, 2)),
        (date(1899, 12, 31), date(1900, 3, 2)),
        (date(2000, 2, 28), date(2000, 3, 1)),
        (date(2000, 2, 29), date(2000, 3, 2)),
    ];
    for (open, close) in cases {
        let made = calculate_payments(&dec("1"), &open, &close, &dec("0")).unwrap();
        let mut expected = Vec::new();
        let mut day = open;
        loop {
            let last_of_month = day.day == month_length(day.year, day.month);
            let next = if !last_of_month {
                Date { day: day.day + 1, ..day }
            } else if day.month < 12 {
                Date { month: day.month + 1, day: 1, ..day }
            } else {
                Date { year: day.year + 1, month: 1, day: 1 }
            };
            if next == close {
                break;
            }
            if last_of_month {
                expected.push((day.month, day.day));
            }
            day = next;
        }
        let found: Vec<(u32, u32)> =
            made.iter().map(|p| (p.month.month.number(), p.month.boundary_day)).collect();
        assert_eq!(found, expected);
    }
}
