//! Monetary literal parsing, strict integer parsing, decimal rendering, and
//! the keyword tables of the data model.

use billig::date::{Date, DateError, Month};
use billig::entry::{Amount, Category, Duration, Window, CATEGORY_COUNT};
use billig::numfmt::{parse_cents, parse_usize, u64_dec};

#[test]
fn monetary_rounding_half_away_from_zero() {
    // round(100 x value), half away from zero
    assert_eq!(parse_cents("12.345"), Some(1235));
    assert_eq!(parse_cents("0.005"), Some(1));
    assert_eq!(parse_cents("-0.005"), Some(-1));
    assert_eq!(parse_cents("0.004"), Some(0));
    assert_eq!(parse_cents("0.0049999"), Some(0));
    assert_eq!(parse_cents("12.34"), Some(1234));
    assert_eq!(parse_cents("12.3"), Some(1230));
    assert_eq!(parse_cents("12."), Some(1200));
    assert_eq!(parse_cents("12"), Some(1200));
    assert_eq!(parse_cents("-500.00"), Some(-50000));
    assert_eq!(parse_cents("0"), Some(0));
}

#[test]
fn monetary_rounding_rejects_other_shapes() {
    assert_eq!(parse_cents(""), None);
    assert_eq!(parse_cents("-"), None);
    assert_eq!(parse_cents(".5"), None);
    assert_eq!(parse_cents("1.2.3"), None);
    assert_eq!(parse_cents("abc"), None);
    assert_eq!(parse_cents("12a"), None);
    assert_eq!(parse_cents("1 2"), None);
    // the magnitude must fit in i64 cents
    assert_eq!(parse_cents("999999999999999999999999"), None);
}

#[test]
fn strict_integer_parsing() {
    assert_eq!(parse_usize("2024"), Some(2024));
    assert_eq!(parse_usize("01"), Some(1));
    assert_eq!(parse_usize("0"), Some(0));
    assert_eq!(parse_usize(""), None);
    assert_eq!(parse_usize("12a"), None);
    assert_eq!(parse_usize("-1"), None);
    assert_eq!(parse_usize("99999999999999999999999999"), None);
}

#[test]
fn decimal_rendering() {
    assert_eq!(u64_dec(0).as_str(), "0");
    assert_eq!(u64_dec(7).as_str(), "7");
    assert_eq!(u64_dec(2024).as_str(), "2024");
    assert_eq!(Amount(-50000).render().as_str(), "-500.00");
    assert_eq!(Amount(1).render().as_str(), "0.01");
    assert_eq!(Amount(0).render().as_str(), "0.00");
    assert_eq!(Amount(1234).render().as_str(), "12.34");
    assert_eq!(Amount(-5).render().as_str(), "-0.05");
}

#[test]
fn calendar_accepts_and_refuses() {
    assert!(Date::from(2024, Month::January, 1).is_ok());
    assert!(Date::from(2024, Month::February, 29).is_ok());
    assert_eq!(
        Date::from(2023, Month::February, 29),
        Err(DateError::DayOutOfRange)
    );
    assert_eq!(
        Date::from(2024, Month::February, 31),
        Err(DateError::DayOutOfRange)
    );
    assert_eq!(Date::from(0, Month::January, 1), Err(DateError::YearOutOfRange));
    assert_eq!(
        Date::from(10000, Month::January, 1),
        Err(DateError::YearOutOfRange)
    );
    assert_eq!(Date::from(2024, Month::April, 31), Err(DateError::DayOutOfRange));
}

#[test]
fn calendar_rendering() {
    let d = Date::from(2024, Month::January, 1).unwrap();
    assert_eq!(d.text().as_str(), "2024-01-01");
    assert_eq!(d.weekday_name().as_str(), "Monday");
    let e = Date::from(2024, Month::December, 25).unwrap();
    assert_eq!(e.text().as_str(), "2024-12-25");
    assert_eq!(e.weekday_name().as_str(), "Wednesday");
    let first = Date::from(1, Month::January, 1).unwrap();
    assert_eq!(first.index(), 1);
    assert_eq!(first.weekday_name().as_str(), "Monday");
}

#[test]
fn month_markers() {
    assert_eq!(Month::from("01"), Some(Month::January));
    assert_eq!(Month::from("12"), Some(Month::December));
    assert_eq!(Month::from("1"), Some(Month::January));
    assert_eq!(Month::from("00"), None);
    assert_eq!(Month::from("13"), None);
    assert_eq!(Month::from("Jan"), None);
}

#[test]
fn category_codes_round_trip() {
    let cats = [
        Category::Salary,
        Category::Food,
        Category::Communication,
        Category::Movement,
        Category::School,
        Category::Cleaning,
        Category::Home,
    ];
    assert_eq!(cats.len(), CATEGORY_COUNT);
    for (i, c) in cats.iter().enumerate() {
        assert_eq!(Category::from_code(c.code().as_str()), Some(*c));
        assert_eq!(Category::from_usize(i), Some(*c));
        assert_eq!(c.index(), i);
    }
    assert_eq!(Category::from_code("Pay"), Some(Category::Salary));
    assert_eq!(Category::from_code("Pro"), Some(Category::School));
    assert_eq!(Category::from_code("unknown"), None);
    assert_eq!(Category::from_usize(CATEGORY_COUNT), None);
}

#[test]
fn duration_and_window_codes_round_trip() {
    for code in ["Day", "Week", "Month", "Year"] {
        assert!(Duration::from_code(code).is_some());
    }
    assert_eq!(Duration::from_code("Month"), Some(Duration::Month));
    assert_eq!(Duration::from_code("Fortnight"), None);
    for code in ["Curr", "Post", "Ante", "Pred", "Succ"] {
        assert!(Window::from_code(code).is_some());
    }
    assert_eq!(Window::from_code("Curr"), Some(Window::Current));
    assert_eq!(Window::from_code("Post"), Some(Window::Posterior));
    assert_eq!(Window::from_code("Ante"), Some(Window::Anterior));
    assert_eq!(Window::from_code("Pred"), Some(Window::Precedent));
    assert_eq!(Window::from_code("Succ"), Some(Window::Successor));
    assert_eq!(Window::from_code("Now"), None);
}
