use ruly::calendar::CalendarDate;
use ruly::quantity::date::{in_full, Date};
use ruly::quantity::{quant, Quantity, Value};
use ruly::ident::Ident;

fn ymd(y: i32, m: u32, d: u32) -> CalendarDate {
    CalendarDate::from_ymd(y, m, d).unwrap()
}

#[test]
fn date_value_parsing() {
    type C = Value<Date>;
    assert_eq!(
        C::from_repr(ymd(2001, 5, 23)),
        "23/5/2001".parse::<C>().unwrap()
    );
    assert_eq!(
        C::from_repr(ymd(2001, 5, 23)),
        "23.05.2001".parse::<C>().unwrap()
    );
    assert_eq!(
        C::from_repr(ymd(2021, 5, 23)),
        "23/05/21".parse::<C>().unwrap()
    );
    assert_eq!(
        C::from_repr(ymd(2001, 5, 23)),
        "2001-05-23".parse::<C>().unwrap()
    );
}

#[test]
fn date_month_names_and_errors() {
    assert_eq!(Date::parse("23-May-2001").unwrap(), ymd(2001, 5, 23));
    assert_eq!(
        Date::parse("31/02/2001").unwrap_err().detail(),
        "unrecognised date format"
    );
    assert!(Date::parse("").is_err());
    assert!(Date::parse("2001/05/23").is_err());
}

#[test]
fn date_formatting() {
    assert_eq!(Date::format(&ymd(2001, 5, 23)), "23/05/2001");
    assert_eq!(Date::format(&ymd(987, 12, 1)), "01/12/0987");
    assert_eq!(Date::format(&ymd(0, 1, 1)), "01/01/0000");
    assert_eq!(Date::format(&ymd(-5, 1, 2)), "02/01/-0005");
    assert_eq!(Date::format(&ymd(12345, 10, 31)), "31/10/+12345");
    assert_eq!(Date::format(&ymd(-262143, 1, 1)), "01/01/-262143");
    assert_eq!(Value::<Date>::from_repr(ymd(2024, 2, 29)).to_string(), "29/02/2024");
}

#[test]
fn date_round_trips_from_the_year_100_on() {
    for date in [ymd(2001, 5, 23), ymd(100, 1, 1), ymd(9999, 12, 31), ymd(2024, 2, 29)] {
        assert_eq!(Date::parse(&Date::format(&date)).unwrap(), date);
    }
    assert_eq!(Date::parse(&Date::format(&ymd(99, 1, 1))).unwrap(), ymd(2099, 1, 1));
}

#[test]
fn calendar_dates_exist() {
    assert!(CalendarDate::from_ymd(2023, 2, 29).is_none());
    assert!(CalendarDate::from_ymd(2024, 2, 29).is_some());
    assert!(CalendarDate::from_ymd(1900, 2, 29).is_none());
    assert!(CalendarDate::from_ymd(2000, 2, 29).is_some());
    assert!(CalendarDate::from_ymd(-4, 2, 29).is_some());
    assert!(CalendarDate::from_ymd(2023, 4, 31).is_none());
    assert!(CalendarDate::from_ymd(2023, 0, 1).is_none());
    assert!(CalendarDate::from_ymd(2023, 13, 1).is_none());
    assert!(CalendarDate::from_ymd(2023, 1, 0).is_none());
    assert!(CalendarDate::from_ymd(262143, 1, 1).is_none());
    assert!(CalendarDate::from_ymd(-262144, 1, 1).is_none());
    assert!(CalendarDate::from_ymd(262142, 12, 31).is_some());
    let d = ymd(2001, 5, 23);
    assert_eq!((d.year(), d.month(), d.day()), (2001, 5, 23));
    assert!(CalendarDate::leap_year(2000));
    assert!(!CalendarDate::leap_year(-100));
}

#[test]
fn calendar_agrees_with_chrono() {
    for (y, m, d) in [(2023, 2, 29), (2024, 2, 29), (-4, 2, 29), (1900, 2, 29), (2023, 6, 31),
        (262142, 12, 31), (262143, 1, 1), (-262143, 1, 1), (-262144, 12, 31), (1, 12, 31)] {
        assert_eq!(
            CalendarDate::from_ymd(y, m, d).is_some(),
            chrono::NaiveDate::from_ymd_opt(y, m, d).is_some()
        );
    }
}

#[test]
fn quantity_properties_are_interned() {
    let p = quant::<Date>("service_date");
    assert_eq!(p.ident(), &Ident::Intern("service_date"));
    assert!(matches!(p.name, Ident::Intern(_)));
}

#[test]
fn short_years_are_of_this_century() {
    assert_eq!(in_full(ymd(21, 5, 23)), ymd(2021, 5, 23));
    assert_eq!(in_full(ymd(99, 12, 31)), ymd(2099, 12, 31));
    assert_eq!(in_full(ymd(4, 2, 29)), ymd(2004, 2, 29));
    assert_eq!(in_full(ymd(0, 2, 29)), ymd(2000, 2, 29));
    assert_eq!(in_full(ymd(-5, 1, 1)), ymd(1995, 1, 1));
    assert_eq!(in_full(ymd(100, 1, 1)), ymd(100, 1, 1));
    assert_eq!(in_full(ymd(2001, 5, 23)), ymd(2001, 5, 23));
}
