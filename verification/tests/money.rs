use ruly::quantity::money::{money_from_str, money_to_str, Currency, AUD};
use ruly::property::Model;
use ruly::quantity::Value;
use ruly::variant::Variant;

#[test]
fn currency_formating() {
    type C = Value<Currency>;
    assert_eq!(C::from_repr(9).to_string(), "$0.09");
    assert_eq!(C::from_repr(-9).to_string(), "-$0.09");
    assert_eq!(C::from_repr(79).to_string(), "$0.79");
    assert_eq!(C::from_repr(-79).to_string(), "-$0.79");
    assert_eq!(C::from_repr(101).to_string(), "$1.01");
    assert_eq!(C::from_repr(-101).to_string(), "-$1.01");
    assert_eq!(C::from_repr(1234).to_string(), "$12.34");
    assert_eq!(C::from_repr(-1234).to_string(), "-$12.34");
}

#[test]
fn currency_parsing() {
    type C = Value<Currency>;
    assert_eq!(C::from_repr(9), "$0.09".parse::<C>().unwrap());
    assert_eq!(C::from_repr(-9), "-$0.09".parse::<C>().unwrap());
    assert_eq!(C::from_repr(79), "$0.79".parse::<C>().unwrap());
    assert_eq!(C::from_repr(-79), "-$0.79".parse::<C>().unwrap());
    assert_eq!(C::from_repr(101), "$1.01".parse::<C>().unwrap());
    assert_eq!(C::from_repr(-101), "-$1.01".parse::<C>().unwrap());
    assert_eq!(C::from_repr(1234), "$12.34".parse::<C>().unwrap());
    assert_eq!(C::from_repr(-1234), "-$12.34".parse::<C>().unwrap());
}

#[test]
fn currency_value_formatting() {
    type C = Value<AUD>;
    assert_eq!(C::from_repr(9).to_string(), "$0.09");
    assert_eq!(C::from_repr(-9).to_string(), "-$0.09");
    assert_eq!(C::from_repr(79).to_string(), "$0.79");
    assert_eq!(C::from_repr(-79).to_string(), "-$0.79");
    assert_eq!(C::from_repr(101).to_string(), "$1.01");
    assert_eq!(C::from_repr(-101).to_string(), "-$1.01");
    assert_eq!(C::from_repr(1234).to_string(), "$12.34");
    assert_eq!(C::from_repr(-1234).to_string(), "-$12.34");
}

#[test]
fn currency_value_parsing() {
    type C = Value<AUD>;
    assert_eq!(C::from_repr(9), "$0.09".parse::<C>().unwrap());
    assert_eq!(C::from_repr(-9), "-$0.09".parse::<C>().unwrap());
    assert_eq!(C::from_repr(79), "$0.79".parse::<C>().unwrap());
    assert_eq!(C::from_repr(-79), "-$0.79".parse::<C>().unwrap());
    assert_eq!(C::from_repr(101), "$1.01".parse::<C>().unwrap());
    assert_eq!(C::from_repr(-101), "-$1.01".parse::<C>().unwrap());
    assert_eq!(C::from_repr(1234), "$12.34".parse::<C>().unwrap());
    assert_eq!(C::from_repr(-1234), "-$12.34".parse::<C>().unwrap());
    assert_eq!(C::from_repr(-1234), "$ -12.34".parse::<C>().unwrap());
    assert_eq!(C::from_repr(-34), "$ - .34".parse::<C>().unwrap());
    assert_eq!(C::from_repr(34), ".34".parse::<C>().unwrap());
    assert_eq!(C::from_repr(3400), "34".parse::<C>().unwrap());
    assert_eq!(C::from_repr(3400), "34.".parse::<C>().unwrap());
    assert_eq!(C::from_repr(3410), "34.1".parse::<C>().unwrap());
}

#[test]
fn currency_value_comparisons() {
    type C = Value<AUD>;
    assert!(C::from_repr(145) < C::from_repr(155));
    assert!(C::from_repr(155) == C::from_repr(155));
    assert!("$12.34".parse::<C>().unwrap() > "1".parse::<C>().unwrap())
}

#[test]
fn money_rejects_plus_and_double_signs() {
    assert!(money_from_str::<2>("+$1.00", "$").is_err());
    assert!(money_from_str::<2>("-$-1.00", "$").is_err());
    assert!(money_from_str::<2>("$1.00x", "$").is_err());
    assert_eq!(
        money_from_str::<2>("1.2.3", "$").unwrap_err().detail(),
        "error in money value"
    );
}

#[test]
fn money_cuts_long_fractions_and_pads_short_ones() {
    assert_eq!(money_from_str::<2>("1.239", "$").unwrap(), 123);
    assert_eq!(money_from_str::<2>("1.2", "$").unwrap(), 120);
    assert_eq!(money_from_str::<3>("1.2", "$").unwrap(), 1200);
    assert_eq!(money_from_str::<0>("7", "$").unwrap(), 7);
    assert_eq!(money_from_str::<2>("", "$").unwrap(), 0);
    assert_eq!(money_from_str::<2>(" \t$ 5 ", "$").is_err(), true);
    assert_eq!(money_from_str::<2>("$ 5 \n", "$").unwrap(), 500);
}

#[test]
fn money_limits() {
    assert_eq!(money_to_str::<2>(i64::MAX, "$"), "$92233720368547758.07");
    assert_eq!(money_to_str::<2>(i64::MIN, "$"), "-$92233720368547758.08");
    assert_eq!(
        money_from_str::<2>("$92233720368547758.07", "$").unwrap(),
        i64::MAX
    );
    assert_eq!(
        money_from_str::<2>("-$92233720368547758.08", "$").unwrap(),
        i64::MIN
    );
    assert!(money_from_str::<2>("$92233720368547758.08", "$").is_err());
    assert!(money_from_str::<2>("99999999999999999999", "$").is_err());
    assert_eq!(money_to_str::<0>(12, "EUR "), "EUR 12.");
    assert_eq!(money_to_str::<3>(-5, ""), "-0.005");
}

#[test]
fn money_round_trips() {
    for value in [0i64, 1, -1, 9, 10, 99, 100, 101, -1234, 123456789, i64::MAX, i64::MIN] {
        let text = money_to_str::<2>(value, "$");
        assert_eq!(money_from_str::<2>(&text, "$").unwrap(), value);
    }
}

#[test]
fn values_add_scale_and_negate() {
    type C = Value<AUD>;
    assert_eq!((C::from_repr(145) + C::from_repr(155)).to_repr(), 300);
    assert_eq!((C::from_repr(145) * 3).to_repr(), 435);
    assert_eq!((-C::from_repr(145)).to_repr(), -145);
    assert_eq!(C::from_repr(7).clone(), C::from_repr(7));
    assert_eq!(*C::from_repr(7).as_repr(), 7);
    assert_eq!(C::parse("$0.07").unwrap(), C::from_repr(7));
    assert_eq!(C::parse("seven").unwrap_err().detail(), "error in money value");
}

#[test]
fn money_values_are_stored_as_integers() {
    type C = Value<AUD>;
    assert_eq!(C::from_repr(1234).into_variant(), Variant::Int(1234));
    assert_eq!(C::from_variant(Variant::Int(5)).unwrap(), C::from_repr(5));
    assert!(C::from_variant(Variant::String("5".to_string())).is_err());
}
