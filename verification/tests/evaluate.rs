use ruly::ident::{Ident, IdentPath, IdentSet};
use ruly::propagator::{
    evaluate_naive, evaluate_priority_once, Propagator, PropagatorFunc, Propagators,
};
use ruly::property::{prop, Property};
use ruly::rule::infer;
use ruly::table::Table;
use ruly::variant::{Error, Variant};

fn text(s: &str) -> Variant {
    Variant::String(s.to_string())
}

fn constant(target: &'static str, value: Variant) -> Box<dyn Propagator> {
    PropagatorFunc::new(Ident::Intern(target), vec![], move |_| Some(value.clone()))
}

#[test]
fn priority_fill_first_rule_wins() {
    let mut table = Table::new();
    let rules: Propagators = vec![
        constant("X", Variant::Int(1)),
        constant("X", Variant::Int(2)),
    ];
    assert_eq!(evaluate_priority_once(&mut table, &rules), 1);
    assert_eq!(table.get(&Ident::Intern("X")), Some(&Variant::Int(1)));

    let mut table = Table::new();
    let rules: Propagators = vec![
        constant("X", Variant::Int(2)),
        constant("X", Variant::Int(1)),
    ];
    assert_eq!(evaluate_priority_once(&mut table, &rules), 1);
    assert_eq!(table.get(&Ident::Intern("X")), Some(&Variant::Int(2)));
}

#[test]
fn priority_fill_skips_filled_and_silent_rules() {
    let mut table = Table::new();
    table.insert(Ident::Intern("X"), Variant::Int(7));
    let silent: Box<dyn Propagator> =
        PropagatorFunc::new(Ident::Intern("Y"), vec![], |_| None);
    let rules: Propagators = vec![
        constant("X", Variant::Int(1)),
        silent,
        constant("Z", Variant::Int(3)),
    ];
    assert_eq!(evaluate_priority_once(&mut table, &rules), 1);
    assert_eq!(table.get(&Ident::Intern("X")), Some(&Variant::Int(7)));
    assert_eq!(table.get(&Ident::Intern("Y")), None);
    assert_eq!(table.get(&Ident::Intern("Z")), Some(&Variant::Int(3)));
    assert_eq!(evaluate_priority_once(&mut table, &Vec::new() as &Propagators), 0);
}

#[test]
fn priority_fill_sees_earlier_results() {
    let a: Property<i64> = prop("a");
    let b: Property<i64> = prop("b");
    let c: Property<i64> = prop("c");
    let mut table = Table::new();
    table.insert(Ident::Intern("a"), Variant::Int(1));
    let rules: Propagators = vec![
        infer(&c).from(&b).rule(|b: i64| Some(b + 1)),
        infer(&b).from(&a).rule(|a: i64| Some(a + 1)),
    ];
    assert_eq!(evaluate_priority_once(&mut table, &rules), 1);
    assert_eq!(b.extract(&table), Some(2));
    assert_eq!(c.extract(&table), None);
    assert_eq!(evaluate_priority_once(&mut table, &rules), 1);
    assert_eq!(c.extract(&table), Some(3));
}

#[test]
fn naive_fixpoint_computes_total() {
    let price: Property<i64> = prop("price");
    let qty: Property<i64> = prop("qty");
    let total: Property<i64> = prop("total");
    let mut table = Table::new();
    table.insert(Ident::Intern("price"), Variant::Int(10));
    table.insert(Ident::Intern("qty"), Variant::Int(3));
    let rules: Propagators = vec![infer(&total)
        .from(&price)
        .from(&qty)
        .rule(|(p, q): (i64, i64)| Some(p * q))];
    assert_eq!(evaluate_naive(&mut table, &rules, 10).unwrap(), 2);
    assert_eq!(total.extract(&table), Some(30));
}

#[test]
fn naive_fixpoint_does_not_depend_on_rule_order() {
    let a: Property<i64> = prop("a");
    let b: Property<i64> = prop("b");
    let c: Property<i64> = prop("c");
    let d: Property<i64> = prop("d");
    let make = |reversed: bool| -> Propagators {
        let mut rules: Propagators = vec![
            infer(&b).from(&a).rule(|a: i64| Some(a + 1)),
            infer(&c).from(&b).rule(|b: i64| Some(b * 2)),
            infer(&d)
                .from(&a)
                .from(&b)
                .from(&c)
                .rule(|(a, b, c): (i64, i64, i64)| Some(a + b + c)),
        ];
        if reversed {
            rules.reverse();
        }
        rules
    };
    let mut forward = Table::new();
    forward.insert(Ident::Intern("a"), Variant::Int(1));
    let mut backward = forward.clone();
    assert_eq!(evaluate_naive(&mut forward, &make(false), 10).unwrap(), 2);
    assert_eq!(evaluate_naive(&mut backward, &make(true), 10).unwrap(), 4);
    assert_eq!(forward, backward);
    assert_eq!(d.extract(&forward), Some(7));
}

#[test]
fn naive_fixpoint_reports_conflict() {
    let mut table = Table::new();
    table.insert(Ident::Intern("status"), text("A"));
    let rules: Propagators = vec![constant("status", text("B"))];
    assert_eq!(evaluate_naive(&mut table, &rules, 10).unwrap(), 2);
    assert_eq!(
        table.get(&Ident::Intern("status")),
        Some(&Variant::Conflict(Box::new(text("A")), Box::new(text("B"))))
    );
}

#[test]
fn naive_fixpoint_reports_divergence() {
    // Each pass adds one more member to the set: no pass is the last.
    let grow: Box<dyn Propagator> = PropagatorFunc::new(
        Ident::Intern("seen"),
        vec![IdentPath::new(Ident::Intern("seen"))],
        |input| {
            let next = match input[0] {
                Some(Variant::IdentSet(s)) => s.len() as u64,
                _ => 0,
            };
            Some(Variant::IdentSet(IdentSet::new(vec![Ident::Anonymous(next)])))
        },
    );
    let mut table = Table::new();
    let rules: Propagators = vec![grow];
    let error = evaluate_naive(&mut table, &rules, 5).unwrap_err();
    assert_eq!(error.detail(), "exhausted 5 iterations ");
    match table.get(&Ident::Intern("seen")) {
        Some(Variant::IdentSet(s)) => assert_eq!(s.len(), 5),
        other => panic!("unexpected {:?}", other),
    }
}

#[test]
fn naive_fixpoint_with_no_passes_allowed() {
    let mut table = Table::new();
    let rules: Propagators = vec![constant("X", Variant::Int(1))];
    let error = evaluate_naive(&mut table, &rules, 0).unwrap_err();
    assert_eq!(error.detail(), "exhausted 0 iterations ");
    assert_eq!(table.len(), 0);
    let none: Propagators = Vec::new();
    assert_eq!(evaluate_naive(&mut table, &none, 1).unwrap(), 1);
}

#[test]
fn fallible_rule_yields_invalid_which_heals() {
    let raw: Property<String> = prop("raw");
    let parsed: Property<i64> = prop("parsed");
    let rules: Propagators = vec![infer(&parsed).from(&raw).rule_fallible(|s: String| {
        match s.parse::<i64>() {
            Ok(n) if n < 0 => Ok(None),
            Ok(n) => Ok(Some(n)),
            Err(_) => Err(Error::new("not a number")),
        }
    })];
    let mut table = Table::new();
    table.insert(Ident::Intern("raw"), text("x1"));
    assert_eq!(evaluate_naive(&mut table, &rules, 10).unwrap(), 2);
    assert_eq!(
        table.get(&Ident::Intern("parsed")),
        Some(&Variant::Invalid(Error::new("not a number")))
    );
    table.insert(Ident::Intern("raw"), text("12"));
    assert_eq!(evaluate_naive(&mut table, &rules, 10).unwrap(), 2);
    assert_eq!(parsed.extract(&table), Some(12));

    let mut silent = Table::new();
    silent.insert(Ident::Intern("raw"), text("-3"));
    assert_eq!(evaluate_naive(&mut silent, &rules, 10).unwrap(), 1);
    assert_eq!(silent.get(&Ident::Intern("parsed")), None);
}

#[test]
fn rules_declare_target_and_dependencies() {
    let a: Property<i64> = prop("a");
    let b: Property<i64> = prop("b");
    let c: Property<i64> = prop("c");
    let one = infer(&c).from(&a).rule(|a: i64| Some(a));
    assert_eq!(one.target(), &Ident::Intern("c"));
    assert_eq!(one.dependencies().len(), 1);
    let two = infer(&c).from(&a).from(&b).rule(|(a, _b): (i64, i64)| Some(a));
    assert_eq!(two.dependencies().len(), 2);
    assert_eq!(two.dependencies()[1].subject(), &Ident::Intern("b"));
    let three = infer(&c)
        .from(&a)
        .from(&b)
        .from(a.path())
        .rule(|(a, _b, _c): (i64, i64, i64)| Some(a));
    assert_eq!(three.dependencies().len(), 3);
    let func = PropagatorFunc::new(
        Ident::Intern("t"),
        vec![IdentPath::new(Ident::Intern("a")).append(Ident::Intern("b"))],
        |_| None,
    );
    assert_eq!(func.target(), &Ident::Intern("t"));
    assert_eq!(func.dependencies()[0].prefix().len(), 1);
}

#[test]
fn rule_does_not_fire_without_all_dependencies() {
    let a: Property<i64> = prop("a");
    let b: Property<i64> = prop("b");
    let c: Property<i64> = prop("c");
    let rule = infer(&c).from(&a).from(&b).rule(|(a, b): (i64, i64)| Some(a + b));
    let mut table = Table::new();
    table.insert(Ident::Intern("a"), Variant::Int(1));
    assert_eq!(rule.fire(&table), None);
    table.insert(Ident::Intern("b"), text("two"));
    assert_eq!(rule.fire(&table), None);
    table.insert(Ident::Intern("b"), Variant::Int(2));
    assert_eq!(rule.fire(&table), Some(Variant::Int(3)));
}

#[test]
fn propagator_func_is_handed_the_looked_up_values() {
    let sum = PropagatorFunc::new(
        Ident::Intern("sum"),
        vec![
            IdentPath::new(Ident::Intern("a")),
            IdentPath::new(Ident::Intern("b")),
        ],
        |input| match (input[0], input[1]) {
            (Some(Variant::Int(a)), Some(Variant::Int(b))) => Some(Variant::Int(a + b)),
            (Some(Variant::Int(a)), None) => Some(Variant::Int(*a)),
            _ => None,
        },
    );
    let mut table = Table::new();
    assert_eq!(sum.fire(&table), None);
    table.insert(Ident::Intern("a"), Variant::Int(4));
    assert_eq!(sum.fire(&table), Some(Variant::Int(4)));
    table.insert(Ident::Intern("b"), Variant::Int(5));
    assert_eq!(sum.fire(&table), Some(Variant::Int(9)));
}
