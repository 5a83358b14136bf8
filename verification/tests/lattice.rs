use std::rc::Rc;

use ruly::calendar::{CalendarDate, Timestamp};
use ruly::ident::{Ident, IdentSet};
use ruly::lattice::Lattice;
use ruly::table::Table;
use ruly::variant::{Error, Variant};

fn text(s: &str) -> Variant {
    Variant::String(s.to_string())
}

fn invalid(s: &str) -> Variant {
    Variant::Invalid(Error::new(s))
}

fn set(names: &[&'static str]) -> Variant {
    Variant::IdentSet(IdentSet::new(
        names.iter().map(|n| Ident::Intern(n)).collect(),
    ))
}

fn table(entries: Vec<(&'static str, Variant)>) -> Variant {
    let mut t = Table::new();
    for (k, v) in entries {
        t.insert(Ident::Intern(k), v);
    }
    Variant::Table(Rc::new(t))
}

fn conflict(a: Variant, b: Variant) -> Variant {
    Variant::Conflict(Box::new(a), Box::new(b))
}

fn samples() -> Vec<Variant> {
    vec![
        conflict(text("A"), text("B")),
        conflict(Variant::Int(1), Variant::Int(2)),
        text("A"),
        text("B"),
        Variant::Date(CalendarDate::from_ymd(2001, 5, 23).unwrap()),
        Variant::Date(CalendarDate::from_ymd(2001, 5, 24).unwrap()),
        Variant::Instant(Timestamp { seconds: 10, nanos: 0 }),
        Variant::Instant(Timestamp { seconds: 10, nanos: 1 }),
        Variant::Float(1.5f64.to_bits()),
        Variant::Float(2.5f64.to_bits()),
        Variant::Int(1),
        Variant::Int(2),
        set(&["a"]),
        set(&["a", "b"]),
        set(&["c"]),
        table(vec![]),
        table(vec![("x", Variant::Int(1))]),
        table(vec![("x", Variant::Int(2)), ("y", text("A"))]),
        table(vec![("y", set(&["a"])), ("z", table(vec![("x", Variant::Int(1))]))]),
        table(vec![("y", set(&["b"])), ("z", table(vec![("x", invalid("e"))]))]),
        invalid("first"),
        invalid("second"),
    ]
}

/// Whether two values are the same element of the lattice: conflicts are all
/// the top, invalid values all the bottom, tables compared entry by entry.
fn same_element(a: &Variant, b: &Variant) -> bool {
    match (a, b) {
        (Variant::Conflict(_, _), Variant::Conflict(_, _)) => true,
        (Variant::Invalid(_), Variant::Invalid(_)) => true,
        (Variant::Table(x), Variant::Table(y)) => {
            x.len() == y.len()
                && x.pairs().iter().all(|(k, v)| match y.get(k) {
                    Some(w) => same_element(v, w),
                    None => false,
                })
        }
        _ => a == b,
    }
}

#[test]
fn join_keeps_equal_scalars() {
    for v in samples() {
        let mut a = v.clone();
        let changed = a.join_update(v.clone());
        assert!(!changed);
        assert_eq!(a, v);
    }
}

#[test]
fn join_is_idempotent() {
    for v in samples() {
        assert_eq!(v.clone().join(v.clone()), v);
    }
}

#[test]
fn join_is_commutative() {
    for a in samples() {
        for b in samples() {
            let ab = a.clone().join(b.clone());
            let ba = b.clone().join(a.clone());
            assert!(same_element(&ab, &ba), "{:?} and {:?}", a, b);
        }
    }
}

#[test]
fn join_is_associative() {
    for a in samples() {
        for b in samples() {
            for c in samples() {
                let left = a.clone().join(b.clone()).join(c.clone());
                let right = a.clone().join(b.clone().join(c.clone()));
                assert!(same_element(&left, &right), "{:?}, {:?} and {:?}", a, b, c);
            }
        }
    }
}

#[test]
fn join_update_reports_change() {
    for a in samples() {
        for b in samples() {
            let mut joined = a.clone();
            let changed = joined.join_update(b.clone());
            assert_eq!(changed, joined != a, "{:?} and {:?}", a, b);
        }
    }
}

#[test]
fn invalid_gives_way() {
    assert_eq!(invalid("e").join(Variant::Int(3)), Variant::Int(3));
    assert_eq!(Variant::Int(3).join(invalid("e")), Variant::Int(3));
    assert_eq!(invalid("first").join(invalid("second")), invalid("first"));
    let mut v = invalid("e");
    assert!(v.join_update(text("healed")));
    assert_eq!(v, text("healed"));
    let mut w = text("kept");
    assert!(!w.join_update(invalid("late")));
    assert_eq!(w, text("kept"));
}

#[test]
fn conflict_absorbs() {
    let top = conflict(text("A"), text("B"));
    assert_eq!(top.clone().join(Variant::Int(1)), top);
    assert_eq!(Variant::Int(1).join(top.clone()), top);
    assert_eq!(invalid("e").join(top.clone()), top);
    assert_eq!(top.clone().join(invalid("e")), top);
    let other = conflict(Variant::Int(1), Variant::Int(2));
    assert_eq!(top.clone().join(other.clone()), top);
    assert_eq!(other.clone().join(top.clone()), other);
    let mut v = Variant::Int(1);
    assert!(v.join_update(top.clone()));
    let mut t = top.clone();
    assert!(!t.join_update(Variant::Int(1)));
}

#[test]
fn different_values_conflict() {
    assert_eq!(text("A").join(text("B")), conflict(text("A"), text("B")));
    assert_eq!(
        Variant::Int(1).join(text("1")),
        conflict(Variant::Int(1), text("1"))
    );
    assert_eq!(
        set(&["a"]).join(table(vec![])),
        conflict(set(&["a"]), table(vec![]))
    );
    assert_eq!(
        Variant::Float(0.0f64.to_bits()).join(Variant::Float((-0.0f64).to_bits())),
        conflict(
            Variant::Float(0.0f64.to_bits()),
            Variant::Float((-0.0f64).to_bits())
        )
    );
}

#[test]
fn sets_join_by_union() {
    let mut s = set(&["a", "b"]);
    assert!(s.join_update(set(&["b", "c"])));
    assert_eq!(s, set(&["c", "b", "a"]));
    assert!(!s.join_update(set(&["a", "c"])));
    assert!(!s.join_update(set(&[])));
    let mut plain = IdentSet::new(vec![Ident::Intern("a"), Ident::NonIntern("a".to_string())]);
    assert_eq!(plain.len(), 1);
    assert!(plain.join_update(IdentSet::new(vec![Ident::Anonymous(1)])));
    assert_eq!(plain.len(), 2);
    assert!(plain.contains(&Ident::Anonymous(1)));
    assert!(!plain.contains(&Ident::Anonymous(2)));
}

#[test]
fn tables_join_key_by_key() {
    let t1 = table(vec![
        ("only1", Variant::Int(1)),
        ("same", text("s")),
        ("clash", Variant::Int(1)),
        ("healed", invalid("e")),
        ("set", set(&["a"])),
    ]);
    let t2 = table(vec![
        ("only2", Variant::Int(2)),
        ("same", text("s")),
        ("clash", Variant::Int(2)),
        ("healed", Variant::Int(7)),
        ("set", set(&["b"])),
    ]);
    let expected = table(vec![
        ("only1", Variant::Int(1)),
        ("only2", Variant::Int(2)),
        ("same", text("s")),
        ("clash", conflict(Variant::Int(1), Variant::Int(2))),
        ("healed", Variant::Int(7)),
        ("set", set(&["a", "b"])),
    ]);
    assert_eq!(t1.clone().join(t2.clone()), expected);
    let mut unchanged = t1.clone();
    assert!(!unchanged.join_update(table(vec![("same", text("s"))])));
    assert_eq!(unchanged, t1);
}

#[test]
fn table_join_holds_every_key_of_either() {
    let mut t1 = Table::new();
    t1.insert(Ident::Intern("a"), Variant::Int(1));
    t1.insert(Ident::Intern("b"), Variant::Int(2));
    let mut t2 = Table::new();
    t2.insert(Ident::NonIntern("b".to_string()), Variant::Int(3));
    t2.insert(Ident::Anonymous(9), Variant::Int(4));
    let joined = t1.clone().join(t2.clone());
    assert_eq!(joined.len(), 3);
    for (k, v) in t1.pairs().iter().chain(t2.pairs().iter()) {
        let expected = match (t1.get(k), t2.get(k)) {
            (Some(x), Some(y)) => x.clone().join(y.clone()),
            _ => v.clone(),
        };
        assert_eq!(joined.get(k), Some(&expected));
    }
}

#[test]
fn nested_tables_join_recursively() {
    let inner1 = table(vec![("x", Variant::Int(1))]);
    let inner2 = table(vec![("y", Variant::Int(2))]);
    let outer1 = table(vec![("t", inner1)]);
    let outer2 = table(vec![("t", inner2)]);
    let expected = table(vec![(
        "t",
        table(vec![("x", Variant::Int(1)), ("y", Variant::Int(2))]),
    )]);
    assert_eq!(outer1.join(outer2), expected);
}

#[test]
fn joining_a_shared_table_with_itself_changes_nothing() {
    let shared = Rc::new({
        let mut t = Table::new();
        t.insert(Ident::Intern("x"), Variant::Int(1));
        t
    });
    let mut a = Variant::Table(shared.clone());
    assert!(!a.join_update(Variant::Table(shared.clone())));
    match a {
        Variant::Table(t) => assert!(Rc::ptr_eq(&t, &shared)),
        _ => panic!("not a table"),
    }
}

#[test]
fn joining_into_a_shared_table_leaves_the_other_handle_alone() {
    let shared = Rc::new({
        let mut t = Table::new();
        t.insert(Ident::Intern("x"), Variant::Int(1));
        t
    });
    let mut a = Variant::Table(shared.clone());
    assert!(a.join_update(table(vec![("y", Variant::Int(2))])));
    assert_eq!(shared.len(), 1);
    assert_eq!(
        a,
        table(vec![("x", Variant::Int(1)), ("y", Variant::Int(2))])
    );
}

#[test]
fn cheap_clones() {
    let v: Variant = Rc::new(Table::new()).into();
    let w = v.clone();
    let t: Rc<Table> = v.try_into().unwrap();
    let u: Rc<Table> = w.try_into().unwrap();
    assert!(Rc::ptr_eq(&t, &u))
}
