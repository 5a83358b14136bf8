use std::rc::Rc;

use ruly::ident::{ExternalIdent, Ident, IdentPath};
use ruly::property::{prop, Model, Path, Property};
use ruly::table::Table;
use ruly::variant::Variant;

fn text(s: &str) -> Variant {
    Variant::String(s.to_string())
}

fn nested() -> Table {
    let mut address = Table::new();
    address.insert(Ident::Intern("city"), text("X"));
    let mut customer = Table::new();
    customer.insert(Ident::Intern("address"), Variant::Table(Rc::new(address)));
    customer.insert(Ident::Intern("name"), text("N"));
    let mut table = Table::new();
    table.insert(Ident::Intern("customer"), Variant::Table(Rc::new(customer)));
    table
}

fn path(names: &[&'static str]) -> IdentPath {
    let mut p = IdentPath::new(Ident::Intern(names[0]));
    for n in &names[1..] {
        p = p.append(Ident::Intern(n));
    }
    p
}

#[test]
fn identifiers_are_equal_by_name() {
    assert_eq!(Ident::Intern("a"), Ident::NonIntern("a".to_string()));
    assert_eq!(Ident::from("a"), Ident::from("a".to_string()));
    assert_ne!(Ident::Intern("a"), Ident::Intern("b"));
    assert_ne!(Ident::Intern("1"), Ident::Anonymous(1));
    assert_eq!(Ident::from(7u64), Ident::Anonymous(7));
    assert!(Ident::Intern("a").same_name(&Ident::NonIntern("a".to_string())));
    assert_eq!(Ident::Intern("a").clone(), Ident::Intern("a"));
}

#[test]
fn external_identifiers_keep_the_name() {
    match Ident::Intern("a").to_external() {
        ExternalIdent::NonIntern(s) => assert_eq!(s, "a"),
        _ => panic!("not a name"),
    }
    match Ident::Anonymous(3).to_external() {
        ExternalIdent::Anonymous(n) => assert_eq!(n, 3),
        _ => panic!("not a number"),
    }
    let back = Ident::from_external(Ident::Intern("a").to_external());
    assert!(matches!(back, Ident::NonIntern(_)));
    assert_eq!(back, Ident::Intern("a"));
    assert_eq!(
        Ident::from_external(ExternalIdent::Anonymous(5)),
        Ident::Anonymous(5)
    );
}

#[test]
fn insert_and_get() {
    let mut t = Table::new();
    assert_eq!(t.len(), 0);
    assert_eq!(t.get(&Ident::Intern("a")), None);
    assert_eq!(t.insert(Ident::Intern("a"), Variant::Int(1)), None);
    assert_eq!(t.get(&Ident::Intern("a")), Some(&Variant::Int(1)));
    assert_eq!(
        t.insert(Ident::NonIntern("a".to_string()), Variant::Int(2)),
        Some(Variant::Int(1))
    );
    assert_eq!(t.len(), 1);
    assert_eq!(t.get(&Ident::Intern("a")), Some(&Variant::Int(2)));
    assert_eq!(t.insert(Ident::Anonymous(0), text("z")), None);
    assert_eq!(t.len(), 2);
    assert_eq!(t.pairs().len(), 2);
}

#[test]
fn join_entry_creates_or_joins() {
    let mut t = Table::new();
    assert!(t.join_entry(Ident::Intern("a"), Variant::Int(1)));
    assert!(!t.join_entry(Ident::Intern("a"), Variant::Int(1)));
    assert!(t.join_entry(Ident::Intern("a"), Variant::Int(2)));
    assert_eq!(
        t.get(&Ident::Intern("a")),
        Some(&Variant::Conflict(
            Box::new(Variant::Int(1)),
            Box::new(Variant::Int(2))
        ))
    );
}

#[test]
fn path_resolves_through_nested_tables() {
    let t = nested();
    assert_eq!(
        t.get_path(&path(&["customer", "address", "city"])),
        Some(&text("X"))
    );
    assert_eq!(t.get_path(&path(&["customer", "name"])), Some(&text("N")));
    assert!(t.get_path(&path(&["customer"])).unwrap().as_table().is_some());
}

#[test]
fn path_through_missing_or_scalar_entry_is_absent() {
    let t = nested();
    assert_eq!(t.get_path(&path(&["customer", "missing", "city"])), None);
    assert_eq!(t.get_path(&path(&["missing"])), None);
    assert_eq!(t.get_path(&path(&["customer", "name", "city"])), None);
    assert_eq!(
        t.get_path(&path(&["customer", "address", "missing"])),
        None
    );
}

#[test]
fn paths_are_built_from_properties() {
    let customer: Property<Rc<Table>> = prop("customer");
    let address: Property<Rc<Table>> = prop("address");
    let city: Property<String> = prop("city");
    let p: Path<String> = &customer / &address / &city;
    assert_eq!(p.query(&nested()), Some("X".to_string()));
    let q: Path<String> = customer.child(&address).child(&city);
    assert_eq!(q.ident_path().prefix().len(), 2);
    assert_eq!(q.ident_path().subject(), &Ident::Intern("city"));
    let wrong: Path<i64> = &customer / &prop::<i64>("name");
    assert_eq!(wrong.query(&nested()), None);
    let lifted: Path<Rc<Table>> = (&customer).into();
    assert!(lifted.query(&nested()).is_some());
}

#[test]
fn extraction_fails_closed() {
    let mut t = Table::new();
    t.insert(Ident::Intern("n"), Variant::Int(5));
    t.insert(Ident::Intern("big"), Variant::Int(5_000_000_000));
    t.insert(Ident::Intern("neg"), Variant::Int(-1));
    assert_eq!(prop::<i64>("n").extract(&t), Some(5));
    assert_eq!(prop::<u32>("n").extract(&t), Some(5));
    assert_eq!(prop::<i32>("n").extract(&t), Some(5));
    assert_eq!(prop::<String>("n").extract(&t), None);
    assert_eq!(prop::<i64>("absent").extract(&t), None);
    assert_eq!(prop::<u32>("big").extract(&t), None);
    assert_eq!(prop::<i32>("big").extract(&t), None);
    assert_eq!(prop::<u32>("neg").extract(&t), None);
    assert_eq!(prop::<i32>("neg").extract(&t), Some(-1));
    assert_eq!(
        u32::from_variant(Variant::Int(-1)).unwrap_err().detail(),
        "numeric conversion failed"
    );
    assert_eq!(
        String::from_variant(Variant::Int(-1)).unwrap_err().detail(),
        "incorrect type stored in variant"
    );
    assert_eq!(7u32.into_variant(), Variant::Int(7));
    assert_eq!((-7i32).into_variant(), Variant::Int(-7));
}

#[test]
fn properties_are_equal_by_name() {
    let a: Property<i64> = prop("a");
    let b: Property<String> = Property::new("a".to_string());
    let c: Property<i64> = Property::new(Ident::Anonymous(1));
    assert!(a == b);
    assert!(!(a == c));
    assert!(a.clone() == a);
    assert_eq!(a.ident(), &Ident::Intern("a"));
}

#[test]
fn tables_are_equal_whatever_the_order() {
    let mut t1 = Table::new();
    t1.insert(Ident::Intern("a"), Variant::Int(1));
    t1.insert(Ident::Intern("b"), Variant::Int(2));
    let mut t2 = Table::new();
    t2.insert(Ident::Intern("b"), Variant::Int(2));
    t2.insert(Ident::Intern("a"), Variant::Int(1));
    assert_eq!(t1, t2);
    assert_eq!(t1.clone(), t1);
    t2.insert(Ident::Intern("a"), Variant::Int(3));
    assert_ne!(t1, t2);
}
