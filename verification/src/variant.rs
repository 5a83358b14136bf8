//! Tagged values, the entries of a table.

use std::rc::Rc;
use vstd::prelude::*;
use vstd::std_specs::cmp::PartialEqSpecImpl;
use crate::text::str_eq;
use crate::calendar::{CalendarDate, Timestamp};
use crate::ident::IdentSet;
use crate::lattice::{
    Datum,
    Lattice,
    join,
    lemma_join_associative,
    lemma_join_commutative,
    lemma_join_entries,
    lemma_join_idempotent,
    same_element,
};
use crate::table::Table;

verus! {

/// An error with a textual description.
#[derive(Debug)]
pub enum Error {
    Detail(String),
}

impl View for Error {
    type V = Seq<char>;

    open spec fn view(&self) -> Seq<char> {
        match self {
            Error::Detail(text) => text@,
        }
    }
}

impl Error {
    /// An error with the given description.
    pub fn new(detail: &str) -> (error: Error)
        ensures
            error@ == detail@,
    {
        Error::Detail(String::from_str(detail))
    }

    /// The description of the error.
    pub fn detail(&self) -> (text: &str)
        ensures
            text@ == self@,
    {
        match self {
            Error::Detail(text) => text.as_str(),
        }
    }
}

impl PartialEq for Error {
    fn eq(&self, other: &Self) -> (same: bool) {
        str_eq(self.detail(), other.detail())
    }
}

impl PartialEqSpecImpl for Error {
    open spec fn obeys_eq_spec() -> bool {
        true
    }

    open spec fn eq_spec(&self, other: &Self) -> bool {
        self@ == other@
    }
}

impl Clone for Error {
    fn clone(&self) -> (copy: Self)
        ensures
            copy@ == self@,
    {
        match self {
            Error::Detail(text) => Error::Detail(text.clone()),
        }
    }
}

/// A general value: the one type of all table entries.
///
/// `Variant` is a join-semilattice in which
/// - `Invalid` values are inferior to all others,
/// - `IdentSet` values are joined by union,
/// - `Table` values are joined by joining their values by key,
/// - scalar values are joined if equal,
/// - other pairs result in a `Conflict`, the top of the lattice.
///
/// A nested table is shared by reference count, so that copying a value that
/// holds one is cheap.
#[derive(Debug)]
pub enum Variant {
    /// Top of the join lattice: the two values that could not be reconciled.
    Conflict(Box<Variant>, Box<Variant>),
    /// Join by equality.
    String(String),
    Date(CalendarDate),
    Instant(Timestamp),
    /// A floating-point number, held as the bits of its IEEE 754 binary64
    /// form. Two numbers are equal when their bits are.
    Float(u64),
    Int(i64),
    /// Join by union.
    IdentSet(IdentSet),
    /// Join by joining members with equal keys.
    Table(Rc<Table>),
    /// A correctable error, below all of the above.
    Invalid(Error),
}

impl Variant {
    /// The mathematical value that this variant stands for.
    pub open spec fn datum(&self) -> Datum
        decreases self,
    {
        match self {
            Variant::Conflict(a, b) => Datum::Conflict(Box::new(a.datum()), Box::new(b.datum())),
            Variant::String(s) => Datum::Text(s@),
            Variant::Date(d) => Datum::Date(*d),
            Variant::Instant(t) => Datum::Instant(*t),
            Variant::Float(bits) => Datum::Float(*bits),
            Variant::Int(i) => Datum::Int(*i),
            Variant::IdentSet(s) => Datum::Names(s@),
            Variant::Table(t) => Datum::Table(t.entries()),
            Variant::Invalid(e) => Datum::Invalid(e@),
        }
    }
}

impl View for Variant {
    type V = Datum;

    open spec fn view(&self) -> Datum {
        self.datum()
    }
}

/// Another handle to the same shared table, as `Rc::clone` gives it: the new
/// handle points to the very table that `shared` points to.
#[verifier::external_body]
pub(crate) fn share(shared: &Rc<Table>) -> (handle: Rc<Table>)
    ensures
        handle == *shared,
{
    Rc::clone(shared)
}

/// Whether the two handles point to the same shared table, as `Rc::ptr_eq`
/// tells it. Two handles to one table hold equal tables; two handles to
/// different tables may hold equal tables too, so `false` says nothing.
#[verifier::external_body]
pub(crate) fn same_table(a: &Rc<Table>, b: &Rc<Table>) -> (same: bool)
    ensures
        same ==> **a == **b,
{
    Rc::ptr_eq(a, b)
}

/// Mutable access to a shared table, as `Rc::make_mut` gives it. Where other
/// handles point to the table, `shared` is first made to point to a copy of
/// it (made by `Table::clone`, which keeps the entries), so that the other
/// handles never see a change. What is written through the result is what
/// `shared` holds afterwards.
#[verifier::external_body]
pub(crate) fn unshared(shared: &mut Rc<Table>) -> (table: &mut Table)
    ensures
        (*table)@ == (**old(shared))@,
        (**final(shared))@ == (*final(table))@,
{
    Rc::make_mut(shared)
}

/// Whether a value is a scalar: a string, a date, an instant, a float or an
/// integer.
pub open spec fn is_scalar(value: Datum) -> bool {
    value is Text || value is Date || value is Instant || value is Float || value is Int
}

impl Variant {
    /// Whether both values are scalars of the same kind that hold the same
    /// value.
    pub fn same_scalar(&self, other: &Variant) -> (same: bool)
        ensures
            same == (is_scalar(self@) && self@ == other@),
    {
        match (self, other) {
            (Variant::String(a), Variant::String(b)) => *a == *b,
            (Variant::Date(a), Variant::Date(b)) => *a == *b,
            (Variant::Instant(a), Variant::Instant(b)) => *a == *b,
            (Variant::Float(a), Variant::Float(b)) => *a == *b,
            (Variant::Int(a), Variant::Int(b)) => *a == *b,
            _ => false,
        }
    }

    /// Whether the two values stand for the same mathematical value. The
    /// order of the entries of a table and of the members of a set does not
    /// count.
    pub fn same_value(&self, other: &Variant) -> (same: bool)
        ensures
            same == (self@ == other@),
        decreases self,
    {
        match (self, other) {
            (Variant::Conflict(a, b), Variant::Conflict(c, d)) => {
                (**a).same_value(&**c) && (**b).same_value(&**d)
            },
            (Variant::IdentSet(a), Variant::IdentSet(b)) => a.same_members(b),
            (Variant::Table(a), Variant::Table(b)) => (**a).same_entries(&**b),
            (Variant::Invalid(a), Variant::Invalid(b)) => str_eq(a.detail(), b.detail()),
            _ => self.same_scalar(other),
        }
    }

    /// Join `other` into this value, in place. Returns `true` iff this value
    /// changed.
    ///
    /// What this value takes over from `other` is copied; a nested table of
    /// `other` is shared.
    pub fn join_update_from(&mut self, other: &Variant) -> (changed: bool)
        ensures
            final(self)@ == join(old(self)@, other@),
            changed <==> final(self)@ != old(self)@,
        decreases other,
    {
        let mut mine = Variant::Int(0);
        std::mem::swap(self, &mut mine);
        let (joined, changed) = match (mine, other) {
            (Variant::IdentSet(mut x), Variant::IdentSet(y)) => {
                let grew = x.join_update_from(y);
                (Variant::IdentSet(x), grew)
            },
            (Variant::Table(mut x), Variant::Table(y)) => {
                proof {
                    lemma_join_entries(x@, y@);
                }
                if same_table(&x, y) {
                    proof {
                        lemma_join_idempotent(Datum::Table(x@));
                    }
                    (Variant::Table(x), false)
                } else {
                    let grew = unshared(&mut x).join_update_from(&**y);
                    (Variant::Table(x), grew)
                }
            },
            (Variant::Conflict(p, q), _) => (Variant::Conflict(p, q), false),
            (_, Variant::Conflict(_, _)) => (other.clone(), true),
            (m, Variant::Invalid(_)) => (m, false),
            (Variant::Invalid(_), _) => (other.clone(), true),
            (m, _) => {
                if m.same_scalar(other) {
                    (m, false)
                } else {
                    (Variant::Conflict(Box::new(m), Box::new(other.clone())), true)
                }
            },
        };
        *self = joined;
        changed
    }

    /// The nested table, if this value is one.
    pub fn as_table(&self) -> (table: Option<&Table>)
        ensures
            match table {
                Some(t) => self@ == Datum::Table(t@),
                None => !(self@ is Table),
            },
    {
        match self {
            Variant::Table(table) => Some(&**table),
            _ => None,
        }
    }
}

impl Lattice for Variant {
    open spec fn joined(a: Datum, b: Datum) -> Datum {
        join(a, b)
    }

    open spec fn alike(a: Datum, b: Datum) -> bool {
        same_element(a, b)
    }

    proof fn lemma_idempotent(a: Datum) {
        lemma_join_idempotent(a);
    }

    proof fn lemma_commutative(a: Datum, b: Datum) {
        lemma_join_commutative(a, b);
    }

    proof fn lemma_associative(a: Datum, b: Datum, c: Datum) {
        lemma_join_associative(a, b, c);
    }

    /// Combine two variants according to the rules of a join-semilattice.
    fn join_update(&mut self, other: Self) -> (changed: bool) {
        self.join_update_from(&other)
    }
}

impl PartialEq for Variant {
    fn eq(&self, other: &Self) -> (same: bool) {
        self.same_value(other)
    }
}

impl PartialEqSpecImpl for Variant {
    open spec fn obeys_eq_spec() -> bool {
        true
    }

    open spec fn eq_spec(&self, other: &Self) -> bool {
        self@ == other@
    }
}

impl Clone for Variant {
    /// A copy of the value. A nested table is shared, not copied.
    fn clone(&self) -> (copy: Self)
        ensures
            copy@ == self@,
        decreases self,
    {
        match self {
            Variant::Conflict(a, b) => Variant::Conflict(
                Box::new((**a).clone()),
                Box::new((**b).clone()),
            ),
            Variant::String(s) => Variant::String(s.clone()),
            Variant::Date(d) => Variant::Date(*d),
            Variant::Instant(t) => Variant::Instant(*t),
            Variant::Float(bits) => Variant::Float(*bits),
            Variant::Int(i) => Variant::Int(*i),
            Variant::IdentSet(s) => Variant::IdentSet(s.clone()),
            Variant::Table(t) => Variant::Table(share(t)),
            Variant::Invalid(e) => Variant::Invalid(e.clone()),
        }
    }
}

} // verus!
