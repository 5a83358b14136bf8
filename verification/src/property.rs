//! Typed properties and paths: the seam between the types that rules work
//! with and the tagged values that tables store.

use std::marker::PhantomData;
use std::ops::Div;
use std::rc::Rc;
use vstd::prelude::*;
use vstd::std_specs::cmp::PartialEqSpecImpl;
use vstd::std_specs::convert::FromSpecImpl;
use vstd::std_specs::ops::DivSpecImpl;
use crate::calendar::{CalendarDate, Timestamp};
use crate::ident::{Ident, IdentPath, IdentSet, Name};
use crate::lattice::Datum;
use crate::table::{Table, lookup};
use crate::variant::{Error, Variant};

verus! {

/// A type whose values can be stored in a table.
///
/// A value is turned into a tagged `Variant` without fail, and a `Variant`
/// is turned back into a value if it carries the right tag. Nothing is
/// coerced: a `Variant` of another kind is refused.
pub trait Model: Sized + View {
    /// The table value that stands for a typed value.
    spec fn encoded(value: Self::V) -> Datum;

    /// The typed value that a table value stands for, if it stands for one
    /// of this type.
    spec fn decoded(value: Datum) -> Option<Self::V>;

    /// The description of the error that refuses a table value.
    spec fn mismatch() -> Seq<char>;

    /// A value that was stored is read back unchanged.
    proof fn lemma_round_trip(value: Self::V)
        ensures
            Self::decoded(Self::encoded(value)) == Some(value),
    ;

    /// Convert a value into a `Variant`.
    fn into_variant(self) -> (variant: Variant)
        ensures
            variant@ == Self::encoded(self@),
    ;

    /// Attempt to convert a `Variant` into a value.
    fn from_variant(variant: Variant) -> (value: Result<Self, Error>)
        ensures
            match value {
                Ok(v) => Self::decoded(variant@) == Some(v@),
                Err(e) => Self::decoded(variant@) is None && e@ == Self::mismatch(),
            },
    ;
}

/// The description of the error that refuses a value of another kind.
pub open spec fn wrong_kind() -> Seq<char> {
    "incorrect type stored in variant"@
}

/// The description of the error that refuses an integer out of range.
pub open spec fn conversion_failed() -> Seq<char> {
    "numeric conversion failed"@
}

impl Model for String {
    open spec fn encoded(value: Seq<char>) -> Datum {
        Datum::Text(value)
    }

    open spec fn decoded(value: Datum) -> Option<Seq<char>> {
        match value {
            Datum::Text(text) => Some(text),
            _ => None,
        }
    }

    open spec fn mismatch() -> Seq<char> {
        wrong_kind()
    }

    proof fn lemma_round_trip(value: Seq<char>) {
    }

    fn into_variant(self) -> (variant: Variant) {
        Variant::String(self)
    }

    fn from_variant(variant: Variant) -> (value: Result<Self, Error>) {
        match variant {
            Variant::String(text) => Ok(text),
            _ => Err(Error::new("incorrect type stored in variant")),
        }
    }
}

impl Model for i64 {
    open spec fn encoded(value: i64) -> Datum {
        Datum::Int(value)
    }

    open spec fn decoded(value: Datum) -> Option<i64> {
        match value {
            Datum::Int(i) => Some(i),
            _ => None,
        }
    }

    open spec fn mismatch() -> Seq<char> {
        wrong_kind()
    }

    proof fn lemma_round_trip(value: i64) {
    }

    fn into_variant(self) -> (variant: Variant) {
        Variant::Int(self)
    }

    fn from_variant(variant: Variant) -> (value: Result<Self, Error>) {
        match variant {
            Variant::Int(i) => Ok(i),
            _ => Err(Error::new("incorrect type stored in variant")),
        }
    }
}

impl Model for u32 {
    open spec fn encoded(value: u32) -> Datum {
        Datum::Int(value as i64)
    }

    open spec fn decoded(value: Datum) -> Option<u32> {
        match value {
            Datum::Int(i) => if 0 <= i <= u32::MAX {
                Some(i as u32)
            } else {
                None
            },
            _ => None,
        }
    }

    open spec fn mismatch() -> Seq<char> {
        conversion_failed()
    }

    proof fn lemma_round_trip(value: u32) {
    }

    fn into_variant(self) -> (variant: Variant) {
        Variant::Int(self as i64)
    }

    fn from_variant(variant: Variant) -> (value: Result<Self, Error>) {
        match variant {
            Variant::Int(i) => if 0 <= i && i <= u32::MAX as i64 {
                Ok(i as u32)
            } else {
                Err(Error::new("numeric conversion failed"))
            },
            _ => Err(Error::new("numeric conversion failed")),
        }
    }
}

impl Model for i32 {
    open spec fn encoded(value: i32) -> Datum {
        Datum::Int(value as i64)
    }

    open spec fn decoded(value: Datum) -> Option<i32> {
        match value {
            Datum::Int(i) => if i32::MIN <= i <= i32::MAX {
                Some(i as i32)
            } else {
                None
            },
            _ => None,
        }
    }

    open spec fn mismatch() -> Seq<char> {
        conversion_failed()
    }

    proof fn lemma_round_trip(value: i32) {
    }

    fn into_variant(self) -> (variant: Variant) {
        Variant::Int(self as i64)
    }

    fn from_variant(variant: Variant) -> (value: Result<Self, Error>) {
        match variant {
            Variant::Int(i) => if i32::MIN as i64 <= i && i <= i32::MAX as i64 {
                Ok(i as i32)
            } else {
                Err(Error::new("numeric conversion failed"))
            },
            _ => Err(Error::new("numeric conversion failed")),
        }
    }
}

impl View for CalendarDate {
    type V = CalendarDate;

    open spec fn view(&self) -> CalendarDate {
        *self
    }
}

impl Model for CalendarDate {
    open spec fn encoded(value: CalendarDate) -> Datum {
        Datum::Date(value)
    }

    open spec fn decoded(value: Datum) -> Option<CalendarDate> {
        match value {
            Datum::Date(date) => Some(date),
            _ => None,
        }
    }

    open spec fn mismatch() -> Seq<char> {
        wrong_kind()
    }

    proof fn lemma_round_trip(value: CalendarDate) {
    }

    fn into_variant(self) -> (variant: Variant) {
        Variant::Date(self)
    }

    fn from_variant(variant: Variant) -> (value: Result<Self, Error>) {
        match variant {
            Variant::Date(date) => Ok(date),
            _ => Err(Error::new("incorrect type stored in variant")),
        }
    }
}

impl View for Timestamp {
    type V = Timestamp;

    open spec fn view(&self) -> Timestamp {
        *self
    }
}

impl Model for Timestamp {
    open spec fn encoded(value: Timestamp) -> Datum {
        Datum::Instant(value)
    }

    open spec fn decoded(value: Datum) -> Option<Timestamp> {
        match value {
            Datum::Instant(instant) => Some(instant),
            _ => None,
        }
    }

    open spec fn mismatch() -> Seq<char> {
        wrong_kind()
    }

    proof fn lemma_round_trip(value: Timestamp) {
    }

    fn into_variant(self) -> (variant: Variant) {
        Variant::Instant(self)
    }

    fn from_variant(variant: Variant) -> (value: Result<Self, Error>) {
        match variant {
            Variant::Instant(instant) => Ok(instant),
            _ => Err(Error::new("incorrect type stored in variant")),
        }
    }
}

impl Model for IdentSet {
    open spec fn encoded(value: Set<Name>) -> Datum {
        Datum::Names(value)
    }

    open spec fn decoded(value: Datum) -> Option<Set<Name>> {
        match value {
            Datum::Names(names) => Some(names),
            _ => None,
        }
    }

    open spec fn mismatch() -> Seq<char> {
        wrong_kind()
    }

    proof fn lemma_round_trip(value: Set<Name>) {
    }

    fn into_variant(self) -> (variant: Variant) {
        Variant::IdentSet(self)
    }

    fn from_variant(variant: Variant) -> (value: Result<Self, Error>) {
        match variant {
            Variant::IdentSet(set) => Ok(set),
            _ => Err(Error::new("incorrect type stored in variant")),
        }
    }
}

impl Model for Rc<Table> {
    open spec fn encoded(value: Map<Name, Datum>) -> Datum {
        Datum::Table(value)
    }

    open spec fn decoded(value: Datum) -> Option<Map<Name, Datum>> {
        match value {
            Datum::Table(entries) => Some(entries),
            _ => None,
        }
    }

    open spec fn mismatch() -> Seq<char> {
        wrong_kind()
    }

    proof fn lemma_round_trip(value: Map<Name, Datum>) {
    }

    fn into_variant(self) -> (variant: Variant) {
        Variant::Table(self)
    }

    fn from_variant(variant: Variant) -> (value: Result<Self, Error>) {
        match variant {
            Variant::Table(table) => Ok(table),
            _ => Err(Error::new("incorrect type stored in variant")),
        }
    }
}

/// What a path yields in a table for a rule that works with values of type
/// `A`: the value that the path leads to, read as an `A`. There is no value
/// if the path leads nowhere or the value there is of another kind.
pub open spec fn extracted<A: Model>(table: Map<Name, Datum>, path: Seq<Name>) -> Option<A::V> {
    match lookup(table, path) {
        Some(value) => A::decoded(value),
        None => None,
    }
}

/// A property confers a meaning to a value, its interpretation or what it
/// represents. A property has a name or `Ident` that identifies it uniquely.
/// Two properties that have the same name represent the same thing and are
/// equal. They should have the same type, but this is not enforced.
#[derive(Debug)]
pub struct Property<A> {
    pub name: Ident,
    marker: PhantomData<A>,
}

impl<A> View for Property<A> {
    type V = Name;

    closed spec fn view(&self) -> Name {
        self.name@
    }
}

impl<A> Clone for Property<A> {
    fn clone(&self) -> (copy: Self)
        ensures
            copy@ == self@,
    {
        Self { name: self.name.clone(), marker: PhantomData }
    }
}

impl<A, B> PartialEq<Property<B>> for Property<A> {
    fn eq(&self, other: &Property<B>) -> (same: bool) {
        self.name.same_name(&other.name)
    }
}

impl<A, B> PartialEqSpecImpl<Property<B>> for Property<A> {
    open spec fn obeys_eq_spec() -> bool {
        true
    }

    open spec fn eq_spec(&self, other: &Property<B>) -> bool {
        self@ == other@
    }
}

impl<A> Eq for Property<A> {}

impl<A> Property<A> {
    /// The property with the name that `ident` converts into.
    pub fn new<I: Into<Ident>>(ident: I) -> (property: Self)
        ensures
            exists|name: Ident| #[trigger] call_ensures(I::into, (ident,), name) && property@ == name@,
    {
        Self { name: ident.into(), marker: PhantomData }
    }

    /// The identifier of the property.
    pub fn ident(&self) -> (ident: &Ident)
        ensures
            ident@ == self@,
    {
        &self.name
    }

    /// The path of length 1 that leads to this property.
    pub fn path(&self) -> (path: Path<A>)
        ensures
            path@ == seq![self@],
    {
        Path { inner: IdentPath::new(self.name.clone()), marker: PhantomData }
    }
}

impl<A: Model> Property<A> {
    /// The value of this property in `table`, if the table holds one of
    /// type `A` under the property's name.
    pub fn extract(&self, table: &Table) -> (value: Option<A>)
        ensures
            match value {
                Some(v) => extracted::<A>(table@, seq![self@]) == Some(v@),
                None => extracted::<A>(table@, seq![self@]) is None,
            },
    {
        match table.get(&self.name) {
            Some(held) => match A::from_variant(held.clone()) {
                Ok(value) => Some(value),
                Err(_) => None,
            },
            None => None,
        }
    }
}

impl Property<Rc<Table>> {
    /// The path to `inner` in the nested table that this property names.
    pub fn child<A>(&self, inner: &Property<A>) -> (path: Path<A>)
        ensures
            path@ == seq![self@, inner@],
    {
        let path = IdentPath::new(self.name.clone()).append(inner.name.clone());
        assert(path@ =~= seq![self@, inner@]);
        Path { inner: path, marker: PhantomData }
    }
}

/// Construct a property with an interned name.
pub fn prop<A>(name: &'static str) -> (property: Property<A>)
    ensures
        property@ == Name::Text(name@),
{
    Property { name: Ident::Intern(name), marker: PhantomData }
}

/// A `Path` designates a property that may be in a nested `Table`. Tables
/// can be nested to any depth because a `Variant` value can be a `Table`.
/// A `Path` is constructed by connecting `Property`s with the `/` operator.
/// Also, a single `Property` can be lifted into a `Path`.
///
/// Its view is the sequence of names from the outermost table inwards.
#[derive(Debug)]
pub struct Path<A> {
    inner: IdentPath,
    marker: PhantomData<A>,
}

impl<A> View for Path<A> {
    type V = Seq<Name>;

    closed spec fn view(&self) -> Seq<Name> {
        self.inner@
    }
}

impl<A> Clone for Path<A> {
    fn clone(&self) -> (copy: Self)
        ensures
            copy@ == self@,
    {
        Self { inner: self.inner.clone(), marker: PhantomData }
    }
}

impl<A> Path<A> {
    /// The identifiers of the path.
    pub fn ident_path(&self) -> (path: &IdentPath)
        ensures
            path@ == self@,
    {
        &self.inner
    }
}

impl<A: Model> Path<A> {
    /// The value that this path leads to in `table`, if there is one of
    /// type `A`.
    pub fn query(&self, table: &Table) -> (value: Option<A>)
        ensures
            match value {
                Some(v) => extracted::<A>(table@, self@) == Some(v@),
                None => extracted::<A>(table@, self@) is None,
            },
    {
        match table.get_path(&self.inner) {
            Some(held) => match A::from_variant(held.clone()) {
                Ok(value) => Some(value),
                Err(_) => None,
            },
            None => None,
        }
    }
}

impl Path<Rc<Table>> {
    /// The path to `inner` in the nested table that this path leads to.
    pub fn child<A>(self, inner: &Property<A>) -> (path: Path<A>)
        ensures
            path@ == self@.push(inner@),
    {
        Path { inner: self.inner.append(inner.name.clone()), marker: PhantomData }
    }
}

impl<A> Div<&Property<A>> for &Property<Rc<Table>> {
    type Output = Path<A>;

    fn div(self, rhs: &Property<A>) -> (path: Path<A>)
        ensures
            path@ == seq![self@, rhs@],
    {
        self.child(rhs)
    }
}

impl<A> DivSpecImpl<&Property<A>> for &Property<Rc<Table>> {
    open spec fn obeys_div_spec() -> bool {
        false
    }

    open spec fn div_req(self, rhs: &Property<A>) -> bool {
        true
    }

    open spec fn div_spec(self, rhs: &Property<A>) -> Path<A> {
        arbitrary()
    }
}

impl<A> Div<&Property<A>> for Path<Rc<Table>> {
    type Output = Path<A>;

    fn div(self, rhs: &Property<A>) -> (path: Path<A>)
        ensures
            path@ == self@.push(rhs@),
    {
        self.child(rhs)
    }
}

impl<A> DivSpecImpl<&Property<A>> for Path<Rc<Table>> {
    open spec fn obeys_div_spec() -> bool {
        false
    }

    open spec fn div_req(self, rhs: &Property<A>) -> bool {
        true
    }

    open spec fn div_spec(self, rhs: &Property<A>) -> Path<A> {
        arbitrary()
    }
}

impl<A> From<&Property<A>> for Path<A> {
    fn from(property: &Property<A>) -> (path: Self)
        ensures
            path@ == seq![property@],
    {
        property.path()
    }
}

impl<A> FromSpecImpl<&Property<A>> for Path<A> {
    open spec fn obeys_from_spec() -> bool {
        false
    }

    open spec fn from_spec(property: &Property<A>) -> Self {
        arbitrary()
    }
}

} // verus!
