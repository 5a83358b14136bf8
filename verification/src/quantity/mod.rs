//! Quantities: typed values with their own string forms.
//!
//! A quantity is a unit type that implements [`Quantity`]. It names a
//! representation, which should be storable in a table, and says how that
//! representation is read from and written to a string.
//!
//! `Value<Q>`, where `Q` is a quantity, wraps the representation. In the
//! rule system a property for a quantity has type `Property<Value<Q>>` and is
//! conveniently defined by [`quant`].

pub mod date;
pub mod money;

use std::cmp::Ordering;
use std::ops::{Add, Mul, Neg};
use std::str::FromStr;
use vstd::prelude::*;
use vstd::std_specs::cmp::PartialEqSpec;
use vstd::std_specs::cmp::PartialEqSpecImpl;
use vstd::std_specs::cmp::PartialOrdSpec;
use vstd::std_specs::cmp::PartialOrdSpecImpl;
use vstd::std_specs::ops::{AddSpec, AddSpecImpl, MulSpec, MulSpecImpl, NegSpec, NegSpecImpl};
use crate::lattice::Datum;
use crate::property::{Model, Property, prop};
use crate::variant::{Error, Variant};

verus! {

/// A kind of value with its own string form.
pub trait Quantity {
    /// What a value of this quantity is held as.
    type Repr;

    /// The value that a text stands for, if it stands for one.
    spec fn parsed(text: Seq<char>) -> Option<Self::Repr>;

    /// The description of the error that refuses a text.
    spec fn parse_error() -> Seq<char>;

    /// The text that stands for a value.
    spec fn formatted(value: Self::Repr) -> Seq<char>;

    /// Read a value from its string form.
    fn parse(text: &str) -> (value: Result<Self::Repr, Error>)
        ensures
            match Self::parsed(text@) {
                Some(v) => value matches Ok(x) && x == v,
                None => value matches Err(e) && e@ == Self::parse_error(),
            },
    ;

    /// Write a value in its string form.
    fn format(value: &Self::Repr) -> (text: String)
        ensures
            text@ == Self::formatted(*value),
    ;
}

/// A wrapper for `Quantity` representations: essentially a newtype for
/// `Quantity::Repr`.
#[derive(Debug)]
pub struct Value<Q: Quantity>(Q::Repr);

impl<Q: Quantity> Value<Q> {
    /// The representation that the value wraps.
    pub closed spec fn repr(self) -> Q::Repr {
        self.0
    }

    /// The value that wraps a representation.
    pub closed spec fn of(repr: Q::Repr) -> Self {
        Value(repr)
    }

    /// A value is the one that wraps its representation.
    pub proof fn lemma_of_repr(self)
        ensures
            Self::of(self.repr()) == self,
            forall|repr: Q::Repr| #[trigger] Self::of(repr).repr() == repr,
    {
    }

    /// Construct a `Value` from its representation.
    pub fn from_repr(repr: Q::Repr) -> (value: Self)
        ensures
            value == Self::of(repr),
            value.repr() == repr,
    {
        Self(repr)
    }

    /// Reduce a `Value` to its representation.
    pub fn to_repr(self) -> (repr: Q::Repr)
        ensures
            repr == self.repr(),
    {
        self.0
    }

    /// Borrow the representation.
    pub fn as_repr(&self) -> (repr: &Q::Repr)
        ensures
            *repr == self.repr(),
    {
        &self.0
    }

    /// Read a value from the string form of its quantity.
    pub fn parse(text: &str) -> (value: Result<Self, Error>)
        ensures
            match Q::parsed(text@) {
                Some(v) => value matches Ok(x) && x.repr() == v,
                None => value matches Err(e) && e@ == Q::parse_error(),
            },
    {
        match Q::parse(text) {
            Ok(repr) => Ok(Self(repr)),
            Err(error) => Err(error),
        }
    }

    /// Write the value in the string form of its quantity.
    pub fn to_string(&self) -> (text: String)
        ensures
            text@ == Q::formatted(self.repr()),
    {
        Q::format(&self.0)
    }
}

impl<Q: Quantity> View for Value<Q> where Q::Repr: View {
    type V = <Q::Repr as View>::V;

    closed spec fn view(&self) -> Self::V {
        self.0@
    }
}

impl<Q: Quantity> Value<Q> where Q::Repr: View {
    /// The view of a value is the view of its representation.
    pub proof fn lemma_view(self)
        ensures
            self@ == self.repr()@,
    {
    }
}

impl<Q: Quantity> Model for Value<Q> where Q::Repr: Model {
    open spec fn encoded(value: Self::V) -> Datum {
        <Q::Repr as Model>::encoded(value)
    }

    open spec fn decoded(value: Datum) -> Option<Self::V> {
        <Q::Repr as Model>::decoded(value)
    }

    open spec fn mismatch() -> Seq<char> {
        <Q::Repr as Model>::mismatch()
    }

    proof fn lemma_round_trip(value: Self::V) {
        <Q::Repr as Model>::lemma_round_trip(value);
    }

    fn into_variant(self) -> (variant: Variant) {
        self.0.into_variant()
    }

    fn from_variant(variant: Variant) -> (value: Result<Self, Error>) {
        match <Q::Repr as Model>::from_variant(variant) {
            Ok(repr) => Ok(Self(repr)),
            Err(error) => Err(error),
        }
    }
}

impl<Q: Quantity> Clone for Value<Q> where Q::Repr: Clone {
    fn clone(&self) -> (copy: Self)
        ensures
            cloned(self.repr(), copy.repr()),
    {
        Self(self.0.clone())
    }
}

impl<Q: Quantity> PartialEq for Value<Q> where Q::Repr: PartialEq {
    fn eq(&self, other: &Self) -> (same: bool) {
        self.0 == other.0
    }
}

impl<Q: Quantity> PartialEqSpecImpl for Value<Q> where Q::Repr: PartialEq {
    open spec fn obeys_eq_spec() -> bool {
        <Q::Repr as PartialEqSpec>::obeys_eq_spec()
    }

    open spec fn eq_spec(&self, other: &Self) -> bool {
        self.repr().eq_spec(&other.repr())
    }
}

impl<Q: Quantity> PartialOrd for Value<Q> where Q::Repr: PartialOrd {
    fn partial_cmp(&self, other: &Self) -> (order: Option<Ordering>) {
        self.0.partial_cmp(&other.0)
    }
}

impl<Q: Quantity> PartialOrdSpecImpl for Value<Q> where Q::Repr: PartialOrd {
    open spec fn obeys_partial_cmp_spec() -> bool {
        <Q::Repr>::obeys_partial_cmp_spec()
    }

    open spec fn partial_cmp_spec(&self, other: &Self) -> Option<Ordering> {
        self.repr().partial_cmp_spec(&other.repr())
    }
}

/// A quantity can be scaled if its representation can be scaled.
impl<Q: Quantity, S> Mul<S> for Value<Q> where Q::Repr: Mul<S, Output = Q::Repr> {
    type Output = Self;

    fn mul(self, rhs: S) -> (product: Self) {
        Self(self.0.mul(rhs))
    }
}

impl<Q: Quantity, S> MulSpecImpl<S> for Value<Q> where Q::Repr: Mul<S, Output = Q::Repr> {
    open spec fn obeys_mul_spec() -> bool {
        <Q::Repr as MulSpec<S>>::obeys_mul_spec()
    }

    open spec fn mul_req(self, rhs: S) -> bool {
        self.repr().mul_req(rhs)
    }

    open spec fn mul_spec(self, rhs: S) -> Self {
        Self::of(self.repr().mul_spec(rhs))
    }
}

/// A quantity can be added to one of the same species if representations
/// can be added.
impl<Q: Quantity> Add<Self> for Value<Q> where Q::Repr: Add<Q::Repr, Output = Q::Repr> {
    type Output = Self;

    fn add(self, rhs: Self) -> (sum: Self) {
        Self(self.0.add(rhs.0))
    }
}

impl<Q: Quantity> AddSpecImpl<Self> for Value<Q> where Q::Repr: Add<Q::Repr, Output = Q::Repr> {
    open spec fn obeys_add_spec() -> bool {
        <Q::Repr as AddSpec<Q::Repr>>::obeys_add_spec()
    }

    open spec fn add_req(self, rhs: Self) -> bool {
        self.repr().add_req(rhs.repr())
    }

    open spec fn add_spec(self, rhs: Self) -> Self {
        Self::of(self.repr().add_spec(rhs.repr()))
    }
}

/// A quantity can be negated if its representation can be negated.
impl<Q: Quantity> Neg for Value<Q> where Q::Repr: Neg<Output = Q::Repr> {
    type Output = Self;

    fn neg(self) -> (negated: Self) {
        Self(self.0.neg())
    }
}

impl<Q: Quantity> NegSpecImpl for Value<Q> where Q::Repr: Neg<Output = Q::Repr> {
    open spec fn obeys_neg_spec() -> bool {
        <Q::Repr as NegSpec>::obeys_neg_spec()
    }

    open spec fn neg_req(self) -> bool {
        self.repr().neg_req()
    }

    open spec fn neg_spec(self) -> Self {
        Self::of(self.repr().neg_spec())
    }
}

impl<Q: Quantity> FromStr for Value<Q> {
    type Err = Error;

    fn from_str(text: &str) -> (value: Result<Self, Error>)
        ensures
            match Q::parsed(text@) {
                Some(v) => value matches Ok(x) && x.repr() == v,
                None => value matches Err(e) && e@ == Q::parse_error(),
            },
    {
        Self::parse(text)
    }
}

/// Construct a property for a quantity, with an interned name.
pub fn quant<Q: Quantity>(name: &'static str) -> (property: Property<Value<Q>>)
    ensures
        property@ == crate::ident::Name::Text(name@),
{
    prop(name)
}

} // verus!
