//! Conversions between `Variant` and the types that rules work with, by the
//! standard conversion traits. Each goes by the type's [`Model`].

use std::rc::Rc;
use vstd::prelude::*;
use vstd::std_specs::convert::FromSpecImpl;
use vstd::std_specs::convert::TryFromSpecImpl;
use crate::calendar::{CalendarDate, Timestamp};
use crate::ident::IdentSet;
use crate::lattice::Datum;
use crate::property::Model;
use crate::table::Table;
use crate::variant::{Error, Variant};

verus! {

impl From<String> for Variant {
    fn from(value: String) -> (variant: Variant)
        ensures
            variant@ == <String as Model>::encoded(value@),
    {
        value.into_variant()
    }
}

impl FromSpecImpl<String> for Variant {
    open spec fn obeys_from_spec() -> bool {
        false
    }

    open spec fn from_spec(value: String) -> Variant {
        arbitrary()
    }
}

impl TryFrom<Variant> for String {
    type Error = Error;

    fn try_from(variant: Variant) -> (value: Result<String, Error>)
        ensures
            match value {
                Ok(v) => <String as Model>::decoded(variant@) == Some(v@),
                Err(e) => <String as Model>::decoded(variant@) is None && e@ == <String as Model>::mismatch(),
            },
    {
        <String as Model>::from_variant(variant)
    }
}

impl TryFromSpecImpl<Variant> for String {
    open spec fn obeys_try_from_spec() -> bool {
        false
    }

    open spec fn try_from_spec(variant: Variant) -> Result<String, Error> {
        arbitrary()
    }
}

impl From<i64> for Variant {
    fn from(value: i64) -> (variant: Variant)
        ensures
            variant@ == <i64 as Model>::encoded(value@),
    {
        value.into_variant()
    }
}

impl FromSpecImpl<i64> for Variant {
    open spec fn obeys_from_spec() -> bool {
        false
    }

    open spec fn from_spec(value: i64) -> Variant {
        arbitrary()
    }
}

impl TryFrom<Variant> for i64 {
    type Error = Error;

    fn try_from(variant: Variant) -> (value: Result<i64, Error>)
        ensures
            match value {
                Ok(v) => <i64 as Model>::decoded(variant@) == Some(v@),
                Err(e) => <i64 as Model>::decoded(variant@) is None && e@ == <i64 as Model>::mismatch(),
            },
    {
        <i64 as Model>::from_variant(variant)
    }
}

impl TryFromSpecImpl<Variant> for i64 {
    open spec fn obeys_try_from_spec() -> bool {
        false
    }

    open spec fn try_from_spec(variant: Variant) -> Result<i64, Error> {
        arbitrary()
    }
}

impl From<i32> for Variant {
    fn from(value: i32) -> (variant: Variant)
        ensures
            variant@ == <i32 as Model>::encoded(value@),
    {
        value.into_variant()
    }
}

impl FromSpecImpl<i32> for Variant {
    open spec fn obeys_from_spec() -> bool {
        false
    }

    open spec fn from_spec(value: i32) -> Variant {
        arbitrary()
    }
}

impl TryFrom<Variant> for i32 {
    type Error = Error;

    fn try_from(variant: Variant) -> (value: Result<i32, Error>)
        ensures
            match value {
                Ok(v) => <i32 as Model>::decoded(variant@) == Some(v@),
                Err(e) => <i32 as Model>::decoded(variant@) is None && e@ == <i32 as Model>::mismatch(),
            },
    {
        <i32 as Model>::from_variant(variant)
    }
}

impl TryFromSpecImpl<Variant> for i32 {
    open spec fn obeys_try_from_spec() -> bool {
        false
    }

    open spec fn try_from_spec(variant: Variant) -> Result<i32, Error> {
        arbitrary()
    }
}

impl From<u32> for Variant {
    fn from(value: u32) -> (variant: Variant)
        ensures
            variant@ == <u32 as Model>::encoded(value@),
    {
        value.into_variant()
    }
}

impl FromSpecImpl<u32> for Variant {
    open spec fn obeys_from_spec() -> bool {
        false
    }

    open spec fn from_spec(value: u32) -> Variant {
        arbitrary()
    }
}

impl TryFrom<Variant> for u32 {
    type Error = Error;

    fn try_from(variant: Variant) -> (value: Result<u32, Error>)
        ensures
            match value {
                Ok(v) => <u32 as Model>::decoded(variant@) == Some(v@),
                Err(e) => <u32 as Model>::decoded(variant@) is None && e@ == <u32 as Model>::mismatch(),
            },
    {
        <u32 as Model>::from_variant(variant)
    }
}

impl TryFromSpecImpl<Variant> for u32 {
    open spec fn obeys_try_from_spec() -> bool {
        false
    }

    open spec fn try_from_spec(variant: Variant) -> Result<u32, Error> {
        arbitrary()
    }
}

impl From<CalendarDate> for Variant {
    fn from(value: CalendarDate) -> (variant: Variant)
        ensures
            variant@ == <CalendarDate as Model>::encoded(value@),
    {
        value.into_variant()
    }
}

impl FromSpecImpl<CalendarDate> for Variant {
    open spec fn obeys_from_spec() -> bool {
        false
    }

    open spec fn from_spec(value: CalendarDate) -> Variant {
        arbitrary()
    }
}

impl TryFrom<Variant> for CalendarDate {
    type Error = Error;

    fn try_from(variant: Variant) -> (value: Result<CalendarDate, Error>)
        ensures
            match value {
                Ok(v) => <CalendarDate as Model>::decoded(variant@) == Some(v@),
                Err(e) => <CalendarDate as Model>::decoded(variant@) is None && e@ == <CalendarDate as Model>::mismatch(),
            },
    {
        <CalendarDate as Model>::from_variant(variant)
    }
}

impl TryFromSpecImpl<Variant> for CalendarDate {
    open spec fn obeys_try_from_spec() -> bool {
        false
    }

    open spec fn try_from_spec(variant: Variant) -> Result<CalendarDate, Error> {
        arbitrary()
    }
}

impl From<Timestamp> for Variant {
    fn from(value: Timestamp) -> (variant: Variant)
        ensures
            variant@ == <Timestamp as Model>::encoded(value@),
    {
        value.into_variant()
    }
}

impl FromSpecImpl<Timestamp> for Variant {
    open spec fn obeys_from_spec() -> bool {
        false
    }

    open spec fn from_spec(value: Timestamp) -> Variant {
        arbitrary()
    }
}

impl TryFrom<Variant> for Timestamp {
    type Error = Error;

    fn try_from(variant: Variant) -> (value: Result<Timestamp, Error>)
        ensures
            match value {
                Ok(v) => <Timestamp as Model>::decoded(variant@) == Some(v@),
                Err(e) => <Timestamp as Model>::decoded(variant@) is None && e@ == <Timestamp as Model>::mismatch(),
            },
    {
        <Timestamp as Model>::from_variant(variant)
    }
}

impl TryFromSpecImpl<Variant> for Timestamp {
    open spec fn obeys_try_from_spec() -> bool {
        false
    }

    open spec fn try_from_spec(variant: Variant) -> Result<Timestamp, Error> {
        arbitrary()
    }
}

impl From<IdentSet> for Variant {
    fn from(value: IdentSet) -> (variant: Variant)
        ensures
            variant@ == <IdentSet as Model>::encoded(value@),
    {
        value.into_variant()
    }
}

impl FromSpecImpl<IdentSet> for Variant {
    open spec fn obeys_from_spec() -> bool {
        false
    }

    open spec fn from_spec(value: IdentSet) -> Variant {
        arbitrary()
    }
}

impl TryFrom<Variant> for IdentSet {
    type Error = Error;

    fn try_from(variant: Variant) -> (value: Result<IdentSet, Error>)
        ensures
            match value {
                Ok(v) => <IdentSet as Model>::decoded(variant@) == Some(v@),
                Err(e) => <IdentSet as Model>::decoded(variant@) is None && e@ == <IdentSet as Model>::mismatch(),
            },
    {
        <IdentSet as Model>::from_variant(variant)
    }
}

impl TryFromSpecImpl<Variant> for IdentSet {
    open spec fn obeys_try_from_spec() -> bool {
        false
    }

    open spec fn try_from_spec(variant: Variant) -> Result<IdentSet, Error> {
        arbitrary()
    }
}

impl From<Rc<Table>> for Variant {
    fn from(value: Rc<Table>) -> (variant: Variant)
        ensures
            variant@ == <Rc<Table> as Model>::encoded(value@),
    {
        value.into_variant()
    }
}

impl FromSpecImpl<Rc<Table>> for Variant {
    open spec fn obeys_from_spec() -> bool {
        false
    }

    open spec fn from_spec(value: Rc<Table>) -> Variant {
        arbitrary()
    }
}

impl TryFrom<Variant> for Rc<Table> {
    type Error = Error;

    fn try_from(variant: Variant) -> (value: Result<Rc<Table>, Error>)
        ensures
            match value {
                Ok(v) => <Rc<Table> as Model>::decoded(variant@) == Some(v@),
                Err(e) => <Rc<Table> as Model>::decoded(variant@) is None && e@ == <Rc<Table> as Model>::mismatch(),
            },
    {
        <Rc<Table> as Model>::from_variant(variant)
    }
}

impl TryFromSpecImpl<Variant> for Rc<Table> {
    open spec fn obeys_try_from_spec() -> bool {
        false
    }

    open spec fn try_from_spec(variant: Variant) -> Result<Rc<Table>, Error> {
        arbitrary()
    }
}

impl From<Error> for Variant {
    fn from(error: Error) -> (variant: Variant)
        ensures
            variant@ == Datum::Invalid(error@),
    {
        Variant::Invalid(error)
    }
}

impl FromSpecImpl<Error> for Variant {
    open spec fn obeys_from_spec() -> bool {
        true
    }

    open spec fn from_spec(error: Error) -> Variant {
        Variant::Invalid(error)
    }
}

impl<A: Model> From<Result<A, Error>> for Variant {
    /// The value of a computation that may have failed: the value, or an
    /// invalid value with the error's description.
    fn from(value: Result<A, Error>) -> (variant: Variant)
        ensures
            variant@ == match value {
                Ok(a) => A::encoded(a@),
                Err(e) => Datum::Invalid(e@),
            },
    {
        match value {
            Ok(a) => a.into_variant(),
            Err(e) => Variant::Invalid(e),
        }
    }
}

impl<A: Model> FromSpecImpl<Result<A, Error>> for Variant {
    open spec fn obeys_from_spec() -> bool {
        false
    }

    open spec fn from_spec(value: Result<A, Error>) -> Variant {
        arbitrary()
    }
}

impl From<&str> for Error {
    fn from(detail: &str) -> (error: Error)
        ensures
            error@ == detail@,
    {
        Error::new(detail)
    }
}

impl FromSpecImpl<&str> for Error {
    open spec fn obeys_from_spec() -> bool {
        false
    }

    open spec fn from_spec(detail: &str) -> Error {
        arbitrary()
    }
}

impl From<String> for Error {
    fn from(detail: String) -> (error: Error)
        ensures
            error@ == detail@,
    {
        Error::Detail(detail)
    }
}

impl FromSpecImpl<String> for Error {
    open spec fn obeys_from_spec() -> bool {
        true
    }

    open spec fn from_spec(detail: String) -> Error {
        Error::Detail(detail)
    }
}

} // verus!
