//! Rules: propagators built from ordinary typed functions.
//!
//! A `Rule` consists of a dependent `Property`, a dependency `Path` or a
//! tuple of dependency paths, and a function connecting these. It is
//! constructed by an expression such as `infer(prop).from(path).rule(func)`:
//! `infer` makes the head of the rule with the dependent property, `from`
//! adds a dependency path and may be chained to add up to three, and `rule`
//! takes the function and returns the propagator.
//!
//! The function takes a single argument, either the dependency value or a
//! tuple of two or three dependency values. It is not invoked unless all
//! dependency values are available. It returns an optional dependent value.

use vstd::prelude::*;
use crate::ident::{Ident, IdentPath, Name};
use crate::lattice::Datum;
use crate::propagator::Propagator;
use crate::property::{Model, Path, Property, extracted};
use crate::table::Table;
use crate::variant::{Error, Variant};

verus! {

/// A polymorphic function implementing `Propagator`.
pub struct Rule<H, T, F> {
    output: H,
    input: T,
    func: F,
}

/// A function that yields a value or nothing yet.
pub struct FuncOptional<F>(F);

/// A function that yields a value, nothing yet, or an error.
pub struct FuncFallible<F>(F);

/// The view of an optional value.
pub open spec fn option_view<A: View>(value: Option<A>) -> Option<A::V> {
    match value {
        Some(a) => Some(a@),
        None => None,
    }
}

/// The view of what a fallible function returns: the value or nothing, or
/// the description of the error.
pub open spec fn result_view<A: View>(value: Result<Option<A>, Error>) -> Result<
    Option<A::V>,
    Seq<char>,
> {
    match value {
        Ok(a) => Ok(option_view(a)),
        Err(e) => Err(e@),
    }
}

/// Whether `f` can stand in a rule: it accepts every input, and what it
/// returns depends on nothing but the value that its input stands for.
pub open spec fn is_pure<I: View, A: View, F: Fn(I) -> Option<A>>(f: F) -> bool {
    &&& forall|i: I| #[trigger] call_requires(f, (i,))
    &&& forall|i1: I, i2: I, r1: Option<A>, r2: Option<A>|
        i1@ == i2@ && #[trigger] call_ensures(f, (i1,), r1) && #[trigger] call_ensures(f, (i2,), r2)
            ==> option_view(r1) == option_view(r2)
}

/// Whether the fallible function `f` can stand in a rule: as [`is_pure`].
pub open spec fn is_pure_fallible<I: View, A: View, F: Fn(I) -> Result<Option<A>, Error>>(
    f: F,
) -> bool {
    &&& forall|i: I| #[trigger] call_requires(f, (i,))
    &&& forall|i1: I, i2: I, r1: Result<Option<A>, Error>, r2: Result<Option<A>, Error>|
        i1@ == i2@ && #[trigger] call_ensures(f, (i1,), r1) && #[trigger] call_ensures(f, (i2,), r2)
            ==> result_view(r1) == result_view(r2)
}

/// Whether `f` may return something that stands for `out` for an input
/// that stands for `input`.
pub open spec fn may_return<I: View, A: View, F: Fn(I) -> Option<A>>(
    f: F,
    input: I::V,
    out: Option<A::V>,
) -> bool {
    exists|i: I, r: Option<A>|
        i@ == input && #[trigger] call_ensures(f, (i,), r) && option_view(r) == out
}

/// What `f` returns for an input that stands for `input`.
pub open spec fn applied<I: View, A: View, F: Fn(I) -> Option<A>>(f: F, input: I::V) -> Option<
    A::V,
> {
    choose|out: Option<A::V>| may_return::<I, A, F>(f, input, out)
}

/// Whether the fallible `f` may return something that stands for `out` for
/// an input that stands for `input`.
pub open spec fn may_return_fallible<I: View, A: View, F: Fn(I) -> Result<Option<A>, Error>>(
    f: F,
    input: I::V,
    out: Result<Option<A::V>, Seq<char>>,
) -> bool {
    exists|i: I, r: Result<Option<A>, Error>|
        i@ == input && #[trigger] call_ensures(f, (i,), r) && result_view(r) == out
}

/// What the fallible `f` returns for an input that stands for `input`.
pub open spec fn applied_fallible<I: View, A: View, F: Fn(I) -> Result<Option<A>, Error>>(
    f: F,
    input: I::V,
) -> Result<Option<A::V>, Seq<char>> {
    choose|out: Result<Option<A::V>, Seq<char>>| may_return_fallible::<I, A, F>(f, input, out)
}

/// What a rule with the function `f` yields when its dependencies have the
/// values `input`: nothing while a dependency is missing or `f` returns
/// nothing, else the value that `f` returns, stored as a table value.
pub open spec fn yielded<I: View, A: Model, F: Fn(I) -> Option<A>>(
    f: F,
    input: Option<I::V>,
) -> Option<Datum> {
    match input {
        None => None,
        Some(i) => match applied::<I, A, F>(f, i) {
            Some(a) => Some(A::encoded(a)),
            None => None,
        },
    }
}

/// What a rule with the fallible function `f` yields when its dependencies
/// have the values `input`: as [`yielded`], and an invalid value with the
/// error's description where `f` fails.
pub open spec fn yielded_fallible<I: View, A: Model, F: Fn(I) -> Result<Option<A>, Error>>(
    f: F,
    input: Option<I::V>,
) -> Option<Datum> {
    match input {
        None => None,
        Some(i) => match applied_fallible::<I, A, F>(f, i) {
            Ok(Some(a)) => Some(A::encoded(a)),
            Ok(None) => None,
            Err(e) => Some(Datum::Invalid(e)),
        },
    }
}

/// Whether what [`applied`] names for the input is something that `f` did
/// return for it. It is, wherever `f` has been called on such an input.
pub open spec fn witnessed<I: View, A: View, F: Fn(I) -> Option<A>>(
    f: F,
    input: Option<I::V>,
) -> bool {
    input matches Some(i) ==> may_return::<I, A, F>(f, i, applied::<I, A, F>(f, i))
}

/// Whether what [`applied_fallible`] names for the input is something that
/// `f` did return for it.
pub open spec fn witnessed_fallible<I: View, A: View, F: Fn(I) -> Result<Option<A>, Error>>(
    f: F,
    input: Option<I::V>,
) -> bool {
    input matches Some(i) ==> may_return_fallible::<I, A, F>(
        f,
        i,
        applied_fallible::<I, A, F>(f, i),
    )
}

/// The two values, if both are there.
pub open spec fn both<X, Y>(x: Option<X>, y: Option<Y>) -> Option<(X, Y)> {
    match (x, y) {
        (Some(x), Some(y)) => Some((x, y)),
        _ => None,
    }
}

/// The three values, if all are there.
pub open spec fn all_three<X, Y, Z>(x: Option<X>, y: Option<Y>, z: Option<Z>) -> Option<(X, Y, Z)> {
    match (x, y, z) {
        (Some(x), Some(y), Some(z)) => Some((x, y, z)),
        _ => None,
    }
}

/// Call `f` on `input` and give back what it returns, as a table value.
fn apply<I: View, A: Model, F: Fn(I) -> Option<A>>(f: &F, input: Option<I>) -> (value: Option<
    Variant,
>)
    requires
        is_pure::<I, A, F>(*f),
    ensures
        option_view(value) == yielded::<I, A, F>(*f, option_view(input)),
        witnessed::<I, A, F>(*f, option_view(input)),
{
    match input {
        None => None,
        Some(i) => {
            let ghost given = i@;
            let returned = f(i);
            proof {
                assert(may_return::<I, A, F>(*f, given, option_view(returned)));
                assert(applied::<I, A, F>(*f, given) == option_view(returned));
            }
            match returned {
                Some(a) => Some(a.into_variant()),
                None => None,
            }
        },
    }
}

/// Call the fallible `f` on `input` and give back what it returns, as a
/// table value.
fn apply_fallible<I: View, A: Model, F: Fn(I) -> Result<Option<A>, Error>>(
    f: &F,
    input: Option<I>,
) -> (value: Option<Variant>)
    requires
        is_pure_fallible::<I, A, F>(*f),
    ensures
        option_view(value) == yielded_fallible::<I, A, F>(*f, option_view(input)),
        witnessed_fallible::<I, A, F>(*f, option_view(input)),
{
    match input {
        None => None,
        Some(i) => {
            let ghost given = i@;
            let returned = f(i);
            proof {
                assert(may_return_fallible::<I, A, F>(*f, given, result_view(returned)));
                assert(applied_fallible::<I, A, F>(*f, given) == result_view(returned));
            }
            match returned {
                Ok(Some(a)) => Some(a.into_variant()),
                Ok(None) => None,
                Err(e) => Some(Variant::Invalid(e)),
            }
        },
    }
}

impl<A, T, F> Rule<Property<A>, T, F> {
    /// The name of the property that the rule produces values for.
    pub closed spec fn head(&self) -> Name {
        self.output@
    }
}

impl<H, T, F> Rule<H, T, FuncOptional<F>> {
    /// The function of the rule.
    pub closed spec fn function(&self) -> F {
        self.func.0
    }
}

impl<H, T, F> Rule<H, T, FuncFallible<F>> {
    /// The function of the rule.
    pub closed spec fn function(&self) -> F {
        self.func.0
    }
}

impl<H, B, F> Rule<H, Path<B>, F> {
    /// The dependency paths of the rule, in the order in which they were
    /// added.
    pub closed spec fn paths(&self) -> Seq<Seq<Name>> {
        seq![self.input@]
    }
}

impl<H, B, C, F> Rule<H, (Path<B>, Path<C>), F> {
    /// The dependency paths of the rule, in the order in which they were
    /// added.
    pub closed spec fn paths(&self) -> Seq<Seq<Name>> {
        seq![self.input.0@, self.input.1@]
    }
}

impl<H, B, C, D, F> Rule<H, (Path<B>, Path<C>, Path<D>), F> {
    /// The dependency paths of the rule, in the order in which they were
    /// added.
    pub closed spec fn paths(&self) -> Seq<Seq<Name>> {
        seq![self.input.0@, self.input.1@, self.input.2@]
    }
}

/// The head of a `Rule` that produces values of type `A` for the given
/// `Property`.
pub fn infer<A>(prop: &Property<A>) -> (rule: Rule<Property<A>, (), ()>)
    ensures
        rule.head() == prop@,
{
    Rule { output: prop.clone(), input: (), func: () }
}

impl<A> Rule<Property<A>, (), ()> {
    /// Add the 1st dependency to a rule. The dependency is a path of type
    /// `B`.
    pub fn from<B, P: Into<Path<B>>>(self, path: P) -> (rule: Rule<Property<A>, Path<B>, ()>)
        ensures
            rule.head() == self.head(),
            exists|p: Path<B>| #[trigger] call_ensures(P::into, (path,), p) && rule.paths() == seq![p@],
    {
        Rule { output: self.output, input: path.into(), func: () }
    }
}

impl<A, B> Rule<Property<A>, Path<B>, ()> {
    /// Add the 2nd dependency to a rule. The dependency is a path of type
    /// `C`.
    pub fn from<C, P: Into<Path<C>>>(self, path: P) -> (rule: Rule<
        Property<A>,
        (Path<B>, Path<C>),
        (),
    >)
        ensures
            rule.head() == self.head(),
            exists|p: Path<C>| #[trigger]
                call_ensures(P::into, (path,), p) && rule.paths() == self.paths().push(p@),
    {
        let rule = Rule { output: self.output, input: (self.input, path.into()), func: () };
        assert(rule.paths() =~= self.paths().push(rule.input.1@));
        rule
    }
}

impl<A: Model, B: Model> Rule<Property<A>, Path<B>, ()> {
    /// Add an optional function to complete a rule of arity 1. Return a
    /// `Propagator` object.
    pub fn rule<F: Fn(B) -> Option<A>>(self, func: F) -> (rule: Box<
        Rule<Property<A>, Path<B>, FuncOptional<F>>,
    >)
        requires
            is_pure::<B, A, F>(func),
        ensures
            rule.valid(),
            rule.function() == func,
            rule.head() == self.head(),
            rule.paths() == self.paths(),
            rule.target_name() == self.head(),
            rule.dependency_paths() == self.paths(),
            forall|state: Map<Name, Datum>| #[trigger]
                rule.fired(state) == yielded::<B, A, F>(
                    func,
                    extracted::<B>(state, self.paths()[0]),
                ),
    {
        Box::new(Rule { output: self.output, input: self.input, func: FuncOptional(func) })
    }

    /// Add a fallible function to complete a rule of arity 1. Return a
    /// `Propagator` object.
    pub fn rule_fallible<F: Fn(B) -> Result<Option<A>, Error>>(self, func: F) -> (rule: Box<
        Rule<Property<A>, Path<B>, FuncFallible<F>>,
    >)
        requires
            is_pure_fallible::<B, A, F>(func),
        ensures
            rule.valid(),
            rule.function() == func,
            rule.head() == self.head(),
            rule.paths() == self.paths(),
            rule.target_name() == self.head(),
            rule.dependency_paths() == self.paths(),
            forall|state: Map<Name, Datum>| #[trigger]
                rule.fired(state) == yielded_fallible::<B, A, F>(
                    func,
                    extracted::<B>(state, self.paths()[0]),
                ),
    {
        Box::new(Rule { output: self.output, input: self.input, func: FuncFallible(func) })
    }
}

impl<A, B, C> Rule<Property<A>, (Path<B>, Path<C>), ()> {
    /// Add the 3rd dependency to a rule. The dependency is a path of type
    /// `D`.
    pub fn from<D, P: Into<Path<D>>>(self, path: P) -> (rule: Rule<
        Property<A>,
        (Path<B>, Path<C>, Path<D>),
        (),
    >)
        ensures
            rule.head() == self.head(),
            exists|p: Path<D>| #[trigger]
                call_ensures(P::into, (path,), p) && rule.paths() == self.paths().push(p@),
    {
        let rule = Rule {
            output: self.output,
            input: (self.input.0, self.input.1, path.into()),
            func: (),
        };
        assert(rule.paths() =~= self.paths().push(rule.input.2@));
        rule
    }
}

impl<A: Model, B: Model, C: Model> Rule<Property<A>, (Path<B>, Path<C>), ()> {
    /// Add an optional function to complete a rule of arity 2. Return a
    /// `Propagator` object.
    pub fn rule<F: Fn((B, C)) -> Option<A>>(self, func: F) -> (rule: Box<
        Rule<Property<A>, (Path<B>, Path<C>), FuncOptional<F>>,
    >)
        requires
            is_pure::<(B, C), A, F>(func),
        ensures
            rule.valid(),
            rule.function() == func,
            rule.head() == self.head(),
            rule.paths() == self.paths(),
            rule.target_name() == self.head(),
            rule.dependency_paths() == self.paths(),
            forall|state: Map<Name, Datum>| #[trigger]
                rule.fired(state) == yielded::<(B, C), A, F>(
                    func,
                    both(
                        extracted::<B>(state, self.paths()[0]),
                        extracted::<C>(state, self.paths()[1]),
                    ),
                ),
    {
        Box::new(Rule { output: self.output, input: self.input, func: FuncOptional(func) })
    }
}

impl<A: Model, B: Model, C: Model, D: Model> Rule<Property<A>, (Path<B>, Path<C>, Path<D>), ()> {
    /// Add an optional function to complete a rule of arity 3. Return a
    /// `Propagator` object.
    pub fn rule<F: Fn((B, C, D)) -> Option<A>>(self, func: F) -> (rule: Box<
        Rule<Property<A>, (Path<B>, Path<C>, Path<D>), FuncOptional<F>>,
    >)
        requires
            is_pure::<(B, C, D), A, F>(func),
        ensures
            rule.valid(),
            rule.function() == func,
            rule.head() == self.head(),
            rule.paths() == self.paths(),
            rule.target_name() == self.head(),
            rule.dependency_paths() == self.paths(),
            forall|state: Map<Name, Datum>| #[trigger]
                rule.fired(state) == yielded::<(B, C, D), A, F>(
                    func,
                    all_three(
                        extracted::<B>(state, self.paths()[0]),
                        extracted::<C>(state, self.paths()[1]),
                        extracted::<D>(state, self.paths()[2]),
                    ),
                ),
    {
        Box::new(Rule { output: self.output, input: self.input, func: FuncOptional(func) })
    }
}

impl<A: Model, B: Model, F: Fn(B) -> Option<A>> Propagator for Rule<
    Property<A>,
    Path<B>,
    FuncOptional<F>,
> {
    closed spec fn valid(&self) -> bool {
        is_pure::<B, A, F>(self.func.0)
    }

    closed spec fn target_name(&self) -> Name {
        self.output@
    }

    closed spec fn dependency_paths(&self) -> Seq<Seq<Name>> {
        seq![self.input@]
    }

    closed spec fn fired(&self, state: Map<Name, Datum>) -> Option<Datum> {
        yielded::<B, A, F>(self.func.0, extracted::<B>(state, self.input@))
    }

    fn target(&self) -> (target: &Ident) {
        self.output.ident()
    }

    fn dependencies(&self) -> (paths: Vec<&IdentPath>) {
        let mut paths: Vec<&IdentPath> = Vec::new();
        paths.push(self.input.ident_path());
        paths
    }

    fn fire(&self, state: &Table) -> (value: Option<Variant>)
        ensures
            witnessed::<B, A, F>(self.function(), extracted::<B>(state@, self.paths()[0])),
    {
        apply::<B, A, F>(&self.func.0, self.input.query(state))
    }
}

impl<A: Model, B: Model, F: Fn(B) -> Result<Option<A>, Error>> Propagator for Rule<
    Property<A>,
    Path<B>,
    FuncFallible<F>,
> {
    closed spec fn valid(&self) -> bool {
        is_pure_fallible::<B, A, F>(self.func.0)
    }

    closed spec fn target_name(&self) -> Name {
        self.output@
    }

    closed spec fn dependency_paths(&self) -> Seq<Seq<Name>> {
        seq![self.input@]
    }

    closed spec fn fired(&self, state: Map<Name, Datum>) -> Option<Datum> {
        yielded_fallible::<B, A, F>(self.func.0, extracted::<B>(state, self.input@))
    }

    fn target(&self) -> (target: &Ident) {
        self.output.ident()
    }

    fn dependencies(&self) -> (paths: Vec<&IdentPath>) {
        let mut paths: Vec<&IdentPath> = Vec::new();
        paths.push(self.input.ident_path());
        paths
    }

    fn fire(&self, state: &Table) -> (value: Option<Variant>)
        ensures
            witnessed_fallible::<B, A, F>(
                self.function(),
                extracted::<B>(state@, self.paths()[0]),
            ),
    {
        apply_fallible::<B, A, F>(&self.func.0, self.input.query(state))
    }
}

impl<A: Model, B: Model, C: Model, F: Fn((B, C)) -> Option<A>> Propagator for Rule<
    Property<A>,
    (Path<B>, Path<C>),
    FuncOptional<F>,
> {
    closed spec fn valid(&self) -> bool {
        is_pure::<(B, C), A, F>(self.func.0)
    }

    closed spec fn target_name(&self) -> Name {
        self.output@
    }

    closed spec fn dependency_paths(&self) -> Seq<Seq<Name>> {
        seq![self.input.0@, self.input.1@]
    }

    closed spec fn fired(&self, state: Map<Name, Datum>) -> Option<Datum> {
        yielded::<(B, C), A, F>(
            self.func.0,
            both(extracted::<B>(state, self.input.0@), extracted::<C>(state, self.input.1@)),
        )
    }

    fn target(&self) -> (target: &Ident) {
        self.output.ident()
    }

    fn dependencies(&self) -> (paths: Vec<&IdentPath>) {
        let mut paths: Vec<&IdentPath> = Vec::new();
        paths.push(self.input.0.ident_path());
        paths.push(self.input.1.ident_path());
        paths
    }

    fn fire(&self, state: &Table) -> (value: Option<Variant>)
        ensures
            witnessed::<(B, C), A, F>(
                self.function(),
                both(
                    extracted::<B>(state@, self.paths()[0]),
                    extracted::<C>(state@, self.paths()[1]),
                ),
            ),
    {
        let input = match self.input.0.query(state) {
            None => None,
            Some(b) => match self.input.1.query(state) {
                None => None,
                Some(c) => Some((b, c)),
            },
        };
        apply::<(B, C), A, F>(&self.func.0, input)
    }
}

impl<A: Model, B: Model, C: Model, D: Model, F: Fn((B, C, D)) -> Option<A>> Propagator for Rule<
    Property<A>,
    (Path<B>, Path<C>, Path<D>),
    FuncOptional<F>,
> {
    closed spec fn valid(&self) -> bool {
        is_pure::<(B, C, D), A, F>(self.func.0)
    }

    closed spec fn target_name(&self) -> Name {
        self.output@
    }

    closed spec fn dependency_paths(&self) -> Seq<Seq<Name>> {
        seq![self.input.0@, self.input.1@, self.input.2@]
    }

    closed spec fn fired(&self, state: Map<Name, Datum>) -> Option<Datum> {
        yielded::<(B, C, D), A, F>(
            self.func.0,
            all_three(
                extracted::<B>(state, self.input.0@),
                extracted::<C>(state, self.input.1@),
                extracted::<D>(state, self.input.2@),
            ),
        )
    }

    fn target(&self) -> (target: &Ident) {
        self.output.ident()
    }

    fn dependencies(&self) -> (paths: Vec<&IdentPath>) {
        let mut paths: Vec<&IdentPath> = Vec::new();
        paths.push(self.input.0.ident_path());
        paths.push(self.input.1.ident_path());
        paths.push(self.input.2.ident_path());
        paths
    }

    fn fire(&self, state: &Table) -> (value: Option<Variant>)
        ensures
            witnessed::<(B, C, D), A, F>(
                self.function(),
                all_three(
                    extracted::<B>(state@, self.paths()[0]),
                    extracted::<C>(state@, self.paths()[1]),
                    extracted::<D>(state@, self.paths()[2]),
                ),
            ),
    {
        let input = match self.input.0.query(state) {
            None => None,
            Some(b) => match self.input.1.query(state) {
                None => None,
                Some(c) => match self.input.2.query(state) {
                    None => None,
                    Some(d) => Some((b, c, d)),
                },
            },
        };
        apply::<(B, C, D), A, F>(&self.func.0, input)
    }
}

} // verus!
