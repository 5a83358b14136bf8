//! Propagators and the two ways of evaluating a list of them.

use vstd::prelude::*;
use crate::decimal::{decimal, push_decimal};
use crate::ident::{Ident, IdentPath, Name};
use crate::lattice::{Datum, join};
use crate::table::{Table, lookup};
use crate::text::push_chars;
use crate::variant::{Error, Variant};

verus! {

/// A `Propagator` generates a new value from the existing values in a
/// `Table`.
///
/// It designates the entry to update with its output via `target`, and
/// declares which entries influence its output via `dependencies`. The
/// declaration is advisory: evaluation never reads it.
///
/// Firing is a pure read of the table: what a propagator yields depends on
/// the entries of the table alone, as `fired` states.
pub trait Propagator {
    /// Whether the propagator may be fired: firing it is a pure read of the
    /// table. The constructors of this crate establish it; evaluation
    /// requires it.
    spec fn valid(&self) -> bool;

    /// The name of the entry that the propagator writes.
    spec fn target_name(&self) -> Name;

    /// The paths that the propagator declares to depend on.
    spec fn dependency_paths(&self) -> Seq<Seq<Name>>;

    /// What the propagator yields for a table with the given entries: a
    /// value for its target, or nothing yet.
    spec fn fired(&self, state: Map<Name, Datum>) -> Option<Datum>;

    /// The `Ident` of the table entry to update.
    fn target(&self) -> (target: &Ident)
        ensures
            target@ == self.target_name(),
    ;

    /// The `IdentPath`s of the table entries that influence this
    /// propagator.
    fn dependencies(&self) -> (paths: Vec<&IdentPath>)
        ensures
            paths@.len() == self.dependency_paths().len(),
            forall|i: int| 0 <= i < paths@.len() ==> (#[trigger] paths@[i])@ == self.dependency_paths()[i],
    ;

    /// Evaluate a new value based on the current values in the `Table`.
    fn fire(&self, state: &Table) -> (value: Option<Variant>)
        requires
            self.valid(),
        ensures
            match value {
                Some(v) => self.fired(state@) == Some(v@),
                None => self.fired(state@) is None,
            },
    ;
}

/// What a value handed to a propagator function stands for.
pub open spec fn input_view(input: Option<&Variant>) -> Option<Datum> {
    match input {
        Some(value) => Some(value@),
        None => None,
    }
}

/// What the values handed to a propagator function stand for.
pub open spec fn inputs_view(input: Seq<Option<&Variant>>) -> Seq<Option<Datum>> {
    Seq::new(input.len(), |i: int| input_view(input[i]))
}

/// What the paths lead to in a table, path by path.
pub open spec fn looked_up(state: Map<Name, Datum>, paths: Seq<Seq<Name>>) -> Seq<Option<Datum>> {
    Seq::new(paths.len(), |i: int| lookup(state, paths[i]))
}

/// The value that an optional variant stands for.
pub open spec fn option_datum(value: Option<Variant>) -> Option<Datum> {
    match value {
        Some(v) => Some(v@),
        None => None,
    }
}

/// Whether `f` can stand in a propagator: it accepts every input, and what
/// it returns depends on nothing but the values that its input stands for.
pub open spec fn is_pure_func<F: Fn(&[Option<&Variant>]) -> Option<Variant>>(f: F) -> bool {
    &&& forall|input: &[Option<&Variant>]| #[trigger] call_requires(f, (input,))
    &&& forall|a: &[Option<&Variant>], b: &[Option<&Variant>], x: Option<Variant>, y: Option<Variant>|
        inputs_view(a@) == inputs_view(b@) && #[trigger] call_ensures(f, (a,), x)
            && #[trigger] call_ensures(f, (b,), y) ==> option_datum(x) == option_datum(y)
}

/// Whether `f` may return something that stands for `out` for an input
/// that stands for `input`.
pub open spec fn func_may_return<F: Fn(&[Option<&Variant>]) -> Option<Variant>>(
    f: F,
    input: Seq<Option<Datum>>,
    out: Option<Datum>,
) -> bool {
    exists|given: &[Option<&Variant>], r: Option<Variant>|
        inputs_view(given@) == input && #[trigger] call_ensures(f, (given,), r) && option_datum(r)
            == out
}

/// What `f` returns for an input that stands for `input`.
pub open spec fn func_applied<F: Fn(&[Option<&Variant>]) -> Option<Variant>>(
    f: F,
    input: Seq<Option<Datum>>,
) -> Option<Datum> {
    choose|out: Option<Datum>| func_may_return(f, input, out)
}

/// Whether what [`func_applied`] names for the input is something that `f`
/// did return for it. It is, wherever `f` has been called on such an input.
pub open spec fn func_witnessed<F: Fn(&[Option<&Variant>]) -> Option<Variant>>(
    f: F,
    input: Seq<Option<Datum>>,
) -> bool {
    func_may_return(f, input, func_applied(f, input))
}

/// A `Propagator` implemented by a function of a variable number of
/// `Variant`s optionally producing a `Variant`.
///
/// The function is handed, for each dependency path in order, the value
/// that the path leads to in the table, or `None` where it leads nowhere.
pub struct PropagatorFunc<F> {
    target: Ident,
    dependencies: Vec<IdentPath>,
    func: F,
}

impl<F: Fn(&[Option<&Variant>]) -> Option<Variant>> PropagatorFunc<F> {
    /// The paths of the dependencies, in order.
    pub closed spec fn paths(&self) -> Seq<Seq<Name>> {
        Seq::new(self.dependencies@.len(), |i: int| self.dependencies@[i]@)
    }

    /// The function of the propagator.
    pub closed spec fn function(&self) -> F {
        self.func
    }

    /// Create a general `Propagator`.
    pub fn new(target: Ident, deps: Vec<IdentPath>, func: F) -> (propagator: Box<
        PropagatorFunc<F>,
    >)
        requires
            is_pure_func(func),
        ensures
            propagator.valid(),
            propagator.function() == func,
            propagator.paths() == Seq::new(deps@.len(), |i: int| deps@[i]@),
            propagator.target_name() == target@,
            propagator.dependency_paths() == Seq::new(deps@.len(), |i: int| deps@[i]@),
            forall|state: Map<Name, Datum>| #[trigger]
                propagator.fired(state) == func_applied(
                    func,
                    looked_up(state, propagator.dependency_paths()),
                ),
    {
        Box::new(PropagatorFunc { target, dependencies: deps, func })
    }
}

impl<F: Fn(&[Option<&Variant>]) -> Option<Variant>> Propagator for PropagatorFunc<F> {
    closed spec fn valid(&self) -> bool {
        is_pure_func(self.func)
    }

    closed spec fn target_name(&self) -> Name {
        self.target@
    }

    closed spec fn dependency_paths(&self) -> Seq<Seq<Name>> {
        self.paths()
    }

    closed spec fn fired(&self, state: Map<Name, Datum>) -> Option<Datum> {
        func_applied(self.func, looked_up(state, self.paths()))
    }

    fn target(&self) -> (target: &Ident) {
        &self.target
    }

    fn dependencies(&self) -> (paths: Vec<&IdentPath>) {
        let mut paths: Vec<&IdentPath> = Vec::new();
        let mut i: usize = 0;
        while i < self.dependencies.len()
            invariant
                i <= self.dependencies@.len(),
                paths@.len() == i,
                forall|j: int| 0 <= j < i ==> (#[trigger] paths@[j])@ == self.dependencies@[j]@,
            decreases self.dependencies@.len() - i,
        {
            paths.push(&self.dependencies[i]);
            i += 1;
        }
        paths
    }

    fn fire(&self, state: &Table) -> (value: Option<Variant>)
        ensures
            func_witnessed(self.function(), looked_up(state@, self.paths())),
    {
        let mut input: Vec<Option<&Variant>> = Vec::new();
        let mut i: usize = 0;
        while i < self.dependencies.len()
            invariant
                i <= self.dependencies@.len(),
                input@.len() == i,
                forall|j: int|
                    0 <= j < i ==> input_view(#[trigger] input@[j]) == lookup(
                        state@,
                        self.dependencies@[j]@,
                    ),
            decreases self.dependencies@.len() - i,
        {
            let found = state.get_path(&self.dependencies[i]);
            input.push(found);
            i += 1;
        }
        let returned = (self.func)(input.as_slice());
        proof {
            let given = looked_up(state@, self.paths());
            assert(inputs_view(input@) =~= given);
            assert(func_may_return(self.func, given, option_datum(returned)));
        }
        returned
    }
}

/// A corpus of propagators.
pub type Propagators = Vec<Box<dyn Propagator>>;

/// Whether every propagator of the list may be fired.
pub open spec fn all_valid<P: Propagator + ?Sized>(rules: Seq<Box<P>>) -> bool {
    forall|i: int| 0 <= i < rules.len() ==> #[trigger] rules[i].valid()
}

/// The table after one propagator had its turn in a priority fill: if its
/// target is absent and it yields a value, the target holds that value;
/// otherwise nothing changes.
pub open spec fn fill_step<P: Propagator + ?Sized>(
    table: Map<Name, Datum>,
    rule: Box<P>,
) -> Map<Name, Datum> {
    if table.dom().contains(rule.target_name()) {
        table
    } else {
        match rule.fired(table) {
            Some(value) => table.insert(rule.target_name(), value),
            None => table,
        }
    }
}

/// The table after the first `n` propagators had their turn in a priority
/// fill, in list order.
pub open spec fn filled<P: Propagator + ?Sized>(
    table: Map<Name, Datum>,
    rules: Seq<Box<P>>,
    n: nat,
) -> Map<Name, Datum>
    decreases n,
{
    if n == 0 {
        table
    } else {
        fill_step(filled(table, rules, (n - 1) as nat), rules[n - 1])
    }
}

/// The number of entries that the first `n` propagators filled.
pub open spec fn fill_count<P: Propagator + ?Sized>(
    table: Map<Name, Datum>,
    rules: Seq<Box<P>>,
    n: nat,
) -> nat
    decreases n,
{
    if n == 0 {
        0
    } else {
        let before = filled(table, rules, (n - 1) as nat);
        fill_count(table, rules, (n - 1) as nat) + if fill_step(before, rules[n - 1]) != before {
            1nat
        } else {
            0nat
        }
    }
}

/// A priority fill writes no entry twice: what the table holds under a key,
/// it holds under that key after any number of turns.
pub proof fn lemma_filled_keeps<P: Propagator + ?Sized>(
    table: Map<Name, Datum>,
    rules: Seq<Box<P>>,
    n: nat,
    key: Name,
)
    requires
        n <= rules.len(),
        table.dom().contains(key),
    ensures
        filled(table, rules, n).dom().contains(key),
        filled(table, rules, n)[key] == table[key],
    decreases n,
{
    if n > 0 {
        lemma_filled_keeps(table, rules, (n - 1) as nat, key);
    }
}

/// Evaluate rules in priority order. The first result for a given property
/// stands. Each rule is evaluated at most once and no joins are performed.
/// Returns the number of entries filled.
pub fn evaluate_priority_once<P: Propagator + ?Sized>(
    table: &mut Table,
    rules: &Vec<Box<P>>,
) -> (changes: usize)
    requires
        all_valid(rules@),
    ensures
        final(table)@ == filled(old(table)@, rules@, rules@.len()),
        changes == fill_count(old(table)@, rules@, rules@.len()),
        changes <= rules@.len(),
{
    let mut changes: usize = 0;
    let mut i: usize = 0;
    while i < rules.len()
        invariant
            i <= rules@.len(),
            all_valid(rules@),
            changes <= i,
            table@ == filled(old(table)@, rules@, i as nat),
            changes == fill_count(old(table)@, rules@, i as nat),
        decreases rules@.len() - i,
    {
        let rule = &rules[i];
        let ghost before = table@;
        if table.get(rule.target()).is_none() {
            if let Some(value) = rule.fire(table) {
                table.join_entry(rule.target().clone(), value);
                proof {
                    assert(table@.dom().contains(rule.target_name()));
                    assert(table@ != before);
                }
                changes += 1;
            }
        }
        i += 1;
    }
    changes
}

/// The table after one propagator had its turn in a pass of the naive
/// evaluation: what it yields is joined into its target, or becomes the
/// target's value if there was none.
pub open spec fn pass_step<P: Propagator + ?Sized>(
    table: Map<Name, Datum>,
    rule: Box<P>,
) -> Map<Name, Datum> {
    match rule.fired(table) {
        Some(value) => table.insert(
            rule.target_name(),
            if table.dom().contains(rule.target_name()) {
                join(table[rule.target_name()], value)
            } else {
                value
            },
        ),
        None => table,
    }
}

/// The table after the first `n` propagators had their turn in one pass.
pub open spec fn pass_table<P: Propagator + ?Sized>(
    table: Map<Name, Datum>,
    rules: Seq<Box<P>>,
    n: nat,
) -> Map<Name, Datum>
    decreases n,
{
    if n == 0 {
        table
    } else {
        pass_step(pass_table(table, rules, (n - 1) as nat), rules[n - 1])
    }
}

/// The number of turns among the first `n` of a pass that changed the
/// table.
pub open spec fn pass_changes<P: Propagator + ?Sized>(
    table: Map<Name, Datum>,
    rules: Seq<Box<P>>,
    n: nat,
) -> nat
    decreases n,
{
    if n == 0 {
        0
    } else {
        let before = pass_table(table, rules, (n - 1) as nat);
        pass_changes(table, rules, (n - 1) as nat) + if pass_step(before, rules[n - 1]) != before {
            1nat
        } else {
            0nat
        }
    }
}

/// The table after `passes` full passes over the propagators.
pub open spec fn after_passes<P: Propagator + ?Sized>(
    table: Map<Name, Datum>,
    rules: Seq<Box<P>>,
    passes: nat,
) -> Map<Name, Datum>
    decreases passes,
{
    if passes == 0 {
        table
    } else {
        pass_table(after_passes(table, rules, (passes - 1) as nat), rules, rules.len())
    }
}

/// Whether the pass that follows `passes` full passes changes the table.
pub open spec fn pass_changes_table<P: Propagator + ?Sized>(
    table: Map<Name, Datum>,
    rules: Seq<Box<P>>,
    passes: nat,
) -> bool {
    pass_changes(after_passes(table, rules, passes), rules, rules.len()) > 0
}

/// Whether no propagator changes the table: a fixed point.
pub open spec fn is_fixpoint<P: Propagator + ?Sized>(
    table: Map<Name, Datum>,
    rules: Seq<Box<P>>,
) -> bool {
    forall|i: int| 0 <= i < rules.len() ==> #[trigger] pass_step(table, rules[i]) == table
}

/// The description of the error that reports `limit` exhausted passes.
pub open spec fn exhausted_text(limit: nat) -> Seq<char> {
    "exhausted "@ + decimal(limit) + " iterations "@
}

/// The error that reports `limit` exhausted passes.
fn exhausted(limit: usize) -> (error: Error)
    ensures
        error@ == exhausted_text(limit as nat),
{
    let mut digits: Vec<char> = Vec::new();
    push_decimal(&mut digits, limit as u64);
    let mut text = push_chars(String::from_str("exhausted "), &digits);
    text.append(" iterations ");
    proof {
        assert(text@ =~= exhausted_text(limit as nat));
    }
    Error::Detail(text)
}

/// A pass that changes nothing leaves every table of the pass equal to the
/// first, which is therefore a fixed point.
pub proof fn lemma_quiet_pass<P: Propagator + ?Sized>(
    table: Map<Name, Datum>,
    rules: Seq<Box<P>>,
    n: nat,
)
    requires
        n <= rules.len(),
        pass_changes(table, rules, n) == 0,
    ensures
        pass_table(table, rules, n) == table,
        forall|i: int| 0 <= i < n ==> #[trigger] pass_step(table, rules[i]) == table,
    decreases n,
{
    if n > 0 {
        lemma_quiet_pass(table, rules, (n - 1) as nat);
    }
}

/// One full pass: every propagator is fired against the current table and
/// what it yields is joined into its target. Returns the number of joins
/// that changed the table.
fn run_pass<P: Propagator + ?Sized>(table: &mut Table, rules: &Vec<Box<P>>) -> (changes: usize)
    requires
        all_valid(rules@),
    ensures
        final(table)@ == pass_table(old(table)@, rules@, rules@.len()),
        changes == pass_changes(old(table)@, rules@, rules@.len()),
{
    let mut changes: usize = 0;
    let mut i: usize = 0;
    while i < rules.len()
        invariant
            i <= rules@.len(),
            all_valid(rules@),
            changes <= i,
            table@ == pass_table(old(table)@, rules@, i as nat),
            changes == pass_changes(old(table)@, rules@, i as nat),
        decreases rules@.len() - i,
    {
        let rule = &rules[i];
        if let Some(value) = rule.fire(table) {
            if table.join_entry(rule.target().clone(), value) {
                changes += 1;
            }
        }
        i += 1;
    }
    changes
}

/// This recursively joins results until a fixed point is reached. Rule
/// order is unimportant. The strategy is called naive evaluation in the
/// literature: it is the best that can be done without using the rule
/// dependency information. Rules or combinations of rules that diverge are
/// caught by an iteration limit.
///
/// Returns the number of passes made, the last of which changed nothing.
/// If each of `limit` passes changed the table, the error reports it, and
/// the table is left as the last pass left it.
pub fn evaluate_naive<P: Propagator + ?Sized>(
    table: &mut Table,
    rules: &Vec<Box<P>>,
    limit: usize,
) -> (passes: Result<
    usize,
    Error,
>)
    requires
        all_valid(rules@),
    ensures
        match passes {
            Ok(n) => {
                &&& 1 <= n <= limit
                &&& final(table)@ == after_passes(old(table)@, rules@, n as nat)
                &&& !pass_changes_table(old(table)@, rules@, (n - 1) as nat)
                &&& forall|k: nat| k < n - 1 ==> pass_changes_table(old(table)@, rules@, k)
                &&& is_fixpoint(final(table)@, rules@)
            },
            Err(e) => {
                &&& final(table)@ == after_passes(old(table)@, rules@, limit as nat)
                &&& forall|k: nat| k < limit ==> pass_changes_table(old(table)@, rules@, k)
                &&& e@ == exhausted_text(limit as nat)
            },
        },
{
    let mut iteration: usize = 0;
    loop
        invariant
            iteration <= limit,
            all_valid(rules@),
            table@ == after_passes(old(table)@, rules@, iteration as nat),
            forall|k: nat| k < iteration ==> pass_changes_table(old(table)@, rules@, k),
        decreases limit - iteration,
    {
        if iteration == limit {
            return Err(exhausted(limit));
        }
        iteration += 1;
        let ghost before = table@;
        let changes = run_pass(table, rules);
        if changes == 0 {
            proof {
                lemma_quiet_pass(before, rules@, rules@.len());
            }
            return Ok(iteration);
        }
    }
}

} // verus!
