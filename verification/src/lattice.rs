//! The join-semilattice of values: its elements and its join.

use vstd::prelude::*;
use crate::calendar::{CalendarDate, Timestamp};
use crate::ident::Name;

verus! {

/// The mathematical value that a [`crate::variant::Variant`] stands for.
///
/// `Invalid` is the bottom of the lattice and `Conflict` its top. The two
/// values that a `Conflict` carries, and the text that an `Invalid` carries,
/// are kept for diagnostics; see [`same_element`] for the lattice element
/// itself.
pub enum Datum {
    /// Two values that could not be reconciled.
    Conflict(Box<Datum>, Box<Datum>),
    Text(Seq<char>),
    Date(CalendarDate),
    Instant(Timestamp),
    /// A floating-point number, by the bits of its IEEE 754 binary64 form.
    Float(u64),
    Int(i64),
    /// A set of names, joined by union.
    Names(Set<Name>),
    /// A nested table, joined entry by entry.
    Table(Map<Name, Datum>),
    /// A recoverable failure to compute a value, with its description.
    Invalid(Seq<char>),
}

/// Marks a type as a join-semilattice.
///
/// The join operation combines two values and is closed, associative,
/// commutative and idempotent, so a rule system may iterate joins until a
/// fixed point is reached.
pub trait Lattice: Sized + View {
    /// The join of two values of the lattice.
    spec fn joined(a: Self::V, b: Self::V) -> Self::V;

    /// Whether two values are the same element of the lattice.
    spec fn alike(a: Self::V, b: Self::V) -> bool;

    /// Join is idempotent.
    proof fn lemma_idempotent(a: Self::V)
        ensures
            Self::joined(a, a) == a,
    ;

    /// Join is commutative.
    proof fn lemma_commutative(a: Self::V, b: Self::V)
        ensures
            Self::alike(Self::joined(a, b), Self::joined(b, a)),
    ;

    /// Join is associative.
    proof fn lemma_associative(a: Self::V, b: Self::V, c: Self::V)
        ensures
            Self::alike(
                Self::joined(Self::joined(a, b), c),
                Self::joined(a, Self::joined(b, c)),
            ),
    ;

    /// Compute a join in place. Returns `true` iff `self` is updated.
    fn join_update(&mut self, other: Self) -> (changed: bool)
        ensures
            final(self)@ == Self::joined(old(self)@, other@),
            changed <==> final(self)@ != old(self)@,
    ;

    /// Compute a join.
    fn join(self, other: Self) -> (joined: Self)
        ensures
            joined@ == Self::joined(self@, other@),
    {
        let mut joined = self;
        joined.join_update(other);
        joined
    }
}

/// The join of two values.
///
/// Sets join by union and tables entry by entry. A conflict absorbs
/// everything, and keeps the first conflict met. An invalid value gives way
/// to any other value. Equal values join to themselves. Every other pair is
/// a conflict that carries both values.
pub open spec fn join(a: Datum, b: Datum) -> Datum
    decreases a,
{
    match (a, b) {
        (Datum::Names(x), Datum::Names(y)) => Datum::Names(x.union(y)),
        (Datum::Table(x), Datum::Table(y)) => Datum::Table(
            Map::new(
                |k: Name| x.dom().contains(k) || y.dom().contains(k),
                |k: Name|
                    if x.dom().contains(k) && y.dom().contains(k) {
                        join(x[k], y[k])
                    } else if x.dom().contains(k) {
                        x[k]
                    } else {
                        y[k]
                    },
            ),
        ),
        (Datum::Conflict(_, _), _) => a,
        (_, Datum::Conflict(_, _)) => b,
        (_, Datum::Invalid(_)) => a,
        (Datum::Invalid(_), _) => b,
        _ => if a == b {
            a
        } else {
            Datum::Conflict(Box::new(a), Box::new(b))
        },
    }
}

/// The join of two tables: the entries of `join` applied to them as values.
pub open spec fn join_entries(x: Map<Name, Datum>, y: Map<Name, Datum>) -> Map<Name, Datum> {
    join(Datum::Table(x), Datum::Table(y))->Table_0
}

/// The join of two tables holds every key of either, and no other. Under a
/// key of both it holds the join of the two values; under a key of one, that
/// table's value.
pub proof fn lemma_join_entries(x: Map<Name, Datum>, y: Map<Name, Datum>)
    ensures
        join(Datum::Table(x), Datum::Table(y)) == Datum::Table(join_entries(x, y)),
        join_entries(x, y).dom() == x.dom().union(y.dom()),
        forall|k: Name|
            x.dom().contains(k) && y.dom().contains(k) ==> #[trigger] join_entries(x, y)[k] == join(
                x[k],
                y[k],
            ),
        forall|k: Name|
            x.dom().contains(k) && !y.dom().contains(k) ==> #[trigger] join_entries(x, y)[k] == x[k],
        forall|k: Name|
            !x.dom().contains(k) && y.dom().contains(k) ==> #[trigger] join_entries(x, y)[k] == y[k],
{
    assert(join_entries(x, y).dom() =~= x.dom().union(y.dom()));
}

/// Whether two values are the same element of the lattice.
///
/// All conflicts are the one top element and all invalid values the one
/// bottom element, whatever they carry. Tables are the same element when they
/// have the same keys and hold the same elements under them. Any other two
/// values are the same element only when they are equal.
pub open spec fn same_element(a: Datum, b: Datum) -> bool
    decreases a,
{
    match (a, b) {
        (Datum::Conflict(_, _), Datum::Conflict(_, _)) => true,
        (Datum::Invalid(_), Datum::Invalid(_)) => true,
        (Datum::Table(x), Datum::Table(y)) => {
            &&& x.dom() == y.dom()
            &&& forall|k: Name| x.dom().contains(k) ==> same_element(x[k], #[trigger] y[k])
        },
        _ => a == b,
    }
}

/// Whether a value holds no conflict and no invalid value, at any depth.
pub open spec fn is_settled(a: Datum) -> bool
    decreases a,
{
    match a {
        Datum::Conflict(_, _) => false,
        Datum::Invalid(_) => false,
        Datum::Table(x) => forall|k: Name| x.dom().contains(k) ==> is_settled(#[trigger] x[k]),
        _ => true,
    }
}

/// Every value is the same element as itself.
pub proof fn lemma_same_element_reflexive(a: Datum)
    ensures
        same_element(a, a),
    decreases a,
{
    match a {
        Datum::Table(x) => {
            assert forall|k: Name| x.dom().contains(k) implies same_element(x[k], #[trigger] x[k]) by {
                lemma_same_element_reflexive(x[k]);
            }
        },
        _ => {},
    }
}

/// Being the same element does not depend on the order of the two values.
pub proof fn lemma_same_element_symmetric(a: Datum, b: Datum)
    requires
        same_element(a, b),
    ensures
        same_element(b, a),
    decreases a,
{
    match (a, b) {
        (Datum::Table(x), Datum::Table(y)) => {
            assert forall|k: Name| y.dom().contains(k) implies same_element(y[k], #[trigger] x[k]) by {
                assert(same_element(x[k], y[k]));
                lemma_same_element_symmetric(x[k], y[k]);
            }
        },
        _ => {},
    }
}

/// Being the same element carries over a value in the middle.
pub proof fn lemma_same_element_transitive(a: Datum, b: Datum, c: Datum)
    requires
        same_element(a, b),
        same_element(b, c),
    ensures
        same_element(a, c),
    decreases a,
{
    match (a, b, c) {
        (Datum::Table(x), Datum::Table(y), Datum::Table(z)) => {
            assert forall|k: Name| x.dom().contains(k) implies same_element(x[k], #[trigger] z[k]) by {
                assert(same_element(x[k], y[k]));
                assert(same_element(y[k], z[k]));
                lemma_same_element_transitive(x[k], y[k], z[k]);
            }
        },
        _ => {},
    }
}

/// Two values that are the same element are equal when one of them is
/// settled.
pub proof fn lemma_same_element_settled(a: Datum, b: Datum)
    requires
        same_element(a, b),
        is_settled(a),
    ensures
        a == b,
    decreases a,
{
    match (a, b) {
        (Datum::Table(x), Datum::Table(y)) => {
            assert forall|k: Name| x.dom().contains(k) implies x[k] == y[k] by {
                assert(same_element(x[k], y[k]));
                assert(is_settled(x[k]));
                lemma_same_element_settled(x[k], y[k]);
            }
            assert(x =~= y);
        },
        _ => {},
    }
}

/// Join is idempotent: a value joined with itself is that value.
pub proof fn lemma_join_idempotent(a: Datum)
    ensures
        join(a, a) == a,
    decreases a,
{
    match a {
        Datum::Names(x) => {
            assert(x.union(x) =~= x);
        },
        Datum::Table(x) => {
            assert forall|k: Name| x.dom().contains(k) implies join(x[k], x[k]) == x[k] by {
                lemma_join_idempotent(x[k]);
            }
            assert(join_entries(x, x) =~= x);
        },
        _ => {},
    }
}

/// Join is commutative: the two orders give the same element of the lattice.
pub proof fn lemma_join_commutative(a: Datum, b: Datum)
    ensures
        same_element(join(a, b), join(b, a)),
    decreases a,
{
    match (a, b) {
        (Datum::Names(x), Datum::Names(y)) => {
            assert(x.union(y) =~= y.union(x));
        },
        (Datum::Table(x), Datum::Table(y)) => {
            let xy = join_entries(x, y);
            let yx = join_entries(y, x);
            assert(xy.dom() =~= yx.dom());
            assert forall|k: Name| xy.dom().contains(k) implies same_element(xy[k], #[trigger] yx[k]) by {
                if x.dom().contains(k) && y.dom().contains(k) {
                    lemma_join_commutative(x[k], y[k]);
                } else {
                    lemma_same_element_reflexive(xy[k]);
                }
            }
        },
        _ => {
            lemma_same_element_reflexive(join(a, b));
        },
    }
}

/// Join is associative: the two groupings give the same element of the
/// lattice.
pub proof fn lemma_join_associative(a: Datum, b: Datum, c: Datum)
    ensures
        same_element(join(join(a, b), c), join(a, join(b, c))),
    decreases a,
{
    match (a, b, c) {
        (Datum::Names(x), Datum::Names(y), Datum::Names(z)) => {
            assert(x.union(y).union(z) =~= x.union(y.union(z)));
        },
        (Datum::Table(x), Datum::Table(y), Datum::Table(z)) => {
            let left = join_entries(join_entries(x, y), z);
            let right = join_entries(x, join_entries(y, z));
            assert(left.dom() =~= right.dom());
            assert forall|k: Name| left.dom().contains(k) implies same_element(
                left[k],
                #[trigger] right[k],
            ) by {
                if x.dom().contains(k) && y.dom().contains(k) && z.dom().contains(k) {
                    lemma_join_associative(x[k], y[k], z[k]);
                } else {
                    lemma_same_element_reflexive(left[k]);
                }
            }
        },
        _ => {
            lemma_same_element_reflexive(join(join(a, b), c));
        },
    }
}

/// Join respects the elements of the lattice: joining values that are the
/// same elements gives the same element.
pub proof fn lemma_join_same_element(a: Datum, b: Datum, c: Datum, d: Datum)
    requires
        same_element(a, c),
        same_element(b, d),
    ensures
        same_element(join(a, b), join(c, d)),
    decreases a,
{
    match (a, b, c, d) {
        (Datum::Table(x), Datum::Table(y), Datum::Table(z), Datum::Table(w)) => {
            let xy = join_entries(x, y);
            let zw = join_entries(z, w);
            assert(xy.dom() =~= zw.dom());
            assert forall|k: Name| xy.dom().contains(k) implies same_element(xy[k], #[trigger] zw[k]) by {
                if x.dom().contains(k) {
                    assert(same_element(x[k], z[k]));
                }
                if y.dom().contains(k) {
                    assert(same_element(y[k], w[k]));
                }
                if x.dom().contains(k) && y.dom().contains(k) {
                    lemma_join_same_element(x[k], y[k], z[k], w[k]);
                }
            }
        },
        _ => {},
    }
}

/// A conflict is the top of the lattice: joined with anything, the first
/// conflict met stays.
pub proof fn lemma_conflict_absorbs(a: Datum, b: Datum)
    ensures
        a is Conflict ==> join(a, b) == a,
        b is Conflict && !(a is Conflict) ==> join(a, b) == b,
        a is Conflict || b is Conflict ==> join(a, b) is Conflict,
{
}

/// An invalid value is the bottom of the lattice: joined with anything
/// else, the other value stays.
pub proof fn lemma_invalid_gives_way(a: Datum, b: Datum)
    ensures
        b is Invalid ==> join(a, b) == a,
        a is Invalid && !(b is Invalid) ==> join(a, b) == b,
{
}

/// On values whose join is settled, join is commutative by equality.
pub proof fn lemma_join_commutative_settled(a: Datum, b: Datum)
    requires
        is_settled(join(a, b)),
    ensures
        join(a, b) == join(b, a),
{
    lemma_join_commutative(a, b);
    lemma_same_element_settled(join(a, b), join(b, a));
}

/// On values whose join is settled, join is associative by equality.
pub proof fn lemma_join_associative_settled(a: Datum, b: Datum, c: Datum)
    requires
        is_settled(join(join(a, b), c)),
    ensures
        join(join(a, b), c) == join(a, join(b, c)),
{
    lemma_join_associative(a, b, c);
    lemma_same_element_settled(join(join(a, b), c), join(a, join(b, c)));
}

} // verus!
