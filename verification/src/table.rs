//! Tables: maps from identifiers to values.

use vstd::prelude::*;
use vstd::std_specs::cmp::PartialEqSpecImpl;
use crate::ident::{Ident, IdentPath, Name, names_of};
use crate::lattice::{
    Datum,
    Lattice,
    join,
    join_entries,
    lemma_join_associative,
    lemma_join_commutative,
    lemma_join_entries,
    lemma_join_idempotent,
    same_element,
};
use crate::variant::Variant;

verus! {

/// Whether no two entries have the same name.
pub open spec fn distinct_keys(entries: Seq<(Ident, Variant)>) -> bool {
    forall|i: int, j: int| 0 <= i < j < entries.len() ==> entries[i].0@ != entries[j].0@
}

/// Whether some entry has the name `key`.
pub open spec fn has_key(entries: Seq<(Ident, Variant)>, key: Name) -> bool {
    exists|i: int| 0 <= i < entries.len() && #[trigger] entries[i].0@ == key
}

/// The position of an entry with the name `key`.
pub open spec fn key_position(entries: Seq<(Ident, Variant)>, key: Name) -> int {
    choose|i: int| 0 <= i < entries.len() && #[trigger] entries[i].0@ == key
}

/// The map that a sequence of entries stands for: each name with the value
/// of an entry that has it.
pub open spec fn entries_map(entries: Seq<(Ident, Variant)>) -> Map<Name, Datum>
    decreases entries,
{
    Map::new(
        |key: Name| has_key(entries, key),
        |key: Name|
            {
                let i = key_position(entries, key);
                if 0 <= i < entries.len() {
                    entries[i].1.datum()
                } else {
                    arbitrary()
                }
            },
    )
}

/// A `Table` is a map of `Ident` to `Variant`.
///
/// Its view is the map from the names of its keys to the values they hold.
/// Tables are joined by joining the values of equal keys.
#[derive(Debug)]
pub struct Table {
    entries: Vec<(Ident, Variant)>,
}

impl Table {
    /// The map from the names of the keys to the values they hold.
    pub closed spec fn entries(&self) -> Map<Name, Datum>
        decreases self,
    {
        entries_map(self.entries@)
    }
}

impl View for Table {
    type V = Map<Name, Datum>;

    open spec fn view(&self) -> Map<Name, Datum> {
        self.entries()
    }
}

/// The value that a path leads to in a table, if every step exists.
///
/// All names of the path but the last must lead to a nested table; the last
/// must be a key of the table reached. Otherwise there is no value yet.
pub open spec fn lookup(table: Map<Name, Datum>, path: Seq<Name>) -> Option<Datum>
    decreases path.len(),
{
    if path.len() == 0 || !table.dom().contains(path[0]) {
        None
    } else if path.len() == 1 {
        Some(table[path[0]])
    } else {
        match table[path[0]] {
            Datum::Table(inner) => lookup(inner, path.drop_first()),
            _ => None,
        }
    }
}

/// The value under a key is the value of the one entry that has the key.
pub proof fn lemma_entries_map_at(entries: Seq<(Ident, Variant)>, i: int)
    requires
        distinct_keys(entries),
        0 <= i < entries.len(),
    ensures
        entries_map(entries).dom().contains(entries[i].0@),
        entries_map(entries)[entries[i].0@] == entries[i].1@,
{
    let key = entries[i].0@;
    assert(has_key(entries, key));
    let j = key_position(entries, key);
    assert(j == i);
}

/// An entry with a new key, appended, is one more entry of the map.
pub proof fn lemma_entries_map_push(entries: Seq<(Ident, Variant)>, key: Ident, value: Variant)
    requires
        distinct_keys(entries),
        !has_key(entries, key@),
    ensures
        distinct_keys(entries.push((key, value))),
        entries_map(entries.push((key, value))) == entries_map(entries).insert(key@, value@),
{
    let longer = entries.push((key, value));
    assert(distinct_keys(longer)) by {
        assert forall|i: int, j: int| 0 <= i < j < longer.len() implies longer[i].0@ != longer[j].0@ by {
            if j == entries.len() {
                assert(entries[i].0@ != key@);
            }
        }
    }
    let expected = entries_map(entries).insert(key@, value@);
    assert forall|k: Name| entries_map(longer).dom().contains(k) == expected.dom().contains(k) by {
        if has_key(longer, k) {
            let j = key_position(longer, k);
            if j < entries.len() {
                assert(entries[j].0@ == k);
            }
        }
        if has_key(entries, k) {
            let j = key_position(entries, k);
            assert(longer[j].0@ == k);
        }
        if k == key@ {
            assert(longer[entries.len() as int].0@ == k);
        }
    }
    assert forall|k: Name| expected.dom().contains(k) implies entries_map(longer)[k] == expected[k] by {
        let j = key_position(longer, k);
        assert(has_key(longer, k));
        lemma_entries_map_at(longer, j);
        if j < entries.len() {
            assert(entries[j] == longer[j]);
            lemma_entries_map_at(entries, j);
        }
    }
    assert(entries_map(longer) =~= expected);
}

/// Replacing the value of an entry replaces the value under its key.
pub proof fn lemma_entries_map_update(
    entries: Seq<(Ident, Variant)>,
    i: int,
    key: Ident,
    value: Variant,
)
    requires
        distinct_keys(entries),
        0 <= i < entries.len(),
        key@ == entries[i].0@,
    ensures
        distinct_keys(entries.update(i, (key, value))),
        entries_map(entries.update(i, (key, value))) == entries_map(entries).insert(key@, value@),
{
    let changed = entries.update(i, (key, value));
    assert(distinct_keys(changed)) by {
        assert forall|a: int, b: int| 0 <= a < b < changed.len() implies changed[a].0@ != changed[b].0@ by {
            assert(changed[a].0@ == entries[a].0@);
            assert(changed[b].0@ == entries[b].0@);
        }
    }
    let expected = entries_map(entries).insert(key@, value@);
    assert forall|k: Name| entries_map(changed).dom().contains(k) == expected.dom().contains(k) by {
        if has_key(changed, k) {
            let j = key_position(changed, k);
            assert(entries[j].0@ == k);
        }
        if has_key(entries, k) {
            let j = key_position(entries, k);
            assert(changed[j].0@ == k);
        }
        if k == key@ {
            assert(changed[i].0@ == k);
        }
    }
    assert forall|k: Name| expected.dom().contains(k) implies entries_map(changed)[k] == expected[k] by {
        assert(has_key(changed, k));
        let j = key_position(changed, k);
        lemma_entries_map_at(changed, j);
        if j != i {
            assert(entries[j] == changed[j]);
            lemma_entries_map_at(entries, j);
        }
    }
    assert(entries_map(changed) =~= expected);
}

/// The position of the entry of `entries` whose key stands for the same name
/// as `name`, if there is one.
fn position(entries: &Vec<(Ident, Variant)>, name: &Ident) -> (found: Option<usize>)
    ensures
        match found {
            Some(i) => i < entries@.len() && entries@[i as int].0@ == name@,
            None => !has_key(entries@, name@),
        },
{
    let mut i: usize = 0;
    while i < entries.len()
        invariant
            i <= entries@.len(),
            forall|j: int| 0 <= j < i ==> entries@[j].0@ != name@,
        decreases entries@.len() - i,
    {
        if entries[i].0.same_name(name) {
            return Some(i);
        }
        i += 1;
    }
    None
}

impl Table {
    #[verifier::type_invariant]
    spec fn keys_are_distinct(&self) -> bool {
        distinct_keys(self.entries@)
    }

    /// Create an empty table.
    pub fn new() -> (table: Self)
        ensures
            table@ == Map::<Name, Datum>::empty(),
    {
        let table = Self { entries: Vec::new() };
        assert(table@ =~= Map::<Name, Datum>::empty());
        table
    }

    /// The number of entries.
    pub fn len(&self) -> (n: usize)
        ensures
            self@.dom().finite(),
            n == self@.dom().len(),
    {
        proof {
            use_type_invariant(self);
            lemma_entries_map_len(self.entries@);
        }
        self.entries.len()
    }

    /// The entries, each key once, in no particular order.
    pub fn pairs(&self) -> (pairs: &Vec<(Ident, Variant)>)
        ensures
            distinct_keys(pairs@),
            entries_map(pairs@) == self@,
    {
        proof {
            use_type_invariant(self);
        }
        &self.entries
    }

    /// Borrow the value under `name`, if there is one.
    pub fn get(&self, name: &Ident) -> (value: Option<&Variant>)
        ensures
            match value {
                Some(v) => self@.dom().contains(name@) && v@ == self@[name@],
                None => !self@.dom().contains(name@),
            },
    {
        proof {
            use_type_invariant(self);
        }
        match position(&self.entries, name) {
            Some(i) => {
                proof {
                    lemma_entries_map_at(self.entries@, i as int);
                }
                Some(&self.entries[i].1)
            },
            None => None,
        }
    }

    /// Borrow a value from a nested table: the value that `path` leads to.
    pub fn get_path(&self, path: &IdentPath) -> (value: Option<&Variant>)
        ensures
            match value {
                Some(v) => lookup(self@, path@) == Some(v@),
                None => lookup(self@, path@) is None,
            },
    {
        let prefix = path.prefix();
        let mut step: &Table = self;
        let mut i: usize = 0;
        proof {
            path.lemma_nonempty();
            assert(path@.skip(0) =~= path@);
            assert(names_of(prefix@).len() == prefix@.len());
        }
        while i < prefix.len()
            invariant
                i <= prefix@.len(),
                names_of(prefix@) == path@.drop_last(),
                path@.len() == prefix@.len() + 1,
                lookup(self@, path@) == lookup(step@, path@.skip(i as int)),
            decreases prefix@.len() - i,
        {
            let ghost rest = path@.skip(i as int);
            proof {
                assert(rest.len() >= 2);
                assert(rest[0] == path@.drop_last()[i as int]);
                assert(rest[0] == prefix@[i as int]@);
                assert(rest.drop_first() =~= path@.skip(i + 1));
            }
            match step.get(&prefix[i]) {
                None => {
                    return None;
                },
                Some(next) => match next.as_table() {
                    None => {
                        return None;
                    },
                    Some(inner) => {
                        step = inner;
                    },
                },
            }
            i += 1;
        }
        proof {
            let rest = path@.skip(i as int);
            assert(rest.len() == 1);
            assert(rest[0] == path@.last());
        }
        step.get(path.subject())
    }

    /// Whether the two tables hold the same values under the same keys.
    pub fn same_entries(&self, other: &Table) -> (same: bool)
        ensures
            same == (self@ == other@),
        decreases self,
    {
        proof {
            use_type_invariant(self);
            use_type_invariant(other);
            lemma_entries_map_len(self.entries@);
            lemma_entries_map_len(other.entries@);
        }
        if self.entries.len() != other.entries.len() {
            return false;
        }
        let mut i: usize = 0;
        while i < self.entries.len()
            invariant
                i <= self.entries@.len(),
                distinct_keys(self.entries@),
                forall|j: int|
                    0 <= j < i ==> other@.dom().contains(#[trigger] self.entries@[j].0@)
                        && other@[self.entries@[j].0@] == self.entries@[j].1@,
            decreases self.entries@.len() - i,
        {
            proof {
                lemma_entries_map_at(self.entries@, i as int);
            }
            match other.get(&self.entries[i].0) {
                None => {
                    return false;
                },
                Some(theirs) => {
                    if !self.entries[i].1.same_value(theirs) {
                        return false;
                    }
                },
            }
            i += 1;
        }
        proof {
            assert forall|k: Name| self@.dom().contains(k) implies other@.dom().contains(k)
                && other@[k] == self@[k] by {
                let j = key_position(self.entries@, k);
                assert(has_key(self.entries@, k));
                lemma_entries_map_at(self.entries@, j);
                assert(other@.dom().contains(self.entries@[j].0@));
            }
            assert(self@.dom().subset_of(other@.dom()));
            vstd::set_lib::lemma_subset_equality(self@.dom(), other@.dom());
            assert(self@ =~= other@);
        }
        true
    }

    /// Insert an entry into the table. Returns the value that the key held
    /// before, if it held one.
    pub fn insert(&mut self, name: Ident, value: Variant) -> (previous: Option<Variant>)
        ensures
            final(self)@ == old(self)@.insert(name@, value@),
            match previous {
                Some(p) => old(self)@.dom().contains(name@) && p@ == old(self)@[name@],
                None => !old(self)@.dom().contains(name@),
            },
    {
        let mut taken = Table::new();
        std::mem::swap(self, &mut taken);
        proof {
            use_type_invariant(&taken);
        }
        let Table { entries: mut entries } = taken;
        let ghost before = entries@;
        let previous = match position(&entries, &name) {
            Some(i) => {
                let mut held = (name, value);
                proof {
                    lemma_entries_map_at(before, i as int);
                    lemma_entries_map_update(before, i as int, held.0, held.1);
                }
                std::mem::swap(&mut entries[i], &mut held);
                Some(held.1)
            },
            None => {
                proof {
                    lemma_entries_map_push(before, name, value);
                }
                entries.push((name, value));
                None
            },
        };
        *self = Table { entries };
        previous
    }

    /// Join `value` into the entry under `name`, or create the entry with
    /// `value` if there is none. Returns `true` iff the table changed.
    pub fn join_entry(&mut self, name: Ident, value: Variant) -> (changed: bool)
        ensures
            final(self)@ == old(self)@.insert(
                name@,
                if old(self)@.dom().contains(name@) {
                    join(old(self)@[name@], value@)
                } else {
                    value@
                },
            ),
            changed <==> final(self)@ != old(self)@,
    {
        let mut taken = Table::new();
        std::mem::swap(self, &mut taken);
        proof {
            use_type_invariant(&taken);
        }
        let Table { entries: mut entries } = taken;
        let ghost before = entries@;
        let changed = match position(&entries, &name) {
            Some(i) => {
                proof {
                    lemma_entries_map_at(before, i as int);
                }
                let changed = entries[i].1.join_update_from(&value);
                proof {
                    lemma_entries_map_update(before, i as int, entries@[i as int].0, entries@[i as int].1);
                    lemma_entries_map_at(entries@, i as int);
                    if !changed {
                        assert(entries_map(entries@) =~= entries_map(before));
                    }
                }
                changed
            },
            None => {
                proof {
                    lemma_entries_map_push(before, name, value);
                    assert(entries_map(before.push((name, value))).dom().contains(name@));
                }
                entries.push((name, value));
                true
            },
        };
        *self = Table { entries };
        changed
    }

    /// Join the entries of `other` into this table: under every key of
    /// `other`, the join of the two values, or a copy of `other`'s value
    /// where this table has none. Returns `true` iff the table changed.
    pub fn join_update_from(&mut self, other: &Table) -> (changed: bool)
        ensures
            final(self)@ == join_entries(old(self)@, other@),
            changed <==> final(self)@ != old(self)@,
        decreases other,
    {
        let mut taken = Table::new();
        std::mem::swap(self, &mut taken);
        proof {
            use_type_invariant(&taken);
            use_type_invariant(other);
        }
        let Table { entries: mut mine } = taken;
        let ghost start = entries_map(mine@);
        let ghost theirs = other.entries@;
        let mut changed = false;
        let mut i: usize = 0;
        proof {
            lemma_join_entries(start, entries_map(theirs.take(0)));
            assert(entries_map(theirs.take(0)) =~= Map::<Name, Datum>::empty());
            assert(entries_map(mine@) =~= join_entries(start, entries_map(theirs.take(0))));
        }
        while i < other.entries.len()
            invariant
                theirs == other.entries@,
                distinct_keys(theirs),
                distinct_keys(mine@),
                i <= theirs.len(),
                entries_map(mine@) == join_entries(start, entries_map(theirs.take(i as int))),
                changed <==> entries_map(mine@) != start,
            decreases theirs.len() - i,
        {
            let ghost before = mine@;
            let ghost seen = theirs.take(i as int);
            let ghost key = theirs[i as int].0;
            let ghost value = theirs[i as int].1;
            proof {
                assert(theirs.take(i + 1) =~= seen.push((key, value)));
                assert(distinct_keys(seen));
                assert(!has_key(seen, key@)) by {
                    if has_key(seen, key@) {
                        let j = key_position(seen, key@);
                        assert(theirs[j].0@ == theirs[i as int].0@);
                    }
                }
                lemma_entries_map_push(seen, key, value);
                lemma_join_entries(start, entries_map(seen));
                lemma_join_entries(start, entries_map(theirs.take(i + 1)));
            }
            match position(&mine, &other.entries[i].0) {
                Some(j) => {
                    proof {
                        lemma_entries_map_at(before, j as int);
                    }
                    let grew = mine[j].1.join_update_from(&other.entries[i].1);
                    proof {
                        lemma_entries_map_update(before, j as int, mine@[j as int].0, mine@[j as int].1);
                        lemma_entries_map_at(mine@, j as int);
                        assert(start.dom().contains(key@));
                        assert(entries_map(before)[key@] == start[key@]);
                        if !grew {
                            assert(entries_map(mine@) =~= entries_map(before));
                        }
                    }
                    changed = changed || grew;
                },
                None => {
                    let entry = (other.entries[i].0.clone(), other.entries[i].1.clone());
                    proof {
                        lemma_entries_map_push(before, entry.0, entry.1);
                        assert(entries_map(before.push(entry)).dom().contains(key@));
                        assert(!start.dom().contains(key@));
                    }
                    mine.push(entry);
                    changed = true;
                },
            }
            proof {
                assert(entries_map(mine@) =~= join_entries(start, entries_map(theirs.take(i + 1))));
            }
            i += 1;
        }
        proof {
            assert(theirs.take(i as int) =~= theirs);
        }
        *self = Table { entries: mine };
        changed
    }
}

impl Lattice for Table {
    open spec fn joined(a: Map<Name, Datum>, b: Map<Name, Datum>) -> Map<Name, Datum> {
        join_entries(a, b)
    }

    open spec fn alike(a: Map<Name, Datum>, b: Map<Name, Datum>) -> bool {
        same_element(Datum::Table(a), Datum::Table(b))
    }

    proof fn lemma_idempotent(a: Map<Name, Datum>) {
        lemma_join_idempotent(Datum::Table(a));
    }

    proof fn lemma_commutative(a: Map<Name, Datum>, b: Map<Name, Datum>) {
        lemma_join_commutative(Datum::Table(a), Datum::Table(b));
    }

    proof fn lemma_associative(a: Map<Name, Datum>, b: Map<Name, Datum>, c: Map<Name, Datum>) {
        lemma_join_associative(Datum::Table(a), Datum::Table(b), Datum::Table(c));
    }

    fn join_update(&mut self, other: Self) -> (changed: bool) {
        self.join_update_from(&other)
    }
}

impl PartialEq for Table {
    fn eq(&self, other: &Self) -> (same: bool) {
        self.same_entries(other)
    }
}

impl PartialEqSpecImpl for Table {
    open spec fn obeys_eq_spec() -> bool {
        true
    }

    open spec fn eq_spec(&self, other: &Self) -> bool {
        self@ == other@
    }
}

impl Clone for Table {
    /// A copy of the table with copies of all its values.
    fn clone(&self) -> (copy: Self)
        ensures
            copy@ == self@,
    {
        proof {
            use_type_invariant(self);
        }
        let mut entries: Vec<(Ident, Variant)> = Vec::new();
        let mut i: usize = 0;
        while i < self.entries.len()
            invariant
                i <= self.entries@.len(),
                distinct_keys(self.entries@),
                distinct_keys(entries@),
                entries@.len() == i,
                forall|j: int| 0 <= j < i ==> entries@[j].0@ == self.entries@[j].0@,
                entries_map(entries@) == entries_map(self.entries@.take(i as int)),
            decreases self.entries@.len() - i,
        {
            let ghost seen = self.entries@.take(i as int);
            let entry = (self.entries[i].0.clone(), self.entries[i].1.clone());
            proof {
                assert(self.entries@.take(i + 1) =~= seen.push(self.entries@[i as int]));
                assert(!has_key(seen, entry.0@)) by {
                    if has_key(seen, entry.0@) {
                        let j = key_position(seen, entry.0@);
                        assert(self.entries@[j].0@ == self.entries@[i as int].0@);
                    }
                }
                assert(!has_key(entries@, entry.0@)) by {
                    if has_key(entries@, entry.0@) {
                        let j = key_position(entries@, entry.0@);
                        assert(self.entries@[j].0@ == self.entries@[i as int].0@);
                    }
                }
                lemma_entries_map_push(seen, self.entries@[i as int].0, self.entries@[i as int].1);
                lemma_entries_map_push(entries@, entry.0, entry.1);
            }
            entries.push(entry);
            i += 1;
        }
        proof {
            assert(self.entries@.take(i as int) =~= self.entries@);
        }
        Self { entries }
    }
}

/// A sequence of entries with distinct keys has as many keys as entries.
pub proof fn lemma_entries_map_len(entries: Seq<(Ident, Variant)>)
    requires
        distinct_keys(entries),
    ensures
        entries_map(entries).dom().finite(),
        entries_map(entries).dom().len() == entries.len(),
    decreases entries.len(),
{
    if entries.len() == 0 {
        assert(entries_map(entries).dom() =~= Set::<Name>::empty());
    } else {
        let shorter = entries.drop_last();
        let last = entries.last();
        assert(entries =~= shorter.push((last.0, last.1)));
        assert(!has_key(shorter, last.0@)) by {
            if has_key(shorter, last.0@) {
                let j = key_position(shorter, last.0@);
                assert(entries[j].0@ == entries[entries.len() - 1].0@);
            }
        }
        lemma_entries_map_len(shorter);
        lemma_entries_map_push(shorter, last.0, last.1);
    }
}

} // verus!
