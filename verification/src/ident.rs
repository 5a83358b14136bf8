//! Identifiers, the keys of tables, and the paths that address nested entries.

use vstd::prelude::*;
use vstd::std_specs::cmp::PartialEqSpecImpl;
use vstd::std_specs::convert::FromSpecImpl;
use crate::lattice::Lattice;
use crate::text::str_eq;

verus! {

/// What an identifier stands for: a piece of text or a number.
///
/// Two identifiers are the same key exactly when their names are equal.
pub enum Name {
    Text(Seq<char>),
    Number(u64),
}

/// An `Ident` identifies a table entry or an element of a set.
#[derive(Debug)]
pub enum Ident {
    /// A name built at run time.
    NonIntern(String),
    /// A name backed by a string literal.
    Intern(&'static str),
    /// A synthetic, numbered entry.
    Anonymous(u64),
}

impl View for Ident {
    type V = Name;

    open spec fn view(&self) -> Name {
        match self {
            Ident::NonIntern(s) => Name::Text(s@),
            Ident::Intern(s) => Name::Text(s@),
            Ident::Anonymous(n) => Name::Number(*n),
        }
    }
}

impl Ident {
    /// Whether two identifiers stand for the same name, whatever their variants.
    pub fn same_name(&self, other: &Ident) -> (same: bool)
        ensures
            same == (self@ == other@),
    {
        match (self, other) {
            (Ident::Anonymous(a), Ident::Anonymous(b)) => *a == *b,
            (Ident::Anonymous(_), _) => false,
            (_, Ident::Anonymous(_)) => false,
            (Ident::NonIntern(a), Ident::NonIntern(b)) => str_eq(a.as_str(), b.as_str()),
            (Ident::NonIntern(a), Ident::Intern(b)) => str_eq(a.as_str(), b),
            (Ident::Intern(a), Ident::NonIntern(b)) => str_eq(a, b.as_str()),
            (Ident::Intern(a), Ident::Intern(b)) => str_eq(a, b),
        }
    }
}

impl Clone for Ident {
    fn clone(&self) -> (copy: Self)
        ensures
            copy@ == self@,
    {
        match self {
            Ident::NonIntern(s) => Ident::NonIntern(s.clone()),
            Ident::Intern(s) => Ident::Intern(s),
            Ident::Anonymous(n) => Ident::Anonymous(*n),
        }
    }
}

impl PartialEq for Ident {
    fn eq(&self, other: &Self) -> (same: bool) {
        self.same_name(other)
    }
}

impl PartialEqSpecImpl for Ident {
    open spec fn obeys_eq_spec() -> bool {
        true
    }

    open spec fn eq_spec(&self, other: &Self) -> bool {
        self@ == other@
    }
}

impl Eq for Ident {}

impl From<String> for Ident {
    fn from(name: String) -> (ident: Self) {
        Ident::NonIntern(name)
    }
}

impl FromSpecImpl<String> for Ident {
    open spec fn obeys_from_spec() -> bool {
        true
    }

    open spec fn from_spec(name: String) -> Self {
        Ident::NonIntern(name)
    }
}

impl From<&'static str> for Ident {
    fn from(name: &'static str) -> (ident: Self) {
        Ident::Intern(name)
    }
}

impl FromSpecImpl<&'static str> for Ident {
    open spec fn obeys_from_spec() -> bool {
        true
    }

    open spec fn from_spec(name: &'static str) -> Self {
        Ident::Intern(name)
    }
}

impl From<u64> for Ident {
    fn from(number: u64) -> (ident: Self) {
        Ident::Anonymous(number)
    }
}

impl FromSpecImpl<u64> for Ident {
    open spec fn obeys_from_spec() -> bool {
        true
    }

    open spec fn from_spec(number: u64) -> Self {
        Ident::Anonymous(number)
    }
}

/// The serialized shape of an identifier, which does not tell interned names
/// from other names.
#[derive(Debug)]
pub enum ExternalIdent {
    NonIntern(String),
    Anonymous(u64),
}

impl View for ExternalIdent {
    type V = Name;

    open spec fn view(&self) -> Name {
        match self {
            ExternalIdent::NonIntern(s) => Name::Text(s@),
            ExternalIdent::Anonymous(n) => Name::Number(*n),
        }
    }
}

impl Ident {
    /// The external form of this identifier. It stands for the same name.
    pub fn to_external(&self) -> (external: ExternalIdent)
        ensures
            external@ == self@,
    {
        match self {
            Ident::NonIntern(s) => ExternalIdent::NonIntern(s.clone()),
            Ident::Intern(s) => ExternalIdent::NonIntern(String::from_str(s)),
            Ident::Anonymous(n) => ExternalIdent::Anonymous(*n),
        }
    }

    /// The identifier that an external form stands for. It is never interned.
    pub fn from_external(external: ExternalIdent) -> (ident: Ident)
        ensures
            ident@ == external@,
            !(ident is Intern),
    {
        match external {
            ExternalIdent::NonIntern(s) => Ident::NonIntern(s),
            ExternalIdent::Anonymous(n) => Ident::Anonymous(n),
        }
    }
}

/// The names of a sequence of identifiers, in order.
pub open spec fn names_of(idents: Seq<Ident>) -> Seq<Name> {
    Seq::new(idents.len(), |i: int| idents[i]@)
}

/// An `IdentPath` designates an entry that may be in a nested table.
///
/// Its view is the sequence of names from the outermost table inwards. The
/// last name is the subject; the names before it are the prefix, each naming
/// a nested table. A path has at least one name.
#[derive(Debug)]
pub struct IdentPath {
    prefix: Vec<Ident>,
    subject: Ident,
}

impl View for IdentPath {
    type V = Seq<Name>;

    closed spec fn view(&self) -> Seq<Name> {
        names_of(self.prefix@).push(self.subject@)
    }
}

impl IdentPath {
    /// Construct a path of length 1 from an `Ident`.
    pub fn new(subject: Ident) -> (path: Self)
        ensures
            path@ == seq![subject@],
    {
        let prefix = Vec::new();
        let path = Self { prefix, subject };
        assert(path@ =~= seq![subject@]);
        path
    }

    /// Append an `Ident` to a path. The old subject becomes the last table
    /// of the prefix and `subject` the new subject.
    pub fn append(self, subject: Ident) -> (path: Self)
        ensures
            path@ == self@.push(subject@),
    {
        let mut prefix = self.prefix;
        prefix.push(self.subject);
        let path = Self { prefix, subject };
        assert(path@ =~= self@.push(subject@));
        path
    }

    /// The identifiers of the nested tables to walk through, outermost first.
    pub fn prefix(&self) -> (prefix: &Vec<Ident>)
        ensures
            names_of(prefix@) == self@.drop_last(),
    {
        assert(names_of(self.prefix@) =~= self@.drop_last());
        &self.prefix
    }

    /// The identifier of the entry that the path leads to.
    pub fn subject(&self) -> (subject: &Ident)
        ensures
            subject@ == self@.last(),
    {
        &self.subject
    }

    /// Whether the two paths have the same names in the same order.
    pub fn same_names(&self, other: &IdentPath) -> (same: bool)
        ensures
            same == (self@ == other@),
    {
        if self.prefix.len() != other.prefix.len() {
            proof {
                assert(self@.len() == self.prefix@.len() + 1);
                assert(other@.len() == other.prefix@.len() + 1);
            }
            return false;
        }
        let mut i: usize = 0;
        while i < self.prefix.len()
            invariant
                i <= self.prefix@.len(),
                self.prefix@.len() == other.prefix@.len(),
                forall|j: int| 0 <= j < i ==> self.prefix@[j]@ == other.prefix@[j]@,
            decreases self.prefix@.len() - i,
        {
            if !self.prefix[i].same_name(&other.prefix[i]) {
                proof {
                    assert(self@[i as int] == self.prefix@[i as int]@);
                    assert(other@[i as int] == other.prefix@[i as int]@);
                }
                return false;
            }
            i += 1;
        }
        let same = self.subject.same_name(&other.subject);
        proof {
            if same {
                assert(self@ =~= other@);
            } else {
                assert(self@.last() == self.subject@);
                assert(other@.last() == other.subject@);
            }
        }
        same
    }

    /// A path is never empty.
    pub proof fn lemma_nonempty(&self)
        ensures
            self@.len() >= 1,
    {
    }
}

impl PartialEq for IdentPath {
    fn eq(&self, other: &Self) -> (same: bool) {
        self.same_names(other)
    }
}

impl PartialEqSpecImpl for IdentPath {
    open spec fn obeys_eq_spec() -> bool {
        true
    }

    open spec fn eq_spec(&self, other: &Self) -> bool {
        self@ == other@
    }
}

impl Clone for IdentPath {
    fn clone(&self) -> (copy: Self)
        ensures
            copy@ == self@,
    {
        let mut prefix: Vec<Ident> = Vec::new();
        let mut i: usize = 0;
        while i < self.prefix.len()
            invariant
                i <= self.prefix@.len(),
                prefix@.len() == i,
                forall|j: int| 0 <= j < i ==> prefix@[j]@ == self.prefix@[j]@,
            decreases self.prefix@.len() - i,
        {
            prefix.push(self.prefix[i].clone());
            i += 1;
        }
        assert(names_of(prefix@) =~= names_of(self.prefix@));
        Self { prefix, subject: self.subject.clone() }
    }
}

/// The set of names that occur in a sequence of identifiers.
pub open spec fn name_set(idents: Seq<Ident>) -> Set<Name> {
    Set::new(|n: Name| exists|i: int| 0 <= i < idents.len() && #[trigger] idents[i]@ == n)
}

/// Whether no name occurs twice in a sequence of identifiers.
pub open spec fn distinct_names(idents: Seq<Ident>) -> bool {
    forall|i: int, j: int| 0 <= i < j < idents.len() ==> idents[i]@ != idents[j]@
}

/// The position of the first identifier in `idents` that stands for the same
/// name as `wanted`, if there is one.
pub fn position_of(idents: &Vec<Ident>, wanted: &Ident) -> (found: Option<usize>)
    ensures
        match found {
            Some(i) => i < idents@.len() && idents@[i as int]@ == wanted@,
            None => !name_set(idents@).contains(wanted@),
        },
{
    let mut i: usize = 0;
    while i < idents.len()
        invariant
            i <= idents@.len(),
            forall|j: int| 0 <= j < i ==> idents@[j]@ != wanted@,
        decreases idents@.len() - i,
    {
        if idents[i].same_name(wanted) {
            return Some(i);
        }
        i += 1;
    }
    None
}

/// A set of `Ident`s, joined by union.
///
/// Its view is the set of the names of its members. No name is held twice.
#[derive(Debug)]
pub struct IdentSet {
    members: Vec<Ident>,
}

impl View for IdentSet {
    type V = Set<Name>;

    closed spec fn view(&self) -> Set<Name> {
        name_set(self.members@)
    }
}

impl IdentSet {
    #[verifier::type_invariant]
    spec fn distinct(&self) -> bool {
        distinct_names(self.members@)
    }

    /// The set of the names of `elems`. A name that occurs several times in
    /// `elems` is a member once.
    pub fn new(elems: Vec<Ident>) -> (set: Self)
        ensures
            set@ == name_set(elems@),
    {
        let mut members: Vec<Ident> = Vec::new();
        for e in it: elems
            invariant
                it.seq() == elems@,
                distinct_names(members@),
                name_set(members@) == name_set(elems@.take(it.index() as int)),
        {
            let ghost before = members@;
            let ghost i = it.index() as int;
            if position_of(&members, &e).is_none() {
                members.push(e);
            }
            assert(name_set(members@) =~= name_set(elems@.take(i + 1))) by {
                assert(elems@.take(i + 1) =~= elems@.take(i).push(e));
                lemma_name_set_push(elems@.take(i), e);
                if before.len() < members@.len() {
                    lemma_name_set_push(before, e);
                }
            }
        }
        assert(elems@.take(elems@.len() as int) =~= elems@);
        Self { members }
    }

    /// Whether `ident`'s name is a member.
    pub fn contains(&self, ident: &Ident) -> (found: bool)
        ensures
            found == self@.contains(ident@),
    {
        position_of(&self.members, ident).is_some()
    }

    /// Whether the two sets have the same members.
    pub fn same_members(&self, other: &IdentSet) -> (same: bool)
        ensures
            same == (self@ == other@),
    {
        proof {
            use_type_invariant(self);
            use_type_invariant(other);
            lemma_name_set_len(self.members@);
            lemma_name_set_len(other.members@);
        }
        if self.members.len() != other.members.len() {
            return false;
        }
        let mut i: usize = 0;
        while i < self.members.len()
            invariant
                i <= self.members@.len(),
                forall|j: int| 0 <= j < i ==> other@.contains(#[trigger] self.members@[j]@),
            decreases self.members@.len() - i,
        {
            if !other.contains(&self.members[i]) {
                proof {
                    assert(self@.contains(self.members@[i as int]@));
                }
                return false;
            }
            i += 1;
        }
        proof {
            assert(self@.subset_of(other@)) by {
                assert forall|n: Name| self@.contains(n) implies other@.contains(n) by {
                    let j = choose|j: int| 0 <= j < self.members@.len() && #[trigger] self.members@[j]@ == n;
                    assert(other@.contains(self.members@[j]@));
                }
            }
            vstd::set_lib::lemma_subset_equality(self@, other@);
        }
        true
    }

    /// The number of members.
    pub fn len(&self) -> (n: usize)
        ensures
            self@.finite(),
            n == self@.len(),
    {
        proof {
            use_type_invariant(self);
            lemma_name_set_len(self.members@);
        }
        self.members.len()
    }

    /// The members, each name once, in no particular order.
    pub fn members(&self) -> (members: &Vec<Ident>)
        ensures
            name_set(members@) == self@,
            distinct_names(members@),
    {
        proof {
            use_type_invariant(self);
        }
        &self.members
    }

    /// Join by union with the members of `other`. Returns `true` iff the
    /// set grew.
    pub fn join_update_from(&mut self, other: &IdentSet) -> (changed: bool)
        ensures
            final(self)@ == old(self)@.union(other@),
            changed <==> final(self)@ != old(self)@,
    {
        let mut taken = IdentSet { members: Vec::new() };
        std::mem::swap(self, &mut taken);
        proof {
            use_type_invariant(&taken);
        }
        let IdentSet { members: mut mine } = taken;
        let theirs = &other.members;
        let ghost start = mine@;
        let mut changed = false;
        let mut i: usize = 0;
        while i < theirs.len()
            invariant
                i <= theirs@.len(),
                distinct_names(mine@),
                name_set(mine@) == name_set(start).union(name_set(theirs@.take(i as int))),
                changed <==> name_set(mine@) != name_set(start),
            decreases theirs@.len() - i,
        {
            let ghost before = mine@;
            let ghost e = theirs@[i as int];
            if position_of(&mine, &theirs[i]).is_none() {
                mine.push(theirs[i].clone());
                changed = true;
            }
            proof {
                assert(theirs@.take(i + 1) =~= theirs@.take(i as int).push(e));
                lemma_name_set_push(theirs@.take(i as int), e);
                if before.len() < mine@.len() {
                    lemma_name_set_push(before, mine@.last());
                    assert(name_set(mine@).contains(e@));
                    assert(!name_set(start).contains(e@));
                }
                assert(name_set(mine@) =~= name_set(start).union(name_set(theirs@.take(i + 1))));
            }
            i += 1;
        }
        assert(theirs@.take(theirs@.len() as int) =~= theirs@);
        *self = IdentSet { members: mine };
        changed
    }
}

impl Lattice for IdentSet {
    open spec fn joined(a: Set<Name>, b: Set<Name>) -> Set<Name> {
        a.union(b)
    }

    open spec fn alike(a: Set<Name>, b: Set<Name>) -> bool {
        a == b
    }

    proof fn lemma_idempotent(a: Set<Name>) {
        assert(a.union(a) =~= a);
    }

    proof fn lemma_commutative(a: Set<Name>, b: Set<Name>) {
        assert(a.union(b) =~= b.union(a));
    }

    proof fn lemma_associative(a: Set<Name>, b: Set<Name>, c: Set<Name>) {
        assert(a.union(b).union(c) =~= a.union(b.union(c)));
    }

    fn join_update(&mut self, other: Self) -> (changed: bool) {
        self.join_update_from(&other)
    }
}

impl PartialEq for IdentSet {
    fn eq(&self, other: &Self) -> (same: bool) {
        self.same_members(other)
    }
}

impl PartialEqSpecImpl for IdentSet {
    open spec fn obeys_eq_spec() -> bool {
        true
    }

    open spec fn eq_spec(&self, other: &Self) -> bool {
        self@ == other@
    }
}

impl Clone for IdentSet {
    fn clone(&self) -> (copy: Self)
        ensures
            copy@ == self@,
    {
        proof {
            use_type_invariant(self);
        }
        let mut members: Vec<Ident> = Vec::new();
        let mut i: usize = 0;
        while i < self.members.len()
            invariant
                i <= self.members@.len(),
                members@.len() == i,
                forall|j: int| 0 <= j < i ==> members@[j]@ == self.members@[j]@,
            decreases self.members@.len() - i,
        {
            members.push(self.members[i].clone());
            i += 1;
        }
        assert(name_set(members@) =~= name_set(self.members@)) by {
            assert forall|n: Name| name_set(members@).contains(n) == name_set(self.members@).contains(n) by {
                if name_set(members@).contains(n) {
                    let j = choose|j: int| 0 <= j < members@.len() && #[trigger] members@[j]@ == n;
                    assert(self.members@[j]@ == n);
                }
                if name_set(self.members@).contains(n) {
                    let j = choose|j: int| 0 <= j < self.members@.len() && #[trigger] self.members@[j]@ == n;
                    assert(members@[j]@ == n);
                }
            }
        }
        Self { members }
    }
}

/// Appending an identifier adds its name to the set of names.
pub proof fn lemma_name_set_push(idents: Seq<Ident>, last: Ident)
    ensures
        name_set(idents.push(last)) == name_set(idents).insert(last@),
{
    let longer = idents.push(last);
    assert forall|n: Name| name_set(longer).contains(n) == name_set(idents).insert(last@).contains(n) by {
        if name_set(longer).contains(n) {
            let j = choose|j: int| 0 <= j < longer.len() && #[trigger] longer[j]@ == n;
            if j < idents.len() {
                assert(idents[j]@ == n);
            }
        }
        if name_set(idents).contains(n) {
            let j = choose|j: int| 0 <= j < idents.len() && #[trigger] idents[j]@ == n;
            assert(longer[j]@ == n);
        }
        if n == last@ {
            assert(longer[idents.len() as int]@ == n);
        }
    }
    assert(name_set(longer) =~= name_set(idents).insert(last@));
}

/// A sequence of identifiers with distinct names has as many names as members.
pub proof fn lemma_name_set_len(idents: Seq<Ident>)
    requires
        distinct_names(idents),
    ensures
        name_set(idents).finite(),
        name_set(idents).len() == idents.len(),
    decreases idents.len(),
{
    if idents.len() == 0 {
        assert(name_set(idents) =~= Set::<Name>::empty());
    } else {
        let shorter = idents.drop_last();
        lemma_name_set_len(shorter);
        assert(idents =~= shorter.push(idents.last()));
        lemma_name_set_push(shorter, idents.last());
        assert(!name_set(shorter).contains(idents.last()@)) by {
            if name_set(shorter).contains(idents.last()@) {
                let j = choose|j: int| 0 <= j < shorter.len() && #[trigger] shorter[j]@ == idents.last()@;
                assert(idents[j]@ == idents[idents.len() - 1]@);
            }
        }
    }
}

} // verus!
