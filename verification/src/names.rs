//! A map from names to values that keeps its entries ordered by name, as a `BTreeMap`
//! keyed by `String` does: names compare character by character by code point, which is
//! the byte order of their UTF-8 encoding.

use vstd::prelude::*;
use crate::text::chars_of;

verus! {

/// `a` comes strictly before `b` in lexicographic order by code point.
pub open spec fn name_lt(a: Seq<char>, b: Seq<char>) -> bool
    decreases a.len(),
{
    if b.len() == 0 {
        false
    } else if a.len() == 0 {
        true
    } else if a[0] != b[0] {
        (a[0] as int) < (b[0] as int)
    } else {
        name_lt(a.drop_first(), b.drop_first())
    }
}

pub proof fn lemma_name_lt_irreflexive(a: Seq<char>)
    ensures
        !name_lt(a, a),
    decreases a.len(),
{
    if a.len() > 0 {
        lemma_name_lt_irreflexive(a.drop_first());
    }
}

pub proof fn lemma_name_lt_asymmetric(a: Seq<char>, b: Seq<char>)
    ensures
        name_lt(a, b) ==> !name_lt(b, a),
    decreases a.len(),
{
    if a.len() > 0 && b.len() > 0 && a[0] == b[0] {
        lemma_name_lt_asymmetric(a.drop_first(), b.drop_first());
    }
}

pub proof fn lemma_name_lt_transitive(a: Seq<char>, b: Seq<char>, c: Seq<char>)
    ensures
        name_lt(a, b) && name_lt(b, c) ==> name_lt(a, c),
    decreases a.len(),
{
    if a.len() > 0 && b.len() > 0 && c.len() > 0 {
        lemma_name_lt_transitive(a.drop_first(), b.drop_first(), c.drop_first());
    }
}

pub proof fn lemma_name_lt_total(a: Seq<char>, b: Seq<char>)
    ensures
        a != b ==> name_lt(a, b) || name_lt(b, a),
    decreases a.len(),
{
    if a.len() > 0 && b.len() > 0 {
        if a[0] == b[0] {
            lemma_name_lt_total(a.drop_first(), b.drop_first());
            if a.drop_first() == b.drop_first() {
                assert(a =~= seq![a[0]] + a.drop_first());
                assert(b =~= seq![b[0]] + b.drop_first());
            }
        }
    } else if a.len() == 0 && b.len() == 0 {
        assert(a =~= b);
    }
}

/// Compares two names character by character.
pub fn name_less(a: &Vec<char>, b: &Vec<char>) -> (r: bool)
    ensures
        r == name_lt(a@, b@),
{
    let mut i: usize = 0;
    assert(a@.skip(0) =~= a@);
    assert(b@.skip(0) =~= b@);
    while i < a.len() && i < b.len() && a[i] == b[i]
        invariant
            i <= a.len(),
            i <= b.len(),
            name_lt(a@, b@) == name_lt(a@.skip(i as int), b@.skip(i as int)),
        decreases a.len() - i,
    {
        assert(a@.skip(i as int).drop_first() =~= a@.skip(i + 1));
        assert(b@.skip(i as int).drop_first() =~= b@.skip(i + 1));
        i += 1;
    }
    if i == b.len() {
        false
    } else if i == a.len() {
        true
    } else {
        assert(a@.skip(i as int)[0] == a@[i as int]);
        assert(b@.skip(i as int)[0] == b@[i as int]);
        a[i] < b[i]
    }
}

/// Entries ordered strictly by name, so that no name occurs twice.
pub open spec fn names_sorted<V>(s: Seq<(Seq<char>, V)>) -> bool {
    forall|i: int, j: int| 0 <= i < j < s.len() ==> name_lt(#[trigger] s[i].0, #[trigger] s[j].0)
}

/// The value stored under `name`.
pub open spec fn lookup<V>(s: Seq<(Seq<char>, V)>, name: Seq<char>) -> Option<V>
    decreases s.len(),
{
    if s.len() == 0 {
        None
    } else if s.last().0 == name {
        Some(s.last().1)
    } else {
        lookup(s.drop_last(), name)
    }
}

/// Index of the first entry whose name does not come before `name`, from `i` on.
pub open spec fn lower_bound<V>(s: Seq<(Seq<char>, V)>, name: Seq<char>, i: int) -> int
    decreases s.len() - i,
{
    if i >= s.len() {
        s.len() as int
    } else if name_lt(s[i].0, name) {
        lower_bound(s, name, i + 1)
    } else {
        i
    }
}

/// The entries after storing `value` under `name`: the value of an existing entry with that
/// name is replaced; otherwise a new entry goes where the order puts it.
pub open spec fn spec_insert<V>(s: Seq<(Seq<char>, V)>, name: Seq<char>, value: V) -> Seq<
    (Seq<char>, V),
> {
    let i = lower_bound(s, name, 0);
    if i < s.len() && s[i].0 == name {
        s.update(i, (name, value))
    } else {
        s.insert(i, (name, value))
    }
}

/// A map from names to values, ordered by name.
pub struct NameMap<V> {
    entries: Vec<(String, V)>,
}

impl<V> View for NameMap<V> {
    type V = Seq<(Seq<char>, V)>;

    closed spec fn view(&self) -> Seq<(Seq<char>, V)> {
        self.entries@.map_values(|e: (String, V)| (e.0@, e.1))
    }
}

proof fn lemma_lower_bound<V>(s: Seq<(Seq<char>, V)>, name: Seq<char>, i: int)
    requires
        0 <= i <= s.len(),
    ensures
        i <= lower_bound(s, name, i) <= s.len(),
        forall|k: int| i <= k < lower_bound(s, name, i) ==> name_lt(#[trigger] s[k].0, name),
        lower_bound(s, name, i) < s.len() ==> !name_lt(s[lower_bound(s, name, i)].0, name),
    decreases s.len() - i,
{
    if i < s.len() && name_lt(s[i].0, name) {
        lemma_lower_bound(s, name, i + 1);
    }
}

proof fn lemma_lookup_absent<V>(s: Seq<(Seq<char>, V)>, name: Seq<char>)
    requires
        forall|k: int| 0 <= k < s.len() ==> #[trigger] s[k].0 != name,
    ensures
        lookup(s, name) is None,
    decreases s.len(),
{
    if s.len() > 0 {
        assert(s[s.len() - 1] == s.last());
        lemma_lookup_absent(s.drop_last(), name);
    }
}

proof fn lemma_lookup_at<V>(s: Seq<(Seq<char>, V)>, name: Seq<char>, i: int)
    requires
        0 <= i < s.len(),
        s[i].0 == name,
        forall|k: int| 0 <= k < s.len() && k != i ==> #[trigger] s[k].0 != name,
    ensures
        lookup(s, name) == Some(s[i].1),
    decreases s.len(),
{
    assert(s[s.len() - 1] == s.last());
    if i < s.len() - 1 {
        lemma_lookup_at(s.drop_last(), name, i);
    }
}

/// In ordered entries, the value found under a name is that of the one entry with it.
pub proof fn lemma_lookup_sorted<V>(s: Seq<(Seq<char>, V)>, name: Seq<char>)
    requires
        names_sorted(s),
    ensures
        forall|i: int| 0 <= i < s.len() && s[i].0 == name ==> lookup(s, name) == Some(#[trigger] s[i].1),
        (forall|i: int| 0 <= i < s.len() ==> #[trigger] s[i].0 != name) ==> lookup(s, name) is None,
{
    assert forall|i: int| 0 <= i < s.len() && s[i].0 == name implies lookup(s, name) == Some(
        #[trigger] s[i].1,
    ) by {
        assert forall|k: int| 0 <= k < s.len() && k != i implies #[trigger] s[k].0 != name by {
            if k < i {
                assert(name_lt(s[k].0, s[i].0));
            } else {
                assert(name_lt(s[i].0, s[k].0));
            }
            lemma_name_lt_irreflexive(name);
        }
        lemma_lookup_at(s, name, i);
    }
    if forall|i: int| 0 <= i < s.len() ==> #[trigger] s[i].0 != name {
        lemma_lookup_absent(s, name);
    }
}

/// Storing a value keeps the entries ordered.
pub proof fn lemma_insert_sorted<V>(s: Seq<(Seq<char>, V)>, name: Seq<char>, value: V)
    requires
        names_sorted(s),
    ensures
        names_sorted(spec_insert(s, name, value)),
        spec_insert(s, name, value).len() == if lookup(s, name) is Some {
            s.len()
        } else {
            s.len() + 1
        },
{
    lemma_lower_bound(s, name, 0);
    lemma_lookup_sorted(s, name);
    let i = lower_bound(s, name, 0);
    let r = spec_insert(s, name, value);
    if i < s.len() && s[i].0 == name {
        assert(lookup(s, name) == Some(s[i].1));
        assert forall|a: int, b: int| 0 <= a < b < r.len() implies name_lt(
            #[trigger] r[a].0,
            #[trigger] r[b].0,
        ) by {
            assert(r[a].0 == s[a].0 && r[b].0 == s[b].0);
        }
    } else {
        if i < s.len() {
            lemma_name_lt_total(s[i].0, name);
        }
        assert forall|k: int| 0 <= k < s.len() implies #[trigger] s[k].0 != name by {
            if k < i {
                assert(name_lt(s[k].0, name));
                lemma_name_lt_irreflexive(name);
            } else if k > i {
                assert(name_lt(s[i].0, s[k].0));
                assert(name_lt(name, s[i].0));
                lemma_name_lt_transitive(name, s[i].0, s[k].0);
                lemma_name_lt_irreflexive(name);
            }
        }
        lemma_lookup_absent(s, name);
        assert forall|a: int, b: int| 0 <= a < b < r.len() implies name_lt(
            #[trigger] r[a].0,
            #[trigger] r[b].0,
        ) by {
            if b < i {
                assert(r[a] == s[a] && r[b] == s[b]);
            } else if b == i {
                assert(r[a] == s[a] && r[b].0 == name);
            } else if a < i {
                assert(r[a] == s[a] && r[b] == s[b - 1]);
                assert(name_lt(s[a].0, name));
                assert(name_lt(name, s[i].0));
                lemma_name_lt_transitive(s[a].0, name, s[i].0);
                if b - 1 > i {
                    lemma_name_lt_transitive(s[a].0, s[i].0, s[b - 1].0);
                }
            } else if a == i {
                assert(r[a].0 == name && r[b] == s[b - 1]);
                if b - 1 > i {
                    lemma_name_lt_transitive(name, s[i].0, s[b - 1].0);
                }
            } else {
                assert(r[a] == s[a - 1] && r[b] == s[b - 1]);
            }
        }
    }
}

/// Reading a name after storing a value gives that value for the stored name and what was
/// there before for every other name.
pub proof fn law_lookup_after_insert<V>(
    s: Seq<(Seq<char>, V)>,
    name: Seq<char>,
    value: V,
    other: Seq<char>,
)
    requires
        names_sorted(s),
    ensures
        lookup(spec_insert(s, name, value), name) == Some(value),
        other != name ==> lookup(spec_insert(s, name, value), other) == lookup(s, other),
{
    lemma_insert_sorted(s, name, value);
    lemma_lower_bound(s, name, 0);
    let i = lower_bound(s, name, 0);
    let r = spec_insert(s, name, value);
    lemma_lookup_sorted(r, name);
    lemma_lookup_sorted(r, other);
    lemma_lookup_sorted(s, other);
    let found = i < s.len() && s[i].0 == name;
    assert(r[i] == (name, value));
    assert(lookup(r, name) == Some(r[i].1));
    if other != name {
        if exists|k: int| 0 <= k < s.len() && s[k].0 == other {
            let k = choose|k: int| 0 <= k < s.len() && s[k].0 == other;
            assert(lookup(s, other) == Some(s[k].1));
            if found || k < i {
                assert(k != i || !found);
                assert(r[k] == s[k]);
                assert(lookup(r, other) == Some(r[k].1));
            } else {
                assert(r[k + 1] == s[k]);
                assert(lookup(r, other) == Some(r[k + 1].1));
            }
        } else {
            assert forall|k: int| 0 <= k < s.len() implies #[trigger] s[k].0 != other by {}
            assert(lookup(s, other) is None);
            assert forall|k: int| 0 <= k < r.len() implies #[trigger] r[k].0 != other by {
                if k == i {
                } else if found || k < i {
                    assert(r[k] == s[k]);
                } else {
                    assert(r[k] == s[k - 1]);
                }
            }
            assert(lookup(r, other) is None);
        }
    }
}

impl<V> NameMap<V> {
    #[verifier::type_invariant]
    spec fn ordered(self) -> bool {
        names_sorted(self@)
    }

    /// An empty map.
    pub fn new() -> (m: Self)
        ensures
            m@ == Seq::<(Seq<char>, V)>::empty(),
    {
        let m = NameMap { entries: Vec::new() };
        assert(m@ =~= Seq::<(Seq<char>, V)>::empty());
        m
    }

    /// The entries are ordered by name (each name occurs once).
    pub fn len(&self) -> (n: usize)
        ensures
            n == self@.len(),
            names_sorted(self@),
    {
        proof {
            use_type_invariant(self);
        }
        self.entries.len()
    }

    pub fn is_empty(&self) -> (b: bool)
        ensures
            b == (self@.len() == 0),
            names_sorted(self@),
    {
        proof {
            use_type_invariant(self);
        }
        self.entries.len() == 0
    }

    /// The `i`-th entry in name order.
    pub fn entry(&self, i: usize) -> (r: (&String, &V))
        requires
            i < self@.len(),
        ensures
            r.0@ == self@[i as int].0,
            *r.1 == self@[i as int].1,
            names_sorted(self@),
    {
        proof {
            use_type_invariant(self);
        }
        let e = &self.entries[i];
        (&e.0, &e.1)
    }

    /// The value stored under `name`.
    pub fn get(&self, name: &str) -> (r: Option<&V>)
        ensures
            match r {
                Some(v) => lookup(self@, name@) == Some(*v),
                None => lookup(self@, name@) is None,
            },
            names_sorted(self@),
    {
        proof {
            use_type_invariant(self);
            lemma_lookup_sorted(self@, name@);
        }
        let target = chars_of(name);
        let mut i: usize = 0;
        while i < self.entries.len()
            invariant
                i <= self.entries.len(),
                target@ == name@,
                names_sorted(self@),
                self@.len() == self.entries.len(),
                forall|k: int| 0 <= k < i ==> #[trigger] self@[k].0 != name@,
            decreases self.entries.len() - i,
        {
            let key = chars_of(self.entries[i].0.as_str());
            assert(self@[i as int] == (self.entries@[i as int].0@, self.entries@[i as int].1));
            if crate::text::chars_equal(&key, &target) {
                proof {
                    lemma_lookup_sorted(self@, name@);
                }
                assert(lookup(self@, name@) == Some(self@[i as int].1));
                return Some(&self.entries[i].1);
            }
            i += 1;
        }
        None
    }

    /// Stores `value` under `name`, replacing the value already there.
    pub fn insert(&mut self, name: String, value: V)
        ensures
            final(self)@ == spec_insert(old(self)@, name@, value),
            names_sorted(final(self)@),
    {
        proof {
            use_type_invariant(&*self);
            lemma_lower_bound(self@, name@, 0);
            lemma_insert_sorted(self@, name@, value);
        }
        let ghost s = self@;
        let target = chars_of(name.as_str());
        let mut i: usize = 0;
        let n = self.entries.len();
        let mut at_bound = false;
        // Find the first entry whose name does not come before `name`.
        while i < n && !at_bound
            invariant
                i <= n == self.entries.len() == s.len(),
                s == self@,
                target@ == name@,
                lower_bound(s, name@, 0) == lower_bound(s, name@, i as int),
                at_bound ==> lower_bound(s, name@, i as int) == i,
            decreases n - i + if at_bound { 0int } else { 1int },
        {
            let key = chars_of(self.entries[i].0.as_str());
            assert(s[i as int] == (self.entries@[i as int].0@, self.entries@[i as int].1));
            if name_less(&key, &target) {
                i += 1;
            } else {
                at_bound = true;
            }
        }
        assert(i as int == lower_bound(s, name@, 0));
        let found = if i < n {
            let key = chars_of(self.entries[i].0.as_str());
            assert(s[i as int] == (self.entries@[i as int].0@, self.entries@[i as int].1));
            crate::text::chars_equal(&key, &target)
        } else {
            false
        };
        let mut entries = Vec::new();
        std::mem::swap(&mut entries, &mut self.entries);
        if found {
            entries.set(i, (name, value));
        } else {
            entries.insert(i, (name, value));
        }
        let ghost new_view = entries@.map_values(|e: (String, V)| (e.0@, e.1));
        assert(new_view =~= spec_insert(s, name@, value));
        self.entries = entries;
    }
}

} // verus!
