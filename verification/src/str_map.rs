//! Maps keyed by strings and kept in key order, with the order of `String`
//! spelled out and proved to be a strict total order.
use vstd::prelude::*;
use crate::text::chars_of;

verus! {

// ---------------------------------------------------------------------------
// Key order
// ---------------------------------------------------------------------------

/// Whether the key `a` sorts before `b` in the order of `String`'s `Ord`:
/// lexicographic by code point (the order of their UTF-8 bytes), a proper
/// prefix first.
pub open spec fn key_before(a: Seq<char>, b: Seq<char>) -> bool
    decreases a.len(),
{
    if a.len() == 0 {
        b.len() > 0
    } else if b.len() == 0 {
        false
    } else if a[0] != b[0] {
        a[0] < b[0]
    } else {
        key_before(a.drop_first(), b.drop_first())
    }
}

/// No key sorts before itself.
pub proof fn lemma_key_before_irreflexive(a: Seq<char>)
    ensures
        !key_before(a, a),
    decreases a.len(),
{
    if a.len() > 0 {
        lemma_key_before_irreflexive(a.drop_first());
    }
}

/// Of two keys, at most one sorts before the other.
pub proof fn lemma_key_before_asymmetric(a: Seq<char>, b: Seq<char>)
    ensures
        key_before(a, b) ==> !key_before(b, a),
    decreases a.len(),
{
    if a.len() > 0 && b.len() > 0 && a[0] == b[0] {
        lemma_key_before_asymmetric(a.drop_first(), b.drop_first());
    }
}

/// The key order is transitive.
pub proof fn lemma_key_before_transitive(a: Seq<char>, b: Seq<char>, c: Seq<char>)
    requires
        key_before(a, b),
        key_before(b, c),
    ensures
        key_before(a, c),
    decreases a.len(),
{
    if a.len() > 0 && b.len() > 0 && c.len() > 0 && a[0] == b[0] && b[0] == c[0] {
        lemma_key_before_transitive(a.drop_first(), b.drop_first(), c.drop_first());
    }
}

/// Of two different keys, one sorts before the other.
pub proof fn lemma_key_before_total(a: Seq<char>, b: Seq<char>)
    requires
        a != b,
    ensures
        key_before(a, b) || key_before(b, a),
    decreases a.len(),
{
    if a.len() == 0 && b.len() == 0 {
        assert(a =~= b);
    } else if a.len() > 0 && b.len() > 0 && a[0] == b[0] {
        if a.drop_first() == b.drop_first() {
            assert(a =~= seq![a[0]] + a.drop_first());
            assert(b =~= seq![b[0]] + b.drop_first());
        } else {
            lemma_key_before_total(a.drop_first(), b.drop_first());
        }
    } else if a.len() > 0 && b.len() > 0 {
        assert(a[0] != b[0]);
    }
}

/// Where one key stands relative to another.
#[derive(Debug, Clone, Copy, PartialEq, Eq, Structural)]
pub enum KeyOrder {
    Before,
    Same,
    After,
}

/// Compares two keys in the order of `key_before`.
pub fn key_order(a: &[char], b: &[char]) -> (o: KeyOrder)
    ensures
        (o == KeyOrder::Before) == key_before(a@, b@),
        (o == KeyOrder::Same) == (a@ == b@),
        (o == KeyOrder::After) == key_before(b@, a@),
{
    proof {
        lemma_key_before_irreflexive(a@);
        lemma_key_before_asymmetric(a@, b@);
        if a@ != b@ {
            lemma_key_before_total(a@, b@);
        }
    }
    let mut i: usize = 0;
    assert(a@.skip(0) =~= a@);
    assert(b@.skip(0) =~= b@);
    while i < a.len() && i < b.len()
        invariant
            0 <= i <= a.len(),
            i <= b.len(),
            forall|j: int| 0 <= j < i ==> a@[j] == b@[j],
            key_before(a@, b@) == key_before(a@.skip(i as int), b@.skip(i as int)),
            key_before(b@, a@) == key_before(b@.skip(i as int), a@.skip(i as int)),
            !key_before(a@, a@),
            key_before(a@, b@) ==> !key_before(b@, a@),
            a@ != b@ ==> key_before(a@, b@) || key_before(b@, a@),
        decreases a.len() - i,
    {
        let ghost sa = a@.skip(i as int);
        let ghost sb = b@.skip(i as int);
        assert(sa[0] == a@[i as int]);
        assert(sb[0] == b@[i as int]);
        if a[i] != b[i] {
            return if a[i] < b[i] {
                KeyOrder::Before
            } else {
                KeyOrder::After
            };
        }
        assert(sa.drop_first() =~= a@.skip(i + 1));
        assert(sb.drop_first() =~= b@.skip(i + 1));
        i = i + 1;
    }
    if a.len() == b.len() {
        assert(a@ =~= b@);
        KeyOrder::Same
    } else if a.len() < b.len() {
        assert(a@.skip(i as int).len() == 0);
        KeyOrder::Before
    } else {
        assert(b@.skip(i as int).len() == 0);
        KeyOrder::After
    }
}

// ---------------------------------------------------------------------------
// Gate maps
// ---------------------------------------------------------------------------

/// Whether the entries are in strictly increasing key order.
pub open spec fn sorted_keys<V>(e: Seq<(String, V)>) -> bool {
    forall|i: int, j: int| 0 <= i < j < e.len() ==> key_before(#[trigger] e[i].0@, #[trigger] e[j].0@)
}

/// Whether some entry has the key `k`.
pub open spec fn has_key<V>(e: Seq<(String, V)>, k: Seq<char>) -> bool {
    exists|i: int| 0 <= i < e.len() && (#[trigger] e[i]).0@ == k
}

/// The position of an entry with the key `k`.
pub open spec fn key_index<V>(e: Seq<(String, V)>, k: Seq<char>) -> int {
    choose|i: int| 0 <= i < e.len() && (#[trigger] e[i]).0@ == k
}

/// The map from keys to values that the entries describe.
pub open spec fn entries_map<V>(e: Seq<(String, V)>) -> Map<Seq<char>, V> {
    Map::new(|k: Seq<char>| has_key(e, k), |k: Seq<char>| e[key_index(e, k)].1)
}

/// In sorted entries the value of a key is the one of its entry.
pub proof fn lemma_entries_map_value<V>(e: Seq<(String, V)>, i: int)
    requires
        sorted_keys(e),
        0 <= i < e.len(),
    ensures
        entries_map(e).contains_key(e[i].0@),
        entries_map(e)[e[i].0@] == e[i].1,
{
    let k = e[i].0@;
    assert(has_key(e, k));
    let j = key_index(e, k);
    if j != i {
        if j < i {
            assert(key_before(e[j].0@, e[i].0@));
        } else {
            assert(key_before(e[i].0@, e[j].0@));
        }
        lemma_key_before_irreflexive(k);
    }
}

/// A map from string keys to values, kept in key order as a `BTreeMap`
/// keeps it.
#[derive(Debug)]
pub struct StrMap<V> {
    entries: Vec<(String, V)>,
}

impl<V> StrMap<V> {
    #[verifier::type_invariant]
    spec fn keys_sorted(self) -> bool {
        sorted_keys(self.entries@)
    }
}

impl<V> View for StrMap<V> {
    type V = Map<Seq<char>, V>;

    closed spec fn view(&self) -> Map<Seq<char>, V> {
        entries_map(self.entries@)
    }
}

impl<V: Copy> Clone for StrMap<V> {
    fn clone(&self) -> (r: StrMap<V>)
        ensures
            r@ == self@,
    {
        proof {
            use_type_invariant(self);
        }
        let mut entries: Vec<(String, V)> = Vec::new();
        let mut i: usize = 0;
        while i < self.entries.len()
            invariant
                0 <= i <= self.entries.len(),
                entries@.len() == i,
                forall|j: int| 0 <= j < i ==> #[trigger] entries@[j] == self.entries@[j],
            decreases self.entries.len() - i,
        {
            let k = self.entries[i].0.clone();
            entries.push((k, self.entries[i].1));
            i = i + 1;
        }
        assert(entries@ =~= self.entries@);
        StrMap { entries }
    }
}

impl<V> StrMap<V> {
    /// The empty map.
    pub fn new() -> (m: StrMap<V>)
        ensures
            m@ == Map::<Seq<char>, V>::empty(),
    {
        let m = StrMap { entries: Vec::new() };
        assert(m@ =~= Map::<Seq<char>, V>::empty());
        m
    }

    /// The number of gates.
    pub fn len(&self) -> (n: usize)
        ensures
            n == self@.dom().len(),
    {
        proof {
            use_type_invariant(self);
            self.lemma_len();
        }
        self.entries.len()
    }

    proof fn lemma_len(&self)
        requires
            sorted_keys(self.entries@),
        ensures
            self@.dom().finite(),
            self@.dom().len() == self.entries@.len(),
    {
        let e = self.entries@;
        let keys = e.map_values(|p: (String, V)| p.0@);
        assert forall|i: int, j: int| 0 <= i < j < keys.len() implies keys[i] != keys[j] by {
            assert(key_before(e[i].0@, e[j].0@));
            lemma_key_before_irreflexive(e[i].0@);
        }
        keys.unique_seq_to_set();
        assert(self@.dom() =~= keys.to_set()) by {
            assert forall|k: Seq<char>| self@.dom().contains(k) implies keys.to_set().contains(k) by {
                let i = key_index(e, k);
                assert(keys[i] == k);
            }
            assert forall|k: Seq<char>| keys.to_set().contains(k) implies self@.dom().contains(k) by {
                let i = choose|i: int| 0 <= i < keys.len() && keys[i] == k;
                assert(e[i].0@ == k);
            }
        }
    }

    /// Whether the map holds no gate.
    pub fn is_empty(&self) -> (r: bool)
        ensures
            r == (self@ == Map::<Seq<char>, V>::empty()),
    {
        if self.entries.len() == 0 {
            assert(self@ =~= Map::<Seq<char>, V>::empty());
            true
        } else {
            assert(self@.contains_key(self.entries@[0].0@)) by {
                assert(has_key(self.entries@, self.entries@[0].0@));
            }
            false
        }
    }

    /// The value of the key `name`, if it is set.
    pub fn get(&self, name: &str) -> (r: Option<&V>)
        ensures
            match r {
                Some(v) => self@.contains_key(name@) && *v == self@[name@],
                None => !self@.contains_key(name@),
            },
    {
        proof {
            use_type_invariant(self);
        }
        let k = chars_of(name);
        let mut i: usize = 0;
        while i < self.entries.len()
            invariant
                0 <= i <= self.entries.len(),
                k@ == name@,
                sorted_keys(self.entries@),
                forall|j: int| 0 <= j < i ==> (#[trigger] self.entries@[j]).0@ != name@,
            decreases self.entries.len() - i,
        {
            let key = chars_of(self.entries[i].0.as_str());
            if key_order(key.as_slice(), k.as_slice()) == KeyOrder::Same {
                proof {
                    lemma_entries_map_value(self.entries@, i as int);
                }
                return Some(&self.entries[i].1);
            }
            i = i + 1;
        }
        assert(!has_key(self.entries@, name@));
        None
    }

    /// Sets the key `name` to `value`, in place of its value so far.
    pub fn insert(&mut self, name: String, value: V)
        ensures
            final(self)@ == old(self)@.insert(name@, value),
    {
        proof {
            use_type_invariant(&*self);
        }
        let mut e: Vec<(String, V)> = Vec::new();
        std::mem::swap(&mut e, &mut self.entries);
        let ghost old_e = e@;
        let k = chars_of(name.as_str());
        let mut i: usize = 0;
        let mut same = false;
        while i < e.len()
            invariant_except_break
                !same,
            invariant
                0 <= i <= e.len(),
                e@ == old_e,
                k@ == name@,
                forall|j: int| 0 <= j < i ==> key_before((#[trigger] old_e[j]).0@, name@),
            ensures
                0 <= i <= e.len(),
                e@ == old_e,
                forall|j: int| 0 <= j < i ==> key_before((#[trigger] old_e[j]).0@, name@),
                same ==> i < e.len() && old_e[i as int].0@ == name@,
                !same && i < e.len() ==> key_before(name@, old_e[i as int].0@),
            decreases e.len() - i,
        {
            let key = chars_of(e[i].0.as_str());
            let o = key_order(key.as_slice(), k.as_slice());
            if o == KeyOrder::Same {
                same = true;
                break;
            } else if o == KeyOrder::After {
                break;
            }
            i = i + 1;
        }
        let ghost pair = (name, value);
        if same {
            proof {
                lemma_entries_after_update(old_e, i as int, pair);
            }
            e.set(i, (name, value));
        } else {
            proof {
                lemma_entries_after_insert(old_e, i as int, pair);
            }
            e.insert(i, (name, value));
        }
        self.entries = e;
    }
}


impl<V> StrMap<V> {
    /// The entries, in key order.
    pub fn entries(&self) -> (r: &Vec<(String, V)>)
        ensures
            sorted_keys(r@),
            entries_map(r@) == self@,
    {
        proof {
            use_type_invariant(self);
        }
        &self.entries
    }
}

impl<V: Copy> StrMap<V> {
    /// Sets every gate of `other` to its value there; gates that only this
    /// map has keep theirs.
    pub fn extend(&mut self, other: &StrMap<V>)
        ensures
            final(self)@ == old(self)@.union_prefer_right(other@),
    {
        proof {
            use_type_invariant(other);
        }
        let ghost e = other.entries@;
        let mut i: usize = 0;
        assert(entries_map(e.take(0)) =~= Map::<Seq<char>, V>::empty());
        assert(old(self)@.union_prefer_right(Map::<Seq<char>, V>::empty()) =~= old(self)@);
        while i < other.entries.len()
            invariant
                0 <= i <= other.entries.len(),
                e == other.entries@,
                sorted_keys(e),
                self@ == old(self)@.union_prefer_right(entries_map(e.take(i as int))),
            decreases other.entries.len() - i,
        {
            let name = other.entries[i].0.clone();
            let value = other.entries[i].1;
            proof {
                let t = e.take(i as int);
                assert(sorted_keys(t)) by {
                    assert forall|a: int, b: int| 0 <= a < b < t.len() implies key_before(
                        #[trigger] t[a].0@,
                        #[trigger] t[b].0@,
                    ) by {
                        assert(key_before(e[a].0@, e[b].0@));
                    }
                }
                assert forall|j: int| 0 <= j < i implies key_before((#[trigger] t[j]).0@, e[i as int].0@) by {
                    assert(key_before(e[j].0@, e[i as int].0@));
                }
                lemma_entries_after_insert(t, i as int, e[i as int]);
                assert(t.insert(i as int, e[i as int]) =~= e.take(i + 1));
                assert(old(self)@.union_prefer_right(entries_map(t)).insert(e[i as int].0@, e[i as int].1)
                    =~= old(self)@.union_prefer_right(entries_map(t).insert(e[i as int].0@, e[i as int].1)));
            }
            self.insert(name, value);
            i = i + 1;
        }
        assert(e.take(e.len() as int) =~= e);
    }
}

/// Replacing the entry of a key keeps the entries sorted and sets that key.
proof fn lemma_entries_after_update<V>(e: Seq<(String, V)>, i: int, p: (String, V))
    requires
        sorted_keys(e),
        0 <= i < e.len(),
        e[i].0@ == p.0@,
    ensures
        sorted_keys(e.update(i, p)),
        entries_map(e.update(i, p)) == entries_map(e).insert(p.0@, p.1),
{
    let n = e.update(i, p);
    assert forall|a: int, b: int| 0 <= a < b < n.len() implies key_before(
        #[trigger] n[a].0@,
        #[trigger] n[b].0@,
    ) by {
        assert(key_before(e[a].0@, e[b].0@));
    }
    let m = entries_map(e).insert(p.0@, p.1);
    assert forall|x: Seq<char>| #[trigger] entries_map(n).contains_key(x) == m.contains_key(x) by {
        if has_key(n, x) {
            let j = choose|j: int| 0 <= j < n.len() && n[j].0@ == x;
            if j != i {
                assert(has_key(e, x)) by {
                    assert(e[j].0@ == x);
                }
            }
        }
        if has_key(e, x) {
            let j = choose|j: int| 0 <= j < e.len() && e[j].0@ == x;
            assert(n[j].0@ == x);
        }
        if x == p.0@ {
            assert(n[i].0@ == x);
        }
    }
    assert forall|x: Seq<char>| entries_map(n).contains_key(x) implies #[trigger] entries_map(n)[x]
        == m[x] by {
        let j = choose|j: int| 0 <= j < n.len() && n[j].0@ == x;
        lemma_entries_map_value(n, j);
        lemma_key_before_irreflexive(p.0@);
        if j < i {
            assert(key_before(e[j].0@, e[i].0@));
            lemma_entries_map_value(e, j);
        } else if j > i {
            assert(key_before(e[i].0@, e[j].0@));
            lemma_entries_map_value(e, j);
        }
    }
    assert(entries_map(n) =~= m);
}

proof fn lemma_inserted_value<V>(e: Seq<(String, V)>, i: int, p: (String, V), x: Seq<char>)
    requires
        sorted_keys(e),
        sorted_keys(e.insert(i, p)),
        0 <= i <= e.len(),
        forall|j: int| 0 <= j < i ==> key_before((#[trigger] e[j]).0@, p.0@),
        entries_map(e.insert(i, p)).contains_key(x),
    ensures
        entries_map(e.insert(i, p))[x] == entries_map(e).insert(p.0@, p.1)[x],
{
    let n = e.insert(i, p);
    let m = entries_map(e).insert(p.0@, p.1);
    let j = choose|j: int| 0 <= j < n.len() && n[j].0@ == x;
    lemma_entries_map_value(n, j);
    assert(entries_map(n)[x] == n[j].1);
    lemma_key_before_irreflexive(p.0@);
    if j < i {
        assert(n[j] == e[j]);
        lemma_entries_map_value(e, j);
        assert(key_before(e[j].0@, p.0@));
        assert(x != p.0@);
        assert(m[x] == entries_map(e)[x]);
    } else if j > i {
        assert(n[j] == e[j - 1]);
        lemma_entries_map_value(e, j - 1);
        assert(key_before(n[i].0@, n[j].0@));
        assert(x != p.0@);
        assert(m[x] == entries_map(e)[x]);
    } else {
        assert(n[i] == p);
        assert(m[x] == p.1);
    }
}

/// Putting a new key at its place keeps the entries sorted and adds the key.
proof fn lemma_entries_after_insert<V>(e: Seq<(String, V)>, i: int, p: (String, V))
    requires
        sorted_keys(e),
        0 <= i <= e.len(),
        forall|j: int| 0 <= j < i ==> key_before((#[trigger] e[j]).0@, p.0@),
        i < e.len() ==> key_before(p.0@, e[i].0@),
    ensures
        sorted_keys(e.insert(i, p)),
        entries_map(e.insert(i, p)) == entries_map(e).insert(p.0@, p.1),
{
    let n = e.insert(i, p);
    assert forall|a: int, b: int| 0 <= a < b < n.len() implies key_before(
        #[trigger] n[a].0@,
        #[trigger] n[b].0@,
    ) by {
        if b < i {
            assert(key_before(e[a].0@, e[b].0@));
        } else if b == i {
            assert(key_before(e[a].0@, p.0@));
        } else if a < i {
            assert(key_before(e[a].0@, e[b - 1].0@));
        } else if a == i {
            if b - 1 > i {
                assert(key_before(e[i].0@, e[b - 1].0@));
                lemma_key_before_transitive(p.0@, e[i].0@, e[b - 1].0@);
            }
        } else {
            assert(key_before(e[a - 1].0@, e[b - 1].0@));
        }
    }
    let m = entries_map(e).insert(p.0@, p.1);
    assert forall|x: Seq<char>| #[trigger] entries_map(n).contains_key(x) == m.contains_key(x) by {
        if has_key(n, x) {
            let j = choose|j: int| 0 <= j < n.len() && n[j].0@ == x;
            if j < i {
                assert(e[j].0@ == x);
            } else if j > i {
                assert(e[j - 1].0@ == x);
            }
        }
        if has_key(e, x) {
            let j = choose|j: int| 0 <= j < e.len() && e[j].0@ == x;
            if j < i {
                assert(n[j].0@ == x);
            } else {
                assert(n[j + 1].0@ == x);
            }
        }
        if x == p.0@ {
            assert(n[i].0@ == x);
        }
    }
    assert forall|x: Seq<char>| entries_map(n).contains_key(x) implies #[trigger] entries_map(n)[x]
        == m[x] by {
        lemma_inserted_value(e, i, p, x);
    }
    assert(entries_map(n) =~= m);
}

/// A read gives back what the last write of that key wrote, and a write
/// leaves every other key as it was.
pub proof fn law_read_after_write<V>(m: Map<Seq<char>, V>, k: Seq<char>, v: V, other: Seq<char>)
    ensures
        m.insert(k, v).contains_key(k),
        m.insert(k, v)[k] == v,
        other != k ==> m.insert(k, v).contains_key(other) == m.contains_key(other),
        other != k && m.contains_key(other) ==> m.insert(k, v)[other] == m[other],
{
}

} // verus!
