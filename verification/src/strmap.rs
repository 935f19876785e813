//! A map keyed by strings that keeps its entries in string order, the
//! order in which a `BTreeMap<String, _>` lists them.

use vstd::prelude::*;
use crate::text::chars_of;

verus! {

/// `a` sorts strictly before `b`: code point by code point, a proper prefix
/// first (the order of `str`, whose UTF-8 bytes sort as their code points).
pub open spec fn str_lt(a: Seq<char>, b: Seq<char>) -> bool
    decreases a.len(),
{
    if a.len() == 0 {
        b.len() > 0
    } else if b.len() == 0 {
        false
    } else if a[0] != b[0] {
        (a[0] as int) < (b[0] as int)
    } else {
        str_lt(a.drop_first(), b.drop_first())
    }
}

/// No string sorts before itself.
pub proof fn lemma_str_lt_irreflexive(a: Seq<char>)
    ensures
        !str_lt(a, a),
    decreases a.len(),
{
    if a.len() > 0 {
        lemma_str_lt_irreflexive(a.drop_first());
    }
}

/// Two different strings are ordered one way or the other.
pub proof fn lemma_str_lt_total(a: Seq<char>, b: Seq<char>)
    ensures
        a != b ==> str_lt(a, b) || str_lt(b, a),
        !(str_lt(a, b) && str_lt(b, a)),
    decreases a.len(),
{
    if a.len() > 0 && b.len() > 0 {
        lemma_str_lt_total(a.drop_first(), b.drop_first());
        if a[0] == b[0] && a.drop_first() == b.drop_first() {
            assert(a =~= seq![a[0]] + a.drop_first());
            assert(b =~= seq![b[0]] + b.drop_first());
        }
    } else if a.len() == 0 && b.len() == 0 {
        assert(a =~= b);
    }
}

/// The order is transitive.
pub proof fn lemma_str_lt_transitive(a: Seq<char>, b: Seq<char>, c: Seq<char>)
    requires
        str_lt(a, b),
        str_lt(b, c),
    ensures
        str_lt(a, c),
    decreases a.len(),
{
    if a.len() > 0 && b.len() > 0 && c.len() > 0 {
        if a[0] == b[0] && b[0] == c[0] {
            lemma_str_lt_transitive(a.drop_first(), b.drop_first(), c.drop_first());
        } else {
        }
    }
}

/// Compares two strings in `str_lt` order: `-1`, `0` or `1`.
pub fn str_compare(a: &str, b: &str) -> (r: i8)
    ensures
        r == -1 <==> str_lt(a@, b@),
        r == 0 <==> a@ == b@,
        r == 1 <==> str_lt(b@, a@),
        -1 <= r <= 1,
{
    let x = chars_of(a);
    let y = chars_of(b);
    let mut i: usize = 0;
    proof {
        lemma_str_lt_total(a@, b@);
        lemma_str_lt_irreflexive(a@);
    }
    assert(x@.skip(0) =~= x@);
    assert(y@.skip(0) =~= y@);
    while i < x.len() && i < y.len()
        invariant
            x@ == a@,
            y@ == b@,
            i <= x.len(),
            i <= y.len(),
            x@.take(i as int) == y@.take(i as int),
            str_lt(a@, b@) == str_lt(x@.skip(i as int), y@.skip(i as int)),
            str_lt(b@, a@) == str_lt(y@.skip(i as int), x@.skip(i as int)),
        decreases x.len() - i,
    {
        let cx = x[i];
        let cy = y[i];
        if cx != cy {
            assert(x@.skip(i as int)[0] == cx);
            assert(y@.skip(i as int)[0] == cy);
            assert(x@ != y@) by {
                assert(x@[i as int] != y@[i as int]);
            }
            if cx < cy {
                return -1;
            } else {
                return 1;
            }
        }
        assert(x@.skip(i as int).drop_first() =~= x@.skip(i + 1));
        assert(y@.skip(i as int).drop_first() =~= y@.skip(i + 1));
        assert(x@.take(i + 1) =~= x@.take(i as int).push(cx));
        assert(y@.take(i + 1) =~= y@.take(i as int).push(cy));
        i = i + 1;
    }
    if x.len() == y.len() {
        assert(x@ =~= x@.take(i as int));
        assert(y@ =~= y@.take(i as int));
        0
    } else if i == x.len() {
        assert(x@.skip(i as int).len() == 0);
        assert(x@ != y@) by {
            assert(x@.len() != y@.len());
        }
        -1
    } else {
        assert(y@.skip(i as int).len() == 0);
        assert(x@ != y@) by {
            assert(x@.len() != y@.len());
        }
        1
    }
}

/// Whether two strings hold the same characters.
pub fn str_eq(a: &str, b: &str) -> (r: bool)
    ensures
        r == (a@ == b@),
{
    str_compare(a, b) == 0
}

/// Keys strictly increasing in string order.
pub open spec fn keys_sorted<V>(s: Seq<(String, V)>) -> bool {
    forall|i: int, j: int| 0 <= i < j < s.len() ==> str_lt(#[trigger] s[i].0@, #[trigger] s[j].0@)
}

/// The map described by an entry list.
pub open spec fn entries_map<V>(s: Seq<(String, V)>) -> Map<Seq<char>, V>
    decreases s.len(),
{
    if s.len() == 0 {
        Map::empty()
    } else {
        entries_map(s.drop_last()).insert(s.last().0@, s.last().1)
    }
}

/// The value stored under `k` in an entry list, if any.
pub open spec fn seq_lookup<V>(s: Seq<(String, V)>, k: Seq<char>) -> Option<V> {
    if exists|i: int| 0 <= i < s.len() && #[trigger] s[i].0@ == k {
        let i = choose|i: int| 0 <= i < s.len() && #[trigger] s[i].0@ == k;
        Some(s[i].1)
    } else {
        None
    }
}

/// In a sorted entry list a key sits at one place only.
pub proof fn lemma_sorted_unique<V>(s: Seq<(String, V)>, i: int, j: int)
    requires
        keys_sorted(s),
        0 <= i < s.len(),
        0 <= j < s.len(),
        s[i].0@ == s[j].0@,
    ensures
        i == j,
{
    if i < j {
        assert(str_lt(s[i].0@, s[j].0@));
        lemma_str_lt_irreflexive(s[i].0@);
    } else if j < i {
        assert(str_lt(s[j].0@, s[i].0@));
        lemma_str_lt_irreflexive(s[i].0@);
    }
}

/// Lookup of a key that sits at index `i`.
pub proof fn lemma_lookup_at<V>(s: Seq<(String, V)>, i: int)
    requires
        keys_sorted(s),
        0 <= i < s.len(),
    ensures
        seq_lookup(s, s[i].0@) == Some(s[i].1),
{
    assert(0 <= i < s.len() && s[i].0@ == s[i].0@);
    let j = choose|j: int| 0 <= j < s.len() && #[trigger] s[j].0@ == s[i].0@;
    assert(0 <= j < s.len() && s[j].0@ == s[i].0@);
    lemma_sorted_unique(s, i, j);
}

/// Lookup of a key that no entry has.
pub proof fn lemma_lookup_absent<V>(s: Seq<(String, V)>, k: Seq<char>)
    requires
        forall|i: int| 0 <= i < s.len() ==> #[trigger] s[i].0@ != k,
    ensures
        seq_lookup(s, k) is None,
{
}

/// A map from strings to values, listed in string order of the keys.
#[derive(Debug, Clone, PartialEq, Eq)]
pub struct StrMap<V> {
    entries: Vec<(String, V)>,
}

impl<V> StrMap<V> {
    /// The entries in key order.
    pub closed spec fn entries_spec(&self) -> Seq<(String, V)> {
        self.entries@
    }

    /// Keys of the entries, in order.
    pub open spec fn key_seq(&self) -> Seq<Seq<char>> {
        self.entries_spec().map_values(|e: (String, V)| e.0@)
    }

    /// Entries sorted by key, hence no key twice.
    pub open spec fn wf(&self) -> bool {
        keys_sorted(self.entries_spec())
    }

    /// The value stored under `k`, if any.
    pub open spec fn lookup(&self, k: Seq<char>) -> Option<V> {
        seq_lookup(self.entries_spec(), k)
    }

    /// An empty map.
    pub fn new() -> (m: Self)
        ensures
            m.wf(),
            m.entries_spec().len() == 0,
    {
        StrMap { entries: Vec::new() }
    }

    /// A map holding exactly `entries`, which are already in key order.
    pub fn from_sorted(entries: Vec<(String, V)>) -> (m: Self)
        requires
            keys_sorted(entries@),
        ensures
            m.wf(),
            m.entries_spec() == entries@,
    {
        StrMap { entries }
    }

    /// Number of entries.
    pub fn len(&self) -> (n: usize)
        ensures
            n == self.entries_spec().len(),
    {
        self.entries.len()
    }

    /// The entries, in key order.
    pub fn entries(&self) -> (e: &Vec<(String, V)>)
        ensures
            e@ == self.entries_spec(),
    {
        &self.entries
    }

    /// Position where `k` is, or where it would be inserted.
    fn position(&self, k: &str) -> (r: (usize, bool))
        requires
            self.wf(),
        ensures
            r.0 <= self.entries_spec().len(),
            r.1 ==> r.0 < self.entries_spec().len() && self.entries_spec()[r.0 as int].0@ == k@,
            !r.1 ==> forall|i: int| 0 <= i < self.entries_spec().len() ==> #[trigger] self.entries_spec()[i].0@ != k@,
            forall|i: int| 0 <= i < r.0 ==> str_lt(#[trigger] self.entries_spec()[i].0@, k@),
            !r.1 ==> forall|i: int| r.0 <= i < self.entries_spec().len() ==> str_lt(k@, #[trigger] self.entries_spec()[i].0@),
    {
        let mut i: usize = 0;
        while i < self.entries.len()
            invariant
                self.wf(),
                i <= self.entries@.len(),
                forall|j: int| 0 <= j < i ==> str_lt(#[trigger] self.entries@[j].0@, k@),
            decreases self.entries.len() - i,
        {
            let c = str_compare(self.entries[i].0.as_str(), k);
            if c == 0 {
                proof {
                    assert forall|j: int| 0 <= j < i implies str_lt(#[trigger] self.entries_spec()[j].0@, k@) by {}
                }
                return (i, true);
            }
            if c == 1 {
                proof {
                    assert forall|j: int| i <= j < self.entries_spec().len() implies str_lt(k@, #[trigger] self.entries_spec()[j].0@) by {
                        if j > i {
                            assert(str_lt(self.entries_spec()[i as int].0@, self.entries_spec()[j].0@));
                            lemma_str_lt_transitive(k@, self.entries_spec()[i as int].0@, self.entries_spec()[j].0@);
                        }
                    }
                    assert forall|j: int| 0 <= j < self.entries_spec().len() implies #[trigger] self.entries_spec()[j].0@ != k@ by {
                        if j < i {
                            lemma_str_lt_irreflexive(k@);
                        } else {
                            lemma_str_lt_irreflexive(k@);
                        }
                    }
                }
                return (i, false);
            }
            i = i + 1;
        }
        proof {
            assert forall|j: int| 0 <= j < self.entries_spec().len() implies #[trigger] self.entries_spec()[j].0@ != k@ by {
                lemma_str_lt_irreflexive(k@);
            }
        }
        (i, false)
    }

    /// Whether some entry has key `k`.
    pub fn contains_key(&self, k: &str) -> (b: bool)
        requires
            self.wf(),
        ensures
            b == self.lookup(k@) is Some,
    {
        let (p, found) = self.position(k);
        proof {
            if found {
                lemma_lookup_at(self.entries_spec(), p as int);
            }
        }
        found
    }

    /// The value stored under `k`, if any.
    pub fn get(&self, k: &str) -> (r: Option<&V>)
        requires
            self.wf(),
        ensures
            match r {
                Some(v) => self.lookup(k@) == Some(*v),
                None => self.lookup(k@) is None,
            },
    {
        let (p, found) = self.position(k);
        if found {
            proof {
                lemma_lookup_at(self.entries_spec(), p as int);
            }
            Some(&self.entries[p].1)
        } else {
            None
        }
    }

    /// Stores `v` under `k`, in place of what was there.
    pub fn insert(&mut self, k: String, v: V)
        requires
            old(self).wf(),
        ensures
            final(self).wf(),
            final(self).lookup(k@) == Some(v),
            forall|q: Seq<char>| q != k@ ==> #[trigger] final(self).lookup(q) == old(self).lookup(q),
            old(self).lookup(k@) is Some ==> final(self).entries_spec().len() == old(self).entries_spec().len(),
            old(self).lookup(k@) is None ==> final(self).entries_spec().len() == old(self).entries_spec().len() + 1,
    {
        let (p, found) = self.position(k.as_str());
        let ghost old_s = self.entries_spec();
        let ghost kv = k@;
        if found {
            proof {
                lemma_lookup_at(old_s, p as int);
            }
            self.entries.set(p, (k, v));
            proof {
                let s = self.entries_spec();
                assert(s == old_s.update(p as int, s[p as int]));
                assert forall|i: int, j: int| 0 <= i < j < s.len() implies str_lt(#[trigger] s[i].0@, #[trigger] s[j].0@) by {
                    assert(str_lt(old_s[i].0@, old_s[j].0@));
                }
                lemma_lookup_at(s, p as int);
                assert forall|q: Seq<char>| q != kv implies #[trigger] seq_lookup(s, q) == seq_lookup(old_s, q) by {
                    if exists|i: int| 0 <= i < old_s.len() && #[trigger] old_s[i].0@ == q {
                        let i = choose|i: int| 0 <= i < old_s.len() && #[trigger] old_s[i].0@ == q;
                        lemma_lookup_at(old_s, i);
                        assert(s[i] == old_s[i]);
                        lemma_lookup_at(s, i);
                    } else {
                        assert forall|i: int| 0 <= i < s.len() implies #[trigger] s[i].0@ != q by {
                            if i != p {
                                assert(s[i] == old_s[i]);
                            }
                        }
                    }
                }
            }
        } else {
            self.entries.insert(p, (k, v));
            proof {
                let s = self.entries_spec();
                assert(s == old_s.insert(p as int, (s[p as int].0, v)));
                assert forall|i: int, j: int| 0 <= i < j < s.len() implies str_lt(#[trigger] s[i].0@, #[trigger] s[j].0@) by {
                    if j < p {
                        assert(str_lt(old_s[i].0@, old_s[j].0@));
                    } else if j == p {
                        assert(str_lt(old_s[i].0@, kv));
                    } else if i == p {
                        assert(str_lt(kv, old_s[j - 1].0@));
                    } else if i < p {
                        assert(str_lt(old_s[i].0@, old_s[j - 1].0@));
                    } else {
                        assert(str_lt(old_s[i - 1].0@, old_s[j - 1].0@));
                    }
                }
                lemma_lookup_at(s, p as int);
                assert forall|q: Seq<char>| q != kv implies #[trigger] seq_lookup(s, q) == seq_lookup(old_s, q) by {
                    if exists|i: int| 0 <= i < old_s.len() && #[trigger] old_s[i].0@ == q {
                        let i = choose|i: int| 0 <= i < old_s.len() && #[trigger] old_s[i].0@ == q;
                        lemma_lookup_at(old_s, i);
                        if i < p {
                            assert(s[i] == old_s[i]);
                            lemma_lookup_at(s, i);
                        } else {
                            assert(s[i + 1] == old_s[i]);
                            lemma_lookup_at(s, i + 1);
                        }
                    } else {
                        assert forall|i: int| 0 <= i < s.len() implies #[trigger] s[i].0@ != q by {
                            if i < p {
                                assert(s[i] == old_s[i]);
                            } else if i > p {
                                assert(s[i] == old_s[i - 1]);
                            }
                        }
                    }
                }
            }
        }
    }

    /// Takes the entry of `k` out and hands back its value.
    pub fn remove(&mut self, k: &str) -> (r: Option<V>)
        requires
            old(self).wf(),
        ensures
            final(self).wf(),
            r == old(self).lookup(k@),
            final(self).lookup(k@) is None,
            forall|q: Seq<char>| q != k@ ==> #[trigger] final(self).lookup(q) == old(self).lookup(q),
    {
        let (p, found) = self.position(k);
        let ghost old_s = self.entries_spec();
        if !found {
            proof {
                lemma_lookup_absent(old_s, k@);
            }
            return None;
        }
        proof {
            lemma_lookup_at(old_s, p as int);
        }
        let (_, v) = self.entries.remove(p);
        proof {
            let s = self.entries_spec();
            assert(s == old_s.remove(p as int));
            assert forall|i: int, j: int| 0 <= i < j < s.len() implies str_lt(#[trigger] s[i].0@, #[trigger] s[j].0@) by {
                if j < p {
                    assert(str_lt(old_s[i].0@, old_s[j].0@));
                } else if i < p {
                    assert(str_lt(old_s[i].0@, old_s[j + 1].0@));
                } else {
                    assert(str_lt(old_s[i + 1].0@, old_s[j + 1].0@));
                }
            }
            assert forall|i: int| 0 <= i < s.len() implies #[trigger] s[i].0@ != k@ by {
                if i < p {
                    assert(s[i] == old_s[i]);
                    if old_s[i].0@ == k@ { lemma_sorted_unique(old_s, i, p as int); }
                } else {
                    assert(s[i] == old_s[i + 1]);
                    if old_s[i + 1].0@ == k@ { lemma_sorted_unique(old_s, i + 1, p as int); }
                }
            }
            lemma_lookup_absent(s, k@);
            assert forall|q: Seq<char>| q != k@ implies #[trigger] seq_lookup(s, q) == seq_lookup(old_s, q) by {
                if exists|i: int| 0 <= i < old_s.len() && #[trigger] old_s[i].0@ == q {
                    let i = choose|i: int| 0 <= i < old_s.len() && #[trigger] old_s[i].0@ == q;
                    lemma_lookup_at(old_s, i);
                    if i < p {
                        assert(s[i] == old_s[i]);
                        lemma_lookup_at(s, i);
                    } else {
                        assert(i != p);
                        assert(s[i - 1] == old_s[i]);
                        lemma_lookup_at(s, i - 1);
                    }
                } else {
                    assert forall|i: int| 0 <= i < s.len() implies #[trigger] s[i].0@ != q by {
                        if i < p {
                            assert(s[i] == old_s[i]);
                        } else {
                            assert(s[i] == old_s[i + 1]);
                        }
                    }
                }
            }
        }
        Some(v)
    }
}

} // verus!
