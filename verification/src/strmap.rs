use vstd::prelude::*;

use crate::text::{
    lemma_text_lt_irreflexive, lemma_text_lt_total, lemma_text_lt_transitive, same_text, text_less,
    text_lt,
};

verus! {

/// The keys of `s` strictly ascend, so no key occurs twice.
pub open spec fn keys_ascending<W>(s: Seq<(Seq<char>, W)>) -> bool {
    forall|i: int, j: int| 0 <= i < j < s.len() ==> text_lt(#[trigger] s[i].0, #[trigger] s[j].0)
}

/// The map that the entries `s` describe.
pub open spec fn to_map<W>(s: Seq<(Seq<char>, W)>) -> Map<Seq<char>, W>
    decreases s.len(),
{
    if s.len() == 0 {
        Map::empty()
    } else {
        to_map(s.drop_last()).insert(s.last().0, s.last().1)
    }
}

/// Where the key `k` stands in `s`, if it does.
pub open spec fn has_key_at<W>(s: Seq<(Seq<char>, W)>, k: Seq<char>, i: int) -> bool {
    0 <= i < s.len() && s[i].0 == k
}

/// What `to_map` holds when keys ascend: exactly the keys of `s`, each with its value.
pub proof fn lemma_to_map<W>(s: Seq<(Seq<char>, W)>)
    requires
        keys_ascending(s),
    ensures
        forall|k: Seq<char>|
            #[trigger] to_map(s).contains_key(k) <==> exists|i: int| has_key_at(s, k, i),
        forall|i: int| 0 <= i < s.len() ==> #[trigger] to_map(s)[s[i].0] == s[i].1,
    decreases s.len(),
{
    if s.len() > 0 {
        let t = s.drop_last();
        assert(keys_ascending(t)) by {
            assert forall|i: int, j: int| 0 <= i < j < t.len() implies text_lt(#[trigger] t[i].0, #[trigger] t[j].0) by {
                assert(text_lt(s[i].0, s[j].0));
            }
        }
        lemma_to_map(t);
        let last = s.last();
        assert forall|k: Seq<char>| #[trigger] to_map(s).contains_key(k) <==> exists|i: int| has_key_at(s, k, i) by {
            if to_map(s).contains_key(k) {
                if k == last.0 {
                    assert(has_key_at(s, k, s.len() - 1));
                } else {
                    assert(to_map(t).contains_key(k));
                    let i = choose|i: int| has_key_at(t, k, i);
                    assert(s[i] == t[i]);
                    assert(has_key_at(s, k, i));
                }
            }
            if exists|i: int| has_key_at(s, k, i) {
                let i = choose|i: int| has_key_at(s, k, i);
                if i < t.len() {
                    assert(t[i] == s[i]);
                    assert(has_key_at(t, k, i));
                    assert(to_map(t).contains_key(k));
                }
            }
        }
        assert forall|i: int| 0 <= i < s.len() implies #[trigger] to_map(s)[s[i].0] == s[i].1 by {
            if i < t.len() {
                assert(t[i] == s[i]);
                assert(text_lt(s[i].0, s[s.len() - 1].0));
                lemma_text_lt_irreflexive(s[i].0);
                assert(to_map(t)[t[i].0] == t[i].1);
            }
        }
    }
}

/// A map from texts to values that keeps its entries in ascending key order,
/// as a `BTreeMap` with `String` keys does.
#[derive(Debug)]
pub struct StrMap<V: DeepView> {
    items: Vec<(String, V)>,
}

impl<V: DeepView> StrMap<V> {
    #[verifier::type_invariant]
    spec fn ascending(&self) -> bool {
        keys_ascending(self.items.deep_view())
    }

    /// The entries in ascending key order.
    pub closed spec fn entries(&self) -> Seq<(Seq<char>, V::V)> {
        self.items.deep_view()
    }
}

impl<V: DeepView> View for StrMap<V> {
    type V = Map<Seq<char>, V::V>;

    open spec fn view(&self) -> Map<Seq<char>, V::V> {
        to_map(self.entries())
    }
}

impl<V: DeepView> DeepView for StrMap<V> {
    type V = Map<Seq<char>, V::V>;

    open spec fn deep_view(&self) -> Map<Seq<char>, V::V> {
        self@
    }
}

impl<V: DeepView> StrMap<V> {
    /// An empty map.
    pub fn new() -> (m: Self)
        ensures
            m.entries() == Seq::<(Seq<char>, V::V)>::empty(),
            m@ == Map::<Seq<char>, V::V>::empty(),
    {
        let m = StrMap { items: Vec::new() };
        assert(m.items.deep_view() =~= Seq::<(Seq<char>, V::V)>::empty());
        m
    }

    /// The number of entries; the entries ascend by key and describe the map.
    pub fn len(&self) -> (n: usize)
        ensures
            n == self.entries().len(),
            keys_ascending(self.entries()),
            forall|i: int| 0 <= i < n ==> #[trigger] self@[self.entries()[i].0] == self.entries()[i].1,
            forall|k: Seq<char>|
                #[trigger] self@.contains_key(k) <==> exists|i: int| has_key_at(self.entries(), k, i),
    {
        proof {
            use_type_invariant(self);
            lemma_to_map(self.items.deep_view());
        }
        self.items.len()
    }

    /// The key of the entry at position `i`.
    pub fn key_at(&self, i: usize) -> (k: &String)
        requires
            i < self.entries().len(),
        ensures
            k@ == self.entries()[i as int].0,
    {
        assert(self.items.deep_view()[i as int] == self.items[i as int].deep_view());
        &self.items[i].0
    }

    /// The value of the entry at position `i`.
    pub fn value_at(&self, i: usize) -> (v: &V)
        requires
            i < self.entries().len(),
        ensures
            v.deep_view() == self.entries()[i as int].1,
    {
        assert(self.items.deep_view()[i as int] == self.items[i as int].deep_view());
        &self.items[i].1
    }

    /// The value under `key`, if there is one.
    pub fn get(&self, key: &str) -> (r: Option<&V>)
        ensures
            match r {
                Some(v) => self@.contains_key(key@) && v.deep_view() == self@[key@],
                None => !self@.contains_key(key@),
            },
    {
        proof {
            use_type_invariant(self);
            lemma_to_map(self.items.deep_view());
        }
        let ghost ev = self.items.deep_view();
        for i in 0..self.items.len()
            invariant
                ev == self.items.deep_view(),
                keys_ascending(ev),
                forall|j: int| 0 <= j < i ==> ev[j].0 != key@,
        {
            assert(ev[i as int] == self.items[i as int].deep_view());
            if same_text(self.items[i].0.as_str(), key) {
                proof {
                    lemma_to_map(ev);
                    assert(has_key_at(ev, key@, i as int));
                }
                return Some(&self.items[i].1);
            }
        }
        proof {
            lemma_to_map(ev);
            if to_map(ev).contains_key(key@) {
                let j = choose|j: int| has_key_at(ev, key@, j);
                assert(ev[j].0 != key@);
            }
        }
        None
    }

    /// Puts `value` under `key`, replacing the value that was there.
    pub fn insert(&mut self, key: String, value: V)
        ensures
            final(self)@ == old(self)@.insert(key@, value.deep_view()),
    {
        proof {
            use_type_invariant(&*self);
        }
        let mut items: Vec<(String, V)> = Vec::new();
        std::mem::swap(&mut items, &mut self.items);
        let ghost ev = items.deep_view();
        assert(ev == old(self).entries());
        proof {
            lemma_to_map(ev);
        }
        let n = items.len();
        let mut p: usize = 0;
        while p < n && text_less(items[p].0.as_str(), key.as_str())
            invariant
                n == ev.len(),
                ev == items.deep_view(),
                p <= n,
                forall|j: int| 0 <= j < p ==> text_lt(#[trigger] ev[j].0, key@),
            decreases n - p,
        {
            assert(ev[p as int] == items[p as int].deep_view());
            p = p + 1;
        }
        let replace = p < n && same_text(items[p].0.as_str(), key.as_str());
        if p < n {
            assert(ev[p as int] == items[p as int].deep_view());
        }
        let ghost entry = (key@, value.deep_view());
        let ghost nv = if replace {
            ev.update(p as int, entry)
        } else {
            ev.insert(p as int, entry)
        };
        proof {
            assert forall|i: int, j: int| 0 <= i < j < nv.len() implies text_lt(#[trigger] nv[i].0, #[trigger] nv[j].0) by {
                if p < n && !replace {
                    lemma_text_lt_total(ev[p as int].0, key@);
                }
                if replace {
                    if i == p {
                        lemma_text_lt_transitive(key@, ev[p as int].0, ev[j].0);
                    } else if j == p {
                    }
                } else {
                    if i < p && j == p {
                    } else if i == p && j > p {
                        if j - 1 > p {
                            assert(text_lt(ev[p as int].0, ev[j - 1].0));
                            lemma_text_lt_transitive(key@, ev[p as int].0, ev[j - 1].0);
                        }
                    } else if i < p && j > p {
                        assert(nv[j] == ev[j - 1]);
                    } else if i > p {
                        assert(nv[i] == ev[i - 1] && nv[j] == ev[j - 1]);
                    }
                }
            }
            lemma_to_map(nv);
            assert(to_map(nv) =~= to_map(ev).insert(key@, value.deep_view())) by {
                assert forall|k: Seq<char>| #[trigger] to_map(nv).contains_key(k) <==> to_map(ev).insert(
                    key@,
                    value.deep_view(),
                ).contains_key(k) by {
                    if to_map(ev).contains_key(k) {
                        let j = choose|j: int| has_key_at(ev, k, j);
                        if replace || j < p {
                            assert(has_key_at(nv, k, j));
                        } else {
                            assert(has_key_at(nv, k, j + 1));
                        }
                    }
                    if k == key@ {
                        assert(has_key_at(nv, k, p as int));
                    }
                    if to_map(nv).contains_key(k) && k != key@ {
                        let j = choose|j: int| has_key_at(nv, k, j);
                        if replace || j < p {
                            assert(has_key_at(ev, k, j));
                        } else {
                            assert(has_key_at(ev, k, j - 1));
                        }
                    }
                }
                assert forall|k: Seq<char>| #[trigger] to_map(nv).contains_key(k) implies to_map(nv)[k]
                    == to_map(ev).insert(key@, value.deep_view())[k] by {
                    let j = choose|j: int| has_key_at(nv, k, j);
                    assert(to_map(nv)[nv[j].0] == nv[j].1);
                    lemma_text_lt_irreflexive(k);
                    if k == key@ {
                        assert(nv[p as int].0 == key@);
                        if j < p {
                            assert(text_lt(nv[j].0, nv[p as int].0));
                        } else if j > p {
                            assert(text_lt(nv[p as int].0, nv[j].0));
                        }
                    } else {
                        if replace || j < p {
                            assert(nv[j] == ev[j]);
                        } else {
                            assert(nv[j] == ev[j - 1]);
                        }
                        if replace || j < p {
                            assert(to_map(ev)[ev[j].0] == ev[j].1);
                        } else {
                            assert(to_map(ev)[ev[j - 1].0] == ev[j - 1].1);
                        }
                    }
                }
            }
        }
        if replace {
            items.set(p, (key, value));
        } else {
            items.insert(p, (key, value));
        }
        assert(items.deep_view() =~= nv);
        self.items = items;
    }
}

} // verus!
