use vstd::prelude::*;

use crate::strmap::{has_key_at, StrMap};
use crate::text::same_text;

verus! {

/// Short names for task names, such as `b` for `build`.
#[derive(Debug)]
pub struct AliasMap {
    aliases: StrMap<String>,
}

impl View for AliasMap {
    type V = Map<Seq<char>, Seq<char>>;

    closed spec fn view(&self) -> Map<Seq<char>, Seq<char>> {
        self.aliases@
    }
}

/// The task name that `alias` stands for under `m`; a name that is no alias
/// stands for itself.
pub open spec fn expand(m: Map<Seq<char>, Seq<char>>, alias: Seq<char>) -> Seq<char> {
    if m.contains_key(alias) {
        m[alias]
    } else {
        alias
    }
}

/// Is `alias` an alias of `name` under `m`?
pub open spec fn is_alias_of(m: Map<Seq<char>, Seq<char>>, alias: Seq<char>, name: Seq<char>) -> bool {
    m.contains_key(alias) && m[alias] == name
}

/// The first alias, in the order of `entries`, that stands for `name`.
pub open spec fn first_alias(entries: Seq<(Seq<char>, Seq<char>)>, name: Seq<char>) -> Option<Seq<char>>
    decreases entries.len(),
{
    if entries.len() == 0 {
        None
    } else if entries[0].1 == name {
        Some(entries[0].0)
    } else {
        first_alias(entries.drop_first(), name)
    }
}

/// The aliases that come with the tool.
pub open spec fn builtin_aliases() -> Map<Seq<char>, Seq<char>> {
    map![
        "s"@ => "start"@,
        "b"@ => "build"@,
        "c"@ => "clean"@,
        "i"@ => "install"@,
        "t"@ => "test"@,
        "l"@ => "lint"@,
        "f"@ => "format"@,
        "r"@ => "run"@,
    ]
}

impl AliasMap {
    /// The aliases and the names they stand for, in ascending order of alias.
    pub closed spec fn entries(&self) -> Seq<(Seq<char>, Seq<char>)> {
        self.aliases.entries()
    }

    /// No aliases.
    pub fn new() -> (m: Self)
        ensures
            m@ == Map::<Seq<char>, Seq<char>>::empty(),
    {
        AliasMap { aliases: StrMap::new() }
    }

    /// The aliases that come with the tool: s, b, c, i, t, l, f and r for
    /// start, build, clean, install, test, lint, format and run.
    pub fn builtin() -> (m: Self)
        ensures
            m@ == builtin_aliases(),
    {
        let mut m = AliasMap::new();
        m.insert("s".to_owned(), "start".to_owned());
        m.insert("b".to_owned(), "build".to_owned());
        m.insert("c".to_owned(), "clean".to_owned());
        m.insert("i".to_owned(), "install".to_owned());
        m.insert("t".to_owned(), "test".to_owned());
        m.insert("l".to_owned(), "lint".to_owned());
        m.insert("f".to_owned(), "format".to_owned());
        m.insert("r".to_owned(), "run".to_owned());
        assert(m@ =~= builtin_aliases());
        m
    }

    /// Makes `alias` stand for `name`, replacing what it stood for before.
    pub fn insert(&mut self, alias: String, name: String)
        ensures
            final(self)@ == old(self)@.insert(alias@, name@),
    {
        self.aliases.insert(alias, name);
    }

    /// The task name that `alias` stands for; a name that is no alias stands
    /// for itself.
    pub fn aton(&self, alias: &str) -> (r: String)
        ensures
            r@ == expand(self@, alias@),
    {
        match self.aliases.get(alias) {
            Some(name) => name.clone(),
            None => alias.to_owned(),
        }
    }

    /// An alias of the task name `name`, if it has one; of several, the first
    /// in key order.
    pub fn ntoa(&self, name: &str) -> (r: Option<String>)
        ensures
            r.deep_view() == first_alias(self.entries(), name@),
            match r {
                Some(a) => is_alias_of(self@, a@, name@),
                None => forall|a: Seq<char>| !is_alias_of(self@, a, name@),
            },
    {
        let n = self.aliases.len();
        let ghost ev = self.aliases.entries();
        assert(ev.skip(0) == ev);
        for i in 0..n
            invariant
                n == ev.len(),
                ev == self.aliases.entries(),
                first_alias(ev, name@) == first_alias(ev.skip(i as int), name@),
                forall|j: int| 0 <= j < n ==> #[trigger] self@[ev[j].0] == ev[j].1,
                forall|k: Seq<char>| #[trigger] self@.contains_key(k) <==> exists|j: int| has_key_at(ev, k, j),
                forall|j: int| 0 <= j < i ==> ev[j].1 != name@,
        {
            let v = self.aliases.value_at(i);
            assert(ev.skip(i as int)[0] == ev[i as int]);
            assert(ev.skip(i as int).drop_first() == ev.skip(i + 1));
            if same_text(v.as_str(), name) {
                let k = self.aliases.key_at(i);
                assert(has_key_at(ev, k@, i as int));
                assert(self@[ev[i as int].0] == ev[i as int].1);
                return Some(k.clone());
            }
        }
        assert forall|a: Seq<char>| !is_alias_of(self@, a, name@) by {
            if self@.contains_key(a) {
                let j = choose|j: int| has_key_at(ev, a, j);
                assert(self@[ev[j].0] == ev[j].1);
            }
        }
        assert(ev.skip(n as int) =~= Seq::<(Seq<char>, Seq<char>)>::empty());
        None
    }
}

/// An alias found for a name expands back to that name.
pub proof fn lemma_alias_round_trip(m: Map<Seq<char>, Seq<char>>, alias: Seq<char>, name: Seq<char>)
    requires
        is_alias_of(m, alias, name),
    ensures
        expand(m, alias) == name,
{
}

} // verus!
