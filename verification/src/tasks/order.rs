use vstd::prelude::*;

use super::{Task, TaskView};
use crate::text::{
    lemma_text_lt_irreflexive, lemma_text_lt_total, lemma_text_lt_transitive, text_less, text_lt,
};

verus! {

broadcast use vstd::seq_lib::group_seq_properties;

/// Does a task named `a` come strictly before one named `b` in a listing?
/// Tasks with a name come first, in lexicographic order; nameless tasks come last.
pub open spec fn name_before(a: Seq<char>, b: Seq<char>) -> bool {
    a.len() > 0 && (b.len() == 0 || text_lt(a, b))
}

/// The tasks called `n`.
pub open spec fn named(n: Seq<char>) -> spec_fn(TaskView) -> bool {
    |t: TaskView| t.task == n
}

/// No task in `s` comes before one that precedes it.
pub open spec fn sorted_by_name(s: Seq<TaskView>) -> bool {
    forall|i: int, j: int| 0 <= i < j < s.len() ==> !name_before(#[trigger] s[j].task, #[trigger] s[i].task)
}

/// `out` lists the tasks of `input` sorted by name, and tasks of the same name
/// keep the order they had in `input` (a stable sort).
pub open spec fn is_listing_of(out: Seq<TaskView>, input: Seq<TaskView>) -> bool {
    &&& sorted_by_name(out)
    &&& forall|n: Seq<char>| #[trigger] out.filter(named(n)) == input.filter(named(n))
}

/// No name comes before itself.
pub proof fn lemma_name_before_irreflexive(a: Seq<char>)
    ensures
        !name_before(a, a),
{
    lemma_text_lt_irreflexive(a);
}

/// `name_before` is transitive.
pub proof fn lemma_name_before_transitive(a: Seq<char>, b: Seq<char>, c: Seq<char>)
    ensures
        name_before(a, b) && name_before(b, c) ==> name_before(a, c),
{
    lemma_text_lt_transitive(a, b, c);
}

/// Does a task named `a` come strictly before one named `b`?
pub fn comes_before(a: &str, b: &str) -> (r: bool)
    ensures
        r == name_before(a@, b@),
{
    !a.is_empty() && (b.is_empty() || text_less(a, b))
}

/// Inserting `x` into sorted `s` at the first place whose task comes after `x`
/// keeps the list sorted, and adds `x` after the tasks named like it.
proof fn lemma_insert_keeps_listing(s: Seq<TaskView>, p: int, x: TaskView)
    requires
        sorted_by_name(s),
        0 <= p <= s.len(),
        forall|k: int| 0 <= k < p ==> !name_before(x.task, #[trigger] s[k].task),
        p < s.len() ==> name_before(x.task, s[p].task),
    ensures
        sorted_by_name(s.insert(p, x)),
        forall|n: Seq<char>| #[trigger] s.insert(p, x).filter(named(n)) == s.filter(named(n)) + seq![x].filter(named(n)),
{
    let t = s.insert(p, x);
    assert forall|i: int, j: int| 0 <= i < j < t.len() implies !name_before(#[trigger] t[j].task, #[trigger] t[i].task) by {
        if i < p && j == p {
        } else if i == p && j > p {
            lemma_name_before_transitive(s[j - 1].task, x.task, s[p].task);
            if j - 1 > p {
                assert(!name_before(s[j - 1].task, s[p].task));
            } else {
                lemma_name_before_irreflexive(s[p].task);
            }
        } else if i < p && j > p {
            assert(t[j] == s[j - 1]);
        } else if i > p {
            assert(t[i] == s[i - 1] && t[j] == s[j - 1]);
        }
    }
    assert(t =~= s.take(p) + seq![x] + s.skip(p));
    assert(s =~= s.take(p) + s.skip(p));
    assert forall|n: Seq<char>| #[trigger] t.filter(named(n)) == s.filter(named(n)) + seq![x].filter(named(n)) by {
        let f = named(n);
        Seq::filter_distributes_over_add(s.take(p) + seq![x], s.skip(p), f);
        Seq::filter_distributes_over_add(s.take(p), seq![x], f);
        Seq::filter_distributes_over_add(s.take(p), s.skip(p), f);
        if n == x.task {
            let rest = s.skip(p);
            assert forall|k: int| 0 <= k < rest.len() implies !f(#[trigger] rest[k]) by {
                if rest[k].task == x.task {
                    if k == 0 {
                        lemma_name_before_irreflexive(x.task);
                    } else {
                        assert(!name_before(s[p + k].task, s[p].task));
                    }
                }
            }
            rest.lemma_all_neg_filter_empty(f);
            assert(s.take(p).filter(f) + seq![x].filter(f) + rest.filter(f) =~= s.take(p).filter(f)
                + rest.filter(f) + seq![x].filter(f));
        } else {
            reveal_with_fuel(Seq::filter, 2);
            assert(seq![x].filter(f) =~= Seq::<TaskView>::empty());
            assert(s.take(p).filter(f) + seq![x].filter(f) + s.skip(p).filter(f) =~= s.take(p).filter(f)
                + s.skip(p).filter(f) + seq![x].filter(f));
        }
    }
}

/// The tasks of `tasks` sorted by name, tasks of the same name in the order
/// they came in.
pub fn sort_by_name(tasks: Vec<Task>) -> (out: Vec<Task>)
    ensures
        is_listing_of(out.deep_view(), tasks.deep_view()),
{
    let ghost input = tasks.deep_view();
    let mut out: Vec<Task> = Vec::new();
    let n = tasks.len();
    assert(input.take(0) =~= Seq::<TaskView>::empty());
    assert(out.deep_view() =~= Seq::<TaskView>::empty());
    assert forall|nm: Seq<char>| #[trigger] Seq::<TaskView>::empty().filter(named(nm)) == Seq::<TaskView>::empty() by {
        reveal(Seq::filter);
    }
    for i in 0..n
        invariant
            n == tasks@.len(),
            input == tasks.deep_view(),
            is_listing_of(out.deep_view(), input.take(i as int)),
    {
        let x = tasks[i].clone();
        assert(input[i as int] == x@);
        let ghost s = out.deep_view();
        let mut p: usize = 0;
        while p < out.len() && !comes_before(x.task.as_str(), out[p].task.as_str())
            invariant
                s == out.deep_view(),
                p <= out@.len(),
                forall|k: int| 0 <= k < p ==> !name_before(x@.task, #[trigger] s[k].task),
            decreases out@.len() - p,
        {
            assert(s[p as int] == out[p as int]@);
            p = p + 1;
        }
        if p < out.len() {
            assert(s[p as int] == out[p as int]@);
        }
        proof {
            lemma_insert_keeps_listing(s, p as int, x@);
        }
        out.insert(p, x);
        assert(out.deep_view() =~= s.insert(p as int, input[i as int]));
        assert(input.take(i + 1) =~= input.take(i as int) + seq![input[i as int]]);
        assert forall|nm: Seq<char>| #[trigger] out.deep_view().filter(named(nm)) == input.take(i + 1).filter(named(nm)) by {
            Seq::filter_distributes_over_add(input.take(i as int), seq![input[i as int]], named(nm));
        }
    }
    assert(input.take(n as int) == input);
    out
}


/// Of two different names, one comes before the other.
pub proof fn lemma_name_before_total(a: Seq<char>, b: Seq<char>)
    ensures
        a != b ==> name_before(a, b) || name_before(b, a),
{
    lemma_text_lt_total(a, b);
    if a.len() == 0 && b.len() == 0 {
        assert(a =~= b);
    }
}

/// Two sorted lists with the same tasks under every name are the same list.
proof fn lemma_sorted_same_names_equal(a: Seq<TaskView>, b: Seq<TaskView>)
    requires
        sorted_by_name(a),
        sorted_by_name(b),
        forall|n: Seq<char>| #[trigger] a.filter(named(n)) == b.filter(named(n)),
    ensures
        a == b,
    decreases a.len() + b.len(),
{
    if a.len() == 0 || b.len() == 0 {
        if a.len() > 0 || b.len() > 0 {
            let (x, y) = if a.len() > 0 {
                (a, b)
            } else {
                (b, a)
            };
            let n = x[0].task;
            x.lemma_filter_contains(named(n), 0);
            assert(x.filter(named(n)) == y.filter(named(n)));
            reveal(Seq::filter);
            assert(y.filter(named(n)).len() == 0);
            assert(false);
        }
        assert(a =~= b);
    } else {
        let n = a[0].task;
        let m = b[0].task;
        a.lemma_filter_contains(named(n), 0);
        assert(a.filter(named(n)) == b.filter(named(n)));
        b.filter(named(n)).lemma_filter_contains_rev(named(n), a[0]);
        b.lemma_filter_contains_rev(named(n), a[0]);
        let j = choose|j: int| 0 <= j < b.len() && b[j] == a[0];
        if j > 0 {
            assert(!name_before(b[j].task, b[0].task));
        } else {
            lemma_name_before_irreflexive(n);
        }
        b.lemma_filter_contains(named(m), 0);
        assert(a.filter(named(m)) == b.filter(named(m)));
        a.filter(named(m)).lemma_filter_contains_rev(named(m), b[0]);
        a.lemma_filter_contains_rev(named(m), b[0]);
        let i = choose|i: int| 0 <= i < a.len() && a[i] == b[0];
        if i > 0 {
            assert(!name_before(a[i].task, a[0].task));
        } else {
            lemma_name_before_irreflexive(m);
        }
        lemma_name_before_total(n, m);
        assert(n == m);
        let ra = a.drop_first();
        let rb = b.drop_first();
        assert(a =~= seq![a[0]] + ra);
        assert(b =~= seq![b[0]] + rb);
        ra.lemma_filter_prepend(a[0], named(n));
        rb.lemma_filter_prepend(b[0], named(n));
        assert(a.filter(named(n)) == b.filter(named(n)));
        assert((seq![a[0]] + ra.filter(named(n)))[0] == a[0]);
        assert((seq![b[0]] + rb.filter(named(n)))[0] == b[0]);
        assert(a[0] == b[0]);
        assert forall|k: Seq<char>| #[trigger] ra.filter(named(k)) == rb.filter(named(k)) by {
            ra.lemma_filter_prepend(a[0], named(k));
            rb.lemma_filter_prepend(b[0], named(k));
            assert(a.filter(named(k)) == b.filter(named(k)));
            if k == n {
                assert(ra.filter(named(k)) =~= a.filter(named(k)).drop_first());
                assert(rb.filter(named(k)) =~= b.filter(named(k)).drop_first());
            } else {
                assert(ra.filter(named(k)) =~= a.filter(named(k)));
                assert(rb.filter(named(k)) =~= b.filter(named(k)));
            }
        }
        assert(sorted_by_name(ra)) by {
            assert forall|p: int, q: int| 0 <= p < q < ra.len() implies !name_before(#[trigger] ra[q].task, #[trigger] ra[p].task) by {
                assert(ra[q] == a[q + 1] && ra[p] == a[p + 1]);
            }
        }
        assert(sorted_by_name(rb)) by {
            assert forall|p: int, q: int| 0 <= p < q < rb.len() implies !name_before(#[trigger] rb[q].task, #[trigger] rb[p].task) by {
                assert(rb[q] == b[q + 1] && rb[p] == b[p + 1]);
            }
        }
        lemma_sorted_same_names_equal(ra, rb);
    }
}

/// A list of tasks has exactly one listing: sorting by name while keeping
/// tasks of the same name in their order leaves no choice.
pub proof fn lemma_listing_unique(a: Seq<TaskView>, b: Seq<TaskView>, input: Seq<TaskView>)
    requires
        is_listing_of(a, input),
        is_listing_of(b, input),
    ensures
        a == b,
{
    assert forall|n: Seq<char>| #[trigger] a.filter(named(n)) == b.filter(named(n)) by {
        assert(a.filter(named(n)) == input.filter(named(n)));
        assert(b.filter(named(n)) == input.filter(named(n)));
    }
    lemma_sorted_same_names_equal(a, b);
}


/// Filtering by a property that `x` has keeps every copy of `x`.
proof fn lemma_filter_keeps_count(s: Seq<TaskView>, p: spec_fn(TaskView) -> bool, x: TaskView)
    requires
        p(x),
    ensures
        s.filter(p).to_multiset().count(x) == s.to_multiset().count(x),
    decreases s.len(),
{
    broadcast use vstd::seq_lib::group_to_multiset_ensures;

    reveal(Seq::filter);
    if s.len() > 0 {
        let t = s.drop_last();
        lemma_filter_keeps_count(t, p, x);
        assert(s =~= t.push(s.last()));
        if p(s.last()) {
            assert(s.filter(p) == t.filter(p).push(s.last()));
        } else {
            assert(s.filter(p) == t.filter(p));
        }
    } else {
        assert(s.filter(p) =~= s);
    }
}

/// A listing holds the same tasks as what it lists, each as often.
pub proof fn lemma_listing_same_tasks(out: Seq<TaskView>, input: Seq<TaskView>)
    requires
        is_listing_of(out, input),
    ensures
        out.to_multiset() == input.to_multiset(),
{
    assert forall|x: TaskView| #[trigger] out.to_multiset().count(x) == input.to_multiset().count(x) by {
        lemma_filter_keeps_count(out, named(x.task), x);
        lemma_filter_keeps_count(input, named(x.task), x);
        assert(out.filter(named(x.task)) == input.filter(named(x.task)));
    }
    assert(out.to_multiset() =~= input.to_multiset());
}

} // verus!
