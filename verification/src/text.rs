use vstd::prelude::*;

verus! {

/// The pieces of `s` between occurrences of `sep`, as `str::split` with a
/// one-character pattern produces them: empty pieces are kept, and there is
/// always at least one piece.
pub open spec fn split_on(s: Seq<char>, sep: char) -> Seq<Seq<char>>
    decreases s.len(),
{
    if s.len() == 0 {
        seq![Seq::<char>::empty()]
    } else {
        let pieces = split_on(s.drop_last(), sep);
        if s.last() == sep {
            pieces.push(Seq::<char>::empty())
        } else {
            pieces.update(pieces.len() - 1, pieces.last().push(s.last()))
        }
    }
}

/// `split_on` never yields an empty list of pieces.
pub proof fn lemma_split_on_nonempty(s: Seq<char>, sep: char)
    ensures
        split_on(s, sep).len() >= 1,
    decreases s.len(),
{
    if s.len() > 0 {
        lemma_split_on_nonempty(s.drop_last(), sep);
    }
}

/// The pieces `pieces` joined back together, with `sep` between each two.
pub open spec fn join_on(pieces: Seq<Seq<char>>, sep: char) -> Seq<char>
    decreases pieces.len(),
{
    if pieces.len() <= 1 {
        if pieces.len() == 0 {
            Seq::empty()
        } else {
            pieces[0]
        }
    } else {
        join_on(pieces.drop_last(), sep) + seq![sep] + pieces.last()
    }
}

/// Joining the pieces of a split with the separator gives the text back.
pub proof fn lemma_split_join(s: Seq<char>, sep: char)
    ensures
        join_on(split_on(s, sep), sep) == s,
    decreases s.len(),
{
    if s.len() == 0 {
        assert(join_on(split_on(s, sep), sep) =~= s);
    } else {
        let t = s.drop_last();
        lemma_split_join(t, sep);
        lemma_split_on_nonempty(t, sep);
        let p = split_on(t, sep);
        if s.last() == sep {
            assert(p.push(Seq::<char>::empty()).drop_last() == p);
            assert(join_on(split_on(s, sep), sep) =~= s);
        } else {
            let q = p.update(p.len() - 1, p.last().push(s.last()));
            if p.len() == 1 {
                assert(join_on(q, sep) =~= s);
            } else {
                assert(q.drop_last() =~= p.drop_last());
                assert(join_on(p, sep) == join_on(p.drop_last(), sep) + seq![sep] + p.last());
                assert(join_on(q, sep) == join_on(q.drop_last(), sep) + seq![sep] + q.last());
                assert(q.last() == p.last().push(s.last()));
                assert(s =~= t.push(s.last()));
                assert(join_on(q, sep) =~= s);
            }
        }
    }
}

/// The characters of `s`, in order, as a vector that can be indexed in constant time.
pub fn chars_of(s: &str) -> (v: Vec<char>)
    ensures
        v@ == s@,
{
    let mut v: Vec<char> = Vec::new();
    for c in it: s.chars()
        invariant
            v@ == it.seq().take(it.index() as int),
    {
        v.push(c);
    }
    v
}

/// The characters of `s` from position `from` up to, not including, `to`.
pub fn slice_text(s: &str, from: usize, to: usize) -> (r: String)
    requires
        from <= to <= s@.len(),
    ensures
        r@ == s@.subrange(from as int, to as int),
{
    s.substring_char(from, to).to_owned()
}

/// Splits `s` at every occurrence of `sep`.
pub fn split_char(s: &str, sep: char) -> (pieces: Vec<String>)
    ensures
        pieces.deep_view() == split_on(s@, sep),
{
    let cs = chars_of(s);
    let n = cs.len();
    let mut pieces: Vec<String> = Vec::new();
    let mut start: usize = 0;
    let mut i: usize = 0;
    assert(s@.take(0) =~= Seq::<char>::empty());
    assert(pieces.deep_view() =~= Seq::<Seq<char>>::empty());
    while i < n
        invariant
            n == cs@.len(),
            cs@ == s@,
            start <= i <= n,
            split_on(s@.take(i as int), sep) == pieces.deep_view().push(
                s@.subrange(start as int, i as int),
            ),
        decreases n - i,
    {
        let ghost before = s@.take(i as int);
        assert(s@.take(i + 1).drop_last() == before);
        if cs[i] == sep {
            let piece = slice_text(s, start, i);
            pieces.push(piece);
            start = i + 1;
            assert(s@.subrange(start as int, (i + 1) as int) == Seq::<char>::empty());
        } else {
            assert(s@.subrange(start as int, (i + 1) as int) == s@.subrange(
                start as int,
                i as int,
            ).push(s@[i as int]));
        }
        i = i + 1;
    }
    let last = slice_text(s, start, n);
    pieces.push(last);
    assert(s@.take(n as int) == s@);
    pieces
}


/// `s` with every occurrence of `pat` replaced by `rep`, scanning from the left
/// and never letting two replaced occurrences overlap, as `str::replace` does.
/// An empty pattern occurs before every character and at the end.
pub open spec fn replace_all(s: Seq<char>, pat: Seq<char>, rep: Seq<char>) -> Seq<char>
    decreases s.len(),
{
    if pat.len() == 0 {
        if s.len() == 0 {
            rep
        } else {
            rep + seq![s[0]] + replace_all(s.drop_first(), pat, rep)
        }
    } else if s.len() < pat.len() {
        s
    } else if s.take(pat.len() as int) == pat {
        rep + replace_all(s.skip(pat.len() as int), pat, rep)
    } else {
        seq![s[0]] + replace_all(s.drop_first(), pat, rep)
    }
}

/// Does `pat` occur in `s` at position `i`?
pub open spec fn occurs_at_pos(s: Seq<char>, pat: Seq<char>, i: int) -> bool {
    0 <= i && i + pat.len() <= s.len() && s.subrange(i, i + pat.len()) == pat
}

/// Replacing a pattern that does not occur leaves the text as it was.
pub proof fn lemma_replace_absent(s: Seq<char>, pat: Seq<char>, rep: Seq<char>)
    requires
        pat.len() > 0,
        forall|i: int| !occurs_at_pos(s, pat, i),
    ensures
        replace_all(s, pat, rep) == s,
    decreases s.len(),
{
    if s.len() >= pat.len() {
        assert(!occurs_at_pos(s, pat, 0));
        assert(s.take(pat.len() as int) == s.subrange(0, pat.len() as int));
        let t = s.drop_first();
        assert forall|i: int| !occurs_at_pos(t, pat, i) by {
            if occurs_at_pos(t, pat, i) {
                assert(s.subrange(i + 1, i + 1 + pat.len()) =~= t.subrange(i, i + pat.len()));
                assert(occurs_at_pos(s, pat, i + 1));
            }
        }
        lemma_replace_absent(t, pat, rep);
        assert(seq![s[0]] + t =~= s);
    }
}

/// Does `pat` occur in `cs` at position `pos`?
fn occurs_at(cs: &Vec<char>, pat: &Vec<char>, pos: usize) -> (r: bool)
    requires
        pos + pat@.len() <= cs@.len(),
    ensures
        r == (cs@.subrange(pos as int, pos + pat@.len()) == pat@),
{
    let m = pat.len();
    let mut k: usize = 0;
    while k < m
        invariant
            m == pat@.len(),
            pos + m <= cs.len(),
            k <= m,
            cs@.subrange(pos as int, pos + k) == pat@.take(k as int),
        decreases m - k,
    {
        if cs[pos + k] != pat[k] {
            assert(cs@.subrange(pos as int, pos + m)[k as int] != pat@[k as int]);
            return false;
        }
        assert(cs@.subrange(pos as int, pos + k + 1) == cs@.subrange(pos as int, pos + k).push(
            cs@[pos + k],
        ));
        assert(pat@.take(k + 1) == pat@.take(k as int).push(pat@[k as int]));
        k = k + 1;
    }
    assert(pat@.take(m as int) == pat@);
    true
}

/// `rep` before every character of `s` and after the last: what replacing the
/// empty pattern gives.
fn interleave(s: &str, rep: &str) -> (r: String)
    ensures
        r@ == replace_all(s@, Seq::empty(), rep@),
{
    let n = chars_of(s).len();
    let mut out = String::new();
    assert(s@.skip(0) == s@);
    for i in 0..n
        invariant
            n == s@.len(),
            replace_all(s@, Seq::empty(), rep@) == out@ + replace_all(s@.skip(i as int), Seq::empty(), rep@),
    {
        let ghost rest = s@.skip(i as int);
        assert(rest[0] == s@[i as int]);
        assert(rest.drop_first() == s@.skip(i + 1));
        out.append(rep);
        let c = slice_text(s, i, i + 1);
        assert(c@ =~= seq![s@[i as int]]);
        out.append(c.as_str());
    }
    assert(s@.skip(n as int) =~= Seq::<char>::empty());
    out.append(rep);
    out
}

/// Replaces every occurrence of `pat` in `s` by `rep`, as `str::replace` does.
pub fn replace_text(s: &str, pat: &str, rep: &str) -> (r: String)
    ensures
        r@ == replace_all(s@, pat@, rep@),
{
    let cs = chars_of(s);
    let ps = chars_of(pat);
    let n = cs.len();
    let m = ps.len();
    if m == 0 {
        assert(pat@ =~= Seq::<char>::empty());
        return interleave(s, rep);
    }
    let mut out = String::new();
    let mut seg: usize = 0;
    let mut pos: usize = 0;
    assert(s@.subrange(0, 0) =~= Seq::<char>::empty());
    assert(s@.skip(0) == s@);
    while pos < n
        invariant
            n == s@.len(),
            m == pat@.len(),
            m > 0,
            cs@ == s@,
            ps@ == pat@,
            seg <= pos <= n,
            replace_all(s@, pat@, rep@) == out@ + s@.subrange(seg as int, pos as int)
                + replace_all(s@.skip(pos as int), pat@, rep@),
        decreases n - pos,
    {
        let ghost rest = s@.skip(pos as int);
        if m <= n - pos && occurs_at(&cs, &ps, pos) {
            assert(rest.take(m as int) == s@.subrange(pos as int, pos + m));
            assert(rest.skip(m as int) == s@.skip(pos + m));
            let piece = slice_text(s, seg, pos);
            out.append(piece.as_str());
            out.append(rep);
            pos = pos + m;
            seg = pos;
            assert(s@.subrange(seg as int, pos as int) =~= Seq::<char>::empty());
        } else {
            assert(rest.drop_first() == s@.skip(pos + 1));
            assert(rest[0] == s@[pos as int]);
            if m <= n - pos {
                assert(rest.take(m as int) == s@.subrange(pos as int, pos + m));
            } else {
                assert(s@.skip(pos + 1).len() < m);
                assert(rest =~= seq![rest[0]] + rest.drop_first());
            }
            assert(s@.subrange(seg as int, pos + 1) =~= s@.subrange(seg as int, pos as int) + seq![
                s@[pos as int],
            ]);
            pos = pos + 1;
        }
    }
    let tail = slice_text(s, seg, n);
    out.append(tail.as_str());
    assert(s@.skip(n as int) =~= Seq::<char>::empty());
    out
}


/// Strict lexicographic order on texts, character by character by code point.
/// On UTF-8 strings this is the order of `str::cmp`, which compares bytes.
pub open spec fn text_lt(a: Seq<char>, b: Seq<char>) -> bool
    decreases a.len(),
{
    if a.len() == 0 {
        b.len() > 0
    } else if b.len() == 0 {
        false
    } else if a[0] != b[0] {
        (a[0] as u32) < (b[0] as u32)
    } else {
        text_lt(a.drop_first(), b.drop_first())
    }
}

/// No text comes before itself.
pub proof fn lemma_text_lt_irreflexive(a: Seq<char>)
    ensures
        !text_lt(a, a),
    decreases a.len(),
{
    if a.len() > 0 {
        lemma_text_lt_irreflexive(a.drop_first());
    }
}

/// Two different texts are ordered one way or the other.
pub proof fn lemma_text_lt_total(a: Seq<char>, b: Seq<char>)
    ensures
        a != b ==> text_lt(a, b) || text_lt(b, a),
    decreases a.len(),
{
    if a.len() > 0 && b.len() > 0 {
        if a[0] == b[0] {
            lemma_text_lt_total(a.drop_first(), b.drop_first());
            if a.drop_first() == b.drop_first() {
                assert(a =~= seq![a[0]] + a.drop_first());
                assert(b =~= seq![b[0]] + b.drop_first());
            }
        } else {
            vstd::utf8::char_u32_cast(a[0], a[0] as u32);
            vstd::utf8::char_u32_cast(b[0], b[0] as u32);
        }
    } else if a.len() == 0 && b.len() == 0 {
        assert(a =~= b);
    }
}

/// The order is transitive.
pub proof fn lemma_text_lt_transitive(a: Seq<char>, b: Seq<char>, c: Seq<char>)
    ensures
        text_lt(a, b) && text_lt(b, c) ==> text_lt(a, c),
    decreases a.len(),
{
    if a.len() > 0 && b.len() > 0 && c.len() > 0 {
        lemma_text_lt_transitive(a.drop_first(), b.drop_first(), c.drop_first());
    }
}

/// Is `a` strictly before `b` in lexicographic order?
pub fn text_less(a: &str, b: &str) -> (r: bool)
    ensures
        r == text_lt(a@, b@),
{
    let x = chars_of(a);
    let y = chars_of(b);
    let mut i: usize = 0;
    assert(a@.skip(0) == a@);
    assert(b@.skip(0) == b@);
    while i < x.len() && i < y.len() && x[i] == y[i]
        invariant
            x@ == a@,
            y@ == b@,
            i <= x@.len(),
            i <= y@.len(),
            x@.take(i as int) == y@.take(i as int),
            text_lt(a@, b@) == text_lt(a@.skip(i as int), b@.skip(i as int)),
        decreases x@.len() - i,
    {
        assert(a@.skip(i as int).drop_first() == a@.skip(i + 1));
        assert(b@.skip(i as int).drop_first() == b@.skip(i + 1));
        assert(x@.take(i + 1) == x@.take(i as int).push(x@[i as int]));
        assert(y@.take(i + 1) == y@.take(i as int).push(y@[i as int]));
        i = i + 1;
    }
    if i < x.len() && i < y.len() {
        (x[i] as u32) < (y[i] as u32)
    } else {
        i == x.len() && i < y.len()
    }
}

/// Do `a` and `b` hold the same text?
pub fn same_text(a: &str, b: &str) -> (r: bool)
    ensures
        r == (a@ == b@),
{
    let x = chars_of(a);
    let y = chars_of(b);
    if x.len() != y.len() {
        return false;
    }
    let mut i: usize = 0;
    while i < x.len()
        invariant
            x@ == a@,
            y@ == b@,
            x@.len() == y@.len(),
            i <= x@.len(),
            forall|j: int| 0 <= j < i ==> x@[j] == y@[j],
        decreases x@.len() - i,
    {
        if x[i] != y[i] {
            return false;
        }
        i = i + 1;
    }
    assert(x@ =~= y@);
    true
}

/// The text `a` followed by `b`.
pub fn concat(a: &str, b: &str) -> (r: String)
    ensures
        r@ == a@ + b@,
{
    let mut r = a.to_owned();
    r.append(b);
    r
}

/// `a`, a single space, then `b`: what `format!("{a} {b}")` produces.
pub fn join_space(a: &str, b: &str) -> (r: String)
    ensures
        r@ == a@ + seq![' '] + b@,
{
    let mut r = a.to_owned();
    r.append(" ");
    proof {
        reveal_strlit(" ");
    }
    r.append(b);
    r
}


/// A line with the carriage return of a `\r\n` ending removed.
pub open spec fn strip_cr(l: Seq<char>) -> Seq<char> {
    if l.len() > 0 && l.last() == '\r' {
        l.drop_last()
    } else {
        l
    }
}

/// The lines of `s` as `str::lines` yields them: the text is cut at each `\n`,
/// a `\r` just before a `\n` is dropped with it, and a final empty piece (after a
/// last `\n`, or of the empty text) is not a line.
pub open spec fn lines_of(s: Seq<char>) -> Seq<Seq<char>> {
    let pieces = split_on(s, '\n');
    let body = pieces.drop_last().map_values(|l: Seq<char>| strip_cr(l));
    if pieces.last().len() == 0 {
        body
    } else {
        body.push(pieces.last())
    }
}

/// `line` without a trailing carriage return.
fn without_cr(line: &str) -> (r: String)
    ensures
        r@ == strip_cr(line@),
{
    let cs = chars_of(line);
    let n = cs.len();
    if n > 0 && cs[n - 1] == '\r' {
        slice_text(line, 0, n - 1)
    } else {
        assert(line@.subrange(0, n as int) == line@);
        slice_text(line, 0, n)
    }
}

/// The lines of `s`.
pub fn text_lines(s: &str) -> (ls: Vec<String>)
    ensures
        ls.deep_view() == lines_of(s@),
{
    let pieces = split_char(s, '\n');
    proof {
        lemma_split_on_nonempty(s@, '\n');
    }
    let ghost p = split_on(s@, '\n');
    let n = pieces.len();
    let mut ls: Vec<String> = Vec::new();
    let mut i: usize = 0;
    while i + 1 < n
        invariant
            pieces.deep_view() == p,
            n == p.len(),
            n >= 1,
            i + 1 <= n,
            ls.deep_view() == p.drop_last().take(i as int).map_values(|l: Seq<char>| strip_cr(l)),
        decreases n - i,
    {
        let line = without_cr(pieces[i].as_str());
        assert(pieces.deep_view()[i as int] == pieces[i as int]@);
        let ghost before = ls.deep_view();
        ls.push(line);
        assert(ls.deep_view() =~= before.push(strip_cr(p[i as int])));
        assert(p.drop_last().take(i + 1) == p.drop_last().take(i as int).push(p[i as int]));
        assert(ls.deep_view() =~= p.drop_last().take(i + 1).map_values(
            |l: Seq<char>| strip_cr(l),
        ));
        i = i + 1;
    }
    assert(p.drop_last().take(i as int) == p.drop_last());
    let last = &pieces[n - 1];
    assert(pieces.deep_view()[n - 1] == last@);
    let cs = chars_of(last.as_str());
    if cs.len() > 0 {
        ls.push(last.clone());
        assert(ls.deep_view() =~= p.drop_last().map_values(|l: Seq<char>| strip_cr(l)).push(
            p.last(),
        ));
    }
    ls
}

} // verus!
