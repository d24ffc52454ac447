//! Lexicographic order of strings and sorting of distinct strings.
use crate::text::chars_of;
use vstd::prelude::*;

verus! {

broadcast use vstd::utf8::char_is_scalar;

/// `a` sorts strictly before `b` in the order of `str`'s `Ord`
/// (lexicographic by Unicode scalar value, the order of UTF-8 bytes).
pub open spec fn lex_lt(a: Seq<char>, b: Seq<char>) -> bool
    decreases a.len(),
{
    if a.len() == 0 {
        b.len() > 0
    } else if b.len() == 0 {
        false
    } else if a[0] != b[0] {
        (a[0] as u32) < (b[0] as u32)
    } else {
        lex_lt(a.drop_first(), b.drop_first())
    }
}

/// The strings are in strictly increasing order.
pub open spec fn strictly_sorted(q: Seq<Seq<char>>) -> bool {
    forall|i: int, j: int| 0 <= i < j < q.len() ==> lex_lt(#[trigger] q[i], #[trigger] q[j])
}

/// No string is below itself.
pub proof fn lemma_lex_irreflexive(a: Seq<char>)
    ensures
        !lex_lt(a, a),
    decreases a.len(),
{
    if a.len() > 0 {
        lemma_lex_irreflexive(a.drop_first());
    }
}

/// Two different strings are ordered one way or the other.
pub proof fn lemma_lex_total(a: Seq<char>, b: Seq<char>)
    requires
        a != b,
    ensures
        lex_lt(a, b) || lex_lt(b, a),
    decreases a.len(),
{
    if a.len() == 0 {
        if b.len() == 0 {
            assert(a =~= b);
        }
    } else if b.len() == 0 {
    } else if a[0] == b[0] {
        if a.drop_first() == b.drop_first() {
            assert(a =~= seq![a[0]] + a.drop_first());
            assert(b =~= seq![b[0]] + b.drop_first());
        }
        lemma_lex_total(a.drop_first(), b.drop_first());
    } else {
        vstd::utf8::char_u32_cast(a[0], a[0] as u32);
        vstd::utf8::char_u32_cast(b[0], b[0] as u32);
    }
}

/// The order is transitive.
pub proof fn lemma_lex_transitive(a: Seq<char>, b: Seq<char>, c: Seq<char>)
    requires
        lex_lt(a, b),
        lex_lt(b, c),
    ensures
        lex_lt(a, c),
    decreases a.len(),
{
    if a.len() > 0 && b.len() > 0 && c.len() > 0 {
        if a[0] == b[0] && b[0] == c[0] {
            lemma_lex_transitive(a.drop_first(), b.drop_first(), c.drop_first());
        }
    }
}

/// The order is asymmetric.
pub proof fn lemma_lex_asymmetric(a: Seq<char>, b: Seq<char>)
    requires
        lex_lt(a, b),
    ensures
        !lex_lt(b, a),
{
    if lex_lt(b, a) {
        lemma_lex_transitive(a, b, a);
        lemma_lex_irreflexive(a);
    }
}

proof fn lemma_lex_common_prefix(a: Seq<char>, b: Seq<char>, i: int)
    requires
        0 <= i <= a.len(),
        i <= b.len(),
        a.take(i) == b.take(i),
    ensures
        lex_lt(a, b) == lex_lt(a.skip(i), b.skip(i)),
    decreases i,
{
    if i > 0 {
        assert(a[0] == a.take(i)[0]);
        assert(b[0] == b.take(i)[0]);
        assert(a.drop_first().take(i - 1) =~= a.take(i).drop_first());
        assert(b.drop_first().take(i - 1) =~= b.take(i).drop_first());
        lemma_lex_common_prefix(a.drop_first(), b.drop_first(), i - 1);
        assert(a.drop_first().skip(i - 1) =~= a.skip(i));
        assert(b.drop_first().skip(i - 1) =~= b.skip(i));
    } else {
        assert(a.skip(0) =~= a);
        assert(b.skip(0) =~= b);
    }
}

/// Whether `a` sorts strictly before `b`.
pub fn str_lex_lt(a: &str, b: &str) -> (r: bool)
    ensures
        r == lex_lt(a@, b@),
{
    let v = chars_of(a);
    let w = chars_of(b);
    let mut i: usize = 0;
    while i < v.len() && i < w.len() && v[i] == w[i]
        invariant
            i <= v.len(),
            i <= w.len(),
            v@ == a@,
            w@ == b@,
            v@.take(i as int) == w@.take(i as int),
        decreases v.len() - i,
    {
        assert(v@.take(i + 1) =~= v@.take(i as int).push(v@[i as int]));
        assert(w@.take(i + 1) =~= w@.take(i as int).push(w@[i as int]));
        i = i + 1;
    }
    proof {
        lemma_lex_common_prefix(v@, w@, i as int);
    }
    if i == v.len() {
        i < w.len()
    } else if i == w.len() {
        false
    } else {
        assert(v@.skip(i as int)[0] == v@[i as int]);
        assert(w@.skip(i as int)[0] == w@[i as int]);
        (v[i] as u32) < (w[i] as u32)
    }
}

/// Strictly sorted sequences with the same elements are equal.
pub proof fn lemma_sorted_unique(p: Seq<Seq<char>>, q: Seq<Seq<char>>)
    requires
        strictly_sorted(p),
        strictly_sorted(q),
        p.to_set() == q.to_set(),
    ensures
        p == q,
    decreases p.len(),
{
    if p.len() == 0 {
        if q.len() > 0 {
            assert(q.to_set().contains(q[0]));
            assert(p.to_set().contains(q[0]));
        }
        assert(p =~= q);
    } else {
        assert(p.to_set().contains(p[0]));
        assert(q.to_set().contains(p[0]));
        assert(q.len() > 0);
        assert(q.to_set().contains(q[0]));
        assert(p.to_set().contains(q[0]));
        let m = choose|m: int| 0 <= m < p.len() && p[m] == q[0];
        let k = choose|k: int| 0 <= k < q.len() && q[k] == p[0];
        if p[0] != q[0] {
            assert(m > 0);
            assert(k > 0);
            assert(lex_lt(p[0], p[m]));
            assert(lex_lt(q[0], q[k]));
            lemma_lex_asymmetric(p[0], q[0]);
        }
        let p1 = p.drop_first();
        let q1 = q.drop_first();
        assert forall|x: Seq<char>| p1.to_set().contains(x) implies q1.to_set().contains(x) by {
            let i = choose|i: int| 0 <= i < p1.len() && p1[i] == x;
            assert(p[i + 1] == x);
            assert(lex_lt(p[0], p[i + 1]));
            assert(q.to_set().contains(x));
            let j = choose|j: int| 0 <= j < q.len() && q[j] == x;
            if j == 0 {
                lemma_lex_irreflexive(x);
            }
            assert(q1[j - 1] == x);
        }
        assert forall|x: Seq<char>| q1.to_set().contains(x) implies p1.to_set().contains(x) by {
            let i = choose|i: int| 0 <= i < q1.len() && q1[i] == x;
            assert(q[i + 1] == x);
            assert(lex_lt(q[0], q[i + 1]));
            assert(p.to_set().contains(x));
            let j = choose|j: int| 0 <= j < p.len() && p[j] == x;
            if j == 0 {
                lemma_lex_irreflexive(x);
            }
            assert(p1[j - 1] == x);
        }
        assert(p1.to_set() =~= q1.to_set());
        lemma_sorted_unique(p1, q1);
        assert(p =~= seq![p[0]] + p1);
        assert(q =~= seq![q[0]] + q1);
    }
}

/// The strictly sorted sequence of the elements of a finite set of strings.
pub open spec fn sorted_of(s: Set<Seq<char>>) -> Seq<Seq<char>> {
    choose|q: Seq<Seq<char>>| strictly_sorted(q) && q.to_set() == s
}

/// A strictly sorted sequence is the sorted form of its elements.
pub proof fn lemma_sorted_of(q: Seq<Seq<char>>)
    requires
        strictly_sorted(q),
    ensures
        sorted_of(q.to_set()) == q,
{
    let s = q.to_set();
    assert(strictly_sorted(q) && q.to_set() == s);
    let p = sorted_of(s);
    lemma_sorted_unique(p, q);
}

/// Sorts distinct strings into increasing order.
pub fn sort_distinct(v: &Vec<String>) -> (out: Vec<String>)
    requires
        forall|i: int, j: int| 0 <= i < j < v@.len() ==> (#[trigger] v@[i])@ != (#[trigger] v@[j])@,
    ensures
        strictly_sorted(out@.map_values(|s: String| s@)),
        out@.map_values(|s: String| s@).to_set() == v@.map_values(|s: String| s@).to_set(),
        out@.len() == v@.len(),
{
    let ghost vv = v@.map_values(|s: String| s@);
    let mut out: Vec<String> = Vec::new();
    let mut i: usize = 0;
    while i < v.len()
        invariant
            i <= v@.len(),
            vv == v@.map_values(|s: String| s@),
            forall|a: int, b: int| 0 <= a < b < v@.len() ==> (#[trigger] v@[a])@ != (#[trigger] v@[b])@,
            strictly_sorted(out@.map_values(|s: String| s@)),
            out@.map_values(|s: String| s@).to_set() == vv.take(i as int).to_set(),
            out@.len() == i,
        decreases v.len() - i,
    {
        let ghost ov = out@.map_values(|s: String| s@);
        let x = &v[i];
        let mut p: usize = 0;
        while p < out.len() && str_lex_lt(out[p].as_str(), x.as_str())
            invariant
                p <= out@.len(),
                ov == out@.map_values(|s: String| s@),
                forall|k: int| 0 <= k < p ==> lex_lt(#[trigger] ov[k], x@),
            decreases out.len() - p,
        {
            p = p + 1;
        }
        proof {
            // x is not yet in out
            assert(!ov.to_set().contains(x@)) by {
                if ov.to_set().contains(x@) {
                    let k = choose|k: int| 0 <= k < ov.len() && ov[k] == x@;
                    let t0 = vv.take(i as int);
                    assert(t0.to_set().contains(x@));
                    let j = choose|j: int| 0 <= j < t0.len() && t0[j] == x@;
                    assert(v@[j]@ == v@[i as int]@);
                }
            }
            if p < out@.len() {
                assert(ov[p as int] != x@);
                assert(!lex_lt(ov[p as int], x@));
                lemma_lex_total(ov[p as int], x@);
            }
            assert(p < ov.len() ==> lex_lt(x@, ov[p as int]));
        }
        out.insert(p, x.clone());
        proof {
            let nv = out@.map_values(|s: String| s@);
            assert(nv =~= ov.insert(p as int, x@));
            assert forall|a: int, b: int| 0 <= a < b < nv.len() implies lex_lt(
                #[trigger] nv[a],
                #[trigger] nv[b],
            ) by {
                if b < p {
                } else if a < p && b == p {
                } else if a < p && b > p {
                    assert(lex_lt(ov[a], x@));
                    if b - 1 > p {
                        assert(lex_lt(ov[p as int], ov[b - 1]));
                        lemma_lex_transitive(x@, ov[p as int], ov[b - 1]);
                    }
                    lemma_lex_transitive(ov[a], x@, ov[b - 1]);
                } else if a == p {
                    if b - 1 > p {
                        assert(lex_lt(ov[p as int], ov[b - 1]));
                        lemma_lex_transitive(x@, ov[p as int], ov[b - 1]);
                    }
                } else {
                    assert(lex_lt(ov[a - 1], ov[b - 1]));
                }
            }
            let t0 = vv.take(i as int);
            let t1 = vv.take(i + 1);
            assert(t1 =~= t0.push(x@));
            assert forall|y: Seq<char>| nv.to_set().contains(y) <==> t1.to_set().contains(y) by {
                if nv.to_set().contains(y) {
                    let k = choose|k: int| 0 <= k < nv.len() && nv[k] == y;
                    if k < p {
                        assert(ov[k] == y);
                        assert(ov.to_set().contains(y));
                    } else if k > p {
                        assert(ov[k - 1] == y);
                        assert(ov.to_set().contains(y));
                    }
                    if y != x@ {
                        assert(t0.to_set().contains(y));
                        let j = choose|j: int| 0 <= j < t0.len() && t0[j] == y;
                        assert(t1[j] == y);
                    } else {
                        assert(t1[i as int] == y);
                    }
                }
                if t1.to_set().contains(y) {
                    let j = choose|j: int| 0 <= j < t1.len() && t1[j] == y;
                    if j == i {
                        assert(nv[p as int] == y);
                    } else {
                        assert(t0[j] == y);
                        assert(ov.to_set().contains(y));
                        let k = choose|k: int| 0 <= k < ov.len() && ov[k] == y;
                        if k < p {
                            assert(nv[k] == y);
                        } else {
                            assert(nv[k + 1] == y);
                        }
                    }
                }
            }
            assert(nv.to_set() =~= vv.take(i + 1).to_set());
        }
        i = i + 1;
    }
    assert(vv.take(i as int) =~= vv);
    out
}

} // verus!
