//! Row selections kept as strictly increasing lists of row indices, and the
//! edits the item views make to them (sorting and removing duplicates,
//! toggling one row, picking a range of rows).

use vstd::prelude::*;

verus! {

/// Every element is smaller than the next: sorted, without duplicates.
pub open spec fn strictly_sorted(s: Seq<usize>) -> bool {
    forall|i: int, j: int| 0 <= i < j < s.len() ==> s[i] < s[j]
}

/// `x` put into its place in the sorted list `r` (nothing changes when it is
/// already there).
pub open spec fn ins(r: Seq<usize>, x: usize) -> Seq<usize>
    decreases r.len(),
{
    if r.len() == 0 {
        seq![x]
    } else if x < r[0] {
        seq![x] + r
    } else if x == r[0] {
        r
    } else {
        seq![r[0]] + ins(r.drop_first(), x)
    }
}

/// The rows of `s` sorted, each once (`sort_unstable` then `dedup`).
pub open spec fn normalized(s: Seq<usize>) -> Seq<usize>
    decreases s.len(),
{
    if s.len() == 0 {
        Seq::empty()
    } else {
        ins(normalized(s.drop_last()), s.last())
    }
}

/// `s` without its first occurrence of `x`.
pub open spec fn without_first(s: Seq<usize>, x: usize) -> Seq<usize>
    decreases s.len(),
{
    if s.len() == 0 {
        s
    } else if s[0] == x {
        s.drop_first()
    } else {
        seq![s[0]] + without_first(s.drop_first(), x)
    }
}

/// A Ctrl-click or Space on row `x`: its first occurrence leaves the list,
/// or it joins at the end when absent.
pub open spec fn toggled(s: Seq<usize>, x: usize) -> Seq<usize> {
    if s.contains(x) {
        without_first(s, x)
    } else {
        s.push(x)
    }
}

/// The rows `lo`, `lo + 1`, ..., below `hi`.
pub open spec fn rows_between(lo: int, hi: int) -> Seq<usize> {
    Seq::new(if hi > lo { (hi - lo) as nat } else { 0 }, |k: int| (lo + k) as usize)
}

pub proof fn lemma_ins_props(r: Seq<usize>, x: usize)
    requires
        strictly_sorted(r),
    ensures
        strictly_sorted(ins(r, x)),
        ins(r, x).to_set() == r.to_set().insert(x),
    decreases r.len(),
{
    if r.len() == 0 {
        let t = seq![x];
        assert forall|e: usize| #[trigger] t.to_set().contains(e) == r.to_set().insert(x).contains(e) by {
            if e == x {
                assert(t[0] == x);
            }
        }
        assert(t.to_set() =~= r.to_set().insert(x));
    } else if x < r[0] {
        let t = ins(r, x);
        assert(t =~= seq![x] + r);
        assert forall|e: usize| #[trigger] t.to_set().contains(e) == r.to_set().insert(x).contains(e) by {
            if t.contains(e) {
                let k = choose|k: int| 0 <= k < t.len() && t[k] == e;
                if k > 0 {
                    assert(r[k - 1] == e);
                }
            }
            if r.contains(e) {
                let k = choose|k: int| 0 <= k < r.len() && r[k] == e;
                assert(t[k + 1] == e);
            }
            if e == x {
                assert(t[0] == e);
            }
        }
        assert(t.to_set() =~= r.to_set().insert(x));
        assert forall|i: int, j: int| 0 <= i < j < t.len() implies t[i] < t[j] by {
            if i > 0 {
                assert(t[i] == r[i - 1] && t[j] == r[j - 1]);
            } else {
                assert(t[j] == r[j - 1]);
                assert(r[0] <= r[j - 1]);
            }
        }
    } else if x == r[0] {
        assert(r.to_set().contains(x));
        assert(r.to_set().insert(x) =~= r.to_set());
    } else {
        let rest = r.drop_first();
        assert(strictly_sorted(rest));
        lemma_ins_props(rest, x);
        let u = ins(rest, x);
        let t = ins(r, x);
        assert(t =~= seq![r[0]] + u);
        assert forall|e: usize| #[trigger] t.to_set().contains(e) == r.to_set().insert(x).contains(e) by {
            if t.contains(e) {
                let k = choose|k: int| 0 <= k < t.len() && t[k] == e;
                if k > 0 {
                    assert(u[k - 1] == e);
                    assert(u.to_set().contains(e));
                    if e != x {
                        assert(rest.to_set().contains(e));
                        let m = choose|m: int| 0 <= m < rest.len() && rest[m] == e;
                        assert(r[m + 1] == e);
                    }
                } else {
                    assert(r[0] == e);
                }
            }
            if r.contains(e) {
                let k = choose|k: int| 0 <= k < r.len() && r[k] == e;
                if k > 0 {
                    assert(rest[k - 1] == e);
                    assert(rest.to_set().contains(e));
                    assert(u.to_set().contains(e));
                    let m = choose|m: int| 0 <= m < u.len() && u[m] == e;
                    assert(t[m + 1] == e);
                } else {
                    assert(t[0] == e);
                }
            }
            if e == x {
                assert(u.to_set().contains(x));
                let m = choose|m: int| 0 <= m < u.len() && u[m] == x;
                assert(t[m + 1] == e);
            }
        }
        assert(t.to_set() =~= r.to_set().insert(x));
        assert forall|i: int, j: int| 0 <= i < j < t.len() implies t[i] < t[j] by {
            if i > 0 {
                assert(t[i] == u[i - 1] && t[j] == u[j - 1]);
            } else {
                assert(t[j] == u[j - 1]);
                assert(u.to_set().contains(u[j - 1]));
                let e = u[j - 1];
                if e != x {
                    assert(rest.to_set().contains(e));
                    let m = choose|m: int| 0 <= m < rest.len() && rest[m] == e;
                    assert(r[m + 1] == e);
                }
            }
        }
    }
}

/// Where `x` goes in a sorted list: at the first position whose element is
/// not smaller.
pub proof fn lemma_ins_at(r: Seq<usize>, x: usize, p: int)
    requires
        strictly_sorted(r),
        0 <= p <= r.len(),
        forall|k: int| 0 <= k < p ==> r[k] < x,
        p == r.len() || r[p] >= x,
    ensures
        ins(r, x) == (if p < r.len() && r[p] == x { r } else { r.insert(p, x) }),
    decreases r.len(),
{
    if r.len() == 0 {
        assert(r.insert(p, x) =~= seq![x]);
    } else if x < r[0] {
        assert(p == 0);
        assert(r.insert(p, x) =~= seq![x] + r);
    } else if x == r[0] {
        assert(p == 0);
    } else {
        let rest = r.drop_first();
        assert(p >= 1);
        assert forall|k: int| 0 <= k < p - 1 implies rest[k] < x by {
            assert(rest[k] == r[k + 1]);
        }
        if p < r.len() {
            assert(rest[p - 1] == r[p]);
        }
        lemma_ins_at(rest, x, p - 1);
        if p < r.len() && r[p] == x {
            assert(seq![r[0]] + rest =~= r);
        } else {
            assert(seq![r[0]] + rest.insert(p - 1, x) =~= r.insert(p, x));
        }
    }
}

pub proof fn lemma_normalized_props(s: Seq<usize>)
    ensures
        strictly_sorted(normalized(s)),
        normalized(s).to_set() == s.to_set(),
    decreases s.len(),
{
    if s.len() == 0 {
        assert(normalized(s).to_set() =~= s.to_set());
    } else {
        let d = s.drop_last();
        lemma_normalized_props(d);
        lemma_ins_props(normalized(d), s.last());
        assert forall|e: usize| #[trigger] s.to_set().contains(e) == d.to_set().insert(s.last()).contains(e) by {
            if s.contains(e) {
                let k = choose|k: int| 0 <= k < s.len() && s[k] == e;
                if k < s.len() - 1 {
                    assert(d[k] == e);
                }
            }
            if d.contains(e) {
                let k = choose|k: int| 0 <= k < d.len() && d[k] == e;
                assert(s[k] == e);
            }
        }
        assert(s.to_set() =~= d.to_set().insert(s.last()));
    }
}

/// A list that is already sorted without duplicates is left as it is.
pub proof fn lemma_normalized_sorted(s: Seq<usize>)
    requires
        strictly_sorted(s),
    ensures
        normalized(s) == s,
    decreases s.len(),
{
    if s.len() > 0 {
        let d = s.drop_last();
        assert(strictly_sorted(d));
        lemma_normalized_sorted(d);
        assert forall|k: int| 0 <= k < d.len() implies d[k] < s.last() by {
            assert(d[k] == s[k]);
        }
        lemma_ins_at(d, s.last(), d.len() as int);
        assert(d.insert(d.len() as int, s.last()) =~= s);
    }
}

proof fn lemma_without_first_at(s: Seq<usize>, x: usize, i: int)
    requires
        0 <= i < s.len(),
        s[i] == x,
        forall|k: int| 0 <= k < i ==> s[k] != x,
    ensures
        without_first(s, x) == s.remove(i),
    decreases s.len(),
{
    if i > 0 {
        let rest = s.drop_first();
        assert forall|k: int| 0 <= k < i - 1 implies rest[k] != x by {
            assert(rest[k] == s[k + 1]);
        }
        lemma_without_first_at(rest, x, i - 1);
        assert(seq![s[0]] + rest.remove(i - 1) =~= s.remove(i));
    }
}

/// Removing `x` from a list without duplicates takes exactly `x` out of its
/// set of rows.
pub proof fn lemma_without_first_set(s: Seq<usize>, x: usize)
    requires
        strictly_sorted(s),
    ensures
        without_first(s, x).to_set() == s.to_set().remove(x),
    decreases s.len(),
{
    if s.len() == 0 {
        assert(without_first(s, x).to_set() =~= s.to_set().remove(x));
    } else {
        let rest = s.drop_first();
        assert(strictly_sorted(rest));
        lemma_without_first_set(rest, x);
        let w = without_first(s, x);
        assert forall|e: usize| #[trigger] w.to_set().contains(e) == s.to_set().remove(x).contains(e) by {
            if s[0] == x {
                assert(w =~= rest);
                if rest.contains(e) {
                    let k = choose|k: int| 0 <= k < rest.len() && rest[k] == e;
                    assert(s[k + 1] == e);
                    assert(s[0] < s[k + 1]);
                }
                if s.contains(e) && e != x {
                    let k = choose|k: int| 0 <= k < s.len() && s[k] == e;
                    assert(k > 0);
                    assert(rest[k - 1] == e);
                }
            } else {
                let u = without_first(rest, x);
                assert(w =~= seq![s[0]] + u);
                if w.contains(e) {
                    let k = choose|k: int| 0 <= k < w.len() && w[k] == e;
                    if k > 0 {
                        assert(u[k - 1] == e);
                        assert(u.to_set().contains(e));
                        let m = choose|m: int| 0 <= m < rest.len() && rest[m] == e;
                        assert(s[m + 1] == e);
                    } else {
                        assert(s[0] == e);
                    }
                }
                if s.contains(e) && e != x {
                    let k = choose|k: int| 0 <= k < s.len() && s[k] == e;
                    if k > 0 {
                        assert(rest[k - 1] == e);
                        assert(rest.to_set().contains(e));
                        assert(u.to_set().contains(e));
                        let m = choose|m: int| 0 <= m < u.len() && u[m] == e;
                        assert(w[m + 1] == e);
                    } else {
                        assert(w[0] == e);
                    }
                }
            }
        }
        assert(w.to_set() =~= s.to_set().remove(x));
    }
}

/// Puts `x` into its place in the sorted list `v`.
pub fn insert_sorted(v: &mut Vec<usize>, x: usize)
    requires
        strictly_sorted(old(v)@),
    ensures
        final(v)@ == ins(old(v)@, x),
        strictly_sorted(final(v)@),
{
    let ghost r = v@;
    let mut p: usize = 0;
    while p < v.len() && v[p] < x
        invariant
            v@ == r,
            strictly_sorted(r),
            p <= r.len(),
            forall|k: int| 0 <= k < p ==> r[k] < x,
        decreases r.len() - p,
    {
        p = p + 1;
    }
    proof {
        lemma_ins_at(r, x, p as int);
        lemma_ins_props(r, x);
    }
    if p < v.len() && v[p] == x {
    } else {
        v.insert(p, x);
    }
}

/// The rows of `v` sorted, each once.
pub fn normalize(v: &Vec<usize>) -> (r: Vec<usize>)
    ensures
        r@ == normalized(v@),
        strictly_sorted(r@),
        r@.to_set() == v@.to_set(),
{
    let mut out: Vec<usize> = Vec::new();
    let mut i: usize = 0;
    while i < v.len()
        invariant
            i <= v@.len(),
            out@ == normalized(v@.take(i as int)),
            strictly_sorted(out@),
        decreases v@.len() - i,
    {
        proof {
            assert(v@.take(i + 1).drop_last() =~= v@.take(i as int));
        }
        insert_sorted(&mut out, v[i]);
        i = i + 1;
    }
    proof {
        assert(v@.take(v@.len() as int) =~= v@);
        lemma_normalized_props(v@);
    }
    out
}

/// `toggled(v, x)`: the first `x` removed, or `x` appended.
pub fn toggle_row(v: &Vec<usize>, x: usize) -> (r: Vec<usize>)
    ensures
        r@ == toggled(v@, x),
{
    let mut i: usize = 0;
    while i < v.len()
        invariant
            i <= v@.len(),
            forall|k: int| 0 <= k < i ==> v@[k] != x,
        decreases v@.len() - i,
    {
        if v[i] == x {
            let mut r = v.clone();
            proof {
                assert(r@ == v@);
                lemma_without_first_at(v@, x, i as int);
                assert(v@.contains(x));
            }
            r.remove(i);
            return r;
        }
        i = i + 1;
    }
    let mut r = v.clone();
    assert(!v@.contains(x));
    r.push(x);
    r
}

/// The rows from `lo` to `hi` inclusive that are below `row_count`.
pub fn row_range(lo: usize, hi: usize, row_count: usize) -> (r: Vec<usize>)
    ensures
        r@ == rows_between(lo as int, if hi < row_count { hi + 1 } else { row_count as int }),
{
    let end: usize = if hi < row_count { hi + 1 } else { row_count };
    let mut out: Vec<usize> = Vec::new();
    let mut i: usize = lo;
    while i < end
        invariant
            lo <= i,
            i <= end || end <= lo,
            end <= lo ==> i == lo,
            out@ == rows_between(lo as int, i as int),
        decreases end - i,
    {
        out.push(i);
        assert(out@ =~= rows_between(lo as int, i + 1));
        i = i + 1;
    }
    assert(out@ =~= rows_between(lo as int, end as int));
    out
}

/// Sorting and removing duplicates twice gives what doing it once gives.
pub proof fn law_normalize_is_idempotent(s: Seq<usize>)
    ensures
        normalized(normalized(s)) == normalized(s),
{
    lemma_normalized_props(s);
    lemma_normalized_sorted(normalized(s));
}

} // verus!
