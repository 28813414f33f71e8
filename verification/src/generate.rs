//! The tables the bot answers with: the conversions between two currencies
//! across all sources, and the rates of one source.
use crate::config;
use crate::decimal::{
    lemma_pow10_pos, pow10, Dec, spec_checked_div, spec_checked_mul, spec_checked_sub, spec_compare, spec_normalize,
    spec_round_dp, spec_to_string,
};
use crate::graph::{
    all_edges, build, codes, copy_path, paths_view, spec_find_all_paths, spec_recip, try_find_all_paths,
    PathView,
};
use crate::source::{
    spec_all_sources, spec_is_bank, Currency, Rate, RateType, Source, SourceRates,
};
use crate::text::{push_str, string_push};
use vstd::prelude::*;

verus! {

// ---------------------------------------------------------------------------
// Text helpers
// ---------------------------------------------------------------------------

/// The text of a decimal rounded to `dp` fractional digits (a midpoint away
/// from zero), without trailing zeros.
pub open spec fn spec_decimal_to_string(v: Dec, dp: nat) -> Seq<char> {
    let r = spec_round_dp(v.m(), v.s(), dp);
    let n = spec_normalize(r.0, r.1);
    spec_to_string(n.0, n.1)
}

/// The text of a decimal rounded to `dp` fractional digits.
pub fn decimal_to_string(value: Dec, dp: u32) -> (r: String)
    ensures
        r@ == spec_decimal_to_string(value, dp as nat),
{
    value.round_dp_midpoint_away_from_zero(dp).normalize().to_string()
}

pub open spec fn spaces(n: nat) -> Seq<char> {
    Seq::new(n, |i: int| ' ')
}

/// Left-aligned in a field of `w` characters.
pub open spec fn pad_right(s: Seq<char>, w: nat) -> Seq<char> {
    if s.len() < w {
        s + spaces((w - s.len()) as nat)
    } else {
        s
    }
}

/// Right-aligned in a field of `w` characters.
pub open spec fn pad_left(s: Seq<char>, w: nat) -> Seq<char> {
    if s.len() < w {
        spaces((w - s.len()) as nat) + s
    } else {
        s
    }
}

fn push_spaces(out: &mut String, n: usize)
    ensures
        final(out)@ == old(out)@ + spaces(n as nat),
{
    let mut i: usize = 0;
    while i < n
        invariant
            i <= n,
            out@ == old(out)@ + spaces(i as nat),
        decreases n - i,
    {
        string_push(out, ' ');
        i = i + 1;
        assert(out@ =~= old(out)@ + spaces(i as nat));
    }
}

fn push_pad_right(out: &mut String, s: &str, w: usize)
    ensures
        final(out)@ == old(out)@ + pad_right(s@, w as nat),
{
    let n = s.unicode_len();
    push_str(out, s);
    if n < w {
        push_spaces(out, w - n);
        assert(out@ =~= old(out)@ + pad_right(s@, w as nat));
    }
}

fn push_pad_left(out: &mut String, s: &str, w: usize)
    ensures
        final(out)@ == old(out)@ + pad_left(s@, w as nat),
{
    let n = s.unicode_len();
    if n < w {
        push_spaces(out, w - n);
    }
    push_str(out, s);
    assert(out@ =~= old(out)@ + pad_left(s@, w as nat));
}

/// The largest length among texts, 0 for none.
pub open spec fn max_width(s: Seq<Seq<char>>) -> nat
    decreases s.len(),
{
    if s.len() == 0 {
        0
    } else {
        let m = max_width(s.drop_last());
        if s.last().len() > m {
            s.last().len()
        } else {
            m
        }
    }
}

/// Currency codes joined by "/".
pub open spec fn join_codes(p: Seq<Seq<char>>) -> Seq<char>
    decreases p.len(),
{
    if p.len() == 0 {
        Seq::empty()
    } else if p.len() == 1 {
        p[0]
    } else {
        join_codes(p.drop_last()) + "/"@ + p.last()
    }
}

fn push_joined(out: &mut String, p: &Vec<Currency>)
    ensures
        final(out)@ == old(out)@ + join_codes(codes(p@)),
{
    let mut i: usize = 0;
    while i < p.len()
        invariant
            i <= p@.len(),
            out@ == old(out)@ + join_codes(codes(p@.subrange(0, i as int))),
        decreases p@.len() - i,
    {
        let ghost before = out@;
        let ghost sub = codes(p@.subrange(0, i + 1));
        assert(sub.drop_last() =~= codes(p@.subrange(0, i as int)));
        assert(sub.last() == p@[i as int]@);
        if i > 0 {
            push_str(out, "/");
        }
        push_str(out, p[i].0.as_str());
        i = i + 1;
        assert(out@ =~= old(out)@ + join_codes(codes(p@.subrange(0, i as int))));
    }
    assert(p@.subrange(0, p@.len() as int) =~= p@);
}

// ---------------------------------------------------------------------------
// Stable sorting
// ---------------------------------------------------------------------------

/// `x` inserted into `s` after every element that is not ordered after it.
pub open spec fn ins<T>(s: Seq<T>, x: T, after: spec_fn(T, T) -> bool) -> Seq<T>
    decreases s.len(),
{
    if s.len() == 0 {
        seq![x]
    } else if after(s.last(), x) {
        ins(s.drop_last(), x, after).push(s.last())
    } else {
        s.push(x)
    }
}

/// The stable sort of `s`: elements ordered by `after`, equal ones in their
/// order in `s`.
pub open spec fn stable_sort<T>(s: Seq<T>, after: spec_fn(T, T) -> bool) -> Seq<T>
    decreases s.len(),
{
    if s.len() == 0 {
        s
    } else {
        ins(stable_sort(s.drop_last(), after), s.last(), after)
    }
}

/// No element is ordered after a later one.
pub open spec fn sorted_by<T>(s: Seq<T>, after: spec_fn(T, T) -> bool) -> bool {
    forall|i: int, j: int| 0 <= i < j < s.len() ==> !after(#[trigger] s[i], #[trigger] s[j])
}

/// `after` is a strict weak order: never both ways, and "not after" chains.
pub open spec fn strict_weak<T>(after: spec_fn(T, T) -> bool) -> bool {
    &&& forall|a: T, b: T| #[trigger] after(a, b) ==> !after(b, a)
    &&& forall|a: T, b: T, c: T| #![trigger after(a, b), after(b, c)] !after(a, b) && !after(b, c) ==> !after(a, c)
}

proof fn lemma_ins_sorted<T>(s: Seq<T>, x: T, after: spec_fn(T, T) -> bool)
    requires
        strict_weak(after),
        sorted_by(s, after),
    ensures
        sorted_by(ins(s, x, after), after),
        ins(s, x, after).to_multiset() =~= s.to_multiset().insert(x),
        forall|k: int| 0 <= k < ins(s, x, after).len() ==> (#[trigger] ins(s, x, after)[k] == x || s.contains(
            ins(s, x, after)[k],
        )),
    decreases s.len(),
{
    broadcast use vstd::seq_lib::group_to_multiset_ensures;

    if s.len() == 0 {
        assert(s.push(x) =~= seq![x]);
    } else if after(s.last(), x) {
        let d = s.drop_last();
        assert(sorted_by(d, after)) by {
            assert forall|i: int, j: int| 0 <= i < j < d.len() implies !after(#[trigger] d[i], #[trigger] d[j]) by {
                assert(d[i] == s[i] && d[j] == s[j]);
            }
        }
        lemma_ins_sorted(d, x, after);
        let m = ins(d, x, after);
        let r = m.push(s.last());
        assert(r == ins(s, x, after));
        assert forall|i: int, j: int| 0 <= i < j < r.len() implies !after(#[trigger] r[i], #[trigger] r[j]) by {
            if j == r.len() - 1 {
                assert(r[i] == m[i]);
                assert(r[j] == s.last());
                if m[i] == x {
                } else {
                    assert(d.contains(m[i]));
                    let t = choose|t: int| 0 <= t < d.len() && d[t] == m[i];
                    assert(s[t] == m[i]);
                    assert(s[s.len() - 1] == s.last());
                }
            } else {
                assert(r[i] == m[i] && r[j] == m[j]);
            }
        }
        assert(s =~= d.push(s.last()));
        assert forall|k: int| 0 <= k < r.len() implies (#[trigger] r[k] == x || s.contains(r[k])) by {
            if k == r.len() - 1 {
                assert(s[s.len() - 1] == r[k]);
            } else {
                assert(r[k] == m[k]);
                if m[k] != x {
                    let t = choose|t: int| 0 <= t < d.len() && d[t] == m[k];
                    assert(s[t] == m[k]);
                }
            }
        }
    } else {
        let r = s.push(x);
        assert(r == ins(s, x, after));
        assert forall|i: int, j: int| 0 <= i < j < r.len() implies !after(#[trigger] r[i], #[trigger] r[j]) by {
            if j == r.len() - 1 {
                assert(r[i] == s[i]);
                if i < s.len() - 1 {
                    assert(!after(s[i], s[s.len() - 1]));
                }
                assert(!after(s[s.len() - 1], x));
            } else {
                assert(r[i] == s[i] && r[j] == s[j]);
            }
        }
        assert forall|k: int| 0 <= k < r.len() implies (#[trigger] r[k] == x || s.contains(r[k])) by {
            if k < s.len() {
                assert(r[k] == s[k]);
            }
        }
    }
}

/// Sorting stably under a strict weak order gives a sorted permutation.
pub proof fn lemma_stable_sort_sorted<T>(s: Seq<T>, after: spec_fn(T, T) -> bool)
    requires
        strict_weak(after),
    ensures
        sorted_by(stable_sort(s, after), after),
        stable_sort(s, after).to_multiset() =~= s.to_multiset(),
    decreases s.len(),
{
    broadcast use vstd::seq_lib::group_to_multiset_ensures;

    if s.len() > 0 {
        lemma_stable_sort_sorted(s.drop_last(), after);
        lemma_ins_sorted(stable_sort(s.drop_last(), after), s.last(), after);
        assert(s =~= s.drop_last().push(s.last()));
    }
}

/// Numerical comparison is a total preorder: it flips with its arguments and
/// "not above" chains.
pub proof fn lemma_compare_order(a: Dec, b: Dec, c: Dec)
    ensures
        spec_compare(a, b) == -spec_compare(b, a),
        spec_compare(a, b) <= 0 && spec_compare(b, c) <= 0 ==> spec_compare(a, c) <= 0,
        spec_compare(a, b) == 0 && spec_compare(b, c) == 0 ==> spec_compare(a, c) == 0,
        spec_compare(a, b) < 0 && spec_compare(b, c) <= 0 ==> spec_compare(a, c) < 0,
        spec_compare(a, b) <= 0 && spec_compare(b, c) < 0 ==> spec_compare(a, c) < 0,
{
    lemma_pow10_pos(a.s());
    lemma_pow10_pos(b.s());
    lemma_pow10_pos(c.s());
    let pa = pow10(a.s());
    let pb = pow10(b.s());
    let pc = pow10(c.s());
    assert(a.m() * pb <= b.m() * pa && b.m() * pc <= c.m() * pb ==> a.m() * pc <= c.m() * pa) by (nonlinear_arith)
        requires
            pa >= 1,
            pb >= 1,
            pc >= 1,
    {
        if a.m() * pb <= b.m() * pa && b.m() * pc <= c.m() * pb {
            assert(a.m() * pb * pc <= b.m() * pa * pc);
            assert(b.m() * pc * pa <= c.m() * pb * pa);
            assert(a.m() * pc * pb <= c.m() * pa * pb);
        }
    }
    assert(a.m() * pb < b.m() * pa && b.m() * pc <= c.m() * pb ==> a.m() * pc < c.m() * pa) by (nonlinear_arith)
        requires
            pa >= 1,
            pb >= 1,
            pc >= 1,
    {
        if a.m() * pb < b.m() * pa && b.m() * pc <= c.m() * pb {
            assert(a.m() * pb * pc < b.m() * pa * pc);
            assert(b.m() * pc * pa <= c.m() * pb * pa);
            assert(a.m() * pc * pb < c.m() * pa * pb);
        }
    }
    assert(a.m() * pb <= b.m() * pa && b.m() * pc < c.m() * pb ==> a.m() * pc < c.m() * pa) by (nonlinear_arith)
        requires
            pa >= 1,
            pb >= 1,
            pc >= 1,
    {
        if a.m() * pb <= b.m() * pa && b.m() * pc < c.m() * pb {
            assert(a.m() * pb * pc <= b.m() * pa * pc);
            assert(b.m() * pc * pa < c.m() * pb * pa);
            assert(a.m() * pc * pb < c.m() * pa * pb);
        }
    }
    assert(a.m() * pb == b.m() * pa && b.m() * pc == c.m() * pb ==> a.m() * pc == c.m() * pa) by (nonlinear_arith)
        requires
            pa >= 1,
            pb >= 1,
            pc >= 1,
    {
        if a.m() * pb == b.m() * pa && b.m() * pc == c.m() * pb {
            assert(a.m() * pb * pc == b.m() * pa * pc);
            assert(b.m() * pc * pa == c.m() * pb * pa);
            assert(a.m() * pc * pb == c.m() * pa * pb);
        }
    }
}

/// The order of paths by rate: descending, or ascending for inverted rates.
pub open spec fn path_order(asc: bool) -> spec_fn(PathView, PathView) -> bool {
    |a: PathView, b: PathView|
        if asc {
            spec_compare(a.1, b.1) > 0
        } else {
            spec_compare(b.1, a.1) > 0
        }
}

fn path_after(a: &Dec, b: &Dec, asc: bool) -> (r: bool)
    ensures
        r == if asc {
            spec_compare(*a, *b) > 0
        } else {
            spec_compare(*b, *a) > 0
        },
{
    if asc {
        a.compare(b) > 0
    } else {
        b.compare(a) > 0
    }
}

fn ins_path(v: &mut Vec<(Vec<Currency>, Dec)>, x: (Vec<Currency>, Dec), asc: bool)
    ensures
        paths_view(final(v)@) == ins(paths_view(old(v)@), (codes(x.0@), x.1), path_order(asc)),
    decreases old(v)@.len(),
{
    let ghost xv = (codes(x.0@), x.1);
    let ghost ov = paths_view(v@);
    if v.len() == 0 {
        v.push(x);
        assert(paths_view(v@) =~= seq![xv]);
        return;
    }
    let n = v.len();
    let last_after = path_after(&v[n - 1].1, &x.1, asc);
    assert(ov.last() == (codes(v@[n - 1].0@), v@[n - 1].1));
    if last_after {
        let y = v.pop().unwrap();
        assert(paths_view(v@) =~= ov.drop_last());
        ins_path(v, x, asc);
        let ghost mid = paths_view(v@);
        v.push(y);
        assert(paths_view(v@) =~= mid.push(ov.last()));
    } else {
        v.push(x);
        assert(paths_view(v@) =~= ov.push(xv));
    }
}

fn sort_paths(v: &Vec<(Vec<Currency>, Dec)>, asc: bool) -> (r: Vec<(Vec<Currency>, Dec)>)
    ensures
        paths_view(r@) == stable_sort(paths_view(v@), path_order(asc)),
{
    let mut out: Vec<(Vec<Currency>, Dec)> = Vec::new();
    let mut i: usize = 0;
    assert(paths_view(out@) =~= stable_sort(paths_view(v@.subrange(0, 0)), path_order(asc)));
    while i < v.len()
        invariant
            i <= v@.len(),
            paths_view(out@) == stable_sort(paths_view(v@.subrange(0, i as int)), path_order(asc)),
        decreases v@.len() - i,
    {
        let ghost pre = paths_view(v@.subrange(0, i as int));
        let ghost nxt = paths_view(v@.subrange(0, i + 1));
        assert(nxt.drop_last() =~= pre);
        assert(nxt.last() == (codes(v@[i as int].0@), v@[i as int].1));
        let p = copy_path(&v[i].0);
        ins_path(&mut out, (p, v[i].1), asc);
        i = i + 1;
    }
    assert(v@.subrange(0, v@.len() as int) =~= v@);
    out
}


// ---------------------------------------------------------------------------
// Shortest conversions
// ---------------------------------------------------------------------------

/// The first position at or after `k` of a path of `len` currencies.
pub open spec fn pos_from(ps: Seq<PathView>, len: nat, k: nat) -> Option<nat>
    decreases ps.len() - k,
{
    if k >= ps.len() {
        None
    } else if ps[k as int].0.len() == len {
        Some(k)
    } else {
        pos_from(ps, len, k + 1)
    }
}

/// The largest number of currencies of a path.
pub open spec fn max_path_len(ps: Seq<PathView>) -> nat
    decreases ps.len(),
{
    if ps.len() == 0 {
        0
    } else {
        let m = max_path_len(ps.drop_last());
        if ps.last().0.len() > m {
            ps.last().0.len()
        } else {
            m
        }
    }
}

pub open spec fn trim_from(ps: Seq<PathView>, i: nat, maxl: nat) -> Seq<PathView>
    decreases maxl + 1 - i,
{
    if i > maxl {
        ps
    } else {
        match pos_from(ps, i, 0) {
            Some(p) => ps.subrange(0, p + 1 as int),
            None => trim_from(ps, i + 1, maxl),
        }
    }
}

/// The paths up to and including the first of the smallest length of at
/// least two currencies.
pub open spec fn spec_trim_paths(ps: Seq<PathView>) -> Seq<PathView> {
    trim_from(
        ps,
        2,
        if ps.len() == 0 {
            3
        } else {
            max_path_len(ps)
        },
    )
}

proof fn lemma_pos_from_bound(ps: Seq<PathView>, len: nat, k: nat)
    ensures
        pos_from(ps, len, k) matches Some(p) ==> k <= p < ps.len() && ps[p as int].0.len() == len,
    decreases ps.len() - k,
{
    if k < ps.len() && ps[k as int].0.len() != len {
        lemma_pos_from_bound(ps, len, k + 1);
    }
}

fn find_len(ps: &Vec<(Vec<Currency>, Dec)>, len: usize) -> (r: Option<usize>)
    ensures
        r is None <==> pos_from(paths_view(ps@), len as nat, 0) is None,
        r matches Some(i) ==> pos_from(paths_view(ps@), len as nat, 0) == Some(i as nat),
{
    let ghost pv = paths_view(ps@);
    let mut i: usize = 0;
    while i < ps.len()
        invariant
            i <= ps@.len(),
            pv == paths_view(ps@),
            pos_from(pv, len as nat, 0) == pos_from(pv, len as nat, i as nat),
        decreases ps@.len() - i,
    {
        assert(pv[i as int].0 == codes(ps@[i as int].0@));
        if ps[i].0.len() == len {
            return Some(i);
        }
        i = i + 1;
    }
    None
}

fn max_len(ps: &Vec<(Vec<Currency>, Dec)>) -> (r: usize)
    ensures
        r == max_path_len(paths_view(ps@)),
{
    let mut m: usize = 0;
    let mut i: usize = 0;
    while i < ps.len()
        invariant
            i <= ps@.len(),
            m == max_path_len(paths_view(ps@.subrange(0, i as int))),
        decreases ps@.len() - i,
    {
        let ghost sub = paths_view(ps@.subrange(0, i + 1));
        assert(sub.drop_last() =~= paths_view(ps@.subrange(0, i as int)));
        assert(sub.last().0.len() == ps@[i as int].0@.len());
        if ps[i].0.len() > m {
            m = ps[i].0.len();
        }
        i = i + 1;
    }
    assert(ps@.subrange(0, ps@.len() as int) =~= ps@);
    m
}

fn trim_paths(ps: Vec<(Vec<Currency>, Dec)>) -> (r: Vec<(Vec<Currency>, Dec)>)
    ensures
        paths_view(r@) == spec_trim_paths(paths_view(ps@)),
{
    let ghost pv = paths_view(ps@);
    let maxl: usize = if ps.len() == 0 {
        3
    } else {
        max_len(&ps)
    };
    let mut i: usize = 2;
    while i <= maxl
        invariant
            2 <= i,
            pv == paths_view(ps@),
            spec_trim_paths(pv) == trim_from(pv, i as nat, maxl as nat),
        decreases maxl + 1 - i,
    {
        match find_len(&ps, i) {
            Some(pos) => {
                proof {
                    lemma_pos_from_bound(pv, i as nat, 0);
                }
                let mut out: Vec<(Vec<Currency>, Dec)> = Vec::new();
                let mut k: usize = 0;
                while k <= pos
                    invariant
                        k <= pos + 1,
                        pos < ps@.len(),
                        pos < ps.len(),
                        paths_view(out@) == pv.subrange(0, k as int),
                        pv == paths_view(ps@),
                    decreases pos + 1 - k,
                {
                    let ghost before = paths_view(out@);
                    let p = copy_path(&ps[k].0);
                    out.push((p, ps[k].1));
                    assert(pv[k as int] == (codes(ps@[k as int].0@), ps@[k as int].1));
                    assert(paths_view(out@) =~= before.push(pv[k as int]));
                    k = k + 1;
                    assert(paths_view(out@) =~= pv.subrange(0, k as int));
                }
                return out;
            },
            None => {},
        }
        if i == usize::MAX {
            assert(trim_from(pv, (i + 1) as nat, maxl as nat) == pv);
            return ps;
        }
        i = i + 1;
    }
    assert(trim_from(pv, i as nat, maxl as nat) == pv);
    ps
}

// ---------------------------------------------------------------------------
// Rows of the conversion table
// ---------------------------------------------------------------------------

/// A row: source, rate, rate's text, path.
pub type RowView = (Source, Dec, Seq<char>, Seq<Seq<char>>);

struct Row {
    src: Source,
    rate: Dec,
    rate_str: String,
    path: Vec<Currency>,
}

spec fn row_view(r: Row) -> RowView {
    (r.src, r.rate, r.rate_str@, codes(r.path@))
}

spec fn rows_view(rs: Seq<Row>) -> Seq<RowView> {
    rs.map_values(|r: Row| row_view(r))
}

/// Whether some path has the rate zero.
pub open spec fn has_zero_rate(ps: Seq<PathView>) -> bool {
    exists|k: int| 0 <= k < ps.len() && ps[k].1.m() == 0
}

pub open spec fn invert_paths(ps: Seq<PathView>) -> Seq<PathView> {
    ps.map_values(|p: PathView| (p.0, spec_recip(p.1)))
}

/// The rows of one source: its conversion paths, rates inverted for an
/// inverted table (the source is left out where a path has rate zero),
/// sorted best first, cut to the shortest conversions where the source asks
/// for that; `None` where a product of rates overflows.
pub open spec fn spec_source_rows(
    src: Source,
    rs: Seq<Rate>,
    from: Seq<char>,
    to: Seq<char>,
    rt: RateType,
    inv: bool,
    dp: nat,
) -> Option<Seq<RowView>> {
    match spec_find_all_paths(all_edges(rs, rt), from, to) {
        None => None,
        Some(ps) => Some(
            if ps.len() == 0 || (inv && has_zero_rate(ps)) {
                Seq::empty()
            } else {
                let ps1 = if inv {
                    invert_paths(ps)
                } else {
                    ps
                };
                let ps2 = stable_sort(ps1, path_order(inv));
                let ps3 = if spec_is_bank(src) {
                    spec_trim_paths(ps2)
                } else {
                    ps2
                };
                ps3.map_values(|p: PathView| (src, p.1, spec_decimal_to_string(p.1, dp), p.0))
            },
        ),
    }
}

fn source_rows(
    src: Source,
    rs: &Vec<Rate>,
    from: &Currency,
    to: &Currency,
    rt: RateType,
    inv: bool,
    dp: u32,
) -> (r: Option<Vec<Row>>)
    ensures
        r is Some <==> spec_source_rows(src, rs@, from@, to@, rt, inv, dp as nat) is Some,
        r matches Some(v) ==> rows_view(v@) == spec_source_rows(src, rs@, from@, to@, rt, inv, dp as nat)->0,
{
    let graph = build(rs.as_slice(), rt);
    assert(graph@ == all_edges(rs@, rt));
    let paths = match try_find_all_paths(&graph, from, to) {
        Some(p) => p,
        None => {
            return None;
        },
    };
    let ghost ps = paths_view(paths@);
    if paths.len() == 0 {
        let out: Vec<Row> = Vec::new();
        assert(rows_view(out@) =~= Seq::<RowView>::empty());
        return Some(out);
    }
    let mut ps1: Vec<(Vec<Currency>, Dec)> = Vec::new();
    let mut k: usize = 0;
    while k < paths.len()
        invariant
            k <= paths@.len(),
            ps == paths_view(paths@),
            spec_find_all_paths(all_edges(rs@, rt), from@, to@) == Some(ps),
            inv ==> paths_view(ps1@) == invert_paths(ps.subrange(0, k as int)),
            !inv ==> paths_view(ps1@) == ps.subrange(0, k as int),
            inv ==> forall|j: int| 0 <= j < k ==> ps[j].1.m() != 0,
        decreases paths@.len() - k,
    {
        let rate = paths[k].1;
        let p = copy_path(&paths[k].0);
        assert(ps[k as int] == (codes(paths@[k as int].0@), rate));
        if inv {
            if rate.is_zero() {
                let out: Vec<Row> = Vec::new();
                assert(ps[k as int].1.m() == 0);
                assert(has_zero_rate(ps));
                assert(rows_view(out@) =~= Seq::<RowView>::empty());
                return Some(out);
            }
            let r = rate.recip();
            let ghost before = paths_view(ps1@);
            ps1.push((p, r));
            assert(r == spec_recip(ps[k as int].1));
            assert(paths_view(ps1@) =~= before.push((ps[k as int].0, r)));
            assert(ps.subrange(0, k + 1) =~= ps.subrange(0, k as int).push(ps[k as int]));
            assert(invert_paths(ps.subrange(0, k + 1)) =~= invert_paths(ps.subrange(0, k as int)).push((ps[k as int].0, spec_recip(ps[k as int].1))));
            assert(paths_view(ps1@) =~= invert_paths(ps.subrange(0, k + 1)));
        } else {
            let ghost before = paths_view(ps1@);
            ps1.push((p, rate));
            assert(paths_view(ps1@) =~= before.push(ps[k as int]));
            assert(paths_view(ps1@) =~= ps.subrange(0, k + 1));
        }
        k = k + 1;
    }
    assert(ps.subrange(0, ps.len() as int) =~= ps);
    assert(inv ==> !has_zero_rate(ps));
    let ps2 = sort_paths(&ps1, inv);
    let ps3 = if src.is_remove_extra_conv() {
        trim_paths(ps2)
    } else {
        ps2
    };
    let ghost p3 = paths_view(ps3@);
    let mut out: Vec<Row> = Vec::new();
    let mut i: usize = 0;
    while i < ps3.len()
        invariant
            i <= ps3@.len(),
            p3 == paths_view(ps3@),
            rows_view(out@) == p3.subrange(0, i as int).map_values(
                |p: PathView| (src, p.1, spec_decimal_to_string(p.1, dp as nat), p.0),
            ),
        decreases ps3@.len() - i,
    {
        let ghost before = rows_view(out@);
        let rate = ps3[i].1;
        let rate_str = decimal_to_string(rate, dp);
        let path = copy_path(&ps3[i].0);
        let row = Row { src, rate, rate_str, path };
        assert(p3[i as int] == (codes(ps3@[i as int].0@), rate));
        assert(row_view(row) == (src, p3[i as int].1, spec_decimal_to_string(p3[i as int].1, dp as nat), p3[i as int].0));
        out.push(row);
        assert(rows_view(out@) =~= before.push(row_view(row)));
        assert(p3.subrange(0, i + 1) =~= p3.subrange(0, i as int).push(p3[i as int]));
        i = i + 1;
        assert(rows_view(out@) =~= p3.subrange(0, i as int).map_values(
            |p: PathView| (src, p.1, spec_decimal_to_string(p.1, dp as nat), p.0),
        ));
    }
    assert(p3.subrange(0, p3.len() as int) =~= p3);
    Some(out)
}

/// The rows of the sources in the first `n` slots, in slot order; `None`
/// where a product of rates overflows.
pub open spec fn spec_rows_upto(
    sr: Seq<Option<Seq<Rate>>>,
    n: nat,
    from: Seq<char>,
    to: Seq<char>,
    rt: RateType,
    inv: bool,
    dp: nat,
) -> Option<Seq<RowView>>
    decreases n,
{
    if n == 0 {
        Some(Seq::empty())
    } else {
        match spec_rows_upto(sr, (n - 1) as nat, from, to, rt, inv, dp) {
            None => None,
            Some(acc) => match sr[n - 1] {
                None => Some(acc),
                Some(rs) => match spec_source_rows(spec_all_sources()[n - 1], rs, from, to, rt, inv, dp) {
                    None => None,
                    Some(r) => Some(acc + r),
                },
            },
        }
    }
}

/// The number of slots read: at most one per source.
pub open spec fn slots_len(sr: Seq<Option<Seq<Rate>>>) -> nat {
    if sr.len() < Source::COUNT {
        sr.len()
    } else {
        Source::COUNT as nat
    }
}

/// The order of rows: by rate (descending, ascending for inverted rates),
/// then by source.
pub open spec fn row_order(asc: bool) -> spec_fn(RowView, RowView) -> bool {
    |a: RowView, b: RowView|
        {
            let c = if asc {
                spec_compare(a.1, b.1)
            } else {
                spec_compare(b.1, a.1)
            };
            c > 0 || (c == 0 && a.0.spec_index() > b.0.spec_index())
        }
}

/// The rows of a conversion table come best first: by rate, descending, or
/// ascending for an inverted table, rows of equal rate in the order of their
/// sources; sorting keeps every row.
pub proof fn lemma_rows_sorted(rows: Seq<RowView>, inv: bool)
    ensures
        sorted_by(stable_sort(rows, row_order(inv)), row_order(inv)),
        stable_sort(rows, row_order(inv)).to_multiset() =~= rows.to_multiset(),
{
    let after = row_order(inv);
    assert forall|a: RowView, b: RowView| #[trigger] after(a, b) implies !after(b, a) by {
        lemma_compare_order(a.1, b.1, b.1);
    }
    assert forall|a: RowView, b: RowView, c: RowView| #![trigger after(a, b), after(b, c)] !after(a, b) && !after(b, c) implies !after(a, c) by {
        lemma_compare_order(a.1, b.1, c.1);
        lemma_compare_order(c.1, b.1, a.1);
        lemma_compare_order(b.1, a.1, c.1);
        lemma_compare_order(a.1, c.1, b.1);
    }
    lemma_stable_sort_sorted(rows, after);
}

/// The conversion paths of a source come best first: by rate, descending, or
/// ascending for inverted rates; sorting keeps every path.
pub proof fn lemma_paths_sorted(ps: Seq<PathView>, asc: bool)
    ensures
        sorted_by(stable_sort(ps, path_order(asc)), path_order(asc)),
        stable_sort(ps, path_order(asc)).to_multiset() =~= ps.to_multiset(),
{
    let after = path_order(asc);
    assert forall|a: PathView, b: PathView| #[trigger] after(a, b) implies !after(b, a) by {
        lemma_compare_order(a.1, b.1, b.1);
    }
    assert forall|a: PathView, b: PathView, c: PathView| #![trigger after(a, b), after(b, c)] !after(a, b) && !after(b, c) implies !after(a, c) by {
        lemma_compare_order(a.1, b.1, c.1);
        lemma_compare_order(c.1, b.1, a.1);
    }
    lemma_stable_sort_sorted(ps, after);
}

/// The rate of the first row of a bank, zero where there is none.
pub open spec fn best_from(rows: Seq<RowView>, k: nat) -> Dec
    decreases rows.len() - k,
{
    if k >= rows.len() {
        Dec::spec_new(0, 0)
    } else if spec_is_bank(rows[k as int].0) {
        rows[k as int].1
    } else {
        best_from(rows, k + 1)
    }
}

/// Whether the first rate that differs from `r0` is below it.
pub open spec fn desc_from(rows: Seq<RowView>, r0: Dec, k: nat) -> bool
    decreases rows.len() - k,
{
    if k >= rows.len() {
        false
    } else {
        let c = spec_compare(r0, rows[k as int].1);
        if c < 0 {
            false
        } else if c > 0 {
            true
        } else {
            desc_from(rows, r0, k + 1)
        }
    }
}

pub open spec fn spec_is_desc(rows: Seq<RowView>) -> bool {
    rows.len() > 0 && desc_from(rows, rows[0].1, 1)
}

/// `(best - rate) / rate * 100`, `None` where it overflows.
pub open spec fn spec_diff(best: Dec, rate: Dec) -> Option<Dec> {
    match spec_checked_sub(best, rate) {
        None => None,
        Some(a) => match spec_checked_div(a, rate) {
            None => None,
            Some(q) => spec_checked_mul(q, Dec::spec_new(100, 0)),
        },
    }
}

/// The text of a row's difference from the best rate in percent, negated
/// where the table descends; empty for a zero rate.
pub open spec fn spec_diff_str(rate: Dec, best: Dec, desc: bool, dp: nat) -> Option<Seq<char>> {
    if rate.m() == 0 {
        Some(Seq::empty())
    } else {
        match spec_diff(best, rate) {
            None => None,
            Some(d) => Some(
                spec_decimal_to_string(
                    if desc && d.m() != 0 {
                        Dec::spec_new(-d.m(), d.s())
                    } else {
                        d
                    },
                    dp,
                ),
            ),
        }
    }
}

/// The difference texts of the first `n` rows.
pub open spec fn diffs_upto(rows: Seq<RowView>, n: nat, best: Dec, desc: bool, dp: nat) -> Option<
    Seq<Seq<char>>,
>
    decreases n,
{
    if n == 0 {
        Some(Seq::empty())
    } else {
        match diffs_upto(rows, (n - 1) as nat, best, desc, dp) {
            None => None,
            Some(acc) => match spec_diff_str(rows[n - 1].1, best, desc, dp) {
                None => None,
                Some(d) => Some(acc.push(d)),
            },
        }
    }
}

/// One line of the conversion table.
pub open spec fn conv_line(row: RowView, diff: Seq<char>, sw: nat, rw: nat, dw: nat) -> Seq<char> {
    row.0.spec_prefix() + " "@ + pad_right(row.0.spec_name(), sw) + " | "@ + pad_right(row.2, rw)
        + " | "@ + pad_left(diff, dw) + " | "@ + join_codes(row.3) + "\n"@
}

pub open spec fn conv_lines(rows: Seq<RowView>, diffs: Seq<Seq<char>>, sw: nat, rw: nat, dw: nat) -> Seq<char>
    decreases rows.len(),
{
    if rows.len() == 0 {
        Seq::empty()
    } else {
        conv_lines(rows.drop_last(), diffs, sw, rw, dw) + conv_line(rows.last(), diffs[rows.len() - 1], sw, rw, dw)
    }
}

/// The conversion table from `from` to `to` across all sources: one line per
/// conversion path, best rate first, with the difference from the best rate
/// of a local bank in percent; empty where a currency is not named; `None`
/// where a computation overflows.
pub open spec fn spec_conv_table(
    from: Seq<char>,
    to: Seq<char>,
    sr: Seq<Option<Seq<Rate>>>,
    rt: RateType,
    inv: bool,
    cfg: config::Gen,
) -> Option<Seq<char>> {
    if from.len() == 0 || to.len() == 0 {
        Some(Seq::empty())
    } else {
        match spec_rows_upto(sr, slots_len(sr), from, to, rt, inv, cfg.rate_dp as nat) {
            None => None,
            Some(rows0) => {
                let rows = stable_sort(rows0, row_order(inv));
                let best = best_from(rows, 0);
                let desc = spec_is_desc(rows);
                match diffs_upto(rows, rows.len(), best, desc, cfg.diff_dp as nat) {
                    None => None,
                    Some(diffs) => {
                        let sw = max_width(rows.map_values(|r: RowView| r.0.spec_name()));
                        let rw = max_width(rows.map_values(|r: RowView| r.2));
                        let dw = max_width(diffs);
                        Some(conv_lines(rows, diffs, sw, rw, dw))
                    },
                }
            },
        }
    }
}

fn row_after(a: &Row, b: &Row, asc: bool) -> (r: bool)
    ensures
        r == (row_order(asc))(row_view(*a), row_view(*b)),
{
    let c = if asc {
        a.rate.compare(&b.rate)
    } else {
        b.rate.compare(&a.rate)
    };
    c > 0 || (c == 0 && a.src.index() > b.src.index())
}

fn ins_row(v: &mut Vec<Row>, x: Row, asc: bool)
    ensures
        rows_view(final(v)@) == ins(rows_view(old(v)@), row_view(x), row_order(asc)),
    decreases old(v)@.len(),
{
    let ghost xv = row_view(x);
    let ghost ov = rows_view(v@);
    if v.len() == 0 {
        v.push(x);
        assert(rows_view(v@) =~= seq![xv]);
        return;
    }
    let n = v.len();
    let last_after = row_after(&v[n - 1], &x, asc);
    assert(ov.last() == row_view(v@[n - 1]));
    if last_after {
        let y = v.pop().unwrap();
        assert(rows_view(v@) =~= ov.drop_last());
        ins_row(v, x, asc);
        let ghost mid = rows_view(v@);
        v.push(y);
        assert(rows_view(v@) =~= mid.push(ov.last()));
    } else {
        v.push(x);
        assert(rows_view(v@) =~= ov.push(xv));
    }
}

fn clone_row(r: &Row) -> (c: Row)
    ensures
        row_view(c) == row_view(*r),
{
    Row { src: r.src, rate: r.rate, rate_str: r.rate_str.clone(), path: copy_path(&r.path) }
}

fn sort_rows(v: &Vec<Row>, asc: bool) -> (r: Vec<Row>)
    ensures
        rows_view(r@) == stable_sort(rows_view(v@), row_order(asc)),
{
    let ghost vv = rows_view(v@);
    let mut out: Vec<Row> = Vec::new();
    let mut i: usize = 0;
    assert(rows_view(out@) =~= stable_sort(vv.subrange(0, 0), row_order(asc)));
    while i < v.len()
        invariant
            i <= v@.len(),
            vv == rows_view(v@),
            rows_view(out@) == stable_sort(vv.subrange(0, i as int), row_order(asc)),
        decreases v@.len() - i,
    {
        assert(vv.subrange(0, i + 1).drop_last() =~= vv.subrange(0, i as int));
        assert(vv.subrange(0, i + 1).last() == row_view(v@[i as int]));
        let x = clone_row(&v[i]);
        ins_row(&mut out, x, asc);
        i = i + 1;
    }
    assert(vv.subrange(0, vv.len() as int) =~= vv);
    out
}

proof fn lemma_diffs_len(rows: Seq<RowView>, n: nat, best: Dec, desc: bool, dp: nat)
    ensures
        diffs_upto(rows, n, best, desc, dp) matches Some(d) ==> d.len() == n,
    decreases n,
{
    if n > 0 {
        lemma_diffs_len(rows, (n - 1) as nat, best, desc, dp);
    }
}

fn collect_rows(
    from: &Currency,
    to: &Currency,
    rates: &SourceRates,
    rate_type: RateType,
    inv: bool,
    dp: u32,
) -> (r: Option<Vec<Row>>)
    ensures
        r is Some <==> spec_rows_upto(rates@, slots_len(rates@), from@, to@, rate_type, inv, dp as nat) is Some,
        r matches Some(t) ==> rows_view(t@) == spec_rows_upto(rates@, slots_len(rates@), from@, to@, rate_type, inv, dp as nat)->0,
{
    let ghost sr = rates@;
    let all = Source::iter();
    let n = if rates.slot_count() < all.len() {
        rates.slot_count()
    } else {
        all.len()
    };
    let mut table: Vec<Row> = Vec::new();
    let mut i: usize = 0;
    assert(rows_view(table@) =~= Seq::<RowView>::empty());
    while i < n
        invariant
            i <= n,
            n == slots_len(sr),
            n <= all@.len(),
            sr == rates@,
            all@ == spec_all_sources(),
            spec_rows_upto(sr, i as nat, from@, to@, rate_type, inv, dp as nat) == Some(rows_view(table@)),
        decreases n - i,
    {
        let ghost before = rows_view(table@);
        match rates.get_at(i) {
            None => {},
            Some(rs) => {
                let src = all[i];
                match source_rows(src, rs, from, to, rate_type, inv, dp) {
                    None => {
                        assert(spec_rows_upto(sr, (i + 1) as nat, from@, to@, rate_type, inv, dp as nat) is None);
                        proof {
                            lemma_rows_upto_none(sr, (i + 1) as nat, n as nat, from@, to@, rate_type, inv, dp as nat);
                        }
                        return None;
                    },
                    Some(mut rows) => {
                        let ghost rv = rows_view(rows@);
                        table.append(&mut rows);
                        assert(rows_view(table@) =~= before + rv);
                    },
                }
            },
        }
        i = i + 1;
    }
    Some(table)
}

fn best_rate(table: &Vec<Row>) -> (best: Dec)
    ensures
        best == best_from(rows_view(table@), 0),
{
    let ghost rows = rows_view(table@);
    let mut best = Dec::zero();
    let mut k: usize = table.len();
    proof {
        crate::decimal::lemma_spec_new(0, 0);
        crate::decimal::lemma_parts_eq(best, Dec::spec_new(0, 0));
    }
    assert(best_from(rows, k as nat) == Dec::spec_new(0, 0));
    while k > 0
        invariant
            k <= rows.len(),
            rows == rows_view(table@),
            best == best_from(rows, k as nat),
        decreases k,
    {
        k = k - 1;
        if table[k].src.is_remove_extra_conv() {
            best = table[k].rate;
        }
    }
    best
}

fn is_desc(table: &Vec<Row>) -> (desc: bool)
    ensures
        desc == spec_is_desc(rows_view(table@)),
{
    let ghost rows = rows_view(table@);
    let mut desc = false;
    if table.len() > 0 {
        let r0 = table[0].rate;
        let mut j: usize = table.len();
        assert(desc_from(rows, r0, j as nat) == false);
        while j > 1
            invariant
                1 <= j <= rows.len(),
                rows == rows_view(table@),
                r0 == rows[0].1,
                desc == desc_from(rows, r0, j as nat),
            decreases j,
        {
            j = j - 1;
            let c = r0.compare(&table[j].rate);
            if c < 0 {
                desc = false;
            } else if c > 0 {
                desc = true;
            }
        }
    }
    desc
}

fn diff_strings(table: &Vec<Row>, best: Dec, desc: bool, dp: u32) -> (r: Option<Vec<String>>)
    ensures
        r is Some <==> diffs_upto(rows_view(table@), rows_view(table@).len(), best, desc, dp as nat) is Some,
        r matches Some(d) ==> d@.map_values(|s: String| s@) == diffs_upto(
            rows_view(table@),
            rows_view(table@).len(),
            best,
            desc,
            dp as nat,
        )->0,
{
    let ghost rows = rows_view(table@);
    let mut diffs: Vec<String> = Vec::new();
    let hundred = Dec::new(100, 0);
    let mut k: usize = 0;
    assert(diffs@.map_values(|s: String| s@) =~= Seq::<Seq<char>>::empty());
    while k < table.len()
        invariant
            k <= rows.len(),
            rows == rows_view(table@),
            hundred == Dec::spec_new(100, 0),
            diffs_upto(rows, k as nat, best, desc, dp as nat) == Some(diffs@.map_values(|s: String| s@)),
        decreases rows.len() - k,
    {
        let ghost before = diffs@.map_values(|s: String| s@);
        let rate = table[k].rate;
        if rate.is_zero() {
            diffs.push(String::new());
        } else {
            let d = match best.checked_sub(&rate) {
                None => None,
                Some(a) => match a.checked_div(&rate) {
                    None => None,
                    Some(q) => q.checked_mul(&hundred),
                },
            };
            match d {
                None => {
                    proof {
                        lemma_diffs_none(rows, (k + 1) as nat, rows.len(), best, desc, dp as nat);
                    }
                    return None;
                },
                Some(d) => {
                    let d2 = if desc && !d.is_zero() {
                        let x = d.neg();
                        let _ = d.parts_in_range();
                        proof {
                            crate::decimal::lemma_spec_new(-d.m(), d.s());
                            crate::decimal::lemma_parts_eq(x, Dec::spec_new(-d.m(), d.s()));
                        }
                        x
                    } else {
                        d
                    };
                    diffs.push(decimal_to_string(d2, dp));
                },
            }
        }
        k = k + 1;
        assert(diffs@.map_values(|s: String| s@) =~= before.push(diffs@.last()@));
    }
    Some(diffs)
}

fn push_line(s: &mut String, row: &Row, diff: &String, sw: usize, rw: usize, dw: usize)
    ensures
        final(s)@ == old(s)@ + conv_line(row_view(*row), diff@, sw as nat, rw as nat, dw as nat),
{
    push_str(s, row.src.prefix());
    push_str(s, " ");
    push_pad_right(s, row.src.name(), sw);
    push_str(s, " | ");
    push_pad_right(s, row.rate_str.as_str(), rw);
    push_str(s, " | ");
    push_pad_left(s, diff.as_str(), dw);
    push_str(s, " | ");
    push_joined(s, &row.path);
    push_str(s, "\n");
    assert(final(s)@ =~= old(s)@ + conv_line(row_view(*row), diff@, sw as nat, rw as nat, dw as nat));
}

fn render(table: &Vec<Row>, diffs: &Vec<String>) -> (s: String)
    requires
        diffs@.len() == table@.len(),
    ensures
        s@ == conv_lines(
            rows_view(table@),
            diffs@.map_values(|s: String| s@),
            max_width(rows_view(table@).map_values(|r: RowView| r.0.spec_name())),
            max_width(rows_view(table@).map_values(|r: RowView| r.2)),
            max_width(diffs@.map_values(|s: String| s@)),
        ),
{
    let ghost rows = rows_view(table@);
    let ghost dv = diffs@.map_values(|s: String| s@);
    let mut sw: usize = 0;
    let mut rw: usize = 0;
    let mut dw: usize = 0;
    let mut k: usize = 0;
    while k < table.len()
        invariant
            k <= rows.len(),
            rows == rows_view(table@),
            dv == diffs@.map_values(|s: String| s@),
            dv.len() == rows.len(),
            sw == max_width(rows.subrange(0, k as int).map_values(|r: RowView| r.0.spec_name())),
            rw == max_width(rows.subrange(0, k as int).map_values(|r: RowView| r.2)),
            dw == max_width(dv.subrange(0, k as int)),
        decreases rows.len() - k,
    {
        assert(rows.subrange(0, k + 1).map_values(|r: RowView| r.0.spec_name()).drop_last() =~= rows.subrange(0, k as int).map_values(|r: RowView| r.0.spec_name()));
        assert(rows.subrange(0, k + 1).map_values(|r: RowView| r.2).drop_last() =~= rows.subrange(0, k as int).map_values(|r: RowView| r.2));
        assert(dv.subrange(0, k + 1).drop_last() =~= dv.subrange(0, k as int));
        let a = table[k].src.name().unicode_len();
        if a > sw {
            sw = a;
        }
        let b = table[k].rate_str.as_str().unicode_len();
        if b > rw {
            rw = b;
        }
        let c = diffs[k].as_str().unicode_len();
        if c > dw {
            dw = c;
        }
        k = k + 1;
    }
    assert(rows.subrange(0, rows.len() as int) =~= rows);
    assert(dv.subrange(0, dv.len() as int) =~= dv);
    let mut s = String::new();
    let mut k: usize = 0;
    assert(s@ =~= conv_lines(rows.subrange(0, 0), dv, sw as nat, rw as nat, dw as nat));
    while k < table.len()
        invariant
            k <= rows.len(),
            rows == rows_view(table@),
            dv == diffs@.map_values(|s: String| s@),
            dv.len() == rows.len(),
            s@ == conv_lines(rows.subrange(0, k as int), dv, sw as nat, rw as nat, dw as nat),
        decreases rows.len() - k,
    {
        let ghost before = s@;
        push_line(&mut s, &table[k], &diffs[k], sw, rw, dw);
        assert(rows.subrange(0, k + 1).drop_last() =~= rows.subrange(0, k as int));
        assert(rows[k as int] == row_view(table@[k as int]));
        assert(dv[k as int] == diffs@[k as int]@);
        k = k + 1;
    }
    assert(rows.subrange(0, rows.len() as int) =~= rows);
    s
}

/// The conversion table, `None` where a computation overflows.
pub fn try_conv_table(
    from: Currency,
    to: Currency,
    rates: &SourceRates,
    rate_type: RateType,
    inv: bool,
    cfg: &config::Gen,
) -> (r: Option<String>)
    ensures
        r is Some <==> spec_conv_table(from@, to@, rates@, rate_type, inv, *cfg) is Some,
        r matches Some(t) ==> t@ == spec_conv_table(from@, to@, rates@, rate_type, inv, *cfg)->0,
{
    if from.is_empty() || to.is_empty() {
        return Some(String::new());
    }
    let table = match collect_rows(&from, &to, rates, rate_type, inv, cfg.rate_dp) {
        Some(t) => t,
        None => {
            return None;
        },
    };
    let table = sort_rows(&table, inv);
    let best = best_rate(&table);
    let desc = is_desc(&table);
    let diffs = match diff_strings(&table, best, desc, cfg.diff_dp) {
        Some(d) => d,
        None => {
            return None;
        },
    };
    proof {
        lemma_diffs_len(rows_view(table@), rows_view(table@).len(), best, desc, cfg.diff_dp as nat);
    }
    Some(render(&table, &diffs))
}

proof fn lemma_rows_upto_none(
    sr: Seq<Option<Seq<Rate>>>,
    a: nat,
    b: nat,
    from: Seq<char>,
    to: Seq<char>,
    rt: RateType,
    inv: bool,
    dp: nat,
)
    requires
        a <= b,
        spec_rows_upto(sr, a, from, to, rt, inv, dp) is None,
    ensures
        spec_rows_upto(sr, b, from, to, rt, inv, dp) is None,
    decreases b - a,
{
    if a < b {
        lemma_rows_upto_none(sr, a, (b - 1) as nat, from, to, rt, inv, dp);
    }
}

proof fn lemma_diffs_none(rows: Seq<RowView>, a: nat, b: nat, best: Dec, desc: bool, dp: nat)
    requires
        a <= b,
        diffs_upto(rows, a, best, desc, dp) is None,
    ensures
        diffs_upto(rows, b, best, desc, dp) is None,
    decreases b - a,
{
    if a < b {
        lemma_diffs_none(rows, a, (b - 1) as nat, best, desc, dp);
    }
}

/// The conversion table from `from` to `to` across all sources: for each
/// source, the conversion paths through its rates (only the shortest for
/// local banks and `AlfaBy`), best rate first, each line with the source's
/// mark and name, the rate, its difference in percent from the best rate of a
/// local bank, and the path. Inverted tables give `1 / rate` and sort
/// ascending.
pub fn conv_table(
    from: Currency,
    to: Currency,
    rates: &SourceRates,
    rate_type: RateType,
    inv: bool,
    cfg: &config::Gen,
) -> (r: String)
    requires
        spec_conv_table(from@, to@, rates@, rate_type, inv, *cfg) is Some,
    ensures
        r@ == spec_conv_table(from@, to@, rates@, rate_type, inv, *cfg)->0,
{
    try_conv_table(from, to, rates, rate_type, inv, cfg).unwrap()
}

// ---------------------------------------------------------------------------
// Rates of one source
// ---------------------------------------------------------------------------

/// The text of an optional rate: the rounded decimal, or "-".
pub open spec fn opt_text(o: Option<Dec>, dp: nat) -> Seq<char> {
    match o {
        Some(d) => spec_decimal_to_string(d, dp),
        None => "-"@,
    }
}

/// A row of a source's table: buying text, selling text, currencies.
pub type SrcRowView = (Seq<char>, Seq<char>, Seq<char>, Seq<char>);

pub open spec fn src_row(r: Rate, dp: nat) -> SrcRowView {
    (opt_text(r.buy, dp), opt_text(r.sell, dp), r.from@, r.to@)
}

pub open spec fn src_line(r: SrcRowView, bw: nat, sw: nat) -> Seq<char> {
    pad_right(r.0, bw) + " | "@ + pad_right(r.1, sw) + " | "@ + r.2 + "/"@ + r.3 + "\n"@
}

pub open spec fn src_lines(rows: Seq<SrcRowView>, bw: nat, sw: nat) -> Seq<char>
    decreases rows.len(),
{
    if rows.len() == 0 {
        Seq::empty()
    } else {
        src_lines(rows.drop_last(), bw, sw) + src_line(rows.last(), bw, sw)
    }
}

/// The rows of a source's rates of one type.
pub open spec fn src_rows(rs: Seq<Rate>, t: RateType, dp: nat) -> Seq<SrcRowView> {
    rs.filter(|r: Rate| r.rate_type == t).map_values(|r: Rate| src_row(r, dp))
}

/// The table of a source's rates of the asked type (the central bank's own
/// rates for the central bank): one line per rate, buying and selling rates
/// left-aligned in columns, then the currencies; empty where the source has
/// no rates.
pub open spec fn spec_src_table(src: Source, sr: Seq<Option<Seq<Rate>>>, rt: RateType, cfg: config::Gen) -> Seq<char> {
    let slot = if src.spec_index() < sr.len() {
        sr[src.spec_index() as int]
    } else {
        None
    };
    match slot {
        None => Seq::empty(),
        Some(rs) => {
            let t = if src == Source::Cb {
                RateType::Cb
            } else {
                rt
            };
            let rows = src_rows(rs, t, cfg.rate_dp as nat);
            src_lines(
                rows,
                max_width(rows.map_values(|r: SrcRowView| r.0)),
                max_width(rows.map_values(|r: SrcRowView| r.1)),
            )
        },
    }
}

fn opt_to_string(o: Option<Dec>, dp: u32) -> (r: String)
    ensures
        r@ == opt_text(o, dp as nat),
{
    match o {
        Some(d) => decimal_to_string(d, dp),
        None => crate::text::to_owned("-"),
    }
}

struct SrcRow {
    buy: String,
    sell: String,
    from: Currency,
    to: Currency,
}

spec fn src_row_view(r: SrcRow) -> SrcRowView {
    (r.buy@, r.sell@, r.from@, r.to@)
}

spec fn src_rows_view(rs: Seq<SrcRow>) -> Seq<SrcRowView> {
    rs.map_values(|r: SrcRow| src_row_view(r))
}

fn push_src_line(s: &mut String, row: &SrcRow, bw: usize, sw: usize)
    ensures
        final(s)@ == old(s)@ + src_line(src_row_view(*row), bw as nat, sw as nat),
{
    push_pad_right(s, row.buy.as_str(), bw);
    push_str(s, " | ");
    push_pad_right(s, row.sell.as_str(), sw);
    push_str(s, " | ");
    push_str(s, row.from.0.as_str());
    push_str(s, "/");
    push_str(s, row.to.0.as_str());
    push_str(s, "\n");
    assert(final(s)@ =~= old(s)@ + src_line(src_row_view(*row), bw as nat, sw as nat));
}

fn render_src(table: &Vec<SrcRow>) -> (s: String)
    ensures
        s@ == src_lines(
            src_rows_view(table@),
            max_width(src_rows_view(table@).map_values(|r: SrcRowView| r.0)),
            max_width(src_rows_view(table@).map_values(|r: SrcRowView| r.1)),
        ),
{
    let ghost rows = src_rows_view(table@);
    let mut bw: usize = 0;
    let mut sw: usize = 0;
    let mut k: usize = 0;
    while k < table.len()
        invariant
            k <= rows.len(),
            rows == src_rows_view(table@),
            bw == max_width(rows.subrange(0, k as int).map_values(|r: SrcRowView| r.0)),
            sw == max_width(rows.subrange(0, k as int).map_values(|r: SrcRowView| r.1)),
        decreases rows.len() - k,
    {
        assert(rows.subrange(0, k + 1).map_values(|r: SrcRowView| r.0).drop_last() =~= rows.subrange(0, k as int).map_values(|r: SrcRowView| r.0));
        assert(rows.subrange(0, k + 1).map_values(|r: SrcRowView| r.1).drop_last() =~= rows.subrange(0, k as int).map_values(|r: SrcRowView| r.1));
        let a = table[k].buy.as_str().unicode_len();
        if a > bw {
            bw = a;
        }
        let b = table[k].sell.as_str().unicode_len();
        if b > sw {
            sw = b;
        }
        k = k + 1;
    }
    assert(rows.subrange(0, rows.len() as int) =~= rows);
    let mut s = String::new();
    let mut k: usize = 0;
    assert(s@ =~= src_lines(rows.subrange(0, 0), bw as nat, sw as nat));
    while k < table.len()
        invariant
            k <= rows.len(),
            rows == src_rows_view(table@),
            s@ == src_lines(rows.subrange(0, k as int), bw as nat, sw as nat),
        decreases rows.len() - k,
    {
        push_src_line(&mut s, &table[k], bw, sw);
        assert(rows.subrange(0, k + 1).drop_last() =~= rows.subrange(0, k as int));
        assert(rows[k as int] == src_row_view(table@[k as int]));
        k = k + 1;
    }
    assert(rows.subrange(0, rows.len() as int) =~= rows);
    s
}

/// The table of the rates of one source.
pub fn src_table(src: Source, rates: &SourceRates, rate_type: RateType, cfg: &config::Gen) -> (r: String)
    ensures
        r@ == spec_src_table(src, rates@, rate_type, *cfg),
{
    let rs = match rates.get(src) {
        Some(rs) => rs,
        None => {
            return String::new();
        },
    };
    let t = if src == Source::Cb {
        RateType::Cb
    } else {
        rate_type
    };
    let ghost want = rs@.filter(|r: Rate| r.rate_type == t);
    let mut table: Vec<SrcRow> = Vec::new();
    let mut i: usize = 0;
    while i < rs.len()
        invariant
            i <= rs@.len(),
            src_rows_view(table@) == rs@.subrange(0, i as int).filter(|r: Rate| r.rate_type == t).map_values(
                |r: Rate| src_row(r, cfg.rate_dp as nat),
            ),
        decreases rs@.len() - i,
    {
        let ghost before = src_rows_view(table@);
        assert(rs@.subrange(0, i + 1).drop_last() =~= rs@.subrange(0, i as int));
        reveal_with_fuel(Seq::filter, 1);
        let rate = &rs[i];
        if rate.rate_type == t {
            let row = SrcRow {
                buy: opt_to_string(rate.buy, cfg.rate_dp),
                sell: opt_to_string(rate.sell, cfg.rate_dp),
                from: rate.from.clone(),
                to: rate.to.clone(),
            };
            table.push(row);
            assert(src_rows_view(table@) =~= before.push(src_row(*rate, cfg.rate_dp as nat)));
        }
        i = i + 1;
    }
    assert(rs@.subrange(0, rs@.len() as int) =~= rs@);
    render_src(&table)
}

proof fn lemma_best_from(rows: Seq<RowView>, k: nat, b: int)
    requires
        k <= b < rows.len(),
        spec_is_bank(rows[b].0),
        forall|j: int| k <= j < b ==> !spec_is_bank(#[trigger] rows[j].0),
    ensures
        best_from(rows, k) == rows[b].1,
    decreases b - k,
{
    if k < b {
        lemma_best_from(rows, k + 1, b);
    }
}

proof fn lemma_best_from_none(rows: Seq<RowView>, k: nat)
    requires
        forall|j: int| k <= j < rows.len() ==> !spec_is_bank(#[trigger] rows[j].0),
    ensures
        best_from(rows, k) == Dec::spec_new(0, 0),
    decreases rows.len() - k,
{
    if k < rows.len() {
        lemma_best_from_none(rows, k + 1);
    }
}

/// The rate the differences of a conversion table are measured from is the
/// rate of its first row from a bank (a local bank or Alfa-Bank): rows of
/// the central bank, the exchange, card systems and transfer services before
/// it never give it, and where no row is from a bank it is zero.
pub proof fn lemma_best_is_first_bank(rows: Seq<RowView>)
    ensures
        forall|b: int|
            0 <= b < rows.len() && spec_is_bank(#[trigger] rows[b].0) && (forall|j: int|
                0 <= j < b ==> !spec_is_bank(#[trigger] rows[j].0)) ==> best_from(rows, 0) == rows[b].1,
        (forall|j: int| 0 <= j < rows.len() ==> !spec_is_bank(#[trigger] rows[j].0)) ==> best_from(rows, 0)
            == Dec::spec_new(0, 0),
        forall|s: Source|
            #![trigger spec_is_bank(s)]
            (s == Source::Cb || s == Source::MoEx || s == Source::IdPay || s == Source::Mir || s == Source::SAS || s
                == Source::Avosend || s == Source::Unistream) <==> !spec_is_bank(s),
{
    assert forall|b: int|
        0 <= b < rows.len() && spec_is_bank(#[trigger] rows[b].0) && (forall|j: int|
            0 <= j < b ==> !spec_is_bank(#[trigger] rows[j].0)) implies best_from(rows, 0) == rows[b].1 by {
        lemma_best_from(rows, 0, b);
    }
    if forall|j: int| 0 <= j < rows.len() ==> !spec_is_bank(#[trigger] rows[j].0) {
        lemma_best_from_none(rows, 0);
    }
}

proof fn lemma_filter_nonempty(rs: Seq<Rate>, t: RateType, k: int)
    requires
        0 <= k < rs.len(),
        rs[k].rate_type == t,
    ensures
        rs.filter(|r: Rate| r.rate_type == t).len() > 0,
    decreases rs.len(),
{
    reveal_with_fuel(Seq::filter, 1);
    if k < rs.len() - 1 {
        assert(rs.drop_last()[k] == rs[k]);
        lemma_filter_nonempty(rs.drop_last(), t, k);
    }
}

proof fn lemma_src_lines_nonempty(rows: Seq<SrcRowView>, bw: nat, sw: nat)
    requires
        rows.len() > 0,
    ensures
        src_lines(rows, bw, sw).len() > 0,
{
    reveal_strlit("\n");
    assert("\n"@.len() == 1);
    assert(src_lines(rows, bw, sw) == src_lines(rows.drop_last(), bw, sw) + src_line(rows.last(), bw, sw));
    assert(src_line(rows.last(), bw, sw).len() >= 1);
}

/// The central bank's table shows its own rates whatever rate type is asked:
/// the table is the same for every asked type, and where the central bank
/// has a rate of its own type the table is not empty. The table of another
/// source that has a rate of the asked type is not empty either.
pub proof fn lemma_src_table_cb(sr: Seq<Option<Seq<Rate>>>, rt: RateType, other: RateType, cfg: config::Gen)
    ensures
        spec_src_table(Source::Cb, sr, rt, cfg) == spec_src_table(Source::Cb, sr, other, cfg),
        (Source::Cb.spec_index() < sr.len() && sr[Source::Cb.spec_index() as int] is Some && exists|k: int|
            0 <= k < sr[Source::Cb.spec_index() as int]->0.len() && (#[trigger] sr[Source::Cb.spec_index() as int]->0[k]).rate_type
                == RateType::Cb) ==> spec_src_table(Source::Cb, sr, rt, cfg).len() > 0,
{
    if Source::Cb.spec_index() < sr.len() {
        if let Some(rs) = sr[Source::Cb.spec_index() as int] {
            if exists|k: int| 0 <= k < rs.len() && (#[trigger] sr[Source::Cb.spec_index() as int]->0[k]).rate_type == RateType::Cb {
                let k = choose|k: int| 0 <= k < rs.len() && (#[trigger] rs[k]).rate_type == RateType::Cb;
                lemma_filter_nonempty(rs, RateType::Cb, k);
                let rows = src_rows(rs, RateType::Cb, cfg.rate_dp as nat);
                lemma_src_lines_nonempty(
                    rows,
                    max_width(rows.map_values(|r: SrcRowView| r.0)),
                    max_width(rows.map_values(|r: SrcRowView| r.1)),
                );
            }
        }
    }
}

/// A source other than the central bank that has a rate of the asked type
/// has a non-empty table.
pub proof fn lemma_src_table_nonempty(src: Source, sr: Seq<Option<Seq<Rate>>>, rt: RateType, cfg: config::Gen, k: int)
    requires
        src != Source::Cb,
        src.spec_index() < sr.len(),
        sr[src.spec_index() as int] is Some,
        0 <= k < sr[src.spec_index() as int]->0.len(),
        sr[src.spec_index() as int]->0[k].rate_type == rt,
    ensures
        spec_src_table(src, sr, rt, cfg).len() > 0,
{
    let rs = sr[src.spec_index() as int]->0;
    lemma_filter_nonempty(rs, rt, k);
    let rows = src_rows(rs, rt, cfg.rate_dp as nat);
    lemma_src_lines_nonempty(
        rows,
        max_width(rows.map_values(|r: SrcRowView| r.0)),
        max_width(rows.map_values(|r: SrcRowView| r.1)),
    );
}

/// The table of a source other than the central bank shows only rates of
/// the asked type: adding a rate of another type to the source leaves its
/// table as it was.
pub proof fn lemma_src_table_ignores_other_types(
    src: Source,
    sr: Seq<Option<Seq<Rate>>>,
    rt: RateType,
    cfg: config::Gen,
    r: Rate,
)
    requires
        src != Source::Cb,
        src.spec_index() < sr.len(),
        sr[src.spec_index() as int] is Some,
        r.rate_type != rt,
    ensures
        spec_src_table(src, sr.update(src.spec_index() as int, Some(sr[src.spec_index() as int]->0.push(r))), rt, cfg)
            == spec_src_table(src, sr, rt, cfg),
{
    let rs = sr[src.spec_index() as int]->0;
    reveal_with_fuel(Seq::filter, 1);
    assert(rs.push(r).drop_last() =~= rs);
    assert(rs.push(r).filter(|x: Rate| x.rate_type == rt) =~= rs.filter(|x: Rate| x.rate_type == rt));
}

} // verus!
