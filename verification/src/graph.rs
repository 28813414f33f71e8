//! The conversion graph of a source's rates and the conversion paths through it.
use crate::decimal::{Dec, spec_checked_div, spec_checked_mul};
use crate::source::{Currency, Rate, RateType};
use vstd::prelude::*;

verus! {

/// An edge of the conversion graph: one unit of the node's currency is worth
/// `rate` units of `to`.
#[derive(Debug)]
pub struct Edge {
    to: Currency,
    rate: Dec,
}

impl Clone for Edge {
    fn clone(&self) -> (r: Self)
        ensures
            r == *self,
    {
        Edge { to: self.to.clone(), rate: self.rate }
    }
}

/// A directed edge: source currency, target currency, rate.
pub type EdgeView = (Seq<char>, Seq<char>, Dec);

impl Edge {
    pub closed spec fn spec_to(self) -> Seq<char> {
        self.to@
    }

    pub closed spec fn spec_rate(self) -> Dec {
        self.rate
    }

    pub fn to(&self) -> (r: &Currency)
        ensures
            r@ == self.spec_to(),
    {
        &self.to
    }

    pub fn rate(&self) -> (r: Dec)
        ensures
            r == self.spec_rate(),
    {
        self.rate
    }
}

/// What `1 / d` gives.
pub open spec fn spec_recip(d: Dec) -> Dec {
    spec_checked_div(Dec::spec_new(1, 0), d)->0
}

/// The edges one rate contributes: a positive buying rate gives the edge
/// `from -> to` at that rate, a positive selling rate the edge `to -> from` at
/// its inverse. Only rates of the asked type and central bank rates count.
pub open spec fn rate_edges(r: Rate, rt: RateType) -> Seq<EdgeView> {
    if r.rate_type == rt || r.rate_type == RateType::Cb {
        (match r.buy {
            Some(b) => if b.m() > 0 {
                seq![(r.from@, r.to@, b)]
            } else {
                Seq::empty()
            },
            None => Seq::empty(),
        }) + (match r.sell {
            Some(s) => if s.m() > 0 {
                seq![(r.to@, r.from@, spec_recip(s))]
            } else {
                Seq::empty()
            },
            None => Seq::empty(),
        })
    } else {
        Seq::empty()
    }
}

/// The edges of all rates, in the order of the rates.
pub open spec fn all_edges(rates: Seq<Rate>, rt: RateType) -> Seq<EdgeView>
    decreases rates.len(),
{
    if rates.len() == 0 {
        Seq::empty()
    } else {
        all_edges(rates.drop_last(), rt) + rate_edges(rates.last(), rt)
    }
}

/// The edges leaving a currency, in the order they were added.
pub open spec fn adj(edges: Seq<EdgeView>, c: Seq<char>) -> Seq<(Seq<char>, Dec)>
    decreases edges.len(),
{
    if edges.len() == 0 {
        Seq::empty()
    } else {
        let p = adj(edges.drop_last(), c);
        let e = edges.last();
        if e.0 == c {
            p.push((e.1, e.2))
        } else {
            p
        }
    }
}

/// The conversion graph of a list of rates.
#[derive(Debug)]
pub struct Graph {
    edges: Vec<(Currency, Edge)>,
}

impl View for Graph {
    type V = Seq<EdgeView>;

    closed spec fn view(&self) -> Seq<EdgeView> {
        self.edges@.map_values(|x: (Currency, Edge)| (x.0@, x.1.to@, x.1.rate))
    }
}

pub open spec fn edges_view(es: Seq<Edge>) -> Seq<(Seq<char>, Dec)> {
    es.map_values(|e: Edge| (e.spec_to(), e.spec_rate()))
}

impl Graph {
    pub fn new() -> (g: Graph)
        ensures
            g@ == Seq::<EdgeView>::empty(),
    {
        let g = Graph { edges: Vec::new() };
        assert(g@ =~= Seq::<EdgeView>::empty());
        g
    }

    /// Adds the edge `from -> to` at `rate`.
    pub fn add_edge(&mut self, from: Currency, to: Currency, rate: Dec)
        ensures
            final(self)@ == old(self)@.push((from@, to@, rate)),
    {
        let ghost f = from@;
        let ghost t = to@;
        self.edges.push((from, Edge { to, rate }));
        assert(self@ =~= old(self)@.push((f, t, rate)));
    }

    /// The number of edges.
    pub fn len(&self) -> (r: usize)
        ensures
            r == self@.len(),
    {
        self.edges.len()
    }

    /// The edges leaving a currency.
    pub fn get(&self, c: &Currency) -> (r: Vec<Edge>)
        ensures
            edges_view(r@) == adj(self@, c@),
    {
        let mut out: Vec<Edge> = Vec::new();
        let mut i: usize = 0;
        while i < self.edges.len()
            invariant
                i <= self@.len(),
                edges_view(out@) == adj(self@.subrange(0, i as int), c@),
            decreases self@.len() - i,
        {
            let ghost sub = self@.subrange(0, i + 1);
            assert(sub.drop_last() =~= self@.subrange(0, i as int));
            assert(sub.last() == self@[i as int]);
            if self.edges[i].0.same(c) {
                let e = self.edges[i].1.clone();
                out.push(e);
                assert(edges_view(out@) =~= adj(self@.subrange(0, i as int), c@).push(
                    (self@[i as int].1, self@[i as int].2),
                ));
            }
            i = i + 1;
        }
        assert(self@.subrange(0, self@.len() as int) =~= self@);
        out
    }
}

/// The graph of the rates of a source: for each rate of the asked type or of
/// the central bank, an edge for a positive buying rate and a reverse edge,
/// at the inverse rate, for a positive selling rate.
pub fn build(rates: &[Rate], rate_type: RateType) -> (g: Graph)
    ensures
        g@ == all_edges(rates@, rate_type),
{
    let mut graph = Graph::new();
    let mut i: usize = 0;
    while i < rates.len()
        invariant
            i <= rates@.len(),
            graph@ == all_edges(rates@.subrange(0, i as int), rate_type),
        decreases rates@.len() - i,
    {
        let ghost before = graph@;
        let rate = &rates[i];
        assert(rates@.subrange(0, i + 1).drop_last() =~= rates@.subrange(0, i as int));
        if rate.rate_type == rate_type || rate.rate_type == RateType::Cb {
            if let Some(buy) = rate.buy {
                if buy.is_positive() {
                    graph.add_edge(rate.from.clone(), rate.to.clone(), buy);
                }
            }
            let ghost mid = graph@;
            if let Some(sell) = rate.sell {
                if sell.is_positive() {
                    let inv = sell.recip();
                    graph.add_edge(rate.to.clone(), rate.from.clone(), inv);
                }
            }
            assert(graph@ =~= before + rate_edges(*rate, rate_type));
        } else {
            assert(graph@ =~= before + rate_edges(*rate, rate_type));
        }
        i = i + 1;
    }
    assert(rates@.subrange(0, rates@.len() as int) =~= rates@);
    graph
}

/// The codes of a list of currencies.
pub open spec fn codes(p: Seq<Currency>) -> Seq<Seq<char>> {
    p.map_values(|c: Currency| c@)
}

/// A found path: its currencies and the rate along it.
pub type PathView = (Seq<Seq<char>>, Dec);

pub open spec fn paths_view(ps: Seq<(Vec<Currency>, Dec)>) -> Seq<PathView> {
    ps.map_values(|x: (Vec<Currency>, Dec)| (codes(x.0@), x.1))
}

/// The currencies some edge leads to.
pub open spec fn targets(g: Seq<EdgeView>) -> Set<Seq<char>> {
    g.map_values(|e: EdgeView| e.1).to_set()
}

/// How many currencies an edge leads to that a path has not visited: what
/// bounds the depth of the search.
pub open spec fn unvisited(g: Seq<EdgeView>, p: Seq<Seq<char>>) -> nat {
    targets(g).difference(p.to_set()).len()
}

/// Whether the graph has an edge from `a` to `b`.
pub open spec fn has_edge(g: Seq<EdgeView>, a: Seq<char>, b: Seq<char>) -> bool {
    exists|k: int| 0 <= k < g.len() && #[trigger] g[k].0 == a && g[k].1 == b
}

pub proof fn lemma_adj_edge(g: Seq<EdgeView>, c: Seq<char>, j: int)
    requires
        0 <= j < adj(g, c).len(),
    ensures
        has_edge(g, c, adj(g, c)[j].0),
    decreases g.len(),
{
    let p = adj(g.drop_last(), c);
    if j < p.len() {
        lemma_adj_edge(g.drop_last(), c, j);
        let k = choose|k: int| 0 <= k < g.drop_last().len() && #[trigger] g.drop_last()[k].0 == c && g.drop_last()[k].1 == p[j].0;
        assert(g[k] == g.drop_last()[k]);
    } else {
        assert(g[g.len() - 1].0 == c);
    }
}

/// Visiting a currency an edge leads to, not visited before, leaves fewer
/// currencies unvisited.
pub proof fn lemma_unvisited_dec(g: Seq<EdgeView>, p: Seq<Seq<char>>, c: Seq<char>, j: int)
    requires
        0 <= j < adj(g, c).len(),
        !p.contains(adj(g, c)[j].0),
    ensures
        unvisited(g, p.push(adj(g, c)[j].0)) < unvisited(g, p),
{
    let x = adj(g, c)[j].0;
    lemma_adj_edge(g, c, j);
    let k = choose|k: int| 0 <= k < g.len() && #[trigger] g[k].0 == c && g[k].1 == x;
    let ts = g.map_values(|e: EdgeView| e.1);
    assert(ts[k] == x);
    assert(targets(g).contains(x));
    vstd::seq_lib::seq_to_set_is_finite(ts);
    let d = targets(g).difference(p.to_set());
    assert(d.finite()) by {
        assert(d.subset_of(targets(g)));
        vstd::set_lib::lemma_len_subset(d, targets(g));
    }
    assert(!p.to_set().contains(x));
    assert(d.contains(x));
    assert(p.push(x).to_set() =~= p.to_set().insert(x)) by {
        assert forall|y: Seq<char>| p.push(x).to_set().contains(y) <==> p.to_set().insert(x).contains(y) by {
            if p.push(x).contains(y) {
                let i = choose|i: int| 0 <= i < p.push(x).len() && p.push(x)[i] == y;
                if i < p.len() {
                    assert(p[i] == y);
                }
            }
            if p.contains(y) {
                let i = choose|i: int| 0 <= i < p.len() && p[i] == y;
                assert(p.push(x)[i] == y);
            }
            if y == x {
                assert(p.push(x)[p.len() as int] == x);
            }
        }
    }
    assert(targets(g).difference(p.push(x).to_set()) =~= d.remove(x));
}

/// The paths a depth-first search finds from `from` (reached with `rate`
/// after `path`) to `to`: edges taken in the order they were added, no
/// currency twice; `None` where a product of rates overflows.
pub open spec fn spec_dfs(g: Seq<EdgeView>, from: Seq<char>, to: Seq<char>, path: Seq<Seq<char>>, rate: Dec) -> Option<
    Seq<PathView>,
>
    decreases unvisited(g, path.push(from)), 1nat, 0nat,
{
    let p = path.push(from);
    if from == to {
        Some(seq![(p, rate)])
    } else {
        spec_explore(g, to, p, rate, adj(g, from).len())
    }
}

/// The paths found through the first `n` of the edges leaving the last
/// currency of `p`.
pub open spec fn spec_explore(g: Seq<EdgeView>, to: Seq<char>, p: Seq<Seq<char>>, rate: Dec, n: nat) -> Option<
    Seq<PathView>,
>
    decreases unvisited(g, p), 0nat, n,
{
    if n == 0 {
        Some(Seq::empty())
    } else {
        match spec_explore(g, to, p, rate, (n - 1) as nat) {
            None => None,
            Some(acc) => {
                let edges = adj(g, p.last());
                if n > edges.len() {
                    Some(acc)
                } else {
                    let e = edges[n - 1];
                    if p.contains(e.0) {
                        Some(acc)
                    } else {
                        match spec_checked_mul(rate, e.1) {
                            None => None,
                            Some(r2) => {
                                proof {
                                    lemma_unvisited_dec(g, p, p.last(), n - 1);
                                }
                                match spec_dfs(g, e.0, to, p, r2) {
                                    None => None,
                                    Some(sub) => Some(acc + sub),
                                }
                            },
                        }
                    }
                }
            },
        }
    }
}

/// All conversion paths from `from` to `to`: the simple paths, in the order
/// a depth-first search over the edges finds them, each with the product of
/// its rates; `None` where a product overflows.
pub open spec fn spec_find_all_paths(g: Seq<EdgeView>, from: Seq<char>, to: Seq<char>) -> Option<
    Seq<PathView>,
> {
    spec_dfs(g, from, to, Seq::empty(), Dec::spec_new(1, 0))
}

/// Once the exploration of a prefix of the edges overflows, so does every
/// longer prefix.
pub proof fn lemma_explore_none(g: Seq<EdgeView>, to: Seq<char>, p: Seq<Seq<char>>, rate: Dec, n: nat, m: nat)
    requires
        n <= m,
        spec_explore(g, to, p, rate, n) is None,
    ensures
        spec_explore(g, to, p, rate, m) is None,
    decreases m - n,
{
    if n < m {
        lemma_explore_none(g, to, p, rate, n, (m - 1) as nat);
    }
}

/// No currency occurs twice.
pub open spec fn no_dup(p: Seq<Seq<char>>) -> bool {
    forall|i: int, j: int| 0 <= i < j < p.len() ==> p[i] != p[j]
}

/// A found path extends `prefix`, ends at `to`, repeats no currency, and
/// from the last currency of `prefix` on each step follows an edge.
pub open spec fn path_ok(g: Seq<EdgeView>, prefix: Seq<Seq<char>>, q: Seq<Seq<char>>, to: Seq<char>) -> bool {
    &&& prefix.len() >= 1
    &&& q.len() >= prefix.len()
    &&& q.subrange(0, prefix.len() as int) == prefix
    &&& q.last() == to
    &&& no_dup(q)
    &&& forall|i: int| prefix.len() - 1 <= i < q.len() - 1 ==> #[trigger] has_edge(g, q[i], q[i + 1])
}

proof fn lemma_dfs_sound(g: Seq<EdgeView>, from: Seq<char>, to: Seq<char>, path: Seq<Seq<char>>, rate: Dec)
    requires
        no_dup(path),
        !path.contains(from),
        spec_dfs(g, from, to, path, rate) is Some,
    ensures
        forall|k: int| 0 <= k < spec_dfs(g, from, to, path, rate)->0.len() ==> path_ok(
            g,
            path.push(from),
            #[trigger] spec_dfs(g, from, to, path, rate)->0[k].0,
            to,
        ),
    decreases unvisited(g, path.push(from)), 1nat, 0nat,
{
    let p = path.push(from);
    assert(no_dup(p)) by {
        assert forall|i: int, j: int| 0 <= i < j < p.len() implies p[i] != p[j] by {
            if j == p.len() - 1 {
                assert(path[i] == p[i]);
            }
        }
    }
    if from == to {
        assert(p.subrange(0, p.len() as int) =~= p);
    } else {
        lemma_explore_sound(g, to, p, rate, adj(g, from).len());
    }
}

proof fn lemma_explore_sound(g: Seq<EdgeView>, to: Seq<char>, p: Seq<Seq<char>>, rate: Dec, n: nat)
    requires
        p.len() >= 1,
        no_dup(p),
        spec_explore(g, to, p, rate, n) is Some,
    ensures
        forall|k: int| 0 <= k < spec_explore(g, to, p, rate, n)->0.len() ==> path_ok(
            g,
            p,
            #[trigger] spec_explore(g, to, p, rate, n)->0[k].0,
            to,
        ),
    decreases unvisited(g, p), 0nat, n,
{
    if n > 0 {
        lemma_explore_sound(g, to, p, rate, (n - 1) as nat);
        let acc = spec_explore(g, to, p, rate, (n - 1) as nat)->0;
        let edges = adj(g, p.last());
        if n <= edges.len() {
            let e = edges[n - 1];
            if !p.contains(e.0) {
                let r2 = spec_checked_mul(rate, e.1)->0;
                lemma_unvisited_dec(g, p, p.last(), n - 1);
                lemma_dfs_sound(g, e.0, to, p, r2);
                lemma_adj_edge(g, p.last(), n - 1);
                let sub = spec_dfs(g, e.0, to, p, r2)->0;
                let all = spec_explore(g, to, p, rate, n)->0;
                assert(all == acc + sub);
                assert forall|k: int| 0 <= k < all.len() implies path_ok(g, p, #[trigger] all[k].0, to) by {
                    if k >= acc.len() {
                        let q = sub[k - acc.len()].0;
                        assert(all[k] == sub[k - acc.len()]);
                        assert(path_ok(g, p.push(e.0), q, to));
                        assert(q.subrange(0, p.len() + 1int) == p.push(e.0));
                        assert(q.subrange(0, p.len() as int) =~= p) by {
                            assert forall|i: int| 0 <= i < p.len() implies q.subrange(0, p.len() as int)[i] == p[i] by {
                                assert(q.subrange(0, p.len() + 1int)[i] == q[i]);
                            }
                        }
                        assert(q[p.len() - 1] == p.last()) by {
                            assert(q.subrange(0, p.len() + 1int)[p.len() - 1] == q[p.len() - 1]);
                        }
                        assert(q[p.len() as int] == e.0) by {
                            assert(q.subrange(0, p.len() + 1int)[p.len() as int] == q[p.len() as int]);
                        }
                        assert forall|i: int| p.len() - 1 <= i < q.len() - 1 implies #[trigger] has_edge(g, q[i], q[i + 1]) by {
                            if i == p.len() - 1 {
                                assert(edges[n - 1].0 == e.0);
                            }
                        }
                    }
                }
            }
        }
    }
}

/// Every conversion path found from `from` to `to` starts at `from`, ends at
/// `to`, passes no currency twice, and each of its steps follows an edge of
/// the graph, that is a rate of the source.
pub proof fn lemma_paths_sound(g: Seq<EdgeView>, from: Seq<char>, to: Seq<char>, k: int)
    requires
        spec_find_all_paths(g, from, to) is Some,
        0 <= k < spec_find_all_paths(g, from, to)->0.len(),
    ensures
        ({
            let q = spec_find_all_paths(g, from, to)->0[k].0;
            &&& q.len() >= 1
            &&& q[0] == from
            &&& q.last() == to
            &&& no_dup(q)
            &&& forall|i: int| 0 <= i < q.len() - 1 ==> #[trigger] has_edge(g, q[i], q[i + 1])
        }),
{
    let e = Seq::<Seq<char>>::empty();
    lemma_dfs_sound(g, from, to, e, Dec::spec_new(1, 0));
    let q = spec_find_all_paths(g, from, to)->0[k].0;
    assert(path_ok(g, e.push(from), q, to));
    assert(q.subrange(0, 1)[0] == q[0]);
}

/// No two edges leave a currency for the same currency.
pub open spec fn no_parallel(g: Seq<EdgeView>) -> bool {
    forall|c: Seq<char>, i: int, j: int|
        0 <= i < j < adj(g, c).len() ==> #[trigger] adj(g, c)[i].0 != #[trigger] adj(g, c)[j].0
}

/// No two of the paths pass the same currencies in the same order.
pub open spec fn distinct_paths(ps: Seq<PathView>) -> bool {
    forall|i: int, j: int| 0 <= i < j < ps.len() ==> #[trigger] ps[i].0 != #[trigger] ps[j].0
}

/// The step after `p` of the path `q` follows one of the first `n` edges
/// leaving the last currency of `p`.
pub open spec fn first_step_in(g: Seq<EdgeView>, p: Seq<Seq<char>>, q: Seq<Seq<char>>, n: nat) -> bool {
    &&& q.len() > p.len()
    &&& exists|j: int| 0 <= j < n && j < adj(g, p.last()).len() && #[trigger] adj(g, p.last())[j].0 == q[p.len() as int]
}

proof fn lemma_dfs_distinct(g: Seq<EdgeView>, from: Seq<char>, to: Seq<char>, path: Seq<Seq<char>>, rate: Dec)
    requires
        no_parallel(g),
        no_dup(path),
        !path.contains(from),
        spec_dfs(g, from, to, path, rate) is Some,
    ensures
        distinct_paths(spec_dfs(g, from, to, path, rate)->0),
    decreases unvisited(g, path.push(from)), 1nat, 0nat,
{
    let p = path.push(from);
    assert(no_dup(p)) by {
        assert forall|i: int, j: int| 0 <= i < j < p.len() implies p[i] != p[j] by {
            if j == p.len() - 1 {
                assert(path[i] == p[i]);
            }
        }
    }
    if from != to {
        lemma_explore_distinct(g, to, p, rate, adj(g, from).len());
    }
}

proof fn lemma_explore_distinct(g: Seq<EdgeView>, to: Seq<char>, p: Seq<Seq<char>>, rate: Dec, n: nat)
    requires
        no_parallel(g),
        p.len() >= 1,
        no_dup(p),
        spec_explore(g, to, p, rate, n) is Some,
    ensures
        distinct_paths(spec_explore(g, to, p, rate, n)->0),
        forall|k: int| 0 <= k < spec_explore(g, to, p, rate, n)->0.len() ==> first_step_in(
            g,
            p,
            #[trigger] spec_explore(g, to, p, rate, n)->0[k].0,
            n,
        ),
    decreases unvisited(g, p), 0nat, n,
{
    if n > 0 {
        lemma_explore_distinct(g, to, p, rate, (n - 1) as nat);
        let acc = spec_explore(g, to, p, rate, (n - 1) as nat)->0;
        let all = spec_explore(g, to, p, rate, n)->0;
        let edges = adj(g, p.last());
        assert forall|k: int| 0 <= k < acc.len() implies first_step_in(g, p, #[trigger] acc[k].0, n) by {
            assert(first_step_in(g, p, acc[k].0, (n - 1) as nat));
            let j = choose|j: int| 0 <= j < n - 1 && j < edges.len() && #[trigger] edges[j].0 == acc[k].0[p.len() as int];
            assert(edges[j].0 == acc[k].0[p.len() as int]);
        }
        if n <= edges.len() && !p.contains(edges[n - 1].0) {
            let e = edges[n - 1];
            let r2 = spec_checked_mul(rate, e.1)->0;
            lemma_unvisited_dec(g, p, p.last(), n - 1);
            lemma_dfs_distinct(g, e.0, to, p, r2);
            lemma_dfs_sound(g, e.0, to, p, r2);
            let sub = spec_dfs(g, e.0, to, p, r2)->0;
            assert(all == acc + sub);
            assert forall|k: int| 0 <= k < sub.len() implies (#[trigger] sub[k]).0.len() > p.len() && sub[k].0[p.len() as int] == e.0 by {
                let q = sub[k].0;
                assert(path_ok(g, p.push(e.0), q, to));
                assert(q.subrange(0, p.len() + 1int) == p.push(e.0));
                assert(q.subrange(0, p.len() + 1int)[p.len() as int] == q[p.len() as int]);
            }
            assert forall|k: int| 0 <= k < all.len() implies first_step_in(g, p, #[trigger] all[k].0, n) by {
                if k >= acc.len() {
                    assert(all[k] == sub[k - acc.len()]);
                    assert(edges[n - 1].0 == all[k].0[p.len() as int]);
                } else {
                    assert(all[k] == acc[k]);
                }
            }
            assert forall|i: int, j: int| 0 <= i < j < all.len() implies #[trigger] all[i].0 != #[trigger] all[j].0 by {
                if j < acc.len() {
                    assert(all[i] == acc[i] && all[j] == acc[j]);
                } else if i >= acc.len() {
                    assert(all[i] == sub[i - acc.len()] && all[j] == sub[j - acc.len()]);
                } else {
                    assert(all[i] == acc[i]);
                    assert(all[j] == sub[j - acc.len()]);
                    assert(first_step_in(g, p, acc[i].0, (n - 1) as nat));
                    let w = choose|w: int| 0 <= w < n - 1 && w < edges.len() && #[trigger] edges[w].0 == acc[i].0[p.len() as int];
                    assert(edges[w].0 != edges[n - 1].0);
                }
            }
        } else {
            assert(all == acc);
        }
    }
}

/// Each simple path is found once: where no two edges join the same two
/// currencies in the same direction, no two of the paths found pass the
/// same currencies in the same order.
pub proof fn lemma_paths_once(g: Seq<EdgeView>, from: Seq<char>, to: Seq<char>)
    requires
        no_parallel(g),
        spec_find_all_paths(g, from, to) is Some,
    ensures
        distinct_paths(spec_find_all_paths(g, from, to)->0),
{
    lemma_dfs_distinct(g, from, to, Seq::empty(), Dec::spec_new(1, 0));
}

/// Step `i` of a path follows an edge of the graph.
pub open spec fn step_ok(g: Seq<EdgeView>, q: Seq<Seq<char>>, i: int) -> bool {
    has_edge(g, q[i], q[i + 1])
}

/// A path to `to` through the graph: no currency twice, each step an edge.
pub open spec fn is_path(g: Seq<EdgeView>, q: Seq<Seq<char>>, to: Seq<char>) -> bool {
    &&& q.len() >= 1
    &&& q.last() == to
    &&& no_dup(q)
    &&& forall|i: int| 0 <= i < q.len() - 1 ==> #[trigger] step_ok(g, q, i)
}



proof fn lemma_adj_has(g: Seq<EdgeView>, c: Seq<char>, x: Seq<char>)
    requires
        has_edge(g, c, x),
    ensures
        exists|j: int| 0 <= j < adj(g, c).len() && #[trigger] adj(g, c)[j].0 == x,
    decreases g.len(),
{
    let k = choose|k: int| 0 <= k < g.len() && #[trigger] g[k].0 == c && g[k].1 == x;
    let d = g.drop_last();
    if k == g.len() - 1 {
        let a = adj(g, c);
        assert(a[a.len() - 1].0 == x);
    } else {
        assert(d[k] == g[k]);
        assert(has_edge(d, c, x));
        lemma_adj_has(d, c, x);
        let j = choose|j: int| 0 <= j < adj(d, c).len() && #[trigger] adj(d, c)[j].0 == x;
        assert(adj(g, c)[j] == adj(d, c)[j]);
    }
}

proof fn lemma_explore_prefix(g: Seq<EdgeView>, to: Seq<char>, p: Seq<Seq<char>>, rate: Dec, n: nat, m: nat)
    requires
        n <= m,
        spec_explore(g, to, p, rate, m) is Some,
    ensures
        spec_explore(g, to, p, rate, n) is Some,
        spec_explore(g, to, p, rate, n)->0.len() <= spec_explore(g, to, p, rate, m)->0.len(),
        forall|k: int| 0 <= k < spec_explore(g, to, p, rate, n)->0.len() ==> #[trigger] spec_explore(g, to, p, rate, m)->0[k]
            == spec_explore(g, to, p, rate, n)->0[k],
    decreases m - n,
{
    if n < m {
        let pm = (m - 1) as nat;
        assert(spec_explore(g, to, p, rate, pm) is Some);
        lemma_explore_prefix(g, to, p, rate, n, pm);
        let a = spec_explore(g, to, p, rate, pm)->0;
        let b = spec_explore(g, to, p, rate, m)->0;
        assert(b.len() >= a.len());
        assert forall|k: int| 0 <= k < a.len() implies b[k] == a[k] by {
        }
    }
}

proof fn lemma_explore_includes(g: Seq<EdgeView>, to: Seq<char>, p: Seq<Seq<char>>, rate: Dec, n: nat, j: int)
    requires
        0 <= j < n,
        n <= adj(g, p.last()).len(),
        !p.contains(adj(g, p.last())[j].0),
        spec_explore(g, to, p, rate, n) is Some,
    ensures
        spec_checked_mul(rate, adj(g, p.last())[j].1) is Some,
        spec_dfs(g, adj(g, p.last())[j].0, to, p, spec_checked_mul(rate, adj(g, p.last())[j].1)->0) is Some,
        spec_explore(g, to, p, rate, j as nat) is Some,
        spec_explore(g, to, p, rate, j as nat)->0.len() + spec_dfs(
            g,
            adj(g, p.last())[j].0,
            to,
            p,
            spec_checked_mul(rate, adj(g, p.last())[j].1)->0,
        )->0.len() <= spec_explore(g, to, p, rate, n)->0.len(),
        forall|k: int|
            0 <= k < spec_dfs(g, adj(g, p.last())[j].0, to, p, spec_checked_mul(rate, adj(g, p.last())[j].1)->0)->0.len()
                ==> spec_explore(g, to, p, rate, n)->0[spec_explore(g, to, p, rate, j as nat)->0.len() + k]
                == #[trigger] spec_dfs(g, adj(g, p.last())[j].0, to, p, spec_checked_mul(rate, adj(g, p.last())[j].1)->0)->0[k],
{
    lemma_explore_prefix(g, to, p, rate, (j + 1) as nat, n);
    let e = adj(g, p.last())[j];
    let r2 = spec_checked_mul(rate, e.1)->0;
    let acc = spec_explore(g, to, p, rate, j as nat)->0;
    let sub = spec_dfs(g, e.0, to, p, r2)->0;
    let mid = spec_explore(g, to, p, rate, (j + 1) as nat)->0;
    assert(mid == acc + sub);
    let all = spec_explore(g, to, p, rate, n)->0;
    assert(mid.len() <= all.len());
    assert forall|k: int| 0 <= k < sub.len() implies all[acc.len() + k] == #[trigger] sub[k] by {
        let k2 = acc.len() + k;
        assert(mid[k2] == sub[k]);
        assert(all[k2] == mid[k2]);
    }
}

proof fn lemma_dfs_complete(
    g: Seq<EdgeView>,
    from: Seq<char>,
    to: Seq<char>,
    path: Seq<Seq<char>>,
    rate: Dec,
    q: Seq<Seq<char>>,
)
    requires
        spec_dfs(g, from, to, path, rate) is Some,
        is_path(g, q, to),
        q[0] == from,
        no_dup(path + q),
    ensures
        exists|k: int|
            0 <= k < spec_dfs(g, from, to, path, rate)->0.len() && #[trigger] spec_dfs(g, from, to, path, rate)->0[k].0
                == path + q,
    decreases unvisited(g, path.push(from)), 1nat, 0nat,
{
    let p = path.push(from);
    let res = spec_dfs(g, from, to, path, rate)->0;
    if from == to {
        if q.len() > 1 {
            assert(q[0] == q[q.len() - 1]);
            assert(false);
        }
        assert(q =~= seq![from]);
        assert(path + q =~= p);
        assert(res[0].0 == path + q);
    } else {
        assert(q.len() >= 2) by {
            if q.len() == 1 {
                assert(q.last() == q[0]);
            }
        }
        let x = q[1];
        assert(step_ok(g, q, 0));
        lemma_adj_has(g, from, x);
        let j = choose|j: int| 0 <= j < adj(g, from).len() && #[trigger] adj(g, from)[j].0 == x;
        let pq = path + q;
        assert(!p.contains(x)) by {
            if p.contains(x) {
                let i = choose|i: int| 0 <= i < p.len() && p[i] == x;
                if i < path.len() {
                    assert(pq[i] == path[i]);
                    assert(pq[path.len() + 1int] == q[1]);
                } else {
                    assert(pq[path.len() as int] == q[0]);
                    assert(pq[path.len() + 1int] == q[1]);
                }
            }
        }
        assert(p.last() == from);
        lemma_explore_includes(g, to, p, rate, adj(g, from).len(), j);
        let r2 = spec_checked_mul(rate, adj(g, from)[j].1)->0;
        let q1 = q.subrange(1, q.len() as int);
        assert(p + q1 =~= pq);
        assert(is_path(g, q1, to)) by {
            assert(q1.last() == q.last());
            assert forall|i: int, k: int| 0 <= i < k < q1.len() implies q1[i] != q1[k] by {
                assert(q1[i] == q[i + 1] && q1[k] == q[k + 1]);
            }
            assert forall|i: int| 0 <= i < q1.len() - 1 implies #[trigger] step_ok(g, q1, i) by {
                assert(q1[i] == q[i + 1] && q1[i + 1] == q[i + 2]);
                assert(step_ok(g, q, i + 1));
            }
        }
        lemma_unvisited_dec(g, p, from, j);
        lemma_dfs_complete(g, x, to, p, r2, q1);
        let sub = spec_dfs(g, x, to, p, r2)->0;
        let k1 = choose|k1: int| 0 <= k1 < sub.len() && #[trigger] sub[k1].0 == p + q1;
        let all = spec_explore(g, to, p, rate, adj(g, from).len())->0;
        assert(res == all);
        let off = spec_explore(g, to, p, rate, j as nat)->0.len();
        assert(all[off + k1] == sub[k1]);
        assert(res[off + k1].0 == path + q);
    }
}

/// Every conversion path is found: each path from `from` to `to` through the
/// graph that passes no currency twice is among the paths found.
pub proof fn lemma_paths_complete(g: Seq<EdgeView>, from: Seq<char>, to: Seq<char>, q: Seq<Seq<char>>)
    requires
        spec_find_all_paths(g, from, to) is Some,
        is_path(g, q, to),
        q[0] == from,
    ensures
        exists|k: int|
            0 <= k < spec_find_all_paths(g, from, to)->0.len() && #[trigger] spec_find_all_paths(g, from, to)->0[k].0 == q,
{
    let e = Seq::<Seq<char>>::empty();
    assert(e + q =~= q);
    lemma_dfs_complete(g, from, to, e, Dec::spec_new(1, 0), q);
}

fn path_contains(path: &Vec<Currency>, c: &Currency) -> (r: bool)
    ensures
        r == codes(path@).contains(c@),
{
    let mut i: usize = 0;
    while i < path.len()
        invariant
            i <= path@.len(),
            forall|k: int| 0 <= k < i ==> path@[k]@ != c@,
        decreases path@.len() - i,
    {
        if path[i].same(c) {
            assert(codes(path@)[i as int] == c@);
            return true;
        }
        i = i + 1;
    }
    assert forall|k: int| 0 <= k < codes(path@).len() implies codes(path@)[k] != c@ by {
        assert(codes(path@)[k] == path@[k]@);
    }
    false
}

/// A copy of a path.
pub(crate) fn copy_path(path: &Vec<Currency>) -> (r: Vec<Currency>)
    ensures
        codes(r@) == codes(path@),
{
    let mut out: Vec<Currency> = Vec::new();
    let mut i: usize = 0;
    while i < path.len()
        invariant
            i <= path@.len(),
            codes(out@) == codes(path@.subrange(0, i as int)),
        decreases path@.len() - i,
    {
        let ghost before = out@;
        let c = path[i].clone();
        out.push(c);
        assert(out@ =~= before.push(path@[i as int]));
        assert(codes(out@) =~= codes(before).push(path@[i as int]@));
        assert(path@.subrange(0, i + 1) =~= path@.subrange(0, i as int).push(path@[i as int]));
        assert(codes(path@.subrange(0, i + 1)) =~= codes(path@.subrange(0, i as int)).push(path@[i as int]@));
        i = i + 1;
    }
    assert(path@.subrange(0, path@.len() as int) =~= path@);
    out
}


fn dfs(
    g: &Graph,
    from: &Currency,
    to: &Currency,
    path: &mut Vec<Currency>,
    paths: &mut Vec<(Vec<Currency>, Dec)>,
    rate: Dec,
) -> (ok: bool)
    ensures
        final(path)@ == old(path)@,
        ok == (spec_dfs(g@, from@, to@, codes(old(path)@), rate) is Some),
        ok ==> paths_view(final(paths)@) == paths_view(old(paths)@) + spec_dfs(
            g@,
            from@,
            to@,
            codes(old(path)@),
            rate,
        )->0,
    decreases unvisited(g@, codes(old(path)@).push(from@)),
{
    let ghost p0 = codes(path@);
    let ghost pp = p0.push(from@);
    let ghost old_path = path@;
    path.push(from.clone());
    let ghost cur_path = path@;
    assert(codes(path@) =~= pp);
    if from.same(to) {
        let found = copy_path(path);
        let ghost before = paths@;
        paths.push((found, rate));
        assert(paths_view(paths@) =~= paths_view(before) + seq![(pp, rate)]);
        path.pop();
        assert(path@ =~= old_path);
        return true;
    }
    let edges = g.get(from);
    let ghost es = adj(g@, from@);
    let mut k: usize = 0;
    assert(paths_view(paths@) =~= paths_view(old(paths)@) + Seq::<PathView>::empty());
    assert(es.len() == edges@.len());
    assert(pp.last() == from@);
    assert(spec_dfs(g@, from@, to@, p0, rate) == spec_explore(g@, to@, pp, rate, es.len()));
    while k < edges.len()
        invariant
            k <= edges@.len(),
            edges_view(edges@) == es,
            es == adj(g@, from@),
            codes(path@) == pp,
            path@ == cur_path,
            cur_path == old_path.push(cur_path.last()),
            old_path == old(path)@,
            pp == p0.push(from@),
            pp.last() == from@,
            p0 == codes(old(path)@),
            spec_explore(g@, to@, pp, rate, k as nat) is Some,
            es.len() == edges@.len(),
            spec_dfs(g@, from@, to@, p0, rate) == spec_explore(g@, to@, pp, rate, es.len()),
            paths_view(paths@) == paths_view(old(paths)@) + spec_explore(g@, to@, pp, rate, k as nat)->0,
        decreases edges@.len() - k,
    {
        let e = &edges[k];
        let ghost acc = spec_explore(g@, to@, pp, rate, k as nat)->0;
        assert(es[k as int] == (e.spec_to(), e.spec_rate()));
        if path_contains(path, e.to()) {
            assert(spec_explore(g@, to@, pp, rate, (k + 1) as nat) == Some(acc));
        } else {
            match rate.checked_mul(&e.rate()) {
                None => {
                    assert(spec_explore(g@, to@, pp, rate, (k + 1) as nat) is None);
                    proof {
                        lemma_explore_none(g@, to@, pp, rate, (k + 1) as nat, es.len());
                    }
                    path.pop();
                    assert(path@ =~= old_path);
                    return false;
                },
                Some(r2) => {
                    let ghost before = paths@;
                    proof {
                        lemma_unvisited_dec(g@, pp, from@, k as int);
                    }
                    let ok = dfs(g, e.to(), to, path, paths, r2);
                    if !ok {
                        assert(spec_explore(g@, to@, pp, rate, (k + 1) as nat) is None);
                        proof {
                            lemma_explore_none(g@, to@, pp, rate, (k + 1) as nat, es.len());
                        }
                        path.pop();
                        assert(path@ =~= old_path);
                        return false;
                    }
                    let ghost sub = spec_dfs(g@, e.spec_to(), to@, pp, r2)->0;
                    assert(spec_explore(g@, to@, pp, rate, (k + 1) as nat) == Some(acc + sub));
                    assert(paths_view(paths@) =~= paths_view(old(paths)@) + (acc + sub));
                },
            }
        }
        k = k + 1;
    }
    path.pop();
    assert(path@ =~= old_path);
    true
}

/// All conversion paths from `from` to `to`, `None` where a product of rates
/// overflows.
pub fn try_find_all_paths(graph: &Graph, from: &Currency, to: &Currency) -> (r: Option<
    Vec<(Vec<Currency>, Dec)>,
>)
    ensures
        r is Some <==> spec_find_all_paths(graph@, from@, to@) is Some,
        r matches Some(v) ==> paths_view(v@) == spec_find_all_paths(graph@, from@, to@)->0,
{
    let mut paths: Vec<(Vec<Currency>, Dec)> = Vec::new();
    let mut path: Vec<Currency> = Vec::new();
    assert(codes(path@) =~= Seq::<Seq<char>>::empty());
    let ok = dfs(graph, from, to, &mut path, &mut paths, Dec::one());
    if ok {
        assert(paths_view(Seq::<(Vec<Currency>, Dec)>::empty()) =~= Seq::<PathView>::empty());
        assert(paths_view(paths@) =~= spec_find_all_paths(graph@, from@, to@)->0);
        Some(paths)
    } else {
        None
    }
}

/// All conversion paths from `from` to `to`: the simple paths along the
/// edges, in depth-first order, each with the product of its rates.
pub fn find_all_paths(graph: &Graph, from: &Currency, to: &Currency) -> (r: Vec<
    (Vec<Currency>, Dec),
>)
    requires
        spec_find_all_paths(graph@, from@, to@) is Some,
    ensures
        paths_view(r@) == spec_find_all_paths(graph@, from@, to@)->0,
{
    try_find_all_paths(graph, from, to).unwrap()
}

// ---------------------------------------------------------------------------
// The graph an arbitrage search runs on
// ---------------------------------------------------------------------------

/// A code added to a list unless it is in it already.
pub open spec fn add_new(s: Seq<Seq<char>>, c: Seq<char>) -> Seq<Seq<char>> {
    if s.contains(c) {
        s
    } else {
        s.push(c)
    }
}

/// The currencies of a list of rates in the order they first appear, the
/// `from` of a rate before its `to`.
pub open spec fn currency_order(rates: Seq<Rate>) -> Seq<Seq<char>>
    decreases rates.len(),
{
    if rates.len() == 0 {
        Seq::empty()
    } else {
        add_new(add_new(currency_order(rates.drop_last()), rates.last().from@), rates.last().to@)
    }
}

/// The first position of a code in a list, -1 where it is not there.
pub open spec fn first_pos(s: Seq<Seq<char>>, c: Seq<char>) -> int
    decreases s.len(),
{
    if s.len() == 0 {
        -1
    } else if s[0] == c {
        0
    } else {
        let p = first_pos(s.drop_first(), c);
        if p < 0 {
            -1
        } else {
            p + 1
        }
    }
}

/// The weighted edges one rate gives, between the positions of its
/// currencies in `order`: a positive buying rate `from -> to`, a positive
/// selling rate `to -> from` at its inverse.
pub open spec fn arbitrage_rate_edges(r: Rate, order: Seq<Seq<char>>) -> Seq<(int, int, Dec)> {
    (match r.buy {
        Some(b) => if b.m() > 0 {
            seq![(first_pos(order, r.from@), first_pos(order, r.to@), b)]
        } else {
            Seq::empty()
        },
        None => Seq::empty(),
    }) + (match r.sell {
        Some(s) => if s.m() > 0 {
            seq![(first_pos(order, r.to@), first_pos(order, r.from@), spec_recip(s))]
        } else {
            Seq::empty()
        },
        None => Seq::empty(),
    })
}

/// The weighted edges of a list of rates, in the order of the rates.
pub open spec fn arbitrage_edges(rates: Seq<Rate>, order: Seq<Seq<char>>) -> Seq<(int, int, Dec)>
    decreases rates.len(),
{
    if rates.len() == 0 {
        Seq::empty()
    } else {
        arbitrage_edges(rates.drop_last(), order) + arbitrage_rate_edges(rates.last(), order)
    }
}

/// The rates of one type.
pub open spec fn rates_of_type(rates: Seq<Rate>, rt: RateType) -> Seq<Rate> {
    rates.filter(|r: Rate| r.rate_type == rt)
}

/// The graph an arbitrage search runs on: the currencies of the rates of one
/// type, numbered in the order they first appear, and the weighted edges
/// between their numbers.
#[derive(Debug)]
pub struct ArbitrageGraph {
    pub currencies: Vec<Currency>,
    pub edges: Vec<(usize, usize, Dec)>,
}

/// The views of weighted edges.
pub open spec fn index_edges(v: Seq<(usize, usize, Dec)>) -> Seq<(int, int, Dec)> {
    v.map_values(|e: (usize, usize, Dec)| (e.0 as int, e.1 as int, e.2))
}

proof fn lemma_first_pos(s: Seq<Seq<char>>, c: Seq<char>, i: int)
    requires
        0 <= i < s.len(),
        s[i] == c,
        forall|j: int| 0 <= j < i ==> s[j] != c,
    ensures
        first_pos(s, c) == i,
    decreases i,
{
    if i > 0 {
        lemma_first_pos(s.drop_first(), c, i - 1);
    }
}

proof fn lemma_order_grows(rates: Seq<Rate>, k: int)
    requires
        0 <= k <= rates.len(),
    ensures
        forall|c: Seq<char>| currency_order(rates.subrange(0, k)).contains(c) ==> #[trigger] currency_order(rates).contains(c),
    decreases rates.len() - k,
{
    if k < rates.len() {
        lemma_order_grows(rates, k + 1);
        assert(rates.subrange(0, k + 1).drop_last() =~= rates.subrange(0, k));
        let pre = currency_order(rates.subrange(0, k));
        let a = add_new(pre, rates[k].from@);
        assert forall|c: Seq<char>| pre.contains(c) implies add_new(a, rates[k].to@).contains(c) by {
            let j = choose|j: int| 0 <= j < pre.len() && pre[j] == c;
            assert(a[j] == c);
            assert(add_new(a, rates[k].to@)[j] == c);
        }
    } else {
        assert(rates.subrange(0, k) =~= rates);
    }
}

proof fn lemma_order_has(rates: Seq<Rate>, i: int)
    requires
        0 <= i < rates.len(),
    ensures
        currency_order(rates).contains(rates[i].from@),
        currency_order(rates).contains(rates[i].to@),
{
    let sub = rates.subrange(0, i + 1);
    assert(sub.drop_last() =~= rates.subrange(0, i));
    assert(sub.last() == rates[i]);
    let pre = currency_order(rates.subrange(0, i));
    let a = add_new(pre, rates[i].from@);
    let b = add_new(a, rates[i].to@);
    assert(a.contains(rates[i].from@)) by {
        if !pre.contains(rates[i].from@) {
            assert(a[a.len() - 1] == rates[i].from@);
        }
    }
    assert(b.contains(rates[i].from@)) by {
        let j = choose|j: int| 0 <= j < a.len() && a[j] == rates[i].from@;
        assert(b[j] == rates[i].from@);
    }
    assert(b.contains(rates[i].to@)) by {
        if !a.contains(rates[i].to@) {
            assert(b[b.len() - 1] == rates[i].to@);
        }
    }
    lemma_order_grows(rates, i + 1);
}

fn position(v: &Vec<Currency>, c: &Currency) -> (r: Option<usize>)
    ensures
        r is None ==> !codes(v@).contains(c@),
        r matches Some(i) ==> i < v@.len() && i == first_pos(codes(v@), c@) && codes(v@)[i as int] == c@,
{
    let mut i: usize = 0;
    while i < v.len()
        invariant
            i <= v@.len(),
            forall|j: int| 0 <= j < i ==> codes(v@)[j] != c@,
        decreases v@.len() - i,
    {
        if v[i].same(c) {
            proof {
                lemma_first_pos(codes(v@), c@, i as int);
            }
            return Some(i);
        }
        i = i + 1;
    }
    None
}

fn rates_of(rates: &[Rate], rate_type: RateType) -> (r: Vec<Rate>)
    ensures
        r@ == rates_of_type(rates@, rate_type),
{
    let mut out: Vec<Rate> = Vec::new();
    let mut i: usize = 0;
    while i < rates.len()
        invariant
            i <= rates@.len(),
            out@ == rates_of_type(rates@.subrange(0, i as int), rate_type),
        decreases rates@.len() - i,
    {
        proof {
            assert(rates@.subrange(0, i + 1).drop_last() =~= rates@.subrange(0, i as int));
            reveal_with_fuel(Seq::filter, 1);
        }
        if rates[i].rate_type == rate_type {
            out.push(rates[i].clone());
        }
        i = i + 1;
    }
    assert(rates@.subrange(0, rates@.len() as int) =~= rates@);
    out
}

fn add_currency(v: &mut Vec<Currency>, c: &Currency)
    ensures
        codes(final(v)@) == add_new(codes(old(v)@), c@),
{
    match position(v, c) {
        Some(i) => {
            assert(codes(v@).contains(c@)) by {
                assert(codes(v@)[i as int] == c@);
            }
        },
        None => {
            let ghost before = codes(v@);
            v.push(c.clone());
            assert(codes(v@) =~= before.push(c@));
        },
    }
}

/// The graph an arbitrage search over the rates of one type runs on.
pub fn arbitrage_graph(rates: &[Rate], rate_type: RateType) -> (g: ArbitrageGraph)
    ensures
        codes(g.currencies@) == currency_order(rates_of_type(rates@, rate_type)),
        index_edges(g.edges@) == arbitrage_edges(
            rates_of_type(rates@, rate_type),
            currency_order(rates_of_type(rates@, rate_type)),
        ),
        forall|k: int| 0 <= k < g.edges@.len() ==> #[trigger] g.edges@[k].0 < g.currencies@.len() && g.edges@[k].1 < g.currencies@.len(),
{
    let rs = rates_of(rates, rate_type);
    let n = rs.len();
    let mut order: Vec<Currency> = Vec::new();
    let mut i: usize = 0;
    assert(codes(order@) =~= currency_order(rs@.subrange(0, 0)));
    while i < n
        invariant
            n == rs@.len(),
            i <= n,
            codes(order@) == currency_order(rs@.subrange(0, i as int)),
        decreases n - i,
    {
        assert(rs@.subrange(0, i + 1).drop_last() =~= rs@.subrange(0, i as int));
        assert(rs@.subrange(0, i + 1).last() == rs@[i as int]);
        add_currency(&mut order, &rs[i].from);
        add_currency(&mut order, &rs[i].to);
        i = i + 1;
    }
    assert(rs@.subrange(0, n as int) =~= rs@);
    let ghost ord = codes(order@);
    let mut edges: Vec<(usize, usize, Dec)> = Vec::new();
    let mut k: usize = 0;
    assert(index_edges(edges@) =~= arbitrage_edges(rs@.subrange(0, 0), ord));
    while k < n
        invariant
            n == rs@.len(),
            k <= n,
            ord == codes(order@),
            ord == currency_order(rs@),
            index_edges(edges@) == arbitrage_edges(rs@.subrange(0, k as int), ord),
            forall|j: int| 0 <= j < edges@.len() ==> #[trigger] edges@[j].0 < order@.len() && edges@[j].1 < order@.len(),
        decreases n - k,
    {
        assert(rs@.subrange(0, k + 1).drop_last() =~= rs@.subrange(0, k as int));
        assert(rs@.subrange(0, k + 1).last() == rs@[k as int]);
        proof {
            lemma_order_has(rs@, k as int);
        }
        let r = &rs[k];
        let a = match position(&order, &r.from) {
            Some(a) => a,
            None => {
                assert(false);
                0
            },
        };
        let b = match position(&order, &r.to) {
            Some(b) => b,
            None => {
                assert(false);
                0
            },
        };
        assert(a < order@.len() && b < order@.len());
        let ghost before = index_edges(edges@);
        let ghost old_edges = edges@;
        if let Some(buy) = r.buy {
            if buy.is_positive() {
                edges.push((a, b, buy));
            }
        }
        if let Some(sell) = r.sell {
            if sell.is_positive() {
                let w = sell.recip();
                edges.push((b, a, w));
            }
        }
        assert(index_edges(edges@) =~= before + arbitrage_rate_edges(*r, ord));
        assert forall|j: int| 0 <= j < edges@.len() implies #[trigger] edges@[j].0 < order@.len() && edges@[j].1 < order@.len() by {
            if j < old_edges.len() {
                assert(edges@[j] == old_edges[j]);
            } else {
                assert(index_edges(edges@)[j] == (edges@[j].0 as int, edges@[j].1 as int, edges@[j].2));
                let t = j - before.len();
                assert(index_edges(edges@)[j] == arbitrage_rate_edges(*r, ord)[t]);
                assert(first_pos(ord, r.from@) == a && first_pos(ord, r.to@) == b);
            }
        }
        k = k + 1;
    }
    assert(rs@.subrange(0, n as int) =~= rs@);
    ArbitrageGraph { currencies: order, edges }
}

/// Every rate of the asked type, and every central-bank rate whatever type
/// is asked, gives its edges to the graph: its positive buying rate as an
/// edge from `from` to `to`, and the inverse of its positive selling rate as
/// an edge back.
pub proof fn lemma_rate_edges_in_graph(rates: Seq<Rate>, rt: RateType, i: int)
    requires
        0 <= i < rates.len(),
        rates[i].rate_type == rt || rates[i].rate_type == RateType::Cb,
    ensures
        rates[i].buy is Some && rates[i].buy->0.m() > 0 ==> all_edges(rates, rt).contains(
            (rates[i].from@, rates[i].to@, rates[i].buy->0),
        ),
        rates[i].sell is Some && rates[i].sell->0.m() > 0 ==> all_edges(rates, rt).contains(
            (rates[i].to@, rates[i].from@, spec_recip(rates[i].sell->0)),
        ),
    decreases rates.len(),
{
    let p = all_edges(rates.drop_last(), rt);
    let q = all_edges(rates, rt);
    let r = rates[i];
    assert(q == p + rate_edges(rates.last(), rt));
    if i < rates.len() - 1 {
        assert(rates.drop_last()[i] == r);
        lemma_rate_edges_in_graph(rates.drop_last(), rt, i);
        if r.buy is Some && r.buy->0.m() > 0 {
            let x = (r.from@, r.to@, r.buy->0);
            let j = choose|j: int| 0 <= j < p.len() && p[j] == x;
            assert(q[j] == x);
        }
        if r.sell is Some && r.sell->0.m() > 0 {
            let x = (r.to@, r.from@, spec_recip(r.sell->0));
            let j = choose|j: int| 0 <= j < p.len() && p[j] == x;
            assert(q[j] == x);
        }
    } else {
        assert(rates.last() == r);
        let e = rate_edges(r, rt);
        if r.buy is Some && r.buy->0.m() > 0 {
            assert(e[0] == (r.from@, r.to@, r.buy->0));
            assert(q[p.len() as int] == e[0]);
        }
        if r.sell is Some && r.sell->0.m() > 0 {
            let k: int = if r.buy is Some && r.buy->0.m() > 0 { 1 } else { 0 };
            assert(e[k] == (r.to@, r.from@, spec_recip(r.sell->0)));
            assert(q[p.len() + k] == e[k]);
        }
    }
}

/// A central-bank rate with a positive buying rate is a conversion path of
/// its own in the graph of every rate type: where the search succeeds, the
/// path from its `from` straight to its `to` is among the paths found.
pub proof fn lemma_cb_rate_path(rates: Seq<Rate>, rt: RateType, i: int)
    requires
        0 <= i < rates.len(),
        rates[i].rate_type == RateType::Cb,
        rates[i].buy is Some,
        rates[i].buy->0.m() > 0,
        rates[i].from@ != rates[i].to@,
        spec_find_all_paths(all_edges(rates, rt), rates[i].from@, rates[i].to@) is Some,
    ensures
        exists|k: int|
            0 <= k < spec_find_all_paths(all_edges(rates, rt), rates[i].from@, rates[i].to@)->0.len()
                && #[trigger] spec_find_all_paths(all_edges(rates, rt), rates[i].from@, rates[i].to@)->0[k].0 == seq![
                rates[i].from@,
                rates[i].to@,
            ],
{
    let g = all_edges(rates, rt);
    let r = rates[i];
    let b = r.buy->0;
    lemma_rate_edges_in_graph(rates, rt, i);
    let x = (r.from@, r.to@, b);
    let j = choose|j: int| 0 <= j < g.len() && g[j] == x;
    assert(g[j].0 == r.from@ && g[j].1 == r.to@);
    let q = seq![r.from@, r.to@];
    assert(has_edge(g, q[0], q[1]));
    assert(step_ok(g, q, 0));
    assert(no_dup(q));
    assert(is_path(g, q, r.to@));
    lemma_paths_complete(g, r.from@, r.to@, q);
}

/// Rates of a type other than the asked one and the central bank's give no
/// edges: adding such a rate leaves the graph as it was, and a list of such
/// rates only gives the empty graph.
pub proof fn lemma_other_types_no_edges(rates: Seq<Rate>, r: Rate, rt: RateType)
    requires
        r.rate_type != rt,
        r.rate_type != RateType::Cb,
    ensures
        all_edges(rates.push(r), rt) == all_edges(rates, rt),
        (forall|i: int| 0 <= i < rates.len() ==> (#[trigger] rates[i]).rate_type != rt && rates[i].rate_type != RateType::Cb)
            ==> all_edges(rates, rt).len() == 0,
    decreases rates.len(),
{
    assert(rates.push(r).drop_last() =~= rates);
    assert(all_edges(rates.push(r), rt) =~= all_edges(rates, rt));
    if rates.len() > 0 {
        if forall|i: int| 0 <= i < rates.len() ==> (#[trigger] rates[i]).rate_type != rt && rates[i].rate_type != RateType::Cb {
            let d = rates.drop_last();
            assert forall|i: int| 0 <= i < d.len() implies (#[trigger] d[i]).rate_type != rt && d[i].rate_type != RateType::Cb by {
                assert(d[i] == rates[i]);
            }
            assert(rates.last() == rates[rates.len() - 1]);
            lemma_other_types_no_edges(d, r, rt);
        }
    }
}

} // verus!
