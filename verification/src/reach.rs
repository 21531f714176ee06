//! Paths, reachability and cycles over a set of directed edges between
//! event identifiers.
use vstd::prelude::*;

verus! {

/// A directed edge `(a, b)`: `a` blocks `b`.
pub type Edge = (Seq<char>, Seq<char>);

/// True when `p[i] -> p[i + 1]` is an edge of `g`.
pub open spec fn edge_at(g: Set<Edge>, p: Seq<Seq<char>>, i: int) -> bool {
    g.contains((p[i], p[i + 1]))
}

/// `p` is a non-empty walk along the edges of `g`.
pub open spec fn is_path(g: Set<Edge>, p: Seq<Seq<char>>) -> bool {
    &&& p.len() >= 1
    &&& forall|i: int| 0 <= i < p.len() - 1 ==> #[trigger] edge_at(g, p, i)
}

/// `p` is a walk along `g` from `a` to `b`.
pub open spec fn path_from_to(g: Set<Edge>, p: Seq<Seq<char>>, a: Seq<char>, b: Seq<char>) -> bool {
    &&& is_path(g, p)
    &&& p[0] == a
    &&& p.last() == b
}

/// `b` can be reached from `a` by following zero or more edges of `g`.
pub open spec fn reachable(g: Set<Edge>, a: Seq<char>, b: Seq<char>) -> bool {
    exists|p: Seq<Seq<char>>| #[trigger] path_from_to(g, p, a, b)
}

/// No walk of one or more edges returns to where it started.
pub open spec fn acyclic(g: Set<Edge>) -> bool {
    forall|p: Seq<Seq<char>>| #[trigger] is_path(g, p) && p.len() >= 2 ==> p[0] != p.last()
}

/// The endpoints of the edges.
pub open spec fn endpoints(g: Set<Edge>) -> Set<Seq<char>> {
    Set::new(|n: Seq<char>| exists|e: Edge| #[trigger] g.contains(e) && (e.0 == n || e.1 == n))
}

/// Everything reachable from a member of `s` stays in `s`.
pub open spec fn closed_under(g: Set<Edge>, s: Set<Seq<char>>) -> bool {
    forall|e: Edge| #[trigger] g.contains(e) && s.contains(e.0) ==> s.contains(e.1)
}

pub proof fn lemma_single_path(g: Set<Edge>, a: Seq<char>)
    ensures
        path_from_to(g, seq![a], a, a),
        reachable(g, a, a),
{
    let p = seq![a];
    assert(path_from_to(g, p, a, a));
}

pub proof fn lemma_path_push(g: Set<Edge>, p: Seq<Seq<char>>, b: Seq<char>)
    requires
        is_path(g, p),
        g.contains((p.last(), b)),
    ensures
        is_path(g, p.push(b)),
        p.push(b)[0] == p[0],
        p.push(b).last() == b,
{
    let q = p.push(b);
    assert forall|i: int| 0 <= i < q.len() - 1 implies #[trigger] edge_at(g, q, i) by {
        if i < p.len() - 1 {
            assert(edge_at(g, p, i));
        }
    }
}

pub proof fn lemma_reach_step(g: Set<Edge>, a: Seq<char>, b: Seq<char>, c: Seq<char>)
    requires
        reachable(g, a, b),
        g.contains((b, c)),
    ensures
        reachable(g, a, c),
{
    let p = choose|p: Seq<Seq<char>>| #[trigger] path_from_to(g, p, a, b);
    lemma_path_push(g, p, c);
    assert(path_from_to(g, p.push(c), a, c));
}

pub proof fn lemma_path_concat(g: Set<Edge>, p: Seq<Seq<char>>, q: Seq<Seq<char>>)
    requires
        is_path(g, p),
        is_path(g, q),
        p.last() == q[0],
    ensures
        is_path(g, p + q.drop_first()),
        (p + q.drop_first())[0] == p[0],
        (p + q.drop_first()).last() == q.last(),
        (p + q.drop_first()).len() == p.len() + q.len() - 1,
{
    let r = p + q.drop_first();
    assert forall|i: int| 0 <= i < r.len() - 1 implies #[trigger] edge_at(g, r, i) by {
        if i < p.len() - 1 {
            assert(edge_at(g, p, i));
        } else {
            let j = i - (p.len() - 1);
            assert(edge_at(g, q, j));
        }
    }
}

pub proof fn lemma_reach_trans(g: Set<Edge>, a: Seq<char>, b: Seq<char>, c: Seq<char>)
    requires
        reachable(g, a, b),
        reachable(g, b, c),
    ensures
        reachable(g, a, c),
{
    let p = choose|p: Seq<Seq<char>>| #[trigger] path_from_to(g, p, a, b);
    let q = choose|q: Seq<Seq<char>>| #[trigger] path_from_to(g, q, b, c);
    lemma_path_concat(g, p, q);
    assert(path_from_to(g, p + q.drop_first(), a, c));
}

/// A walk in `g` is a walk in any larger edge set.
pub proof fn lemma_path_mono(g: Set<Edge>, h: Set<Edge>, p: Seq<Seq<char>>)
    requires
        is_path(g, p),
        g.subset_of(h),
    ensures
        is_path(h, p),
{
    assert forall|i: int| 0 <= i < p.len() - 1 implies #[trigger] edge_at(h, p, i) by {
        assert(edge_at(g, p, i));
    }
}

/// Dropping the last vertex of a walk of two or more vertices.
pub proof fn lemma_path_drop_last(g: Set<Edge>, p: Seq<Seq<char>>)
    requires
        is_path(g, p),
        p.len() >= 2,
    ensures
        is_path(g, p.drop_last()),
        g.contains((p.drop_last().last(), p.last())),
        p.drop_last()[0] == p[0],
{
    let q = p.drop_last();
    assert forall|i: int| 0 <= i < q.len() - 1 implies #[trigger] edge_at(g, q, i) by {
        assert(edge_at(g, p, i));
    }
    assert(edge_at(g, p, p.len() - 2));
}

/// A sub-walk of a walk is a walk.
pub proof fn lemma_path_subrange(g: Set<Edge>, p: Seq<Seq<char>>, i: int, j: int)
    requires
        is_path(g, p),
        0 <= i < j <= p.len(),
    ensures
        is_path(g, p.subrange(i, j)),
{
    let q = p.subrange(i, j);
    assert forall|k: int| 0 <= k < q.len() - 1 implies #[trigger] edge_at(g, q, k) by {
        assert(edge_at(g, p, i + k));
    }
}

/// A walk in `g` with the edge `(f, t)` added either stays inside `g`, or passes
/// from `a` to `f` and from `t` to `b` inside `g`.
pub proof fn lemma_insert_paths(
    g: Set<Edge>,
    f: Seq<char>,
    t: Seq<char>,
    p: Seq<Seq<char>>,
    a: Seq<char>,
    b: Seq<char>,
)
    requires
        path_from_to(g.insert((f, t)), p, a, b),
    ensures
        reachable(g, a, b) || (reachable(g, a, f) && reachable(g, t, b)),
    decreases p.len(),
{
    let h = g.insert((f, t));
    if p.len() == 1 {
        lemma_single_path(g, a);
    } else {
        let q = p.drop_last();
        let c = q.last();
        lemma_path_drop_last(h, p);
        assert(path_from_to(h, q, a, c));
        lemma_insert_paths(g, f, t, q, a, c);
        if g.contains((c, b)) {
            if reachable(g, a, c) {
                lemma_reach_step(g, a, c, b);
            } else {
                lemma_reach_step(g, t, c, b);
            }
        } else {
            assert(c == f && b == t);
            lemma_single_path(g, t);
        }
    }
}

/// Adding an edge `(f, t)` to an acyclic edge set keeps it acyclic unless `t`
/// already reaches `f`.
pub proof fn lemma_insert_keeps_acyclic(g: Set<Edge>, f: Seq<char>, t: Seq<char>)
    requires
        acyclic(g),
        !reachable(g, t, f),
    ensures
        acyclic(g.insert((f, t))),
{
    let h = g.insert((f, t));
    assert forall|p: Seq<Seq<char>>| #[trigger] is_path(h, p) && p.len() >= 2 implies p[0]
        != p.last() by {
        if p[0] == p.last() {
            let a = p[0];
            let q = p.drop_last();
            let c = q.last();
            lemma_path_drop_last(h, p);
            assert(path_from_to(h, q, a, c));
            lemma_insert_paths(g, f, t, q, a, c);
            if g.contains((c, a)) {
                if reachable(g, a, c) {
                    let r = choose|r: Seq<Seq<char>>| #[trigger] path_from_to(g, r, a, c);
                    lemma_path_push(g, r, a);
                    assert(is_path(g, r.push(a)) && r.push(a).len() >= 2);
                    assert(false);
                } else {
                    // t reaches c, c -> a, a reaches f
                    lemma_reach_step(g, t, c, a);
                    lemma_reach_trans(g, t, a, f);
                }
            } else {
                assert(c == f && a == t);
            }
        }
    }
}

/// A set that contains `a` and is closed under the edges contains everything
/// reachable from `a`.
pub proof fn lemma_closed_contains_reachable(
    g: Set<Edge>,
    s: Set<Seq<char>>,
    p: Seq<Seq<char>>,
    a: Seq<char>,
    b: Seq<char>,
)
    requires
        closed_under(g, s),
        s.contains(a),
        path_from_to(g, p, a, b),
    ensures
        s.contains(b),
    decreases p.len(),
{
    if p.len() > 1 {
        let q = p.drop_last();
        lemma_path_drop_last(g, p);
        assert(path_from_to(g, q, a, q.last()));
        lemma_closed_contains_reachable(g, s, q, a, q.last());
        assert(g.contains((q.last(), b)));
    }
}

/// A sequence longer than a finite set it lives in repeats an element.
pub proof fn lemma_pigeonhole(p: Seq<Seq<char>>, s: Set<Seq<char>>)
    requires
        s.finite(),
        p.len() > s.len(),
        forall|i: int| 0 <= i < p.len() ==> s.contains(#[trigger] p[i]),
    ensures
        exists|i: int, j: int| 0 <= i < j < p.len() && p[i] == p[j],
{
    if p.no_duplicates() {
        p.unique_seq_to_set();
        assert(p.to_set().subset_of(s));
        vstd::set_lib::lemma_len_subset(p.to_set(), s);
        assert(false);
    }
    let (i, j) = choose|i: int, j: int|
        0 <= i < p.len() && 0 <= j < p.len() && i != j && p[i] == p[j];
    if i < j {
        assert(p[i] == p[j]);
    } else {
        assert(p[j] == p[i]);
    }
}

/// In an acyclic edge set no walk visits a vertex twice.
pub proof fn lemma_acyclic_path_distinct(g: Set<Edge>, p: Seq<Seq<char>>, i: int, j: int)
    requires
        acyclic(g),
        is_path(g, p),
        0 <= i < j < p.len(),
    ensures
        p[i] != p[j],
{
    lemma_path_subrange(g, p, i, j + 1);
    let q = p.subrange(i, j + 1);
    assert(q[0] == p[i] && q.last() == p[j]);
}

/// Every vertex of a walk of two or more vertices is an endpoint of an edge.
pub proof fn lemma_path_in_endpoints(g: Set<Edge>, p: Seq<Seq<char>>, k: int)
    requires
        is_path(g, p),
        p.len() >= 2,
        0 <= k < p.len(),
    ensures
        endpoints(g).contains(p[k]),
{
    if k < p.len() - 1 {
        assert(edge_at(g, p, k));
        assert(g.contains((p[k], p[k + 1])));
    } else {
        assert(edge_at(g, p, k - 1));
        assert(g.contains((p[k - 1], p[k])));
    }
}

/// In an acyclic edge set with finitely many endpoints, a walk of two or more
/// vertices has at most as many vertices as there are endpoints.
pub proof fn lemma_acyclic_path_len(g: Set<Edge>, p: Seq<Seq<char>>)
    requires
        acyclic(g),
        endpoints(g).finite(),
        is_path(g, p),
        p.len() >= 2,
    ensures
        p.len() <= endpoints(g).len(),
{
    if p.len() > endpoints(g).len() {
        assert forall|k: int| 0 <= k < p.len() implies endpoints(g).contains(#[trigger] p[k]) by {
            lemma_path_in_endpoints(g, p, k);
        }
        lemma_pigeonhole(p, endpoints(g));
        let (i, j) = choose|i: int, j: int| 0 <= i < j < p.len() && p[i] == p[j];
        lemma_acyclic_path_distinct(g, p, i, j);
    }
}

/// A walk that starts at `a`.
pub open spec fn path_from(g: Set<Edge>, p: Seq<Seq<char>>, a: Seq<char>) -> bool {
    &&& is_path(g, p)
    &&& p[0] == a
}

/// Putting a vertex with an edge into the head of a walk in front of it.
pub proof fn lemma_path_prepend(g: Set<Edge>, a: Seq<char>, p: Seq<Seq<char>>)
    requires
        is_path(g, p),
        g.contains((a, p[0])),
    ensures
        is_path(g, seq![a] + p),
        (seq![a] + p)[0] == a,
        (seq![a] + p).len() == p.len() + 1,
        (seq![a] + p).last() == p.last(),
{
    let q = seq![a] + p;
    assert forall|i: int| 0 <= i < q.len() - 1 implies #[trigger] edge_at(g, q, i) by {
        if i > 0 {
            assert(edge_at(g, p, i - 1));
        }
    }
}

/// The tail of a walk of two or more vertices is a walk from its second vertex.
pub proof fn lemma_path_drop_first(g: Set<Edge>, p: Seq<Seq<char>>)
    requires
        is_path(g, p),
        p.len() >= 2,
    ensures
        is_path(g, p.drop_first()),
        g.contains((p[0], p[1])),
        p.drop_first()[0] == p[1],
{
    let q = p.drop_first();
    assert forall|i: int| 0 <= i < q.len() - 1 implies #[trigger] edge_at(g, q, i) by {
        assert(edge_at(g, p, i + 1));
    }
    assert(edge_at(g, p, 0));
}

/// A walk of `k + 1` vertices inside `r`, built backwards along edges, when every
/// vertex of `r` has a predecessor in `r`.
proof fn backward_walk(g: Set<Edge>, r: Set<Seq<char>>, start: Seq<char>, k: nat) -> (w: Seq<Seq<char>>)
    requires
        r.contains(start),
        forall|v: Seq<char>| #[trigger] r.contains(v) ==> exists|u: Seq<char>| r.contains(u) && g.contains((u, v)),
    ensures
        w.len() == k + 1,
        is_path(g, w),
        forall|i: int| 0 <= i < w.len() ==> r.contains(#[trigger] w[i]),
    decreases k,
{
    if k == 0 {
        let w = seq![start];
        assert(is_path(g, w));
        w
    } else {
        let w0 = backward_walk(g, r, start, (k - 1) as nat);
        assert(r.contains(w0[0]));
        let u = choose|u: Seq<char>| r.contains(u) && g.contains((u, w0[0]));
        lemma_path_prepend(g, u, w0);
        let w = seq![u] + w0;
        assert forall|i: int| 0 <= i < w.len() implies r.contains(#[trigger] w[i]) by {
            if i > 0 {
                assert(w[i] == w0[i - 1]);
            }
        }
        w
    }
}

/// A finite non-empty set of vertices in which every vertex has a predecessor
/// inside the set lies on a cycle.
pub proof fn lemma_no_source_cycle(g: Set<Edge>, r: Set<Seq<char>>)
    requires
        r.finite(),
        r.len() > 0,
        forall|v: Seq<char>| #[trigger] r.contains(v) ==> exists|u: Seq<char>| r.contains(u) && g.contains((u, v)),
    ensures
        !acyclic(g),
{
    vstd::set_lib::lemma_set_empty_equivalency_len(r);
    let start = r.choose();
    if !r.contains(start) {
        assert(r =~= Set::<Seq<char>>::empty());
    }
    let w = backward_walk(g, r, start, r.len());
    lemma_pigeonhole(w, r);
    let (i, j) = choose|i: int, j: int| 0 <= i < j < w.len() && w[i] == w[j];
    if acyclic(g) {
        lemma_acyclic_path_distinct(g, w, i, j);
    }
}

} // verus!
