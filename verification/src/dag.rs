//! A directed acyclic graph of events linked by blocking dependencies.
use vstd::prelude::*;

use crate::models::{DependencyType, EventDependency};
use crate::reach::{
    acyclic, closed_under, edge_at, endpoints, is_path, lemma_closed_contains_reachable,
    lemma_acyclic_path_len, lemma_insert_keeps_acyclic, lemma_no_source_cycle,
    lemma_path_drop_first, lemma_path_in_endpoints, lemma_path_prepend, lemma_reach_step,
    lemma_single_path, path_from, path_from_to, reachable, Edge,
};

verus! {

/// The views of a sequence of strings.
pub open spec fn str_views(s: Seq<String>) -> Seq<Seq<char>> {
    s.map_values(|x: String| x@)
}

/// The views of a sequence of string pairs.
pub open spec fn pair_views(s: Seq<(String, String)>) -> Seq<Edge> {
    s.map_values(|e: (String, String)| (e.0@, e.1@))
}

/// True when `v` holds a string whose view is `s`.
pub fn contains_str(v: &Vec<String>, s: &String) -> (res: bool)
    ensures
        res == str_views(v@).contains(s@),
{
    let mut i: usize = 0;
    while i < v.len()
        invariant
            i <= v.len(),
            forall|k: int| 0 <= k < i ==> v[k]@ != s@,
        decreases v.len() - i,
    {
        if v[i] == *s {
            assert(str_views(v@)[i as int] == s@);
            return true;
        }
        i += 1;
    }
    proof {
        if str_views(v@).contains(s@) {
            let k = choose|k: int| 0 <= k < str_views(v@).len() && str_views(v@)[k] == s@;
            assert(v[k]@ == s@);
        }
    }
    false
}

/// A set of distinct strings (by view) has at most one more element than a set
/// of distinct strings that holds all but one of them.
proof fn lemma_distinct_bound(vs: Seq<Seq<char>>, ns: Seq<Seq<char>>, extra: Seq<char>)
    requires
        vs.no_duplicates(),
        ns.no_duplicates(),
        forall|k: int| 0 <= k < vs.len() ==> #[trigger] vs[k] == extra || ns.contains(vs[k]),
    ensures
        vs.len() <= ns.len() + 1,
{
    vs.unique_seq_to_set();
    ns.unique_seq_to_set();
    let big = ns.to_set().insert(extra);
    assert forall|x: Seq<char>| vs.to_set().contains(x) implies big.contains(x) by {
        let k = choose|k: int| 0 <= k < vs.len() && vs[k] == x;
        assert(vs[k] == extra || ns.contains(vs[k]));
    }
    vstd::set_lib::lemma_len_subset(vs.to_set(), big);
}

/// The dependency graph: `a -> b` when event `a` blocks event `b`.
#[derive(Debug, Clone)]
pub struct EventDag {
    /// Distinct edges.
    edges: Vec<(String, String)>,
    /// Distinct nodes: exactly the endpoints of the edges.
    nodes: Vec<String>,
}

impl View for EventDag {
    type V = Set<Edge>;

    closed spec fn view(&self) -> Set<Edge> {
        pair_views(self.edges@).to_set()
    }
}

impl Default for EventDag {
    /// The empty graph.
    fn default() -> (res: EventDag)
        ensures
            res.well_formed(),
            res@ == Set::<Edge>::empty(),
    {
        EventDag::new()
    }
}

impl EventDag {
    /// The graph's own invariant: no duplicate edges or nodes, the nodes are the
    /// endpoints of the edges, and there is no cycle.
    pub closed spec fn well_formed(&self) -> bool {
        &&& pair_views(self.edges@).no_duplicates()
        &&& str_views(self.nodes@).no_duplicates()
        &&& str_views(self.nodes@).to_set() == endpoints(self@)
        &&& acyclic(self@)
    }

    /// The nodes of the graph, in insertion order.
    pub closed spec fn node_seq(&self) -> Seq<Seq<char>> {
        str_views(self.nodes@)
    }

    proof fn lemma_view_contains(&self, k: int)
        requires
            0 <= k < self.edges.len(),
        ensures
            self@.contains((self.edges[k].0@, self.edges[k].1@)),
    {
        assert(pair_views(self.edges@)[k] == (self.edges[k].0@, self.edges[k].1@));
    }

    proof fn lemma_view_index(&self, e: Edge) -> (k: int)
        requires
            self@.contains(e),
        ensures
            0 <= k < self.edges.len(),
            self.edges[k].0@ == e.0,
            self.edges[k].1@ == e.1,
    {
        let k = choose|k: int| 0 <= k < pair_views(self.edges@).len() && pair_views(self.edges@)[k] == e;
        k
    }

    /// The nodes are exactly the endpoints; there are finitely many.
    proof fn lemma_nodes(&self)
        requires
            self.well_formed(),
        ensures
            endpoints(self@).finite(),
            endpoints(self@).len() == self.nodes.len(),
            self.node_seq().to_set() == endpoints(self@),
            self.node_seq().no_duplicates(),
            self.node_seq().len() == self.nodes.len(),
    {
        self.node_seq().unique_seq_to_set();
    }

    /// An empty graph.
    pub fn new() -> (res: EventDag)
        ensures
            res.well_formed(),
            res@ == Set::<Edge>::empty(),
            acyclic(res@),
    {
        let res = EventDag { edges: Vec::new(), nodes: Vec::new() };
        assert(pair_views(res.edges@) =~= Seq::<Edge>::empty());
        assert(str_views(res.nodes@) =~= Seq::<Seq<char>>::empty());
        assert(res@ =~= Set::<Edge>::empty());
        assert(endpoints(res@) =~= Set::<Seq<char>>::empty());
        assert(str_views(res.nodes@).to_set() =~= Set::<Seq<char>>::empty());
        assert forall|p: Seq<Seq<char>>| #[trigger] is_path(res@, p) && p.len() >= 2 implies p[0]
            != p.last() by {
            assert(edge_at(res@, p, 0));
        }
        res
    }

    /// True if `from` reaches `to` along zero or more blocking edges.
    pub fn can_reach(&self, from: &str, to: &str) -> (res: bool)
        requires
            self.well_formed(),
        ensures
            res == reachable(self@, from@, to@),
    {
        let ghost g = self@;
        let from_s: String = from.to_owned();
        let to_s: String = to.to_owned();
        if from_s == to_s {
            proof {
                lemma_single_path(g, from@);
            }
            return true;
        }
        proof {
            self.lemma_nodes();
        }
        let mut visited: Vec<String> = Vec::new();
        visited.push(from_s.clone());
        let mut stack: Vec<String> = Vec::new();
        stack.push(from_s);
        proof {
            lemma_single_path(g, from@);
            assert(str_views(visited@) =~= seq![from@]);
            assert(str_views(stack@) =~= seq![from@]);
            assert(str_views(visited@)[0] == from@);
        }
        while stack.len() > 0
            invariant
                self.well_formed(),
                g == self@,
                from_s@ == from@,
                to_s@ == to@,
                from@ != to@,
                str_views(visited@).no_duplicates(),
                str_views(visited@).contains(from@),
                forall|k: int| 0 <= k < visited.len() ==> reachable(g, from@, #[trigger] visited[k]@),
                forall|k: int|
                    0 <= k < visited.len() ==> #[trigger] str_views(visited@)[k] == from@
                        || self.node_seq().contains(str_views(visited@)[k]),
                visited.len() <= self.nodes.len() + 1,
                !str_views(visited@).contains(to@),
                str_views(stack@).no_duplicates(),
                forall|x: Seq<char>| str_views(stack@).contains(x) ==> str_views(visited@).contains(x),
                forall|e: Edge|
                    #[trigger] g.contains(e) && str_views(visited@).contains(e.0) && !str_views(
                        stack@,
                    ).contains(e.0) ==> str_views(visited@).contains(e.1),
            decreases self.nodes.len() + 1 - visited.len() + stack.len(),
        {
            let ghost v0 = visited.len();
            let ghost s0 = stack.len();
            let ghost stack0 = str_views(stack@);
            let node = stack.pop().unwrap();
            proof {
                assert(stack0 == str_views(stack@).push(node@));
                assert forall|a: int, b: int|
                    0 <= a < str_views(stack@).len() && 0 <= b < str_views(stack@).len() && a
                        != b implies str_views(stack@)[a] != str_views(stack@)[b] by {
                    assert(stack0[a] == str_views(stack@)[a]);
                    assert(stack0[b] == str_views(stack@)[b]);
                }
                assert(stack0.contains(node@)) by {
                    assert(stack0[stack0.len() - 1] == node@);
                }
                assert forall|x: Seq<char>| str_views(stack@).contains(x) implies stack0.contains(
                    x,
                ) && x != node@ by {
                    let k = choose|k: int| 0 <= k < str_views(stack@).len() && str_views(stack@)[k] == x;
                    assert(stack0[k] == x);
                    if x == node@ {
                        assert(stack0[stack0.len() - 1] == node@);
                    }
                }
            }
            let mut j: usize = 0;
            while j < self.edges.len()
                invariant
                    self.well_formed(),
                    g == self@,
                    from_s@ == from@,
                    to_s@ == to@,
                    from@ != to@,
                    str_views(visited@).no_duplicates(),
                    str_views(visited@).contains(from@),
                    str_views(visited@).contains(node@),
                    forall|k: int|
                        0 <= k < visited.len() ==> reachable(g, from@, #[trigger] visited[k]@),
                    forall|k: int|
                        0 <= k < visited.len() ==> #[trigger] str_views(visited@)[k] == from@
                            || self.node_seq().contains(str_views(visited@)[k]),
                    visited.len() <= self.nodes.len() + 1,
                    !str_views(visited@).contains(to@),
                    str_views(stack@).no_duplicates(),
                    !str_views(stack@).contains(node@),
                    forall|x: Seq<char>|
                        str_views(stack@).contains(x) ==> str_views(visited@).contains(x),
                    forall|e: Edge|
                        #[trigger] g.contains(e) && str_views(visited@).contains(e.0) && !str_views(
                            stack@,
                        ).contains(e.0) && e.0 != node@ ==> str_views(visited@).contains(e.1),
                    forall|k: int|
                        0 <= k < j && #[trigger] self.edges[k].0@ == node@ ==> str_views(
                            visited@,
                        ).contains(self.edges[k].1@),
                    visited.len() - stack.len() == v0 - (s0 - 1),
                    j <= self.edges.len(),
                decreases self.edges.len() - j,
            {
                if self.edges[j].0 == node {
                    let next = &self.edges[j].1;
                    proof {
                        self.lemma_view_contains(j as int);
                        let kn = choose|k: int|
                            0 <= k < str_views(visited@).len() && str_views(visited@)[k] == node@;
                        assert(reachable(g, from@, visited[kn]@));
                        lemma_reach_step(g, from@, node@, next@);
                    }
                    if *next == to_s {
                        return true;
                    }
                    if !contains_str(&visited, next) {
                        let ghost vis0 = str_views(visited@);
                        let ghost st0 = str_views(stack@);
                        visited.push(next.clone());
                        stack.push(next.clone());
                        proof {
                            assert(str_views(visited@) == vis0.push(next@));
                            assert(str_views(stack@) == st0.push(next@));
                            assert(self.node_seq().contains(next@)) by {
                                assert(g.contains((node@, next@)));
                                assert(endpoints(g).contains(next@));
                                assert(self.node_seq().to_set().contains(next@));
                            }
                            assert forall|x: Seq<char>| vis0.contains(x) implies str_views(
                                visited@,
                            ).contains(x) by {
                                let k = choose|k: int| 0 <= k < vis0.len() && vis0[k] == x;
                                assert(str_views(visited@)[k] == x);
                            }
                            assert(str_views(visited@)[vis0.len() as int] == next@);
                            assert(str_views(stack@)[st0.len() as int] == next@);
                            assert forall|x: Seq<char>| str_views(visited@).contains(x) implies (
                            vis0.contains(x) || x == next@) by {
                                let k = choose|k: int|
                                    0 <= k < str_views(visited@).len() && str_views(visited@)[k]
                                        == x;
                                if k < vis0.len() {
                                    assert(vis0[k] == x);
                                }
                            }
                            assert forall|x: Seq<char>| str_views(stack@).contains(x) implies (
                            st0.contains(x) || x == next@) by {
                                let k = choose|k: int|
                                    0 <= k < str_views(stack@).len() && str_views(stack@)[k] == x;
                                if k < st0.len() {
                                    assert(st0[k] == x);
                                }
                            }
                            assert forall|x: Seq<char>| st0.contains(x) implies str_views(
                                stack@,
                            ).contains(x) by {
                                let k = choose|k: int| 0 <= k < st0.len() && st0[k] == x;
                                assert(str_views(stack@)[k] == x);
                            }
                            assert forall|k: int|
                                0 <= k < visited.len() implies reachable(
                                g,
                                from@,
                                #[trigger] visited[k]@,
                            ) by {
                                if k < vis0.len() {
                                    assert(vis0[k] == visited[k]@);
                                }
                            }
                            assert forall|k: int|
                                0 <= k < visited.len() implies #[trigger] str_views(visited@)[k]
                                == from@ || self.node_seq().contains(str_views(visited@)[k]) by {
                                if k < vis0.len() {
                                    assert(vis0[k] == str_views(visited@)[k]);
                                }
                            }
                            lemma_distinct_bound(str_views(visited@), self.node_seq(), from@);
                            assert forall|x: Seq<char>| str_views(stack@).contains(x) implies str_views(
                                visited@,
                            ).contains(x) by {
                                if st0.contains(x) {
                                    assert(vis0.contains(x));
                                }
                            }
                        }
                    }
                }
                j += 1;
            }
            proof {
                assert forall|e: Edge|
                    #[trigger] g.contains(e) && str_views(visited@).contains(e.0) && !str_views(
                        stack@,
                    ).contains(e.0) implies str_views(visited@).contains(e.1) by {
                    if e.0 == node@ {
                        let k = self.lemma_view_index(e);
                        assert(self.edges[k].0@ == node@);
                    }
                }
            }
        }
        proof {
            let vs = str_views(visited@).to_set();
            assert(closed_under(g, vs)) by {
                assert forall|e: Edge| #[trigger] g.contains(e) && vs.contains(e.0) implies vs.contains(
                    e.1,
                ) by {
                    assert(!str_views(stack@).contains(e.0));
                }
            }
            if reachable(g, from@, to@) {
                let p = choose|p: Seq<Seq<char>>| #[trigger] path_from_to(g, p, from@, to@);
                lemma_closed_contains_reachable(g, vs, p, from@, to@);
            }
        }
        false
    }

    /// True if the edge `a -> b` is present.
    fn has_edge(&self, a: &String, b: &String) -> (res: bool)
        ensures
            res == self@.contains((a@, b@)),
    {
        let mut k: usize = 0;
        while k < self.edges.len()
            invariant
                k <= self.edges.len(),
                forall|i: int| 0 <= i < k ==> pair_views(self.edges@)[i] != (a@, b@),
            decreases self.edges.len() - k,
        {
            if self.edges[k].0 == *a && self.edges[k].1 == *b {
                proof {
                    self.lemma_view_contains(k as int);
                }
                return true;
            }
            assert(pair_views(self.edges@)[k as int] == (self.edges[k as int].0@, self.edges[k as int].1@));
            k += 1;
        }
        false
    }

    /// Adds the edge `from -> to` (`from` blocks `to`). Refuses it, leaving the
    /// graph unchanged, when `to` already reaches `from`, which includes
    /// `from == to`: the edge would close a cycle.
    pub fn add_edge(&mut self, from: &str, to: &str) -> (res: Result<(), &'static str>)
        requires
            old(self).well_formed(),
        ensures
            final(self).well_formed(),
            acyclic(final(self)@),
            match res {
                Ok(()) => !reachable(old(self)@, to@, from@) && final(self)@ == old(self)@.insert(
                    (from@, to@),
                ),
                Err(msg) => reachable(old(self)@, to@, from@) && *final(self) == *old(self) && msg@
                    == "cycle detected"@,
            },
    {
        if self.can_reach(to, from) {
            return Err("cycle detected");
        }
        let ghost g0 = self@;
        let ghost nodes0 = self.node_seq();
        let ghost edges0 = pair_views(self.edges@);
        let f: String = from.to_owned();
        let t: String = to.to_owned();
        proof {
            lemma_single_path(g0, from@);
        }
        if !self.has_edge(&f, &t) {
            self.edges.push((f.clone(), t.clone()));
            proof {
                assert(pair_views(self.edges@) =~= edges0.push((from@, to@)));
                lemma_push_distinct(edges0, (from@, to@));
                lemma_push_to_set(edges0, (from@, to@));
            }
        } else {
            assert(g0.insert((from@, to@)) =~= g0);
        }
        let ghost g1 = self@;
        assert(g1 == g0.insert((from@, to@)));
        if !contains_str(&self.nodes, &f) {
            let ghost ns = self.node_seq();
            self.nodes.push(f.clone());
            proof {
                assert(self.node_seq() =~= ns.push(from@));
                lemma_push_distinct(ns, from@);
                lemma_push_to_set(ns, from@);
            }
        }
        let ghost nodes1 = self.node_seq();
        assert(nodes1.to_set() == nodes0.to_set().insert(from@)) by {
            if nodes0.contains(from@) {
                assert(nodes0.to_set().insert(from@) =~= nodes0.to_set());
            }
        }
        if !contains_str(&self.nodes, &t) {
            let ghost ns = self.node_seq();
            self.nodes.push(t);
            proof {
                assert(self.node_seq() =~= ns.push(to@));
                lemma_push_distinct(ns, to@);
                lemma_push_to_set(ns, to@);
            }
        }
        proof {
            let nodes2 = self.node_seq();
            assert(nodes2.to_set() == nodes1.to_set().insert(to@)) by {
                if nodes1.contains(to@) {
                    assert(nodes1.to_set().insert(to@) =~= nodes1.to_set());
                }
            }
            lemma_endpoints_insert(g0, from@, to@);
            assert(nodes2.to_set() =~= endpoints(self@));
            lemma_insert_keeps_acyclic(g0, from@, to@);
        }
        Ok(())
    }

    /// Builds a graph from stored dependencies, keeping only `Blocks` links and
    /// silently skipping every link that would close a cycle.
    pub fn from_dependencies(deps: &[EventDependency]) -> (res: EventDag)
        ensures
            res.well_formed(),
            acyclic(res@),
            res@ == dag_from(deps@),
    {
        let mut dag = EventDag::new();
        let mut i: usize = 0;
        while i < deps.len()
            invariant
                i <= deps.len(),
                dag.well_formed(),
                dag@ == dag_from(deps@.take(i as int)),
            decreases deps.len() - i,
        {
            let dep = &deps[i];
            assert(deps@.take(i as int + 1).drop_last() =~= deps@.take(i as int));
            assert(deps@.take(i as int + 1).last() == deps@[i as int]);
            if dep.dependency_type == DependencyType::Blocks {
                let _ = dag.add_edge(dep.from_event_id.as_str(), dep.to_event_id.as_str());
            }
            i += 1;
        }
        assert(deps@.take(deps.len() as int) =~= deps@);
        dag
    }

    /// True when every blocker of `id` is in `done`.
    fn blockers_done(&self, id: &String, done: &Vec<String>) -> (res: bool)
        ensures
            res == (forall|b: Seq<char>| #[trigger] self@.contains((b, id@)) ==> str_views(done@).contains(b)),
    {
        let mut k: usize = 0;
        while k < self.edges.len()
            invariant
                k <= self.edges.len(),
                forall|i: int|
                    0 <= i < k && #[trigger] self.edges[i].1@ == id@ ==> str_views(done@).contains(
                        self.edges[i].0@,
                    ),
            decreases self.edges.len() - k,
        {
            if self.edges[k].1 == *id {
                if !contains_str(done, &self.edges[k].0) {
                    proof {
                        self.lemma_view_contains(k as int);
                    }
                    return false;
                }
            }
            k += 1;
        }
        proof {
            assert forall|b: Seq<char>| #[trigger] self@.contains((b, id@)) implies str_views(
                done@,
            ).contains(b) by {
                let i = self.lemma_view_index((b, id@));
                assert(self.edges[i].1@ == id@);
            }
        }
        true
    }

    /// The ids, in their given order, that are not complete and whose blockers
    /// are all complete.
    pub fn next_actionable(&self, all_event_ids: &[&str], completed_ids: &Vec<String>) -> (res: Vec<String>)
        ensures
            str_views(res@) == actionable_ids(
                self@,
                all_event_ids@.map_values(|s: &str| s@),
                str_views(completed_ids@).to_set(),
            ),
    {
        let ghost ids = all_event_ids@.map_values(|s: &str| s@);
        let ghost done = str_views(completed_ids@).to_set();
        let mut res: Vec<String> = Vec::new();
        let mut i: usize = 0;
        while i < all_event_ids.len()
            invariant
                i <= all_event_ids.len(),
                ids == all_event_ids@.map_values(|s: &str| s@),
                done == str_views(completed_ids@).to_set(),
                str_views(res@) == actionable_ids(self@, ids.take(i as int), done),
            decreases all_event_ids.len() - i,
        {
            let id: String = all_event_ids[i].to_owned();
            assert(ids.take(i as int + 1).drop_last() =~= ids.take(i as int));
            assert(ids.take(i as int + 1).last() == id@);
            let ghost before = str_views(res@);
            if !contains_str(completed_ids, &id) && self.blockers_done(&id, completed_ids) {
                res.push(id);
                assert(str_views(res@) =~= before.push(ids[i as int]));
            }
            i += 1;
        }
        assert(ids.take(all_event_ids.len() as int) =~= ids);
        res
    }

    /// The events that directly block `event_id`, each once.
    pub fn direct_blockers(&self, event_id: &str) -> (res: Vec<String>)
        requires
            self.well_formed(),
        ensures
            str_views(res@).no_duplicates(),
            forall|b: Seq<char>| str_views(res@).contains(b) <==> self@.contains((b, event_id@)),
    {
        let id: String = event_id.to_owned();
        let mut res: Vec<String> = Vec::new();
        let mut k: usize = 0;
        while k < self.edges.len()
            invariant
                k <= self.edges.len(),
                self.well_formed(),
                id@ == event_id@,
                str_views(res@).no_duplicates(),
                forall|b: Seq<char>|
                    str_views(res@).contains(b) <==> exists|i: int|
                        0 <= i < k && #[trigger] pair_views(self.edges@)[i] == (b, id@),
            decreases self.edges.len() - k,
        {
            let ghost before = str_views(res@);
            let ghost e = pair_views(self.edges@)[k as int];
            assert(e == (self.edges[k as int].0@, self.edges[k as int].1@));
            if self.edges[k].1 == id {
                let b = self.edges[k].0.clone();
                proof {
                    if before.contains(b@) {
                        let i = choose|i: int| 0 <= i < k && #[trigger] pair_views(self.edges@)[i] == (b@, id@);
                        assert(pair_views(self.edges@)[i] == pair_views(self.edges@)[k as int]);
                    }
                }
                res.push(b);
                proof {
                    assert(str_views(res@) =~= before.push(e.0));
                    lemma_push_distinct(before, e.0);
                    assert forall|x: Seq<char>| str_views(res@).contains(x) <==> exists|i: int|
                        0 <= i < k + 1 && #[trigger] pair_views(self.edges@)[i] == (x, id@) by {
                        if str_views(res@).contains(x) {
                            let j = choose|j: int| 0 <= j < str_views(res@).len() && str_views(res@)[j] == x;
                            if j < before.len() {
                                assert(before[j] == x);
                                assert(before.contains(x));
                            } else {
                                assert(pair_views(self.edges@)[k as int] == (x, id@));
                            }
                        }
                        if exists|i: int| 0 <= i < k + 1 && #[trigger] pair_views(self.edges@)[i] == (x, id@) {
                            let i = choose|i: int| 0 <= i < k + 1 && #[trigger] pair_views(self.edges@)[i] == (x, id@);
                            if i < k {
                                assert(before.contains(x));
                                let j = choose|j: int| 0 <= j < before.len() && before[j] == x;
                                assert(str_views(res@)[j] == x);
                            } else {
                                assert(str_views(res@)[before.len() as int] == x);
                            }
                        }
                    }
                }
            } else {
                proof {
                    assert forall|x: Seq<char>| str_views(res@).contains(x) <==> exists|i: int|
                        0 <= i < k + 1 && #[trigger] pair_views(self.edges@)[i] == (x, id@) by {
                        if exists|i: int| 0 <= i < k + 1 && #[trigger] pair_views(self.edges@)[i] == (x, id@) {
                            let i = choose|i: int| 0 <= i < k + 1 && #[trigger] pair_views(self.edges@)[i] == (x, id@);
                            assert(i < k);
                        }
                    }
                }
            }
            k += 1;
        }
        proof {
            assert forall|b: Seq<char>| str_views(res@).contains(b) <==> self@.contains((b, event_id@)) by {
                if self@.contains((b, event_id@)) {
                    let i = self.lemma_view_index((b, event_id@));
                    assert(pair_views(self.edges@)[i] == (b, id@));
                }
                if str_views(res@).contains(b) {
                    let i = choose|i: int| 0 <= i < self.edges.len() && #[trigger] pair_views(self.edges@)[i] == (b, id@);
                    self.lemma_view_contains(i);
                }
            }
        }
        res
    }

    /// A node not yet in `out` whose blockers are all in `out`, if any.
    fn find_ready(&self, out: &Vec<String>) -> (res: Option<usize>)
        ensures
            match res {
                Some(k) => k < self.nodes.len() && !str_views(out@).contains(self.nodes[k as int]@)
                    && forall|b: Seq<char>| #[trigger] self@.contains((b, self.nodes[k as int]@))
                    ==> str_views(out@).contains(b),
                None => forall|k: int|
                    0 <= k < self.nodes.len() ==> str_views(out@).contains(
                        #[trigger] self.nodes[k]@,
                    ) || exists|b: Seq<char>|
                        self@.contains((b, self.nodes[k]@)) && !str_views(out@).contains(b),
            },
    {
        let mut k: usize = 0;
        while k < self.nodes.len()
            invariant
                k <= self.nodes.len(),
                forall|i: int|
                    0 <= i < k ==> str_views(out@).contains(#[trigger] self.nodes[i]@) || exists|
                        b: Seq<char>,
                    | self@.contains((b, self.nodes[i]@)) && !str_views(out@).contains(b),
            decreases self.nodes.len() - k,
        {
            if !contains_str(out, &self.nodes[k]) && self.blockers_done(&self.nodes[k], out) {
                return Some(k);
            }
            k += 1;
        }
        None
    }

    /// All nodes, each once, with every blocker before the events it blocks.
    /// Always succeeds: the graph has no cycle.
    pub fn topological_sort(&self) -> (res: Option<Vec<String>>)
        requires
            self.well_formed(),
        ensures
            res is Some,
            res matches Some(s) ==> {
                &&& str_views(s@).no_duplicates()
                &&& str_views(s@).to_set() == endpoints(self@)
                &&& respects_order(self@, str_views(s@))
            },
    {
        proof {
            self.lemma_nodes();
        }
        let n = self.nodes.len();
        let mut out: Vec<String> = Vec::new();
        assert(str_views(out@) =~= Seq::<Seq<char>>::empty());
        while out.len() < n
            invariant
                self.well_formed(),
                n == self.nodes.len(),
                endpoints(self@).len() == n,
                endpoints(self@).finite(),
                self.node_seq().to_set() == endpoints(self@),
                str_views(out@).no_duplicates(),
                forall|x: Seq<char>| str_views(out@).contains(x) ==> endpoints(self@).contains(x),
                respects_order(self@, str_views(out@)),
            decreases n - out.len(),
        {
            proof {
                let os = str_views(out@);
                os.unique_seq_to_set();
                assert(os.to_set().subset_of(endpoints(self@)));
                vstd::set_lib::lemma_len_subset(os.to_set(), endpoints(self@));
            }
            match self.find_ready(&out) {
                Some(k) => {
                    let ghost before = str_views(out@);
                    let c = self.nodes[k].clone();
                    out.push(c);
                    proof {
                        let after = str_views(out@);
                        assert(after =~= before.push(self.nodes[k as int]@));
                        lemma_push_distinct(before, self.nodes[k as int]@);
                        assert(self.node_seq()[k as int] == self.nodes[k as int]@);
                        assert(self.node_seq().to_set().contains(self.nodes[k as int]@));
                        assert forall|x: Seq<char>| after.contains(x) implies endpoints(self@).contains(x) by {
                            let i = choose|i: int| 0 <= i < after.len() && after[i] == x;
                            if i < before.len() {
                                assert(before[i] == x);
                            }
                        }
                        assert forall|j: int, x: Seq<char>|
                            0 <= j < after.len() && #[trigger] self@.contains((x, after[j])) implies exists|i: int|
                                0 <= i < j && after[i] == x by {
                            if j < before.len() {
                                assert(before[j] == after[j]);
                                let i = choose|i: int| 0 <= i < j && before[i] == x;
                                assert(after[i] == x);
                            } else {
                                assert(before.contains(x));
                                let i = choose|i: int| 0 <= i < before.len() && before[i] == x;
                                assert(after[i] == x);
                            }
                        }
                    }
                },
                None => {
                    proof {
                        let os = str_views(out@).to_set();
                        let r = endpoints(self@).difference(os);
                        assert forall|v: Seq<char>| #[trigger] r.contains(v) implies exists|u: Seq<char>|
                            r.contains(u) && self@.contains((u, v)) by {
                            assert(self.node_seq().to_set().contains(v));
                            let k = choose|k: int| 0 <= k < self.node_seq().len() && self.node_seq()[k] == v;
                            assert(self.nodes[k]@ == v);
                            assert(!str_views(out@).contains(self.nodes[k]@));
                            let b = choose|b: Seq<char>| self@.contains((b, self.nodes[k]@)) && !str_views(out@).contains(b);
                            assert(endpoints(self@).contains(b));
                            assert(r.contains(b));
                        }
                        str_views(out@).unique_seq_to_set();
                        if r.len() == 0 {
                            vstd::set_lib::lemma_set_empty_equivalency_len(r);
                            assert(endpoints(self@).subset_of(os)) by {
                                assert forall|x: Seq<char>| endpoints(self@).contains(x) implies os.contains(x) by {
                                    if !os.contains(x) {
                                        assert(r.contains(x));
                                    }
                                }
                            }
                            vstd::set_lib::lemma_len_subset(endpoints(self@), os);
                        }
                        lemma_no_source_cycle(self@, r);
                    }
                    return None;
                },
            }
        }
        proof {
            let os = str_views(out@);
            os.unique_seq_to_set();
            assert(os.to_set() =~= endpoints(self@)) by {
                assert(os.to_set().subset_of(endpoints(self@)));
                assert forall|x: Seq<char>| endpoints(self@).contains(x) implies os.to_set().contains(x) by {
                    if !os.to_set().contains(x) {
                        assert(os.to_set().subset_of(endpoints(self@).remove(x)));
                        vstd::set_lib::lemma_len_subset(os.to_set(), endpoints(self@).remove(x));
                    }
                }
            }
        }
        Some(out)
    }

    /// The number of edges on the longest walk from `node`, given that every walk
    /// from `node` has at most `budget` vertices.
    fn height(&self, node: &String, budget: usize) -> (res: usize)
        requires
            self.well_formed(),
            budget >= 1,
            forall|p: Seq<Seq<char>>| #[trigger] path_from(self@, p, node@) ==> p.len() <= budget,
        ensures
            res < budget,
            exists|p: Seq<Seq<char>>| #[trigger] path_from(self@, p, node@) && p.len() == res + 1,
            forall|p: Seq<Seq<char>>| #[trigger] path_from(self@, p, node@) ==> p.len() <= res + 1,
        decreases budget,
    {
        let ghost g = self@;
        let mut best: usize = 0;
        let ghost mut wit: Seq<Seq<char>> = seq![node@];
        assert(path_from(g, wit, node@));
        let mut k: usize = 0;
        while k < self.edges.len()
            invariant
                self.well_formed(),
                g == self@,
                k <= self.edges.len(),
                budget >= 1,
                forall|p: Seq<Seq<char>>| #[trigger] path_from(g, p, node@) ==> p.len() <= budget,
                path_from(g, wit, node@),
                wit.len() == best + 1,
                best < budget,
                forall|i: int|
                    0 <= i < k && #[trigger] self.edges[i].0@ == node@ ==> forall|p: Seq<Seq<char>>|
                        #[trigger] path_from(g, p, self.edges[i].1@) ==> p.len() <= best,
            decreases self.edges.len() - k,
        {
            if self.edges[k].0 == *node {
                let w = &self.edges[k].1;
                proof {
                    self.lemma_view_contains(k as int);
                    assert forall|p: Seq<Seq<char>>| #[trigger] path_from(g, p, w@) implies p.len()
                        <= budget - 1 by {
                        lemma_path_prepend(g, node@, p);
                        assert(path_from(g, seq![node@] + p, node@));
                    }
                    lemma_single_path(g, w@);
                    assert(path_from(g, seq![w@], w@));
                }
                let h = self.height(w, budget - 1);
                if h + 1 > best {
                    proof {
                        let p = choose|p: Seq<Seq<char>>| #[trigger] path_from(g, p, w@) && p.len() == h + 1;
                        lemma_path_prepend(g, node@, p);
                        wit = seq![node@] + p;
                    }
                    best = h + 1;
                }
            }
            k += 1;
        }
        proof {
            assert forall|p: Seq<Seq<char>>| #[trigger] path_from(g, p, node@) implies p.len() <= best + 1 by {
                if p.len() >= 2 {
                    lemma_path_drop_first(g, p);
                    let i = self.lemma_view_index((p[0], p[1]));
                    assert(self.edges[i].0@ == node@);
                    assert(path_from(g, p.drop_first(), self.edges[i].1@));
                }
            }
        }
        best
    }

    /// The number of edges on the longest chain of blocking edges that starts at
    /// `node`; 0 for a node without successors or outside the graph.
    pub fn longest_path(&self, node: &str) -> (res: usize)
        requires
            self.well_formed(),
        ensures
            exists|p: Seq<Seq<char>>| #[trigger] path_from(self@, p, node@) && p.len() == res + 1,
            forall|p: Seq<Seq<char>>| #[trigger] path_from(self@, p, node@) ==> p.len() <= res + 1,
    {
        let id: String = node.to_owned();
        proof {
            self.lemma_nodes();
            lemma_single_path(self@, node@);
            assert(path_from(self@, seq![node@], node@));
        }
        let n = self.nodes.len();
        if n == 0 {
            proof {
                assert forall|p: Seq<Seq<char>>| #[trigger] path_from(self@, p, node@) implies p.len() <= 1 by {
                    if p.len() >= 2 {
                        lemma_path_in_endpoints(self@, p, 0);
                        vstd::set_lib::lemma_set_empty_equivalency_len(endpoints(self@));
                    }
                }
            }
            return 0;
        }
        proof {
            assert forall|p: Seq<Seq<char>>| #[trigger] path_from(self@, p, id@) implies p.len() <= n by {
                if p.len() >= 2 {
                    lemma_acyclic_path_len(self@, p);
                }
            }
        }
        self.height(&id, n)
    }

    /// The length of the critical path starting at `start`.
    pub fn critical_path_from(&self, start: &str) -> (res: usize)
        requires
            self.well_formed(),
        ensures
            exists|p: Seq<Seq<char>>| #[trigger] path_from(self@, p, start@) && p.len() == res + 1,
            forall|p: Seq<Seq<char>>| #[trigger] path_from(self@, p, start@) ==> p.len() <= res + 1,
    {
        self.longest_path(start)
    }
}

/// The graph built from a list of stored dependencies: each `Blocks` link is
/// added in order unless its target already reaches its source.
pub open spec fn dag_from(deps: Seq<EventDependency>) -> Set<Edge>
    decreases deps.len(),
{
    if deps.len() == 0 {
        Set::empty()
    } else {
        let g = dag_from(deps.drop_last());
        let d = deps.last();
        if d.dependency_type == DependencyType::Blocks && !reachable(
            g,
            d.to_event_id@,
            d.from_event_id@,
        ) {
            g.insert((d.from_event_id@, d.to_event_id@))
        } else {
            g
        }
    }
}

/// Every edge runs from an earlier element of `s` to a later one.
pub open spec fn respects_order(g: Set<Edge>, s: Seq<Seq<char>>) -> bool {
    forall|j: int, x: Seq<char>|
        0 <= j < s.len() && #[trigger] g.contains((x, s[j])) ==> exists|i: int| 0 <= i < j && s[i] == x
}

/// `id` is not complete and every event that blocks it is complete.
pub open spec fn actionable(g: Set<Edge>, id: Seq<char>, done: Set<Seq<char>>) -> bool {
    &&& !done.contains(id)
    &&& forall|b: Seq<char>| #[trigger] g.contains((b, id)) ==> done.contains(b)
}

/// The actionable ids of `ids`, in order.
pub open spec fn actionable_ids(g: Set<Edge>, ids: Seq<Seq<char>>, done: Set<Seq<char>>) -> Seq<Seq<char>>
    decreases ids.len(),
{
    if ids.len() == 0 {
        Seq::empty()
    } else {
        let rest = actionable_ids(g, ids.drop_last(), done);
        if actionable(g, ids.last(), done) {
            rest.push(ids.last())
        } else {
            rest
        }
    }
}

proof fn lemma_push_distinct<A>(s: Seq<A>, x: A)
    requires
        s.no_duplicates(),
        !s.contains(x),
    ensures
        s.push(x).no_duplicates(),
{
    let t = s.push(x);
    assert forall|i: int, j: int| 0 <= i < t.len() && 0 <= j < t.len() && i != j implies t[i]
        != t[j] by {
        if i < s.len() && j < s.len() {
            assert(s[i] != s[j]);
        } else if i < s.len() {
            assert(s[i] != x);
        } else if j < s.len() {
            assert(s[j] != x);
        }
    }
}

pub proof fn lemma_push_to_set<A>(s: Seq<A>, x: A)
    ensures
        s.push(x).to_set() == s.to_set().insert(x),
{
    let t = s.push(x);
    assert forall|y: A| t.to_set().contains(y) <==> s.to_set().insert(x).contains(y) by {
        if t.contains(y) {
            let i = choose|i: int| 0 <= i < t.len() && t[i] == y;
            if i < s.len() {
                assert(s[i] == y);
            }
        }
        if s.contains(y) {
            let i = choose|i: int| 0 <= i < s.len() && s[i] == y;
            assert(t[i] == y);
        }
        if y == x {
            assert(t[s.len() as int] == x);
        }
    }
    assert(t.to_set() =~= s.to_set().insert(x));
}

proof fn lemma_endpoints_insert(g: Set<Edge>, f: Seq<char>, t: Seq<char>)
    ensures
        endpoints(g.insert((f, t))) == endpoints(g).insert(f).insert(t),
{
    let h = g.insert((f, t));
    assert forall|n: Seq<char>| endpoints(h).contains(n) <==> endpoints(g).insert(f).insert(t).contains(n) by {
        if endpoints(h).contains(n) {
            let e = choose|e: Edge| #[trigger] h.contains(e) && (e.0 == n || e.1 == n);
            if e != (f, t) {
                assert(g.contains(e));
            }
        }
        if endpoints(g).contains(n) {
            let e = choose|e: Edge| #[trigger] g.contains(e) && (e.0 == n || e.1 == n);
            assert(h.contains(e));
        }
        if n == f || n == t {
            assert(h.contains((f, t)));
        }
    }
    assert(endpoints(h) =~= endpoints(g).insert(f).insert(t));
}

} // verus!
