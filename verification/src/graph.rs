//! The dependency graph over sibling step ids.
//!
//! Built from the link declarations of one parent step: an edge runs from a
//! step id to each id it depends on. The graph answers transitive-dependency
//! queries and detects cycles. Contracts are stated against walk-based
//! reachability over the edge list.

use vstd::prelude::*;
use vstd::seq_lib::*;
use vstd::set_lib::lemma_len_subset;
use vstd::string::StringExecFns;

use crate::link::LinkDefinition;
use crate::strutil::{seq_views, str_eq, vec_contains_string};

verus! {

broadcast use vstd::seq_lib::group_seq_lib_default, vstd::set::group_set_axioms, vstd::seq_lib::lemma_seq_contains_after_push;

/// A directed edge between two step ids, in view form.
pub type EdgeView = (Seq<char>, Seq<char>);

/// Graph for dependency resolution and cycle detection over links.
#[derive(Debug)]
pub struct LinkGraph {
    edges: Vec<(String, String)>,
}

impl View for LinkGraph {
    type V = Seq<EdgeView>;

    closed spec fn view(&self) -> Seq<EdgeView> {
        self.edges@.map_values(|e: (String, String)| (e.0@, e.1@))
    }
}

/// Whether `y` is the target of some edge.
pub open spec fn is_target(es: Seq<EdgeView>, y: Seq<char>) -> bool {
    exists|k: int| 0 <= k < es.len() && es[k].1 == y
}

/// Whether the edge list holds an edge from `a` to `b`.
pub open spec fn has_edge(es: Seq<EdgeView>, a: Seq<char>, b: Seq<char>) -> bool {
    exists|i: int| 0 <= i < es.len() && es[i].0 == a && es[i].1 == b
}

/// Whether `p` is a walk through the edge list: at least one edge, and an
/// edge between each pair of adjacent nodes.
pub open spec fn is_walk(es: Seq<EdgeView>, p: Seq<Seq<char>>) -> bool {
    &&& p.len() >= 2
    &&& forall|i: int| 0 <= i < p.len() - 1 ==> has_edge(es, #[trigger] p[i], p[i + 1])
}

/// Whether `b` is reachable from `a` through at least one edge.
pub open spec fn reaches(es: Seq<EdgeView>, a: Seq<char>, b: Seq<char>) -> bool {
    exists|p: Seq<Seq<char>>| is_walk(es, p) && p.first() == a && p.last() == b
}

/// Whether the edge list holds a cycle: some id reaches itself.
pub open spec fn spec_has_cycle(es: Seq<EdgeView>) -> bool {
    exists|a: Seq<char>| reaches(es, a, a)
}

/// An edge is a walk of length two.
pub proof fn lemma_edge_reaches(es: Seq<EdgeView>, a: Seq<char>, b: Seq<char>)
    requires
        has_edge(es, a, b),
    ensures
        reaches(es, a, b),
{
    let p = seq![a, b];
    assert(is_walk(es, p));
    assert(p.first() == a && p.last() == b);
}

/// Two walks that meet in the middle compose to a longer reach.
pub proof fn lemma_reaches_trans(es: Seq<EdgeView>, a: Seq<char>, m: Seq<char>, b: Seq<char>)
    requires
        reaches(es, a, m),
        reaches(es, m, b),
    ensures
        reaches(es, a, b),
{
    let p1 = choose|p: Seq<Seq<char>>| is_walk(es, p) && p.first() == a && p.last() == m;
    let p2 = choose|p: Seq<Seq<char>>| is_walk(es, p) && p.first() == m && p.last() == b;
    let p = p1 + p2.drop_first();
    assert forall|i: int| 0 <= i < p.len() - 1 implies has_edge(es, #[trigger] p[i], p[i + 1]) by {
        if i < p1.len() - 1 {
            assert(p[i] == p1[i] && p[i + 1] == p1[i + 1]);
        } else if i == p1.len() - 1 {
            assert(p[i] == p1[p1.len() - 1]);
            assert(p[i + 1] == p2[1]);
            assert(has_edge(es, p2[0], p2[1]));
        } else {
            let j = i - p1.len() + 1;
            assert(p[i] == p2[j] && p[i + 1] == p2[j + 1]);
            assert(has_edge(es, p2[j], p2[j + 1]));
        }
    }
    assert(is_walk(es, p));
    assert(p.first() == a);
    assert(p.last() == b);
}

/// A reach decomposes into a first edge and, unless it was one edge long,
/// a remaining reach.
pub proof fn lemma_reaches_head(es: Seq<EdgeView>, a: Seq<char>, b: Seq<char>)
    requires
        reaches(es, a, b),
    ensures
        exists|m: Seq<char>|
            has_edge(es, a, m) && (m == b || reaches(es, m, b)),
{
    let p = choose|p: Seq<Seq<char>>| is_walk(es, p) && p.first() == a && p.last() == b;
    let m = p[1];
    assert(has_edge(es, p[0], p[1]));
    if p.len() == 2 {
        assert(m == b);
    } else {
        let q = p.drop_first();
        assert forall|i: int| 0 <= i < q.len() - 1 implies has_edge(es, #[trigger] q[i], q[i + 1]) by {
            assert(q[i] == p[i + 1] && q[i + 1] == p[i + 2]);
            assert(has_edge(es, p[i + 1], p[i + 2]));
        }
        assert(is_walk(es, q));
        assert(q.first() == m && q.last() == b);
        assert(reaches(es, m, b));
    }
    assert(has_edge(es, a, m) && (m == b || reaches(es, m, b)));
}

/// Everything reachable from a walk's second node lies inside a set that is
/// closed under edges and holds that node.
proof fn lemma_walk_in_closed(es: Seq<EdgeView>, vset: Set<Seq<char>>, p: Seq<Seq<char>>)
    requires
        is_walk(es, p),
        vset.contains(p[1]),
        forall|x: Seq<char>, m: Seq<char>|
            vset.contains(x) && has_edge(es, x, m) ==> vset.contains(m),
    ensures
        vset.contains(p.last()),
    decreases p.len(),
{
    if p.len() == 2 {
    } else {
        let q = p.drop_first();
        assert forall|i: int| 0 <= i < q.len() - 1 implies has_edge(es, #[trigger] q[i], q[i + 1]) by {
            assert(q[i] == p[i + 1] && q[i + 1] == p[i + 2]);
            assert(has_edge(es, p[i + 1], p[i + 2]));
        }
        assert(is_walk(es, q));
        assert(has_edge(es, q[0], q[1]));
        assert(vset.contains(q[1]));
        lemma_walk_in_closed(es, vset, q);
        assert(q.last() == p.last());
    }
}

/// Everything reachable from `s` lies inside a set that holds every direct
/// target of `s` and is closed under edges.
pub proof fn lemma_reach_in_closed(
    es: Seq<EdgeView>,
    vset: Set<Seq<char>>,
    s: Seq<char>,
    b: Seq<char>,
)
    requires
        forall|m: Seq<char>| has_edge(es, s, m) ==> vset.contains(m),
        forall|x: Seq<char>, m: Seq<char>|
            vset.contains(x) && has_edge(es, x, m) ==> vset.contains(m),
        reaches(es, s, b),
    ensures
        vset.contains(b),
{
    let p = choose|p: Seq<Seq<char>>| is_walk(es, p) && p.first() == s && p.last() == b;
    assert(has_edge(es, p[0], p[1]));
    assert(vset.contains(p[1]));
    lemma_walk_in_closed(es, vset, p);
}

impl LinkGraph {
    /// Create a new empty graph.
    pub fn new() -> (r: Self)
        ensures
            r@ == Seq::<EdgeView>::empty(),
    {
        let r = LinkGraph { edges: Vec::new() };
        proof {
            assert(r@ =~= Seq::<EdgeView>::empty());
        }
        r
    }

    /// Build a graph holding one edge per link declaration, in declaration
    /// order.
    pub fn from_links(links: &Vec<LinkDefinition>) -> (r: Self)
        ensures
            r@ == links@.map_values(|l: LinkDefinition| (l@.from, l@.to)),
    {
        let mut graph = LinkGraph::new();
        let n = links.len();
        let mut i: usize = 0;
        while i < n
            invariant
                0 <= i <= n,
                n == links@.len(),
                graph@ == links@.subrange(0, i as int).map_values(
                    |l: LinkDefinition| (l@.from, l@.to),
                ),
            decreases n - i,
        {
            let ghost prev = graph@;
            graph.add_edge(links[i].from.as_str(), links[i].to.as_str());
            i = i + 1;
            proof {
                assert(graph@ =~= links@.subrange(0, i as int).map_values(
                    |l: LinkDefinition| (l@.from, l@.to),
                ));
            }
        }
        proof {
            assert(links@.subrange(0, n as int) =~= links@);
        }
        graph
    }

    /// Add an edge from source to target.
    pub fn add_edge(&mut self, from: &str, to: &str)
        ensures
            final(self)@ == old(self)@.push((from@, to@)),
    {
        self.edges.push((String::from_str(from), String::from_str(to)));
        proof {
            assert(self@ =~= old(self)@.push((from@, to@)));
        }
    }

    /// The number of edges.
    pub fn edge_count(&self) -> (r: usize)
        ensures
            r == self@.len(),
    {
        self.edges.len()
    }

    /// Get all step ids that the given step depends on, directly or
    /// indirectly, without duplicates.
    pub fn get_dependencies(&self, step_id: &str) -> (r: Vec<String>)
        ensures
            seq_views(r@).no_duplicates(),
            forall|y: Seq<char>| #[trigger] seq_views(r@).contains(y) <==> reaches(
                self@,
                step_id@,
                y,
            ),
    {
        let ghost es = self@;
        proof {
            assert(forall|k: int| 0 <= k < es.len() ==> #[trigger] es[k] == (
                self.edges@[k].0@,
                self.edges@[k].1@,
            ));
        }
        let mut visited: Vec<String> = Vec::new();
        let mut changed = true;
        while changed
            invariant
                es == self@,
                visited@.len() <= es.len(),
                seq_views(visited@).no_duplicates(),
                forall|j: int| 0 <= j < visited@.len() ==> reaches(
                    es,
                    step_id@,
                    #[trigger] seq_views(visited@)[j],
                ),
                forall|j: int| 0 <= j < visited@.len() ==> is_target(
                    es,
                    #[trigger] seq_views(visited@)[j],
                ),
                !changed ==> forall|k: int|
                    0 <= k < es.len() && (es[k].0 == step_id@ || seq_views(visited@).contains(
                        #[trigger] es[k].0,
                    )) ==> seq_views(visited@).contains(es[k].1),
            decreases es.len() + 1 - visited@.len(), (if changed { 1int } else { 0int }),
        {
            proof {
                lemma_visited_bounded(es, seq_views(visited@));
            }
            let ghost start_visited = visited@;
            changed = false;
            let n = self.edges.len();
            let mut ei: usize = 0;
            while ei < n
                invariant
                    n == self.edges@.len(),
                    0 <= ei <= n,
                    es == self@,
                    forall|k: int| 0 <= k < es.len() ==> #[trigger] es[k] == (
                        self.edges@[k].0@,
                        self.edges@[k].1@,
                    ),
                    seq_views(visited@).no_duplicates(),
                    forall|j: int| 0 <= j < visited@.len() ==> reaches(
                        es,
                        step_id@,
                        #[trigger] seq_views(visited@)[j],
                    ),
                    forall|j: int| 0 <= j < visited@.len() ==> is_target(
                        es,
                        #[trigger] seq_views(visited@)[j],
                    ),
                    start_visited.len() <= visited@.len(),
                    changed ==> visited@.len() > start_visited.len(),
                    !changed ==> visited@ == start_visited,
                    !changed ==> forall|k: int|
                        0 <= k < ei && (es[k].0 == step_id@ || seq_views(visited@).contains(
                            #[trigger] es[k].0,
                        )) ==> seq_views(visited@).contains(es[k].1),
                decreases n - ei,
            {
                let from_hits = str_eq(self.edges[ei].0.as_str(), step_id) || vec_contains_string(
                    &visited,
                    self.edges[ei].0.as_str(),
                );
                if from_hits {
                    let tgt = self.edges[ei].1.clone();
                    proof {
                        assert(es[ei as int].1 == tgt@);
                        assert(has_edge(es, es[ei as int].0, tgt@));
                    }
                    if !vec_contains_string(&visited, tgt.as_str()) {
                        let ghost pv = visited@;
                        proof {
                            // the new id is reached: through one edge from the
                            // start, or through a reached id
                            if es[ei as int].0 == step_id@ {
                                lemma_edge_reaches(es, step_id@, tgt@);
                            } else {
                                let j = choose|j: int|
                                    0 <= j < pv.len() && seq_views(pv)[j] == es[ei as int].0;
                                assert(reaches(es, step_id@, seq_views(pv)[j]));
                                lemma_edge_reaches(es, es[ei as int].0, tgt@);
                                lemma_reaches_trans(es, step_id@, es[ei as int].0, tgt@);
                            }
                        }
                        proof {
                            assert(is_target(es, tgt@));
                        }
                        visited.push(tgt);
                        changed = true;
                        proof {
                            crate::strutil::lemma_views_push(pv, visited@.last());
                            assert(seq_views(visited@) == seq_views(pv).push(
                                seq_views(visited@).last(),
                            ));
                        }
                    }
                }
                ei = ei + 1;
            }
            proof {
                lemma_visited_bounded(es, seq_views(visited@));
            }
        }
        proof {
            let vs = seq_views(visited@);
            assert forall|y: Seq<char>| vs.contains(y) implies reaches(es, step_id@, y) by {
                let j = choose|j: int| 0 <= j < vs.len() && vs[j] == y;
                assert(reaches(es, step_id@, vs[j]));
            }
            assert forall|y: Seq<char>| reaches(es, step_id@, y) implies vs.contains(y) by {
                assert forall|m: Seq<char>| has_edge(es, step_id@, m) implies vs.to_set().contains(
                    m,
                ) by {
                    let k = choose|k: int|
                        0 <= k < es.len() && es[k].0 == step_id@ && es[k].1 == m;
                    assert(vs.contains(es[k].1));
                }
                assert forall|x: Seq<char>, m: Seq<char>|
                    vs.to_set().contains(x) && has_edge(es, x, m) implies vs.to_set().contains(
                    m,
                ) by {
                    let k = choose|k: int| 0 <= k < es.len() && es[k].0 == x && es[k].1 == m;
                    assert(vs.contains(es[k].0));
                    assert(vs.contains(es[k].1));
                }
                lemma_reach_in_closed(es, vs.to_set(), step_id@, y);
                assert(vs.to_set().contains(y));
            }
        }
        visited
    }

    /// Check if the graph contains a cycle.
    pub fn has_cycle(&self) -> (r: bool)
        ensures
            r == spec_has_cycle(self@),
    {
        self.find_cycle().is_some()
    }

    /// Find a cycle in the graph, returning the cycle as a walk whose first
    /// and last ids are the same. Returns nothing exactly when no id can
    /// reach itself.
    pub fn find_cycle(&self) -> (r: Option<Vec<String>>)
        ensures
            match r {
                Some(p) => {
                    &&& spec_has_cycle(self@)
                    &&& is_walk(self@, seq_views(p@))
                    &&& seq_views(p@).first() == seq_views(p@).last()
                },
                None => !spec_has_cycle(self@),
            },
    {
        let ghost es = self@;
        proof {
            assert(forall|k: int| 0 <= k < es.len() ==> #[trigger] es[k] == (
                self.edges@[k].0@,
                self.edges@[k].1@,
            ));
        }
        // look for an edge source that reaches itself, in declaration order
        let n = self.edges.len();
        let mut start: Option<String> = None;
        let mut ei: usize = 0;
        while ei < n && start.is_none()
            invariant
                n == self.edges@.len(),
                0 <= ei <= n,
                es == self@,
                forall|k: int| 0 <= k < es.len() ==> #[trigger] es[k] == (
                    self.edges@[k].0@,
                    self.edges@[k].1@,
                ),
                start is None ==> forall|k: int| 0 <= k < ei ==> !reaches(
                    es,
                    #[trigger] es[k].0,
                    es[k].0,
                ),
                match start {
                    Some(v) => reaches(es, v@, v@),
                    None => true,
                },
            decreases n - ei,
        {
            let src = &self.edges[ei].0;
            let deps = self.get_dependencies(src.as_str());
            if vec_contains_string(&deps, src.as_str()) {
                start = Some(src.clone());
            }
            ei = ei + 1;
        }
        let v = match start {
            None => {
                proof {
                    // any cycle starts at the source of its first edge
                    assert forall|a: Seq<char>| !reaches(es, a, a) by {
                        if reaches(es, a, a) {
                            let p = choose|p: Seq<Seq<char>>|
                                is_walk(es, p) && p.first() == a && p.last() == a;
                            assert(has_edge(es, p[0], p[1]));
                            let k = choose|k: int|
                                0 <= k < es.len() && es[k].0 == p[0] && es[k].1 == p[1];
                            assert(!reaches(es, es[k].0, es[k].0));
                        }
                    }
                }
                return None;
            },
            Some(v) => v,
        };
        // walk forward from v through ids that can still close the loop,
        // until some id repeats; the repeated stretch is a cycle
        let mut path: Vec<String> = Vec::new();
        path.push(v.clone());
        let mut current = v.clone();
        proof {
            assert(seq_views(path@) =~= seq![v@]);
        }
        loop
            invariant
                es == self@,
                path@.len() >= 1,
                seq_views(path@)[0] == v@,
                seq_views(path@).no_duplicates(),
                current@ == seq_views(path@).last(),
                reaches(es, current@, v@),
                reaches(es, v@, v@),
                forall|i: int| 0 <= i < path@.len() - 1 ==> has_edge(
                    es,
                    #[trigger] seq_views(path@)[i],
                    seq_views(path@)[i + 1],
                ),
                forall|i: int| 1 <= i < path@.len() ==> is_target(
                    es,
                    #[trigger] seq_views(path@)[i],
                ),
            decreases es.len() + 2 - path@.len(),
        {
            proof {
                lemma_path_bounded(es, seq_views(path@));
            }
            let n2 = self.edges.len();
            let mut action: Option<(String, bool)> = None;
            let mut k: usize = 0;
            while k < n2 && action.is_none()
                invariant
                    n2 == self.edges@.len(),
                    0 <= k <= n2,
                    es == self@,
                    forall|j: int| 0 <= j < es.len() ==> #[trigger] es[j] == (
                        self.edges@[j].0@,
                        self.edges@[j].1@,
                    ),
                    action is None ==> forall|j: int|
                        0 <= j < k && #[trigger] es[j].0 == current@ ==> !(seq_views(
                            path@,
                        ).contains(es[j].1) || reaches(es, es[j].1, v@)),
                    match action {
                        Some(a) => {
                            &&& has_edge(es, current@, a.0@)
                            &&& (a.1 <==> seq_views(path@).contains(a.0@))
                            &&& (!a.1 ==> reaches(es, a.0@, v@))
                        },
                        None => true,
                    },
                decreases n2 - k,
            {
                if str_eq(self.edges[k].0.as_str(), current.as_str()) {
                    let m = self.edges[k].1.clone();
                    proof {
                        assert(es[k as int].0 == current@ && es[k as int].1 == m@);
                        assert(has_edge(es, current@, m@));
                    }
                    if vec_contains_string(&path, m.as_str()) {
                        action = Some((m, true));
                    } else {
                        let deps = self.get_dependencies(m.as_str());
                        if vec_contains_string(&deps, v.as_str()) {
                            action = Some((m, false));
                        }
                    }
                }
                k = k + 1;
            }
            let (m, closes) = match action {
                Some(a) => a,
                None => {
                    proof {
                        // a qualifying edge always exists while the loop can
                        // still be closed
                        lemma_reaches_head(es, current@, v@);
                        let m0 = choose|m0: Seq<char>|
                            has_edge(es, current@, m0) && (m0 == v@ || reaches(es, m0, v@));
                        let j = choose|j: int|
                            0 <= j < es.len() && es[j].0 == current@ && es[j].1 == m0;
                        if m0 == v@ {
                            assert(seq_views(path@).contains(v@)) by {
                                assert(seq_views(path@)[0] == v@);
                            }
                        }
                        assert(false);
                    }
                    proof {
                        assert(false);
                    }
                    unreached()
                },
            };
            if closes {
                // close the cycle at the first occurrence of the repeated id
                let plen = path.len();
                let mut j: usize = 0;
                let mut found = false;
                while j < plen && !found
                    invariant
                        0 <= j <= plen,
                        plen == path@.len(),
                        seq_views(path@).contains(m@),
                        found ==> j < plen && seq_views(path@)[j as int] == m@,
                        !found ==> forall|i: int| 0 <= i < j ==> #[trigger] seq_views(
                            path@,
                        )[i] != m@,
                    decreases plen - j, (if found { 0int } else { 1int }),
                {
                    if str_eq(path[j].as_str(), m.as_str()) {
                        found = true;
                    } else {
                        j = j + 1;
                    }
                }
                proof {
                    if !found {
                        let i0 = choose|i0: int|
                            0 <= i0 < path@.len() && seq_views(path@)[i0] == m@;
                        assert(false);
                    }
                }
                let mut cyc: Vec<String> = Vec::new();
                let mut i: usize = j;
                while i < plen
                    invariant
                        j <= i <= plen,
                        plen == path@.len(),
                        seq_views(cyc@) =~= seq_views(path@).subrange(j as int, i as int),
                    decreases plen - i,
                {
                    let ghost pc = cyc@;
                    cyc.push(path[i].clone());
                    i = i + 1;
                    proof {
                        crate::strutil::lemma_views_push(pc, cyc@.last());
                        assert(seq_views(cyc@) =~= seq_views(path@).subrange(j as int, i as int));
                    }
                }
                let ghost pc = cyc@;
                cyc.push(m);
                proof {
                    crate::strutil::lemma_views_push(pc, cyc@.last());
                    let cv = seq_views(cyc@);
                    let pv = seq_views(path@);
                    assert(cv =~= pv.subrange(j as int, plen as int).push(pv[j as int]));
                    assert(cv.len() >= 2);
                    assert(cv.first() == pv[j as int]);
                    assert(cv.last() == pv[j as int]);
                    assert forall|i: int| 0 <= i < cv.len() - 1 implies has_edge(
                        es,
                        #[trigger] cv[i],
                        cv[i + 1],
                    ) by {
                        if i < cv.len() - 2 {
                            assert(cv[i] == pv[j + i] && cv[i + 1] == pv[j + i + 1]);
                            assert(has_edge(es, pv[j + i], pv[j + i + 1]));
                        } else {
                            assert(cv[i] == pv[plen - 1]);
                            assert(pv[plen - 1] == current@);
                            assert(cv[i + 1] == pv[j as int]);
                        }
                    }
                    assert(is_walk(es, cv));
                }
                return Some(cyc);
            } else {
                // extend the walk with the fresh id
                let ghost pp = path@;
                proof {
                    assert(is_target(es, m@)) by {
                        let k2 = choose|k2: int|
                            0 <= k2 < es.len() && es[k2].0 == current@ && es[k2].1 == m@;
                    }
                }
                path.push(m.clone());
                current = m;
                proof {
                    crate::strutil::lemma_views_push(pp, path@.last());
                    assert(seq_views(path@) == seq_views(pp).push(current@));
                }
            }
        }
    }

    /// Get the step ids that directly depend on the given step, without
    /// duplicates.
    pub fn get_dependents(&self, step_id: &str) -> (r: Vec<String>)
        ensures
            seq_views(r@).no_duplicates(),
            forall|y: Seq<char>| #[trigger] seq_views(r@).contains(y) <==> has_edge(
                self@,
                y,
                step_id@,
            ),
    {
        let ghost es = self@;
        let mut found: Vec<String> = Vec::new();
        let n = self.edges.len();
        let mut ei: usize = 0;
        while ei < n
            invariant
                n == self.edges@.len(),
                0 <= ei <= n,
                es == self@,
                seq_views(found@).no_duplicates(),
                forall|j: int| 0 <= j < found@.len() ==> has_edge(
                    es,
                    #[trigger] seq_views(found@)[j],
                    step_id@,
                ),
                forall|k: int| 0 <= k < ei && es[k].1 == step_id@
                    ==> seq_views(found@).contains(es[k].0),
            decreases n - ei,
        {
            if str_eq(self.edges[ei].1.as_str(), step_id) {
                proof {
                    assert(es[ei as int] == (self.edges@[ei as int].0@,
                        self.edges@[ei as int].1@));
                }
                if !vec_contains_string(&found, self.edges[ei].0.as_str()) {
                    let ghost pf = found@;
                    let src = self.edges[ei].0.clone();
                    proof {
                        assert(has_edge(es, src@, step_id@));
                    }
                    found.push(src);
                    proof {
                        crate::strutil::lemma_views_push(pf, found@.last());
                        assert(seq_views(found@) == seq_views(pf).push(seq_views(found@).last()));
                    }
                }
            }
            ei = ei + 1;
        }
        proof {
            assert forall|y: Seq<char>| #[trigger] seq_views(found@).contains(y) implies has_edge(
                es,
                y,
                step_id@,
            ) by {
                let j = choose|j: int| 0 <= j < found@.len() && seq_views(found@)[j] == y;
                assert(has_edge(es, seq_views(found@)[j], step_id@));
            }
        }
        found
    }
}

/// A duplicate-free sequence of edge targets cannot outnumber the edges.
proof fn lemma_visited_bounded(es: Seq<EdgeView>, vs: Seq<Seq<char>>)
    requires
        vs.no_duplicates(),
        forall|j: int| 0 <= j < vs.len() ==> is_target(es, #[trigger] vs[j]),
    ensures
        vs.len() <= es.len(),
{
    let targets = es.map_values(|e: EdgeView| e.1);
    assert forall|j: int| 0 <= j < vs.len() implies targets.to_set().contains(#[trigger] vs[j]) by {
        assert(is_target(es, vs[j]));
        let k = choose|k: int| 0 <= k < es.len() && es[k].1 == vs[j];
        assert(targets[k] == vs[j]);
        assert(targets.contains(vs[j]));
    }
    vs.unique_seq_to_set();
    assert(vs.to_set().subset_of(targets.to_set()));
    broadcast use vstd::seq_lib::seq_to_set_is_finite;
    lemma_len_subset(vs.to_set(), targets.to_set());
    targets.lemma_cardinality_of_set();
}

/// A walk that starts anywhere and afterwards only passes through edge
/// targets, without repeating, cannot outgrow the edge count by more than
/// one.
proof fn lemma_path_bounded(es: Seq<EdgeView>, vs: Seq<Seq<char>>)
    requires
        vs.len() >= 1,
        vs.no_duplicates(),
        forall|i: int| 1 <= i < vs.len() ==> is_target(es, #[trigger] vs[i]),
    ensures
        vs.len() <= es.len() + 1,
{
    let rest = vs.drop_first();
    assert(rest.no_duplicates());
    assert forall|j: int| 0 <= j < rest.len() implies is_target(es, #[trigger] rest[j]) by {
        assert(rest[j] == vs[j + 1]);
    }
    lemma_visited_bounded(es, rest);
}

} // verus!
