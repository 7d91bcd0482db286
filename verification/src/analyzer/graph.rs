use vstd::prelude::*;

use crate::ast::ClassMember;
use crate::ast::CtorParam;
use crate::ast::Decl;
use crate::ast::ModuleItem;
use crate::ast::Program;
use crate::ast::SourceType;
use crate::graphs::covers;
use crate::graphs::has_cycle;
use crate::graphs::lemma_on_cycle_has_cycle;
use crate::graphs::on_cycle;
use crate::graphs::graph_add_node;
use crate::graphs::graph_edges;
use crate::graphs::graph_neighbors;
use crate::graphs::graph_new;
use crate::graphs::graph_nodes;
use crate::graphs::graph_toposort;
use crate::graphs::graph_update_edge;
use crate::text::str_eq;

verus! {

pub open spec fn names_view(v: Seq<String>) -> Seq<Seq<char>> {
    v.map_values(|s: String| s@)
}

pub open spec fn contains_seq(s: Seq<Seq<char>>, x: Seq<char>) -> bool {
    exists|i: int| 0 <= i < s.len() && s[i] == x
}

/// The position of the first occurrence of a name, or the length where
/// the name is absent.
pub open spec fn name_index(s: Seq<Seq<char>>, x: Seq<char>) -> int
    decreases s.len(),
{
    if s.len() == 0 {
        0
    } else if s[0] == x {
        0
    } else {
        1 + name_index(s.drop_first(), x)
    }
}

/// A name list extended idempotently: a present name changes nothing.
pub open spec fn add_name(s: Seq<Seq<char>>, x: Seq<char>) -> Seq<Seq<char>> {
    if contains_seq(s, x) {
        s
    } else {
        s.push(x)
    }
}

pub open spec fn uniq_names(s: Seq<Seq<char>>) -> bool {
    forall|i: int, j: int| 0 <= i < j < s.len() ==> s[i] != s[j]
}

pub proof fn lemma_name_index_props(s: Seq<Seq<char>>, x: Seq<char>)
    requires
        contains_seq(s, x),
    ensures
        0 <= name_index(s, x) < s.len(),
        s[name_index(s, x)] == x,
    decreases s.len(),
{
    if s.len() > 0 && s[0] != x {
        let i = choose|i: int| 0 <= i < s.len() && s[i] == x;
        assert(s.drop_first()[i - 1] == x);
        lemma_name_index_props(s.drop_first(), x);
    }
}

pub proof fn lemma_name_index_push_absent(s: Seq<Seq<char>>, x: Seq<char>)
    requires
        !contains_seq(s, x),
    ensures
        name_index(s.push(x), x) == s.len(),
    decreases s.len(),
{
    if s.len() == 0 {
        assert(s.push(x)[0] == x);
    } else {
        assert(s[0] != x);
        assert(s.push(x)[0] == s[0]);
        assert(s.push(x).drop_first() =~= s.drop_first().push(x));
        assert(!contains_seq(s.drop_first(), x)) by {
            if contains_seq(s.drop_first(), x) {
                let i = choose|i: int| 0 <= i < s.drop_first().len() && s.drop_first()[i] == x;
                assert(s[i + 1] == x);
            }
        }
        lemma_name_index_push_absent(s.drop_first(), x);
    }
}

pub proof fn lemma_name_index_push_other(s: Seq<Seq<char>>, x: Seq<char>, y: Seq<char>)
    requires
        contains_seq(s, x),
    ensures
        name_index(s.push(y), x) == name_index(s, x),
    decreases s.len(),
{
    if s.len() > 0 && s[0] != x {
        let i = choose|i: int| 0 <= i < s.len() && s[i] == x;
        assert(s.drop_first()[i - 1] == x);
        assert(s.push(y)[0] == s[0]);
        assert(s.push(y).drop_first() =~= s.drop_first().push(y));
        lemma_name_index_push_other(s.drop_first(), x, y);
    }
}

/// In a list without repeats, the position of a present element is the
/// position it stands at.
pub proof fn lemma_name_index_at(s: Seq<Seq<char>>, p: int)
    requires
        uniq_names(s),
        0 <= p < s.len(),
    ensures
        name_index(s, s[p]) == p,
    decreases p,
{
    if p > 0 {
        assert(s[0] != s[p]);
        assert(s.drop_first()[p - 1] == s[p]);
        assert(uniq_names(s.drop_first())) by {
            assert(forall|i: int, j: int|
                0 <= i < j < s.drop_first().len() ==> s.drop_first()[i] == s[i + 1]
                    && s.drop_first()[j] == s[j + 1]);
        }
        lemma_name_index_at(s.drop_first(), p - 1);
    }
}

/// A directed dependency graph over named components: an edge from one
/// component to another says the first depends on the second. Node and
/// edge insertion are idempotent.
pub struct DependencyGraph {
    graph: petgraph::graph::Graph<String, (), petgraph::Directed, usize>,
    names: Vec<String>,
}

impl DependencyGraph {
    /// The component names, in first-registration order.
    pub closed spec fn nodes(self) -> Seq<Seq<char>> {
        graph_nodes(self.graph)
    }

    /// The dependency edges, as pairs of node positions.
    pub closed spec fn edges(self) -> Set<(int, int)> {
        graph_edges(self.graph)
    }

    /// The graph's invariant: names are registered once each, and every
    /// edge joins registered nodes.
    pub closed spec fn wf(self) -> bool {
        &&& graph_nodes(self.graph) == names_view(self.names@)
        &&& uniq_names(graph_nodes(self.graph))
        &&& forall|e: (int, int)| #[trigger]
            graph_edges(self.graph).contains(e) ==> 0 <= e.0 < graph_nodes(self.graph).len() && 0
                <= e.1 < graph_nodes(self.graph).len()
    }

    pub fn new() -> (r: DependencyGraph)
        ensures
            r.wf(),
            r.nodes() == Seq::<Seq<char>>::empty(),
            r.edges() == Set::<(int, int)>::empty(),
    {
        let g = DependencyGraph { graph: graph_new(), names: Vec::new() };
        proof {
            assert(names_view(g.names@) =~= Seq::<Seq<char>>::empty());
        }
        g
    }

    fn find_name(&self, x: &str) -> (r: Option<usize>)
        ensures
            match r {
                Option::Some(i) => i < self.names@.len() && self.names@[i as int]@ == x@ && (
                forall|k: int| 0 <= k < i ==> self.names@[k]@ != x@),
                Option::None => !contains_seq(names_view(self.names@), x@),
            },
    {
        let mut i: usize = 0;
        while i < self.names.len()
            invariant
                i <= self.names@.len(),
                forall|k: int| 0 <= k < i ==> self.names@[k]@ != x@,
            decreases self.names@.len() - i,
        {
            if str_eq(self.names[i].as_str(), x) {
                return Option::Some(i);
            }
            i = i + 1;
        }
        proof {
            assert(!contains_seq(names_view(self.names@), x@)) by {
                if contains_seq(names_view(self.names@), x@) {
                    let j = choose|j: int|
                        0 <= j < names_view(self.names@).len() && names_view(self.names@)[j]
                            == x@;
                    assert(self.names@[j]@ == x@);
                }
            }
        }
        Option::None
    }

    /// Registers a component if it is new, and returns its position
    /// either way.
    pub fn add_node(&mut self, name: String) -> (idx: usize)
        requires
            old(self).wf(),
        ensures
            final(self).wf(),
            final(self).nodes() == add_name(old(self).nodes(), name@),
            final(self).edges() == old(self).edges(),
            idx < final(self).nodes().len(),
            final(self).nodes()[idx as int] == name@,
            idx as int == name_index(final(self).nodes(), name@),
    {
        match self.find_name(name.as_str()) {
            Option::Some(i) => {
                proof {
                    assert(names_view(self.names@)[i as int] == name@);
                    assert(contains_seq(self.nodes(), name@));
                    assert(add_name(self.nodes(), name@) == self.nodes());
                    lemma_name_index_at(self.nodes(), i as int);
                }
                i
            },
            Option::None => {
                let ghost old_nodes = self.nodes();
                let idx = graph_add_node(&mut self.graph, name.clone());
                self.names.push(name);
                proof {
                    assert(names_view(self.names@) =~= old_nodes.push(
                        self.names@.last()@,
                    ));
                    lemma_name_index_push_absent(old_nodes, self.names@.last()@);
                    assert(uniq_names(self.nodes())) by {
                        assert(forall|i: int|
                            0 <= i < old_nodes.len() ==> self.nodes()[i] == old_nodes[i]);
                    }
                }
                idx
            },
        }
    }

    /// Registers that `from` depends on `to`, adding either component as
    /// needed; reinserting an edge changes nothing.
    pub fn add_dependency(&mut self, from: &str, to: &str)
        requires
            old(self).wf(),
        ensures
            final(self).wf(),
            final(self).nodes() == add_name(add_name(old(self).nodes(), from@), to@),
            final(self).edges() == old(self).edges().insert(
                (
                    name_index(final(self).nodes(), from@),
                    name_index(final(self).nodes(), to@),
                ),
            ),
    {
        let from_idx = self.add_node(from.to_owned());
        let ghost mid_nodes = self.nodes();
        let to_idx = self.add_node(to.to_owned());
        proof {
            assert(contains_seq(mid_nodes, from@)) by {
                assert(mid_nodes[from_idx as int] == from@);
            }
            if !contains_seq(mid_nodes, to@) {
                lemma_name_index_push_other(mid_nodes, from@, to@);
            }
            lemma_name_index_at(self.nodes(), from_idx as int);
            lemma_name_index_at(self.nodes(), to_idx as int);
        }
        graph_update_edge(&mut self.graph, from_idx, to_idx);
    }

    /// A safe component initialization order: it lists exactly the
    /// registered components, each once, and for every dependency edge
    /// the dependency comes before its dependent.
    pub open spec fn valid_init_order(
        nodes: Seq<Seq<char>>,
        edges: Set<(int, int)>,
        out: Seq<Seq<char>>,
    ) -> bool {
        &&& out.len() == nodes.len()
        &&& forall|i: int| 0 <= i < out.len() ==> contains_seq(nodes, #[trigger] out[i])
        &&& uniq_names(out)
        &&& forall|a: int, b: int| #[trigger]
            edges.contains((a, b)) && 0 <= a < nodes.len() && 0 <= b < nodes.len() ==> name_index(
                out,
                nodes[b],
            ) < name_index(out, nodes[a])
    }

    /// Computes an initialization order in which dependencies precede
    /// dependents: every registered component exactly once, each after
    /// everything it depends on. Every acyclic graph is ordered; a cyclic
    /// graph yields no partial order, only an error naming a registered
    /// component that lies on a cycle.
    pub fn get_initialization_order(&self) -> (r: Result<Vec<String>, String>)
        requires
            self.wf(),
        ensures
            match r {
                Result::Ok(v) => Self::valid_init_order(
                    self.nodes(),
                    self.edges(),
                    names_view(v@),
                ),
                Result::Err(m) => contains_seq(self.nodes(), m@) && on_cycle(
                    self.edges(),
                    name_index(self.nodes(), m@),
                ),
            },
            !has_cycle(self.edges()) ==> r is Ok,
    {
        match graph_toposort(&self.graph) {
            Result::Err(c) => {
                proof {
                    assert(names_view(self.names@)[c as int] == self.names@[c as int]@);
                    lemma_name_index_at(self.nodes(), c as int);
                    lemma_on_cycle_has_cycle(self.edges(), c as int);
                }
                Result::Err(self.names[c].clone())
            },
            Result::Ok(order) => {
                let n = order.len();
                let mut out: Vec<String> = Vec::new();
                let mut k: usize = 0;
                while k < n
                    invariant
                        self.wf(),
                        n == order@.len(),
                        n == self.nodes().len(),
                        forall|i: int| 0 <= i < n ==> order@[i] < n,
                        k <= n,
                        out@.len() == k,
                        forall|p: int|
                            0 <= p < k ==> (#[trigger] out@[p])@ == self.nodes()[order@[n - 1
                                - p] as int],
                    decreases n - k,
                {
                    let idx = order[n - 1 - k];
                    out.push(self.names[idx].clone());
                    k = k + 1;
                }
                proof {
                    let nodes = self.nodes();
                    let edges = self.edges();
                    let ov = names_view(out@);
                    assert(ov.len() == nodes.len());
                    assert forall|p: int| 0 <= p < ov.len() implies contains_seq(
                        nodes,
                        #[trigger] ov[p],
                    ) by {
                        assert(ov[p] == nodes[order@[n - 1 - p] as int]);
                    }
                    assert forall|p: int, q: int| 0 <= p < q < ov.len() implies ov[p] != ov[q] by {
                        assert(ov[p] == nodes[order@[n - 1 - p] as int]);
                        assert(ov[q] == nodes[order@[n - 1 - q] as int]);
                        assert(order@[n - 1 - p] != order@[n - 1 - q]);
                    }
                    assert forall|a: int, b: int|
                        #[trigger] edges.contains((a, b)) && 0 <= a < nodes.len() && 0 <= b
                            < nodes.len() implies name_index(ov, nodes[b]) < name_index(
                        ov,
                        nodes[a],
                    ) by {
                        assert(covers(order@, a));
                        assert(covers(order@, b));
                        let ia = choose|i: int| 0 <= i < order@.len() && order@[i] == a;
                        let ib = choose|i: int| 0 <= i < order@.len() && order@[i] == b;
                        assert(edges.contains((order@[ia] as int, order@[ib] as int)));
                        assert(ia < ib);
                        let pa = n - 1 - ia;
                        let pb = n - 1 - ib;
                        assert(ov[pa] == nodes[a]);
                        assert(ov[pb] == nodes[b]);
                        lemma_name_index_at(ov, pa);
                        lemma_name_index_at(ov, pb);
                    }
                }
                Result::Ok(out)
            },
        }
    }

    /// Whether a component of this name is registered.
    pub fn has_node(&self, name: &str) -> (b: bool)
        requires
            self.wf(),
        ensures
            b == contains_seq(self.nodes(), name@),
    {
        match self.find_name(name) {
            Option::Some(i) => {
                proof {
                    assert(names_view(self.names@)[i as int] == name@);
                }
                true
            },
            Option::None => false,
        }
    }

    /// The names this component's outgoing edges point at, each once, if
    /// the component is registered.
    pub fn get_dependencies(&self, node_name: &str) -> (r: Option<Vec<String>>)
        requires
            self.wf(),
        ensures
            match r {
                Option::Some(v) => {
                    &&& contains_seq(self.nodes(), node_name@)
                    &&& forall|i: int|
                        0 <= i < v@.len() ==> self.edges().contains(
                            (
                                name_index(self.nodes(), node_name@),
                                name_index(self.nodes(), (#[trigger] v@[i])@),
                            ),
                        )
                    &&& forall|t: int|
                        0 <= t < self.nodes().len() && #[trigger] self.edges().contains(
                            (name_index(self.nodes(), node_name@), t),
                        ) ==> crate::class::contains_name(v@, self.nodes()[t])
                    &&& forall|i: int, j: int|
                        0 <= i < j < v@.len() ==> (#[trigger] v@[i])@ != (#[trigger] v@[j])@
                },
                Option::None => !contains_seq(self.nodes(), node_name@),
            },
    {
        match self.find_name(node_name) {
            Option::None => Option::None,
            Option::Some(i) => {
                proof {
                    assert(names_view(self.names@)[i as int] == node_name@);
                    lemma_name_index_at(self.nodes(), i as int);
                }
                let nb = graph_neighbors(&self.graph, i);
                let mut out: Vec<String> = Vec::new();
                let mut k: usize = 0;
                while k < nb.len()
                    invariant
                        self.wf(),
                        i < self.nodes().len(),
                        self.nodes()[i as int] == node_name@,
                        i as int == name_index(self.nodes(), node_name@),
                        forall|p: int|
                            0 <= p < nb@.len() ==> nb@[p] < self.nodes().len() && self.edges(
                            ).contains((i as int, #[trigger] nb@[p] as int)),
                        k <= nb@.len(),
                        forall|p: int|
                            0 <= p < out@.len() ==> self.edges().contains(
                                (i as int, name_index(self.nodes(), (#[trigger] out@[p])@)),
                            ),
                        forall|q: int|
                            0 <= q < k ==> crate::class::contains_name(
                                out@,
                                self.nodes()[(#[trigger] nb@[q]) as int],
                            ),
                        forall|p: int, q: int|
                            0 <= p < q < out@.len() ==> (#[trigger] out@[p])@ != (
                            #[trigger] out@[q])@,
                    decreases nb@.len() - k,
                {
                    let name = &self.names[nb[k]];
                    let ghost pre = out@;
                    if !crate::class::contains_name_exec(&out, name.as_str()) {
                        out.push(name.clone());
                        proof {
                            lemma_name_index_at(self.nodes(), nb@[k as int] as int);
                            assert((out@[out@.len() - 1])@ == self.nodes()[nb@[k as int] as int]);
                            assert forall|q: int|
                                0 <= q < k + 1 implies crate::class::contains_name(
                                out@,
                                self.nodes()[(#[trigger] nb@[q]) as int],
                            ) by {
                                if q < k {
                                    let w = choose|w: int|
                                        0 <= w < pre.len() && (#[trigger] pre[w])@
                                            == self.nodes()[nb@[q] as int];
                                    assert((out@[w])@ == self.nodes()[nb@[q] as int]);
                                } else {
                                    assert((out@[out@.len() - 1])@ == self.nodes()[nb@[q] as int]);
                                }
                            }
                            assert forall|p: int, q: int|
                                0 <= p < q < out@.len() implies (#[trigger] out@[p])@ != (
                            #[trigger] out@[q])@ by {
                                if q == out@.len() - 1 {
                                    assert((out@[p])@ == (pre[p])@);
                                }
                            }
                        }
                    } else {
                        proof {
                            assert forall|q: int|
                                0 <= q < k + 1 implies crate::class::contains_name(
                                out@,
                                self.nodes()[(#[trigger] nb@[q]) as int],
                            ) by {
                                if q == k {
                                    let w = choose|w: int|
                                        0 <= w < out@.len() && (#[trigger] out@[w])@ == name@;
                                    assert((out@[w])@ == self.nodes()[nb@[k as int] as int]);
                                }
                            }
                        }
                    }
                    k = k + 1;
                }
                proof {
                    assert forall|t: int|
                        0 <= t < self.nodes().len() && #[trigger] self.edges().contains(
                            (name_index(self.nodes(), node_name@), t),
                        ) implies crate::class::contains_name(out@, self.nodes()[t]) by {
                        assert(crate::graphs::covers(nb@, t));
                        let q = choose|q: int| 0 <= q < nb@.len() && nb@[q] == t;
                        assert(crate::class::contains_name(
                            out@,
                            self.nodes()[nb@[q] as int],
                        ));
                    }
                }
                Option::Some(out)
            },
        }
    }
}

impl Default for DependencyGraph {
    /// An empty graph.
    fn default() -> (r: DependencyGraph)
        ensures
            r.wf(),
            r.nodes() == Seq::<Seq<char>>::empty(),
            r.edges() == Set::<(int, int)>::empty(),
    {
        DependencyGraph::new()
    }
}

/// A two-step dependency chain forces the unique order: the innermost
/// dependency first, the root component last.
pub proof fn lemma_chain_order(
    a: Seq<char>,
    b: Seq<char>,
    c: Seq<char>,
    nodes: Seq<Seq<char>>,
    edges: Set<(int, int)>,
    out: Seq<Seq<char>>,
)
    requires
        a != b,
        b != c,
        a != c,
        nodes == seq![a, b, c],
        edges.contains((0int, 1int)),
        edges.contains((1int, 2int)),
        DependencyGraph::valid_init_order(nodes, edges, out),
    ensures
        out == seq![c, b, a],
{
    assert(out.len() == 3);
    assert(contains_seq(nodes, out[0]));
    assert(contains_seq(nodes, out[1]));
    assert(contains_seq(nodes, out[2]));
    assert(name_index(out, nodes[1]) < name_index(out, nodes[0]));
    assert(name_index(out, nodes[2]) < name_index(out, nodes[1]));
    assert forall|p: int| 0 <= p < 3 implies contains_seq(out, nodes[p]) by {
        if !contains_seq(out, nodes[p]) {
            assert(out[0] == nodes[0] || out[0] == nodes[1] || out[0] == nodes[2]);
            assert(out[1] == nodes[0] || out[1] == nodes[1] || out[1] == nodes[2]);
            assert(out[2] == nodes[0] || out[2] == nodes[1] || out[2] == nodes[2]);
            assert(out[0] != out[1] && out[0] != out[2] && out[1] != out[2]);
        }
    }
    lemma_name_index_props(out, nodes[0]);
    lemma_name_index_props(out, nodes[1]);
    lemma_name_index_props(out, nodes[2]);
    let pa = name_index(out, a);
    let pb = name_index(out, b);
    let pc = name_index(out, c);
    assert(out[pa] == a && out[pb] == b && out[pc] == c);
    assert(pc < pb < pa < 3);
    assert(pc == 0 && pb == 1 && pa == 2);
    assert(out =~= seq![c, b, a]);
}

proof fn lemma_cycle_chain(
    nodes: Seq<Seq<char>>,
    edges: Set<(int, int)>,
    out: Seq<Seq<char>>,
    p: Seq<int>,
    k: int,
)
    requires
        DependencyGraph::valid_init_order(nodes, edges, out),
        crate::graphs::is_cycle_path(edges, p),
        forall|i: int| 0 <= i < p.len() ==> 0 <= #[trigger] p[i] < nodes.len(),
        0 <= k < p.len(),
    ensures
        name_index(out, nodes[p[k]]) + k <= name_index(out, nodes[p[0]]),
    decreases k,
{
    if k > 0 {
        lemma_cycle_chain(nodes, edges, out, p, k - 1);
        assert(edges.contains((p[k - 1], p[k - 1 + 1])));
        assert(edges.contains((p[k - 1], p[k])));
        assert(name_index(out, nodes[p[k]]) < name_index(out, nodes[p[k - 1]]));
    }
}

/// A dependency cycle among registered components rules out every
/// initialization order: positions would have to decrease around the
/// loop and come back below themselves.
pub proof fn lemma_cycle_blocks_order(
    nodes: Seq<Seq<char>>,
    edges: Set<(int, int)>,
    out: Seq<Seq<char>>,
    p: Seq<int>,
)
    requires
        crate::graphs::is_cycle_path(edges, p),
        forall|i: int| 0 <= i < p.len() ==> 0 <= #[trigger] p[i] < nodes.len(),
    ensures
        !DependencyGraph::valid_init_order(nodes, edges, out),
{
    if DependencyGraph::valid_init_order(nodes, edges, out) {
        lemma_cycle_chain(nodes, edges, out, p, p.len() - 1);
        assert(edges.contains((p.last(), p[0])));
        assert(name_index(out, nodes[p[0]]) < name_index(out, nodes[p.last()]));
    }
}

/// A mutual dependency admits no initialization order at all.
pub proof fn lemma_cycle_has_no_order(
    a: Seq<char>,
    b: Seq<char>,
    nodes: Seq<Seq<char>>,
    edges: Set<(int, int)>,
    out: Seq<Seq<char>>,
)
    requires
        nodes == seq![a, b],
        edges.contains((0int, 1int)),
        edges.contains((1int, 0int)),
    ensures
        !DependencyGraph::valid_init_order(nodes, edges, out),
{
    if DependencyGraph::valid_init_order(nodes, edges, out) {
        assert(name_index(out, nodes[1]) < name_index(out, nodes[0]));
        assert(name_index(out, nodes[0]) < name_index(out, nodes[1]));
    }
}

/// The dependency name a constructor parameter contributes, if any: the
/// name of its reference-typed annotation.
pub open spec fn dep_name_of(t: Option<SourceType>) -> Option<Seq<char>> {
    match t {
        Option::Some(ty) => match ty {
            SourceType::Reference(n, _) => Option::Some(n@),
            SourceType::Promise(_) => Option::Some("Promise"@),
            _ => Option::None,
        },
        Option::None => Option::None,
    }
}

/// One graph state folded over by the scan: names and edges.
pub open spec fn edge_state(
    st: (Seq<Seq<char>>, Set<(int, int)>),
    from: Seq<char>,
    to: Seq<char>,
) -> (Seq<Seq<char>>, Set<(int, int)>) {
    let n2 = add_name(add_name(st.0, from), to);
    (n2, st.1.insert((name_index(n2, from), name_index(n2, to))))
}

pub open spec fn params_fold(
    st: (Seq<Seq<char>>, Set<(int, int)>),
    class: Seq<char>,
    ps: Seq<CtorParam>,
) -> (Seq<Seq<char>>, Set<(int, int)>)
    decreases ps.len(),
{
    if ps.len() == 0 {
        st
    } else {
        let prev = params_fold(st, class, ps.drop_last());
        match dep_name_of(ps.last().type_ann) {
            Option::Some(dep) => edge_state(prev, class, dep),
            Option::None => prev,
        }
    }
}

pub open spec fn members_fold(
    st: (Seq<Seq<char>>, Set<(int, int)>),
    class: Seq<char>,
    ms: Seq<ClassMember>,
) -> (Seq<Seq<char>>, Set<(int, int)>)
    decreases ms.len(),
{
    if ms.len() == 0 {
        st
    } else {
        let prev = members_fold(st, class, ms.drop_last());
        match ms.last() {
            ClassMember::Ctor(c) => params_fold(prev, class, c.params@),
            _ => prev,
        }
    }
}

pub open spec fn class_fold(
    st: (Seq<Seq<char>>, Set<(int, int)>),
    c: crate::ast::ClassDecl,
) -> (Seq<Seq<char>>, Set<(int, int)>) {
    members_fold((add_name(st.0, c.name@), st.1), c.name@, c.members@)
}

pub open spec fn item_fold(
    st: (Seq<Seq<char>>, Set<(int, int)>),
    item: ModuleItem,
) -> (Seq<Seq<char>>, Set<(int, int)>) {
    match item {
        ModuleItem::Export(d) => match d {
            Decl::ClassD(c) => class_fold(st, c),
            _ => st,
        },
        ModuleItem::ExportDefault(d) => match d {
            Decl::ClassD(c) => class_fold(st, c),
            _ => st,
        },
        ModuleItem::Plain(d) => match d {
            Decl::ClassD(c) => class_fold(st, c),
            _ => st,
        },
        _ => st,
    }
}

pub open spec fn items_fold(
    st: (Seq<Seq<char>>, Set<(int, int)>),
    items: Seq<ModuleItem>,
) -> (Seq<Seq<char>>, Set<(int, int)>)
    decreases items.len(),
{
    if items.len() == 0 {
        st
    } else {
        item_fold(items_fold(st, items.drop_last()), items.last())
    }
}

pub open spec fn programs_fold(
    st: (Seq<Seq<char>>, Set<(int, int)>),
    programs: Seq<Program>,
) -> (Seq<Seq<char>>, Set<(int, int)>)
    decreases programs.len(),
{
    if programs.len() == 0 {
        st
    } else {
        items_fold(programs_fold(st, programs.drop_last()), programs.last().items@)
    }
}

impl DependencyGraph {
    fn register_params(&mut self, class: &str, ps: &Vec<CtorParam>)
        requires
            old(self).wf(),
        ensures
            final(self).wf(),
            (final(self).nodes(), final(self).edges()) == params_fold(
                (old(self).nodes(), old(self).edges()),
                class@,
                ps@,
            ),
    {
        let ghost st0 = (self.nodes(), self.edges());
        let mut i: usize = 0;
        while i < ps.len()
            invariant
                self.wf(),
                i <= ps@.len(),
                (self.nodes(), self.edges()) == params_fold(st0, class@, ps@.take(i as int)),
            decreases ps@.len() - i,
        {
            proof {
                assert(ps@.take(i + 1 as int).drop_last() =~= ps@.take(i as int));
                assert(ps@.take(i + 1 as int).last() == ps@[i as int]);
            }
            match &ps[i].type_ann {
                Option::Some(ty) => match ty {
                    SourceType::Reference(n, _) => {
                        self.add_dependency(class, n.as_str());
                    },
                    SourceType::Promise(_) => {
                        self.add_dependency(class, "Promise");
                    },
                    _ => {},
                },
                Option::None => {},
            }
            i = i + 1;
        }
        proof {
            assert(ps@.take(ps@.len() as int) =~= ps@);
        }
    }

    /// Registers one class: the class itself as a node, and one edge per
    /// reference-typed constructor parameter.
    pub fn register_class(&mut self, c: &crate::ast::ClassDecl)
        requires
            old(self).wf(),
        ensures
            final(self).wf(),
            (final(self).nodes(), final(self).edges()) == class_fold(
                (old(self).nodes(), old(self).edges()),
                *c,
            ),
    {
        let _ = self.add_node(c.name.clone());
        let ghost st1 = (self.nodes(), self.edges());
        let mut i: usize = 0;
        while i < c.members.len()
            invariant
                self.wf(),
                i <= c.members@.len(),
                (self.nodes(), self.edges()) == members_fold(
                    st1,
                    c.name@,
                    c.members@.take(i as int),
                ),
            decreases c.members@.len() - i,
        {
            proof {
                assert(c.members@.take(i + 1 as int).drop_last() =~= c.members@.take(i as int));
                assert(c.members@.take(i + 1 as int).last() == c.members@[i as int]);
            }
            match &c.members[i] {
                ClassMember::Ctor(ctor) => {
                    self.register_params(c.name.as_str(), &ctor.params);
                },
                _ => {},
            }
            i = i + 1;
        }
        proof {
            assert(c.members@.take(c.members@.len() as int) =~= c.members@);
        }
    }
}

/// Builds the dependency graph of a set of parsed files, from their class
/// declarations and constructor parameter types.
pub fn build_graph(programs: &Vec<Program>) -> (r: DependencyGraph)
    ensures
        r.wf(),
        (r.nodes(), r.edges()) == programs_fold(
            (Seq::<Seq<char>>::empty(), Set::<(int, int)>::empty()),
            programs@,
        ),
{
    let mut g = DependencyGraph::new();
    let mut p: usize = 0;
    while p < programs.len()
        invariant
            g.wf(),
            p <= programs@.len(),
            (g.nodes(), g.edges()) == programs_fold(
                (Seq::<Seq<char>>::empty(), Set::<(int, int)>::empty()),
                programs@.take(p as int),
            ),
        decreases programs@.len() - p,
    {
        proof {
            assert(programs@.take(p + 1 as int).drop_last() =~= programs@.take(p as int));
            assert(programs@.take(p + 1 as int).last() == programs@[p as int]);
        }
        let ghost stp = (g.nodes(), g.edges());
        let items = &programs[p].items;
        let mut i: usize = 0;
        while i < items.len()
            invariant
                g.wf(),
                i <= items@.len(),
                items@ == programs@[p as int].items@,
                (g.nodes(), g.edges()) == items_fold(stp, items@.take(i as int)),
            decreases items@.len() - i,
        {
            proof {
                assert(items@.take(i + 1 as int).drop_last() =~= items@.take(i as int));
                assert(items@.take(i + 1 as int).last() == items@[i as int]);
            }
            match &items[i] {
                ModuleItem::Export(d) => match d {
                    Decl::ClassD(c) => g.register_class(c),
                    _ => {},
                },
                ModuleItem::ExportDefault(d) => match d {
                    Decl::ClassD(c) => g.register_class(c),
                    _ => {},
                },
                ModuleItem::Plain(d) => match d {
                    Decl::ClassD(c) => g.register_class(c),
                    _ => {},
                },
                _ => {},
            }
            i = i + 1;
        }
        proof {
            assert(items@.take(items@.len() as int) =~= items@);
        }
        p = p + 1;
    }
    proof {
        assert(programs@.take(programs@.len() as int) =~= programs@);
    }
    g
}

} // verus!
