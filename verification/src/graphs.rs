use vstd::prelude::*;

verus! {

#[verifier::external_type_specification]
#[verifier::external_body]
#[verifier::reject_recursive_types(N)]
#[verifier::reject_recursive_types(E)]
#[verifier::reject_recursive_types(Ty)]
#[verifier::reject_recursive_types(Ix)]
pub struct ExGraph<N, E, Ty, Ix>(petgraph::graph::Graph<N, E, Ty, Ix>);

#[verifier::external_type_specification]
#[verifier::external_body]
pub struct ExDirected(petgraph::Directed);

/// The node names a graph value holds, in insertion order.
pub uninterp spec fn graph_nodes(
    g: petgraph::graph::Graph<String, (), petgraph::Directed, usize>,
) -> Seq<Seq<char>>;

/// Whether some position of `order` holds the index `v`.
pub open spec fn covers(order: Seq<usize>, v: int) -> bool {
    exists|i: int| 0 <= i < order.len() && order[i] == v
}

/// A directed cycle: a nonempty index sequence whose consecutive pairs,
/// last back to first included, are all edges.
pub open spec fn is_cycle_path(edges: Set<(int, int)>, p: Seq<int>) -> bool {
    &&& p.len() > 0
    &&& forall|i: int| 0 <= i < p.len() - 1 ==> #[trigger] edges.contains((p[i], p[i + 1]))
    &&& edges.contains((p.last(), p[0]))
}

pub open spec fn has_cycle(edges: Set<(int, int)>) -> bool {
    exists|p: Seq<int>| is_cycle_path(edges, p)
}

/// Whether the node `v` lies on some directed cycle.
pub open spec fn on_cycle(edges: Set<(int, int)>, v: int) -> bool {
    exists|p: Seq<int>| is_cycle_path(edges, p) && p.contains(v)
}

/// A node on a cycle witnesses that a cycle exists.
pub proof fn lemma_on_cycle_has_cycle(edges: Set<(int, int)>, v: int)
    requires
        on_cycle(edges, v),
    ensures
        has_cycle(edges),
{
    let p = choose|p: Seq<int>| is_cycle_path(edges, p) && p.contains(v);
    assert(is_cycle_path(edges, p));
}

proof fn lemma_forward_path_monotone(edges: Set<(int, int)>, p: Seq<int>, k: int)
    requires
        forall|e: (int, int)| #[trigger] edges.contains(e) ==> e.0 < e.1,
        is_cycle_path(edges, p),
        0 <= k < p.len(),
    ensures
        p[0] <= p[k],
    decreases k,
{
    if k > 0 {
        lemma_forward_path_monotone(edges, p, k - 1);
        assert(edges.contains((p[k - 1], p[k - 1 + 1])));
    }
}

/// An edge set whose every edge points from a smaller to a larger index
/// holds no cycle; this settles acyclicity for concretely laid out
/// graphs, and with it the success case of the ordering queries.
pub proof fn lemma_forward_edges_acyclic(edges: Set<(int, int)>)
    requires
        forall|e: (int, int)| #[trigger] edges.contains(e) ==> e.0 < e.1,
    ensures
        !has_cycle(edges),
{
    if has_cycle(edges) {
        let p = choose|p: Seq<int>| is_cycle_path(edges, p);
        lemma_forward_path_monotone(edges, p, p.len() - 1);
        assert(edges.contains((p.last(), p[0])));
    }
}

/// The edges a graph value holds, as pairs of node indices.
pub uninterp spec fn graph_edges(
    g: petgraph::graph::Graph<String, (), petgraph::Directed, usize>,
) -> Set<(int, int)>;

/// Relies on petgraph's Graph::with_capacity: a fresh graph holds no nodes
/// and no edges.
#[verifier::external_body]
pub(crate) fn graph_new() -> (g: petgraph::graph::Graph<String, (), petgraph::Directed, usize>)
    ensures
        graph_nodes(g) == Seq::<Seq<char>>::empty(),
        graph_edges(g) == Set::<(int, int)>::empty(),
{
    petgraph::graph::Graph::with_capacity(0, 0)
}

/// Relies on petgraph's Graph::add_node: the node is appended, edges stay,
/// and the fresh node's index is returned; with machine-word indices the
/// call does not run out of index space.
#[verifier::external_body]
pub(crate) fn graph_add_node(
    g: &mut petgraph::graph::Graph<String, (), petgraph::Directed, usize>,
    name: String,
) -> (idx: usize)
    ensures
        graph_nodes(*final(g)) == graph_nodes(*old(g)).push(name@),
        graph_edges(*final(g)) == graph_edges(*old(g)),
        idx == graph_nodes(*old(g)).len(),
{
    g.add_node(name).index()
}

/// Relies on petgraph's Graph::update_edge: the edge from `a` to `b` is
/// added, or its weight refreshed when it is already there; nodes stay.
#[verifier::external_body]
pub(crate) fn graph_update_edge(
    g: &mut petgraph::graph::Graph<String, (), petgraph::Directed, usize>,
    a: usize,
    b: usize,
)
    requires
        a < graph_nodes(*old(g)).len(),
        b < graph_nodes(*old(g)).len(),
    ensures
        graph_nodes(*final(g)) == graph_nodes(*old(g)),
        graph_edges(*final(g)) == graph_edges(*old(g)).insert((a as int, b as int)),
{
    g.update_edge(
        petgraph::graph::NodeIndex::new(a),
        petgraph::graph::NodeIndex::new(b),
        (),
    );
}

/// Relies on petgraph's algo::toposort: on success it returns every node
/// exactly once, each ordered before the targets of its outgoing edges.
/// It fails only on a cyclic graph, naming a node that lies on a cycle:
/// the first pass errs only on a self-loop, the second only inside a
/// strongly connected component of two or more nodes.
#[verifier::external_body]
pub(crate) fn graph_toposort(
    g: &petgraph::graph::Graph<String, (), petgraph::Directed, usize>,
) -> (r: Result<Vec<usize>, usize>)
    ensures
        match r {
            Result::Ok(order) => {
                &&& order@.len() == graph_nodes(*g).len()
                &&& forall|i: int| 0 <= i < order@.len() ==> order@[i] < graph_nodes(*g).len()
                &&& forall|i: int, j: int|
                    0 <= i < order@.len() && 0 <= j < order@.len() && i != j ==> order@[i]
                        != order@[j]
                &&& forall|v: int|
                    0 <= v < graph_nodes(*g).len() ==> #[trigger] covers(order@, v)
                &&& forall|i: int, j: int|
                    0 <= i < order@.len() && 0 <= j < order@.len() && graph_edges(*g).contains(
                        (order@[i] as int, order@[j] as int),
                    ) ==> i < j
            },
            Result::Err(c) => c < graph_nodes(*g).len() && on_cycle(
                graph_edges(*g),
                c as int,
            ),
        },
{
    match petgraph::algo::toposort(&*g, None) {
        Ok(v) => Ok(v.into_iter().map(|i| i.index()).collect()),
        Err(c) => Err(c.node_id().index()),
    }
}

/// Relies on petgraph's Graph::neighbors: every returned index is the
/// target of an edge leaving `a`, and every such target is returned.
#[verifier::external_body]
pub(crate) fn graph_neighbors(
    g: &petgraph::graph::Graph<String, (), petgraph::Directed, usize>,
    a: usize,
) -> (r: Vec<usize>)
    requires
        a < graph_nodes(*g).len(),
    ensures
        forall|i: int|
            0 <= i < r@.len() ==> r@[i] < graph_nodes(*g).len() && graph_edges(*g).contains(
                (a as int, r@[i] as int),
            ),
        forall|b: int|
            0 <= b < graph_nodes(*g).len() && graph_edges(*g).contains((a as int, b)) ==> exists|
                i: int,
            |
                0 <= i < r@.len() && r@[i] == b,
{
    g.neighbors(petgraph::graph::NodeIndex::new(a)).map(|n| n.index()).collect()
}

} // verus!
