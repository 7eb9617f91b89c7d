//! The roadmap as a directed graph: for each node, the nodes it leads to and
//! the cost of each edge.

use vstd::prelude::*;

use std::collections::HashMap;

use crate::api::handlers::tiles::is_bidirectional;

verus! {

broadcast use vstd::std_specs::hash::group_hash_axioms;

/// Graph data structure using adjacency list representation: each node maps
/// to its outgoing edges, as (neighbor, cost) pairs in insertion order.
pub struct Graph<C> {
    /// Adjacency list: node id -> [(neighbor id, cost)]
    pub adjacency: HashMap<u128, Vec<(u128, C)>>,
}

/// A roadmap edge as the graph reads it: its ends, its cost and its
/// direction (`bi` for both ways).
pub struct RoadmapLink<C> {
    pub source_node_id: u128,
    pub target_node_id: u128,
    pub cost: C,
    pub direction: String,
}

/// The outgoing edges of `node` in `edges`, none for an unknown node.
pub open spec fn out_edges<C>(edges: Map<u128, Seq<(u128, C)>>, node: u128) -> Seq<(u128, C)> {
    if edges.contains_key(node) {
        edges[node]
    } else {
        Seq::empty()
    }
}

/// `edges` with `node` added (no change when it is already there).
pub open spec fn with_node<C>(edges: Map<u128, Seq<(u128, C)>>, node: u128) -> Map<
    u128,
    Seq<(u128, C)>,
> {
    if edges.contains_key(node) {
        edges
    } else {
        edges.insert(node, Seq::empty())
    }
}

/// `edges` with an edge from `source` to `target` appended.
pub open spec fn with_edge<C>(edges: Map<u128, Seq<(u128, C)>>, source: u128, target: u128, cost: C) -> Map<
    u128,
    Seq<(u128, C)>,
> {
    edges.insert(source, out_edges(edges, source).push((target, cost)))
}

/// `edges` with the first `n` nodes of `nodes` added.
pub open spec fn with_nodes<C>(edges: Map<u128, Seq<(u128, C)>>, nodes: Seq<u128>, n: int) -> Map<
    u128,
    Seq<(u128, C)>,
>
    decreases n,
{
    if n <= 0 {
        edges
    } else {
        with_node(with_nodes(edges, nodes, n - 1), nodes[n - 1])
    }
}

/// `edges` with the first `n` links of `links` added, each bidirectional
/// link in both directions.
pub open spec fn with_links<C>(edges: Map<u128, Seq<(u128, C)>>, links: Seq<RoadmapLink<C>>, n: int) -> Map<
    u128,
    Seq<(u128, C)>,
>
    decreases n,
{
    if n <= 0 {
        edges
    } else {
        let l = links[n - 1];
        let m = with_edge(with_links(edges, links, n - 1), l.source_node_id, l.target_node_id, l.cost);
        if l.direction@ == "bi"@ {
            with_edge(m, l.target_node_id, l.source_node_id, l.cost)
        } else {
            m
        }
    }
}

/// How a route search between two nodes begins.
#[derive(Debug, PartialEq, Eq)]
pub enum SearchStart {
    /// The start or the goal is not in the graph: there is no route.
    Unreachable,
    /// The start is the goal: the route is that one node, at no cost.
    AtGoal,
    /// Both nodes are in the graph and differ: the search must run.
    Search,
}

impl<C: Copy> Graph<C> {
    /// The graph's edges: each node's outgoing edges.
    pub open spec fn edges(&self) -> Map<u128, Seq<(u128, C)>> {
        self.adjacency@.map_values(|v: Vec<(u128, C)>| v@)
    }

    /// A graph with no nodes.
    pub fn new() -> (g: Self)
        ensures
            g.edges() == Map::<u128, Seq<(u128, C)>>::empty(),
    {
        let g = Self { adjacency: HashMap::new() };
        assert(g.edges() =~= Map::<u128, Seq<(u128, C)>>::empty());
        g
    }

    /// Whether `node` is in the graph.
    pub fn contains_node(&self, node: u128) -> (r: bool)
        ensures
            r == self.edges().contains_key(node),
    {
        self.adjacency.contains_key(&node)
    }

    /// Add a node to the graph (creates an empty adjacency entry).
    pub fn add_node(&mut self, node_id: u128)
        ensures
            final(self).edges() == with_node(old(self).edges(), node_id),
    {
        if !self.adjacency.contains_key(&node_id) {
            self.adjacency.insert(node_id, Vec::new());
            assert(self.edges() =~= with_node(old(self).edges(), node_id));
        }
    }

    /// Add a directed edge from `source` to `target` with the given cost.
    pub fn add_edge(&mut self, source: u128, target: u128, cost: C)
        ensures
            final(self).edges() == with_edge(old(self).edges(), source, target, cost),
    {
        let mut list = match self.adjacency.remove(&source) {
            Some(v) => v,
            None => Vec::new(),
        };
        list.push((target, cost));
        self.adjacency.insert(source, list);
        assert(self.edges() =~= with_edge(old(self).edges(), source, target, cost));
    }

    /// Get neighbors and edge costs for a node (none for an unknown node).
    pub fn neighbors(&self, node_id: u128) -> (r: &[(u128, C)])
        ensures
            r@ == out_edges(self.edges(), node_id),
    {
        match self.adjacency.get(&node_id) {
            Some(v) => v.as_slice(),
            None => {
                let e: &[(u128, C)] = &[];
                assert(e@ =~= Seq::<(u128, C)>::empty());
                e
            },
        }
    }

    /// How a route search from `start` to `goal` begins: no route when either
    /// node is missing, the one-node route when they are the same node, a
    /// search otherwise.
    pub fn search_start(&self, start: u128, goal: u128) -> (r: SearchStart)
        ensures
            !(self.edges().contains_key(start) && self.edges().contains_key(goal)) ==> r
                == SearchStart::Unreachable,
            self.edges().contains_key(start) && self.edges().contains_key(goal) && start == goal
                ==> r == SearchStart::AtGoal,
            self.edges().contains_key(start) && self.edges().contains_key(goal) && start != goal
                ==> r == SearchStart::Search,
    {
        if !self.contains_node(start) || !self.contains_node(goal) {
            SearchStart::Unreachable
        } else if start == goal {
            SearchStart::AtGoal
        } else {
            SearchStart::Search
        }
    }

    /// Build a graph from roadmap records: every node, then every link, a
    /// bidirectional link in both directions.
    pub fn build_from_records(nodes: &[u128], links: &[RoadmapLink<C>]) -> (g: Self)
        ensures
            g.edges() == with_links(
                with_nodes(Map::<u128, Seq<(u128, C)>>::empty(), nodes@, nodes@.len() as int),
                links@,
                links@.len() as int,
            ),
    {
        let mut graph = Self::new();
        let ghost empty = Map::<u128, Seq<(u128, C)>>::empty();
        let mut i: usize = 0;
        while i < nodes.len()
            invariant
                i <= nodes@.len(),
                graph.edges() == with_nodes(empty, nodes@, i as int),
            decreases nodes@.len() - i,
        {
            graph.add_node(nodes[i]);
            i = i + 1;
        }
        let ghost base = graph.edges();
        let mut j: usize = 0;
        while j < links.len()
            invariant
                j <= links@.len(),
                base == with_nodes(empty, nodes@, nodes@.len() as int),
                graph.edges() == with_links(base, links@, j as int),
            decreases links@.len() - j,
        {
            let link = &links[j];
            graph.add_edge(link.source_node_id, link.target_node_id, link.cost);
            if is_bidirectional(link.direction.as_str()) {
                graph.add_edge(link.target_node_id, link.source_node_id, link.cost);
            }
            j = j + 1;
        }
        graph
    }
}

proof fn lemma_with_edge_keeps<C>(
    m: Map<u128, Seq<(u128, C)>>,
    source: u128,
    target: u128,
    cost: C,
    node: u128,
    e: (u128, C),
)
    ensures
        m.contains_key(node) ==> with_edge(m, source, target, cost).contains_key(node),
        out_edges(m, node).contains(e) ==> out_edges(with_edge(m, source, target, cost), node).contains(e),
{
    if out_edges(m, node).contains(e) && node == source {
        let k = choose|k: int| 0 <= k < out_edges(m, node).len() && out_edges(m, node)[k] == e;
        assert(out_edges(with_edge(m, source, target, cost), node)[k] == e);
    }
}

proof fn lemma_with_links_keeps<C>(
    m: Map<u128, Seq<(u128, C)>>,
    links: Seq<RoadmapLink<C>>,
    n: int,
    node: u128,
    e: (u128, C),
)
    ensures
        m.contains_key(node) ==> with_links(m, links, n).contains_key(node),
        out_edges(m, node).contains(e) ==> out_edges(with_links(m, links, n), node).contains(e),
    decreases n,
{
    if n > 0 {
        lemma_with_links_keeps(m, links, n - 1, node, e);
        let l = links[n - 1];
        let m1 = with_links(m, links, n - 1);
        lemma_with_edge_keeps(m1, l.source_node_id, l.target_node_id, l.cost, node, e);
        let m2 = with_edge(m1, l.source_node_id, l.target_node_id, l.cost);
        lemma_with_edge_keeps(m2, l.target_node_id, l.source_node_id, l.cost, node, e);
    }
}

proof fn lemma_with_nodes_contains<C>(m: Map<u128, Seq<(u128, C)>>, nodes: Seq<u128>, n: int, k: int)
    requires
        0 <= k < n <= nodes.len(),
    ensures
        with_nodes(m, nodes, n).contains_key(nodes[k]),
    decreases n,
{
    if k < n - 1 {
        lemma_with_nodes_contains(m, nodes, n - 1, k);
    }
}

/// A graph built from roadmap records holds every node, every link from its
/// source to its target with the link's cost, and every bidirectional link
/// also from its target back to its source.
pub proof fn lemma_built_graph_has_records<C>(nodes: Seq<u128>, links: Seq<RoadmapLink<C>>)
    ensures
        forall|k: int|
            0 <= k < nodes.len() ==> #[trigger] with_links(
                with_nodes(Map::<u128, Seq<(u128, C)>>::empty(), nodes, nodes.len() as int),
                links,
                links.len() as int,
            ).contains_key(nodes[k]),
        forall|k: int|
            0 <= k < links.len() ==> out_edges(
                with_links(
                    with_nodes(Map::<u128, Seq<(u128, C)>>::empty(), nodes, nodes.len() as int),
                    links,
                    links.len() as int,
                ),
                #[trigger] links[k].source_node_id,
            ).contains((links[k].target_node_id, links[k].cost)),
        forall|k: int|
            0 <= k < links.len() && #[trigger] links[k].direction@ == "bi"@ ==> out_edges(
                with_links(
                    with_nodes(Map::<u128, Seq<(u128, C)>>::empty(), nodes, nodes.len() as int),
                    links,
                    links.len() as int,
                ),
                links[k].target_node_id,
            ).contains((links[k].source_node_id, links[k].cost)),
{
    let base = with_nodes(Map::<u128, Seq<(u128, C)>>::empty(), nodes, nodes.len() as int);
    let n = links.len() as int;
    assert forall|k: int| 0 <= k < nodes.len() implies #[trigger] with_links(base, links, n).contains_key(
        nodes[k],
    ) by {
        lemma_with_nodes_contains(Map::<u128, Seq<(u128, C)>>::empty(), nodes, nodes.len() as int, k);
        lemma_with_links_keeps(base, links, n, nodes[k], (0u128, links[0].cost));
    }
    assert forall|k: int| 0 <= k < links.len() implies out_edges(
        with_links(base, links, n),
        #[trigger] links[k].source_node_id,
    ).contains((links[k].target_node_id, links[k].cost)) by {
        lemma_link_kept(base, links, k, n);
    }
    assert forall|k: int| 0 <= k < links.len() && #[trigger] links[k].direction@ == "bi"@ implies out_edges(
        with_links(base, links, n),
        links[k].target_node_id,
    ).contains((links[k].source_node_id, links[k].cost)) by {
        lemma_link_kept(base, links, k, n);
    }
}

proof fn lemma_link_kept<C>(m: Map<u128, Seq<(u128, C)>>, links: Seq<RoadmapLink<C>>, k: int, n: int)
    requires
        0 <= k < n <= links.len(),
    ensures
        out_edges(with_links(m, links, n), links[k].source_node_id).contains(
            (links[k].target_node_id, links[k].cost),
        ),
        links[k].direction@ == "bi"@ ==> out_edges(with_links(m, links, n), links[k].target_node_id).contains(
            (links[k].source_node_id, links[k].cost),
        ),
    decreases n,
{
    let l = links[k];
    if k < n - 1 {
        lemma_link_kept(m, links, k, n - 1);
        let m1 = with_links(m, links, n - 1);
        let l2 = links[n - 1];
        let fwd = (l.target_node_id, l.cost);
        let back = (l.source_node_id, l.cost);
        lemma_with_edge_keeps(m1, l2.source_node_id, l2.target_node_id, l2.cost, l.source_node_id, fwd);
        lemma_with_edge_keeps(m1, l2.source_node_id, l2.target_node_id, l2.cost, l.target_node_id, back);
        let m2 = with_edge(m1, l2.source_node_id, l2.target_node_id, l2.cost);
        lemma_with_edge_keeps(m2, l2.target_node_id, l2.source_node_id, l2.cost, l.source_node_id, fwd);
        lemma_with_edge_keeps(m2, l2.target_node_id, l2.source_node_id, l2.cost, l.target_node_id, back);
    } else {
        let m1 = with_links(m, links, n - 1);
        let m2 = with_edge(m1, l.source_node_id, l.target_node_id, l.cost);
        let fwd = (l.target_node_id, l.cost);
        assert(out_edges(m2, l.source_node_id).last() == fwd);
        assert(out_edges(m2, l.source_node_id).contains(fwd));
        lemma_with_edge_keeps(m2, l.target_node_id, l.source_node_id, l.cost, l.source_node_id, fwd);
        if l.direction@ == "bi"@ {
            let back = (l.source_node_id, l.cost);
            assert(out_edges(with_edge(m2, l.target_node_id, l.source_node_id, l.cost), l.target_node_id).last()
                == back);
        }
    }
}

} // verus!
