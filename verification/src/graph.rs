//! A semantically-typed, directed graph built for modification and
//! traversal.
//!
//! `FractalGraph` keeps one adjacency list per node, aligned by index with
//! the node list; node identifiers are unique by construction. The state of
//! a simulation lives on the edges as complex weights.

use vstd::prelude::*;
use vstd::string::StringExecFns;
use crate::complex::Complex;

verus! {

/// A unique identifier for a node. The wrapper keeps other integers from
/// being used as node ids by accident.
#[derive(Debug, Clone, Copy, PartialEq, Eq, Hash, Structural)]
pub struct NodeId(pub u64);

/// A directed connection between two nodes, carrying the simulation state.
#[derive(Clone, Copy, Debug, PartialEq, Eq, Structural)]
pub struct FractalGraphEdge {
    /// The destination node of this edge.
    pub destination: NodeId,
    /// The semantic type of the connection.
    pub edge_type: EdgeType,
    /// The complex-valued weight: the state carried by the edge.
    pub weight: Complex,
}

/// A container for the data stored within each node.
#[derive(Debug, Clone)]
pub struct Node<T> {
    pub id: NodeId,
    pub payload: T,
}

/// A semantic classification of an edge's functional role.
#[derive(Debug, Clone, Copy, PartialEq, Eq, Hash, Structural)]
pub enum EdgeType {
    Excitatory,
    Inhibitory,
    Resonant,
}

/// The errors graph manipulation can produce.
#[derive(Debug, PartialEq, Eq, Structural)]
pub enum GraphError {
    /// The named node does not exist.
    NodeNotFound(NodeId),
    /// An edge of the same type already connects the two nodes.
    DuplicateEdge(NodeId, NodeId, EdgeType),
}

impl GraphError {
    /// A short description of the error.
    pub fn message(&self) -> (r: String)
        ensures
            *self matches GraphError::NodeNotFound(_) ==> r@ == "node not found"@,
            *self matches GraphError::DuplicateEdge(_, _, _) ==> r@ == "edge already exists"@,
    {
        match self {
            GraphError::NodeNotFound(_) => String::from_str("node not found"),
            GraphError::DuplicateEdge(_, _, _) => String::from_str("edge already exists"),
        }
    }
}

/// A directed graph with adjacency lists.
pub struct FractalGraph<T> {
    /// The nodes, in insertion order.
    nodes: Vec<Node<T>>,
    /// The adjacency lists, aligned by index with `nodes`.
    adjacency: Vec<Vec<FractalGraphEdge>>,
    /// The id the next created node will get.
    next_node_id: u64,
}

impl<T> FractalGraph<T> {
    /// The graph's structural invariant: one adjacency list per node,
    /// pairwise distinct node ids, and every id below the next free one.
    pub closed spec fn wf(&self) -> bool {
        &&& self.nodes@.len() == self.adjacency@.len()
        &&& forall|i: int, j: int| 0 <= i < j < self.nodes@.len()
            ==> (#[trigger] self.nodes@[i].id).0 != (#[trigger] self.nodes@[j].id).0
        &&& forall|i: int| 0 <= i < self.nodes@.len()
            ==> (#[trigger] self.nodes@[i].id).0 < self.next_node_id
    }

    /// Whether a node with this id exists.
    pub closed spec fn has_node(&self, id: NodeId) -> bool {
        exists|i: int| 0 <= i < self.nodes@.len() && (#[trigger] self.nodes@[i].id) == id
    }

    /// The index of the node with this id.
    pub closed spec fn index_of(&self, id: NodeId) -> int {
        choose|i: int| 0 <= i < self.nodes@.len() && (#[trigger] self.nodes@[i].id) == id
    }

    /// The payload stored at this id.
    pub closed spec fn payload_of(&self, id: NodeId) -> T {
        self.nodes@[self.index_of(id)].payload
    }

    /// The outgoing edges of this id.
    pub closed spec fn edges_of(&self, id: NodeId) -> Seq<FractalGraphEdge> {
        self.adjacency@[self.index_of(id)]@
    }

    /// The number of nodes.
    pub closed spec fn spec_node_count(&self) -> nat {
        self.nodes@.len()
    }

    /// The exact total number of edges.
    pub closed spec fn spec_edge_total(&self) -> int {
        adjacency_total(self.adjacency@)
    }

    /// A fresh id: one that can still be handed out.
    pub closed spec fn can_add_node(&self) -> bool {
        self.next_node_id < u64::MAX
    }

    /// A new, empty graph.
    pub fn new() -> (r: Self)
        ensures
            r.wf(),
            r.spec_node_count() == 0,
            forall|id: NodeId| !r.has_node(id),
            r.can_add_node(),
    {
        FractalGraph { nodes: Vec::new(), adjacency: Vec::new(), next_node_id: 0 }
    }

    /// Adds a node with the given payload and returns its fresh id. The new
    /// node starts with no outgoing edges; every existing node is kept as it
    /// was.
    pub fn add_node(&mut self, payload: T) -> (r: NodeId)
        requires
            old(self).wf(),
            old(self).can_add_node(),
        ensures
            final(self).wf(),
            !old(self).has_node(r),
            final(self).has_node(r),
            final(self).spec_node_count() == old(self).spec_node_count() + 1,
            final(self).edges_of(r) == Seq::<FractalGraphEdge>::empty(),
            forall|id: NodeId| #[trigger] old(self).has_node(id) ==> final(self).has_node(id),
            forall|id: NodeId| #[trigger] old(self).has_node(id)
                ==> final(self).edges_of(id) == old(self).edges_of(id),
            forall|id: NodeId| #[trigger] old(self).has_node(id)
                ==> final(self).payload_of(id) == old(self).payload_of(id),
            final(self).payload_of(r) == payload,
            final(self).spec_edge_total() == old(self).spec_edge_total(),
    {
        let id = NodeId(self.next_node_id);
        self.next_node_id = self.next_node_id + 1;
        self.nodes.push(Node { id, payload });
        let fresh: Vec<FractalGraphEdge> = Vec::new();
        proof {
            lemma_total_push(old(self).adjacency@, fresh);
        }
        self.adjacency.push(fresh);
        proof {
            let n = self.nodes@.len() - 1;
            assert(self.nodes@[n].id == id);
            assert forall|other: NodeId| #[trigger] old(self).has_node(other)
                implies self.has_node(other)
                    && self.edges_of(other) == old(self).edges_of(other)
                    && self.payload_of(other) == old(self).payload_of(other) by {
                let i = choose|i: int| 0 <= i < old(self).nodes@.len()
                    && (#[trigger] old(self).nodes@[i].id) == other;
                assert(self.nodes@[i].id == other);
                lemma_index_unique(&*self, other, i);
                lemma_index_unique(old(self), other, i);
            }
            lemma_index_unique(&*self, id, n);
        }
        id
    }

    /// Adds a directed edge between two existing nodes. Nothing changes when
    /// either endpoint is missing or an edge of the same type already
    /// connects the two; otherwise the new edge is appended to the source's
    /// outgoing list with the given initial weight.
    pub fn add_edge(
        &mut self,
        from: NodeId,
        to: NodeId,
        edge_type: EdgeType,
        initial_weight: Complex,
    ) -> (r: Result<(), GraphError>)
        requires
            old(self).wf(),
        ensures
            final(self).wf(),
            !old(self).has_node(from) ==> r == Err::<(), GraphError>(GraphError::NodeNotFound(from))
                && *final(self) == *old(self),
            old(self).has_node(from) && !old(self).has_node(to)
                ==> r == Err::<(), GraphError>(GraphError::NodeNotFound(to))
                    && *final(self) == *old(self),
            old(self).has_node(from) && old(self).has_node(to) ==> {
                let existing = old(self).edges_of(from);
                if exists|k: int| 0 <= k < existing.len()
                    && (#[trigger] existing[k]).destination == to
                    && existing[k].edge_type == edge_type {
                    r == Err::<(), GraphError>(GraphError::DuplicateEdge(from, to, edge_type))
                        && *final(self) == *old(self)
                } else {
                    r == Ok::<(), GraphError>(())
                    && final(self).edges_of(from) == old(self).edges_of(from).push(
                        FractalGraphEdge { destination: to, edge_type, weight: initial_weight })
                    && (forall|id: NodeId| final(self).has_node(id) == old(self).has_node(id))
                    && (forall|id: NodeId| #[trigger] old(self).has_node(id) && id != from
                        ==> final(self).edges_of(id) == old(self).edges_of(id))
                    && final(self).spec_node_count() == old(self).spec_node_count()
                    && final(self).spec_edge_total() == old(self).spec_edge_total() + 1
                }
            },
    {
        let from_idx: Option<usize> = self.find_index(from);
        if from_idx.is_none() {
            return Err(GraphError::NodeNotFound(from));
        }
        if self.find_index(to).is_none() {
            return Err(GraphError::NodeNotFound(to));
        }
        let fi: usize = from_idx.unwrap();
        proof {
            lemma_index_unique(&*self, from, fi as int);
        }

        // Refuse a duplicate edge: same source, destination and type.
        let outgoing_len: usize = self.adjacency[fi].len();
        let mut k: usize = 0;
        while k < outgoing_len
            invariant
                *self == *old(self),
                self.wf(),
                old(self).has_node(from),
                old(self).has_node(to),
                fi < self.adjacency@.len(),
                fi as int == old(self).index_of(from),
                outgoing_len == old(self).edges_of(from).len(),
                k <= outgoing_len,
                forall|m: int| 0 <= m < k
                    ==> !((#[trigger] old(self).edges_of(from)[m]).destination == to
                        && old(self).edges_of(from)[m].edge_type == edge_type),
            decreases outgoing_len - k,
        {
            let e: FractalGraphEdge = self.adjacency[fi][k];
            if e.destination == to && e.edge_type == edge_type {
                return Err(GraphError::DuplicateEdge(from, to, edge_type));
            }
            k = k + 1;
        }

        let ghost before = *self;
        let mut list: Vec<FractalGraphEdge> = copy_edges(&self.adjacency[fi]);
        list.push(FractalGraphEdge { destination: to, edge_type, weight: initial_weight });
        proof {
            lemma_total_update(before.adjacency@, fi as int, list);
        }
        self.adjacency.set(fi, list);
        proof {
            assert(self.nodes@ == before.nodes@);
            assert(self.adjacency@[fi as int]@ =~= before.adjacency@[fi as int]@.push(
                FractalGraphEdge { destination: to, edge_type, weight: initial_weight }));
            assert forall|id: NodeId| #[trigger] before.has_node(id) && id != from
                implies self.edges_of(id) == before.edges_of(id) by {
                let i = choose|i: int| 0 <= i < before.nodes@.len()
                    && (#[trigger] before.nodes@[i].id) == id;
                lemma_index_unique(&before, id, i);
                lemma_index_unique(&*self, id, i);
                assert(i != fi);
            }
            lemma_index_unique(&*self, from, fi as int);
        }
        Ok(())
    }

    /// Removes a node and every edge connected to it, incoming as well as
    /// outgoing, and returns the removed node. Nothing changes when the node
    /// is missing.
    pub fn remove_node(&mut self, node_id: NodeId) -> (r: Result<Node<T>, GraphError>)
        requires
            old(self).wf(),
        ensures
            final(self).wf(),
            !old(self).has_node(node_id) ==> (r matches Err(e)
                && e == GraphError::NodeNotFound(node_id) && *final(self) == *old(self)),
            old(self).has_node(node_id) ==> {
                &&& (r matches Ok(node) && node.id == node_id
                    && node.payload == old(self).payload_of(node_id))
                &&& !final(self).has_node(node_id)
                &&& final(self).spec_node_count() == old(self).spec_node_count() - 1
                &&& forall|id: NodeId| id != node_id
                    ==> final(self).has_node(id) == old(self).has_node(id)
                &&& forall|id: NodeId| #[trigger] old(self).has_node(id) && id != node_id
                    ==> final(self).edges_of(id) == old(self).edges_of(id).filter(
                        |e: FractalGraphEdge| e.destination != node_id)
            },
    {
        let idx: Option<usize> = self.find_index(node_id);
        if idx.is_none() {
            return Err(GraphError::NodeNotFound(node_id));
        }
        let i: usize = idx.unwrap();
        proof {
            lemma_index_unique(&*self, node_id, i as int);
        }
        let ghost before = *self;
        let removed_node: Node<T> = self.nodes.remove(i);
        let removed_list: Vec<FractalGraphEdge> = self.adjacency.remove(i);
        proof {
            assert forall|a: int, b: int| 0 <= a < b < self.nodes@.len()
                implies (#[trigger] self.nodes@[a].id).0 != (#[trigger] self.nodes@[b].id).0 by {
                if b < i {
                    assert(self.nodes@[a] == before.nodes@[a]);
                    assert(self.nodes@[b] == before.nodes@[b]);
                } else if a < i {
                    assert(self.nodes@[a] == before.nodes@[a]);
                    assert(self.nodes@[b] == before.nodes@[b + 1]);
                } else {
                    assert(self.nodes@[a] == before.nodes@[a + 1]);
                    assert(self.nodes@[b] == before.nodes@[b + 1]);
                }
            }
            assert forall|a: int| 0 <= a < self.nodes@.len()
                implies (#[trigger] self.nodes@[a].id).0 < self.next_node_id by {
                if a < i {
                    assert(self.nodes@[a] == before.nodes@[a]);
                } else {
                    assert(self.nodes@[a] == before.nodes@[a + 1]);
                }
            }
            assert forall|id: NodeId| id != node_id
                implies self.has_node(id) == before.has_node(id) by {
                if before.has_node(id) {
                    let m = choose|m: int| 0 <= m < before.nodes@.len()
                        && (#[trigger] before.nodes@[m].id) == id;
                    if m < i {
                        assert(self.nodes@[m].id == id);
                    } else {
                        assert(self.nodes@[m - 1].id == id);
                    }
                }
                if self.has_node(id) {
                    let m = choose|m: int| 0 <= m < self.nodes@.len()
                        && (#[trigger] self.nodes@[m].id) == id;
                    if m < i {
                        assert(before.nodes@[m].id == id);
                    } else {
                        assert(before.nodes@[m + 1].id == id);
                    }
                }
            }
            if self.has_node(node_id) {
                let m = choose|m: int| 0 <= m < self.nodes@.len()
                    && (#[trigger] self.nodes@[m].id) == node_id;
                if m < i {
                    assert(before.nodes@[m].id == node_id);
                    lemma_index_unique(&before, node_id, m);
                } else {
                    assert(before.nodes@[m + 1].id == node_id);
                    lemma_index_unique(&before, node_id, m + 1);
                }
                assert(false);
            }
        }

        // Drop every incoming edge pointing at the removed node.
        let n: usize = self.adjacency.len();
        let mut k: usize = 0;
        while k < n
            invariant
                k <= n,
                self.wf(),
                n == self.adjacency@.len(),
                self.nodes@.len() == n,
                self.nodes@ == old(self).nodes@.remove(i as int),
                i < old(self).nodes@.len(),
                old(self).wf(),
                forall|m: int| 0 <= m < k ==> (#[trigger] self.adjacency@[m])@
                    == prior_list(old(self).adjacency@, i as int, m)@.filter(
                        |e: FractalGraphEdge| e.destination != node_id),
                forall|m: int| k <= m < n ==> (#[trigger] self.adjacency@[m])
                    == prior_list(old(self).adjacency@, i as int, m),
            decreases n - k,
        {
            let list_len: usize = self.adjacency[k].len();
            let mut kept: Vec<FractalGraphEdge> = Vec::new();
            proof {
                lemma_filter_empty(|e2: FractalGraphEdge| e2.destination != node_id);
                assert(self.adjacency@[k as int]@.subrange(0, 0)
                    =~= Seq::<FractalGraphEdge>::empty());
            }
            let mut j: usize = 0;
            while j < list_len
                invariant
                    j <= list_len,
                    k < n,
                    n == self.adjacency@.len(),
                    list_len == self.adjacency@[k as int]@.len(),
                    kept@ =~= self.adjacency@[k as int]@.subrange(0, j as int).filter(
                        |e: FractalGraphEdge| e.destination != node_id),
                decreases list_len - j,
            {
                let e: FractalGraphEdge = self.adjacency[k][j];
                proof {
                    let pred = |e2: FractalGraphEdge| e2.destination != node_id;
                    let pre = self.adjacency@[k as int]@.subrange(0, j as int);
                    let nxt = self.adjacency@[k as int]@.subrange(0, j as int + 1);
                    assert(nxt.drop_last() =~= pre);
                    assert(nxt.last() == e);
                    lemma_filter_step(nxt, pred);
                }
                if !(e.destination.0 == node_id.0) {
                    kept.push(e);
                }
                j = j + 1;
            }
            proof {
                assert(self.adjacency@[k as int]@.subrange(0, list_len as int)
                    =~= self.adjacency@[k as int]@);
            }
            let ghost prior = *self;
            self.adjacency.set(k, kept);
            proof {
                assert forall|m: int| 0 <= m < k implies (#[trigger] self.adjacency@[m])@
                    == prior_list(old(self).adjacency@, i as int, m)@.filter(
                        |e: FractalGraphEdge| e.destination != node_id) by {
                    assert(self.adjacency@[m] == prior.adjacency@[m]);
                }
            }
            k = k + 1;
        }
        proof {
            assert forall|id: NodeId| #[trigger] old(self).has_node(id) && id != node_id
                implies self.edges_of(id) == old(self).edges_of(id).filter(
                    |e: FractalGraphEdge| e.destination != node_id) by {
                let m = choose|m: int| 0 <= m < old(self).nodes@.len()
                    && (#[trigger] old(self).nodes@[m].id) == id;
                lemma_index_unique(old(self), id, m);
                if m < i {
                    assert(self.nodes@[m].id == id);
                    lemma_index_unique(&*self, id, m);
                    assert(prior_list(old(self).adjacency@, i as int, m)
                        == old(self).adjacency@[m]);
                } else {
                    assert(m > i);
                    assert(self.nodes@[m - 1].id == id);
                    lemma_index_unique(&*self, id, m - 1);
                    assert(prior_list(old(self).adjacency@, i as int, m - 1)
                        == old(self).adjacency@[m]);
                }
            }
        }
        Ok(removed_node)
    }

    /// Whether some edge leads from the node at index `u` to the node at
    /// index `v`.
    pub closed spec fn edge_between(&self, u: int, v: int) -> bool {
        exists|e: int| 0 <= e < self.adjacency@[u]@.len()
            && (#[trigger] self.adjacency@[u]@[e]).destination == self.nodes@[v].id
    }

    /// Whether `order` is a topological order of the node indexes: each
    /// index occurs exactly once, and every edge between nodes of the graph
    /// points from an earlier position to a strictly later one.
    pub closed spec fn topo_witness(&self, order: Seq<int>) -> bool {
        &&& order.len() == self.nodes@.len()
        &&& forall|p: int| 0 <= p < order.len() ==> 0 <= #[trigger] order[p] < self.nodes@.len()
        &&& order.no_duplicates()
        &&& forall|pu: int, pv: int| 0 <= pu < order.len() && 0 <= pv <= pu
            ==> !self.edge_between(#[trigger] order[pu], #[trigger] order[pv])
    }

    /// Checks whether the graph is a directed acyclic graph by repeatedly
    /// retiring a node with no incoming edges from the nodes still standing.
    /// The contract certifies the positive answer only: `true` comes with a
    /// topological-order witness, which is to say no cycle exists, while a
    /// `false` answer carries no formal guarantee here (the elimination got
    /// stuck on nodes that all have standing predecessors).
    pub fn is_acyclic(&self) -> (r: bool)
        requires
            self.wf(),
        ensures
            r ==> exists|order: Seq<int>| #[trigger] self.topo_witness(order),
    {
        let n: usize = self.nodes.len();
        let mut retired: Vec<bool> = Vec::new();
        let mut filled: usize = 0;
        while filled < n
            invariant
                filled <= n,
                retired@.len() == filled,
                forall|i: int| 0 <= i < filled ==> !(#[trigger] retired@[i]),
            decreases n - filled,
        {
            retired.push(false);
            filled = filled + 1;
        }
        let ghost mut order: Seq<int> = Seq::empty();
        let mut done: usize = 0;
        while done < n
            invariant
                self.wf(),
                done <= n,
                n == self.nodes@.len(),
                retired@.len() == n,
                order.len() == done,
                order.no_duplicates(),
                forall|p: int| 0 <= p < order.len() ==> 0 <= #[trigger] order[p] < n,
                forall|i: int| 0 <= i < n ==> (#[trigger] retired@[i] <==> order.contains(i)),
                // No standing node points at any retired node.
                forall|p: int, j: int| 0 <= p < order.len() && 0 <= j < n
                    && !(#[trigger] retired@[j])
                    ==> !self.edge_between(j, #[trigger] order[p]),
                forall|pu: int, pv: int| 0 <= pu < order.len() && 0 <= pv <= pu
                    ==> !self.edge_between(#[trigger] order[pu], #[trigger] order[pv]),
            decreases n - done,
        {
            // Look for a node that is still standing and has no incoming
            // edge from another standing node.
            let mut found: bool = false;
            let mut pick: usize = 0;
            let mut k: usize = 0;
            while k < n && !found
                invariant
                    k <= n,
                    n == self.nodes@.len(),
                    retired@.len() == n,
                    self.wf(),
                    found ==> pick < n && !retired@[pick as int]
                        && forall|j: int| 0 <= j < n && !retired@[j]
                            ==> !self.edge_between(j, pick as int),
                    order.len() == done,
                    forall|i: int| 0 <= i < n ==> (#[trigger] retired@[i] <==> order.contains(i)),
                decreases n - k, if found { 0int } else { 1int },
            {
                if !retired[k] {
                    // Does any standing node point at k?
                    let mut has_incoming: bool = false;
                    let mut j: usize = 0;
                    while j < n
                        invariant
                            j <= n,
                            k < n,
                            n == self.nodes@.len(),
                            retired@.len() == n,
                            self.wf(),
                            !has_incoming ==> forall|j2: int| 0 <= j2 < j && !retired@[j2]
                                ==> !self.edge_between(j2, k as int),
                        decreases n - j,
                    {
                        if !retired[j] {
                            let list_len: usize = self.adjacency[j].len();
                            let mut e: usize = 0;
                            let mut points_at_k: bool = false;
                            while e < list_len
                                invariant
                                    e <= list_len,
                                    j < n,
                                    k < n,
                                    n == self.nodes@.len(),
                                    self.wf(),
                                    list_len == self.adjacency@[j as int]@.len(),
                                    points_at_k ==> self.edge_between(j as int, k as int),
                                    !points_at_k ==> forall|e2: int| 0 <= e2 < e
                                        ==> (#[trigger] self.adjacency@[j as int]@[e2])
                                            .destination != self.nodes@[k as int].id,
                                decreases list_len - e,
                            {
                                if self.adjacency[j][e].destination.0 == self.nodes[k].id.0 {
                                    points_at_k = true;
                                }
                                e = e + 1;
                            }
                            if points_at_k {
                                has_incoming = true;
                            }
                        }
                        j = j + 1;
                    }
                    if !has_incoming {
                        found = true;
                        pick = k;
                    }
                }
                if !found {
                    k = k + 1;
                }
            }
            if !found {
                // Every standing node has an incoming edge: no topological
                // order can be completed this way.
                return false;
            }
            let ghost prev_order = order;
            let ghost prev_retired = retired@;
            retired.set(pick, true);
            proof {
                order = order.push(pick as int);
                // The pick was standing, so it is new to the order.
                assert(!prev_order.contains(pick as int));
                assert forall|a: int, b: int| 0 <= a < b < order.len()
                    implies order[a] != order[b] by {
                    if b < order.len() - 1 {
                        assert(order[a] == prev_order[a]);
                        assert(order[b] == prev_order[b]);
                    } else {
                        assert(order[a] == prev_order[a]);
                        assert(prev_order.contains(prev_order[a]));
                        assert(order[b] == pick as int);
                    }
                }
                assert forall|i: int| 0 <= i < n
                    implies (#[trigger] retired@[i] <==> order.contains(i)) by {
                    if i == pick {
                        assert(order[order.len() - 1] == pick as int);
                        assert(order.contains(pick as int));
                    } else {
                        assert(retired@[i] == prev_retired[i]);
                        assert forall|q: int| 0 <= q < order.len() && order[q] == i
                            implies prev_order.contains(i) by {
                            assert(q < order.len() - 1);
                            assert(prev_order[q] == i);
                        }
                        if prev_order.contains(i) {
                            let q = choose|q: int| 0 <= q < prev_order.len()
                                && prev_order[q] == i;
                            assert(order[q] == i);
                        }
                    }
                }
                // No standing node points at any retired node: the standing
                // set only shrank, and nothing standing points at the pick.
                assert forall|p: int, j: int|
                    0 <= p < order.len() && 0 <= j < n && !(#[trigger] retired@[j])
                    implies !self.edge_between(j, #[trigger] order[p]) by {
                    assert(!prev_retired[j]);
                    if p < order.len() - 1 {
                        assert(order[p] == prev_order[p]);
                    } else {
                        assert(order[p] == pick as int);
                    }
                }
                // Edges among retired nodes only point forward: an edge from
                // the pick to an earlier entry would have come from a
                // standing node.
                assert forall|pu: int, pv: int| 0 <= pu < order.len() && 0 <= pv <= pu
                    implies !self.edge_between(#[trigger] order[pu], #[trigger] order[pv]) by {
                    if pu < order.len() - 1 {
                        assert(order[pu] == prev_order[pu]);
                        assert(order[pv] == prev_order[pv]);
                    } else {
                        assert(order[pu] == pick as int);
                        if pv < pu {
                            assert(order[pv] == prev_order[pv]);
                            assert(!prev_retired[pick as int]);
                        }
                    }
                }
            }
            done = done + 1;
        }
        proof {
            assert(self.topo_witness(order));
        }
        true
    }

    /// The index of the node with this id, by linear scan.
    fn find_index(&self, id: NodeId) -> (r: Option<usize>)
        requires
            self.wf(),
        ensures
            r is Some <==> self.has_node(id),
            r matches Some(i) ==> i < self.nodes@.len() && self.nodes@[i as int].id == id
                && i as int == self.index_of(id),
    {
        let n: usize = self.nodes.len();
        let mut k: usize = 0;
        while k < n
            invariant
                k <= n,
                n == self.nodes@.len(),
                self.wf(),
                forall|m: int| 0 <= m < k ==> (#[trigger] self.nodes@[m].id) != id,
            decreases n - k,
        {
            if self.nodes[k].id.0 == id.0 {
                proof {
                    assert(self.nodes@[k as int].id == id);
                    lemma_index_unique(self, id, k as int);
                }
                return Some(k);
            }
            k = k + 1;
        }
        None
    }

    /// An immutable reference to a node's payload holder.
    pub fn get_node(&self, node_id: NodeId) -> (r: Option<&Node<T>>)
        requires
            self.wf(),
        ensures
            r is Some <==> self.has_node(node_id),
            r matches Some(node) ==> node.id == node_id && node.payload == self.payload_of(node_id),
    {
        let idx: Option<usize> = self.find_index(node_id);
        match idx {
            Some(i) => Some(&self.nodes[i]),
            None => None,
        }
    }

    /// The outgoing edges of a node, or nothing when the node is missing.
    pub fn get_edges_for_node(&self, node_id: NodeId) -> (r: Option<&Vec<FractalGraphEdge>>)
        requires
            self.wf(),
        ensures
            r is Some <==> self.has_node(node_id),
            r matches Some(list) ==> list@ == self.edges_of(node_id),
    {
        let idx: Option<usize> = self.find_index(node_id);
        match idx {
            Some(i) => Some(&self.adjacency[i]),
            None => None,
        }
    }

    /// Replaces the outgoing edges of a node; the state of a simulation is
    /// updated this way. Nothing changes when the node is missing.
    pub fn set_edges_for_node(&mut self, node_id: NodeId, list: Vec<FractalGraphEdge>)
        -> (r: bool)
        requires
            old(self).wf(),
        ensures
            final(self).wf(),
            r == old(self).has_node(node_id),
            !r ==> *final(self) == *old(self),
            r ==> final(self).edges_of(node_id) == list@
                && (forall|id: NodeId| final(self).has_node(id) == old(self).has_node(id))
                && (forall|id: NodeId| #[trigger] old(self).has_node(id) && id != node_id
                    ==> final(self).edges_of(id) == old(self).edges_of(id))
                && final(self).spec_node_count() == old(self).spec_node_count(),
    {
        let idx: Option<usize> = self.find_index(node_id);
        match idx {
            Some(i) => {
                let ghost before = *self;
                self.adjacency.set(i, list);
                proof {
                    lemma_index_unique(&*self, node_id, i as int);
                    assert forall|id: NodeId| #[trigger] before.has_node(id) && id != node_id
                        implies self.edges_of(id) == before.edges_of(id) by {
                        let m = choose|m: int| 0 <= m < before.nodes@.len()
                            && (#[trigger] before.nodes@[m].id) == id;
                        lemma_index_unique(&before, id, m);
                        lemma_index_unique(&*self, id, m);
                        assert(m != i);
                    }
                }
                true
            },
            None => false,
        }
    }

    /// The total number of nodes.
    pub fn node_count(&self) -> (r: usize)
        ensures
            r == self.spec_node_count(),
    {
        self.nodes.len()
    }

    /// The total number of edges, clamped to the machine range when the
    /// exact total does not fit.
    pub fn edge_count(&self) -> (r: usize)
        requires
            self.wf(),
        ensures
            self.spec_edge_total() <= usize::MAX as int ==> r as int == self.spec_edge_total(),
            self.spec_edge_total() > usize::MAX as int ==> r == usize::MAX,
    {
        let n: usize = self.adjacency.len();
        let mut total: u128 = 0;
        let mut k: usize = 0;
        while k < n
            invariant
                k <= n,
                n == self.adjacency@.len(),
                total as int == adjacency_total(self.adjacency@.subrange(0, k as int)),
                total as int <= (k as int) * (u64::MAX as int),
            decreases n - k,
        {
            let len_k: usize = self.adjacency[k].len();
            proof {
                assert((k as int) * (u64::MAX as int) + (u64::MAX as int)
                    == (k as int + 1) * (u64::MAX as int)) by (nonlinear_arith);
                assert((k as int + 1) * (u64::MAX as int) <= u128::MAX as int)
                    by (nonlinear_arith)
                    requires 0 <= k as int + 1 <= 0x1_0000_0000_0000_0000i128;
            }
            total = total + len_k as u128;
            proof {
                let prefix = self.adjacency@.subrange(0, k as int);
                let next = self.adjacency@.subrange(0, k as int + 1);
                assert(next.drop_last() =~= prefix);
            }
            k = k + 1;
        }
        proof {
            assert(self.adjacency@.subrange(0, n as int) =~= self.adjacency@);
        }
        if total > usize::MAX as u128 {
            usize::MAX
        } else {
            total as usize
        }
    }
}

/// An exact copy of an edge list.
fn copy_edges(v: &Vec<FractalGraphEdge>) -> (r: Vec<FractalGraphEdge>)
    ensures
        r@ == v@,
{
    let n: usize = v.len();
    let mut out: Vec<FractalGraphEdge> = Vec::new();
    let mut k: usize = 0;
    while k < n
        invariant
            k <= n,
            n == v@.len(),
            out@.len() == k,
            forall|i: int| 0 <= i < k ==> #[trigger] out@[i] == v@[i],
        decreases n - k,
    {
        out.push(v[k]);
        k = k + 1;
    }
    proof {
        assert(out@ =~= v@);
    }
    out
}

/// Filtering an empty sequence yields an empty sequence.
proof fn lemma_filter_empty(pred: spec_fn(FractalGraphEdge) -> bool)
    ensures
        Seq::<FractalGraphEdge>::empty().filter(pred) =~= Seq::<FractalGraphEdge>::empty(),
{
    reveal(Seq::filter);
}

/// One unfolding of the filter: the last element is kept exactly when the
/// predicate accepts it.
proof fn lemma_filter_step(s: Seq<FractalGraphEdge>, pred: spec_fn(FractalGraphEdge) -> bool)
    requires
        s.len() > 0,
    ensures
        s.filter(pred) == if pred(s.last()) {
            s.drop_last().filter(pred).push(s.last())
        } else {
            s.drop_last().filter(pred)
        },
{
    reveal(Seq::filter);
}

/// The adjacency list that ends up at position `m` after the list at
/// position `i` is removed.
pub open spec fn prior_list(
    lists: Seq<Vec<FractalGraphEdge>>,
    i: int,
    m: int,
) -> Vec<FractalGraphEdge> {
    if m < i {
        lists[m]
    } else {
        lists[m + 1]
    }
}

/// The exact total length of a sequence of adjacency lists.
pub open spec fn adjacency_total(lists: Seq<Vec<FractalGraphEdge>>) -> int
    decreases lists.len(),
{
    if lists.len() == 0 {
        0
    } else {
        adjacency_total(lists.drop_last()) + lists.last()@.len()
    }
}

/// Appending a list grows the total by that list's length.
proof fn lemma_total_push(lists: Seq<Vec<FractalGraphEdge>>, v: Vec<FractalGraphEdge>)
    ensures
        adjacency_total(lists.push(v)) == adjacency_total(lists) + v@.len(),
{
    assert(lists.push(v).drop_last() =~= lists);
}

/// Replacing one list changes the total by the length difference.
proof fn lemma_total_update(lists: Seq<Vec<FractalGraphEdge>>, i: int, v: Vec<FractalGraphEdge>)
    requires
        0 <= i < lists.len(),
    ensures
        adjacency_total(lists.update(i, v))
            == adjacency_total(lists) - lists[i]@.len() + v@.len(),
    decreases lists.len(),
{
    let updated = lists.update(i, v);
    if i == lists.len() - 1 {
        assert(updated.drop_last() =~= lists.drop_last());
        assert(updated.last() == v);
    } else {
        assert(updated.drop_last() =~= lists.drop_last().update(i, v));
        assert(updated.last() == lists.last());
        lemma_total_update(lists.drop_last(), i, v);
    }
}

/// The total is never negative.
proof fn lemma_total_nonneg(lists: Seq<Vec<FractalGraphEdge>>)
    ensures
        0 <= adjacency_total(lists),
    decreases lists.len(),
{
    if lists.len() > 0 {
        lemma_total_nonneg(lists.drop_last());
    }
}

/// In a well-formed graph, a node id occurs at exactly one index, so any
/// index holding the id is the chosen one.
proof fn lemma_index_unique<T>(g: &FractalGraph<T>, id: NodeId, i: int)
    requires
        g.wf(),
        0 <= i < g.nodes@.len(),
        g.nodes@[i].id == id,
    ensures
        g.index_of(id) == i,
        g.has_node(id),
{
    assert(g.has_node(id));
    let c = g.index_of(id);
    assert(0 <= c < g.nodes@.len() && g.nodes@[c].id == id);
    if c != i {
        if c < i {
            assert(g.nodes@[c].id.0 != g.nodes@[i].id.0);
        } else {
            assert(g.nodes@[i].id.0 != g.nodes@[c].id.0);
        }
    }
}

} // verus!
