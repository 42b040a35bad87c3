//! The indexed storage backend: the same node/edge/error content as the
//! linear-scan backend, plus a per-kind position index so that node lookups
//! scan only the nodes of the requested kind. Every lookup's contract names
//! the same spec function of the same logical view as the linear-scan
//! backend's, so the two backends provably agree.

use vstd::prelude::*;
use crate::model::{edge_kind_matches, Edge, EdgeType, Node, NodeData, NodeType, NodeV};
use crate::queries::{
    count_edges, count_edges_upto, data_views, lemma_filter_snoc, nodes_where, p_edge_kind,
    p_node_named, p_node_typed, payloads, GraphV,
};
use crate::text::str_eq;

verus! {

/// The index slot a node kind is filed under.
pub open spec fn type_slot(t: NodeType) -> int {
    match t {
        NodeType::Repository => 0,
        NodeType::Language => 1,
        NodeType::File => 2,
        NodeType::Function => 3,
        NodeType::Class => 4,
        NodeType::Endpoint => 5,
        NodeType::DataModel => 6,
        NodeType::Page => 7,
        NodeType::Request => 8,
        NodeType::Instance => 9,
        NodeType::Import => 10,
        NodeType::Test => 11,
        NodeType::IntegrationTest => 12,
        NodeType::Library => 13,
    }
}

/// The number of index slots.
pub open spec fn slot_count() -> int {
    14
}

/// A position list as mathematical integers.
pub open spec fn idxs(v: Seq<usize>) -> Seq<int> {
    v.map_values(|u: usize| u as int)
}

/// The positions, among the first `k` nodes, of the nodes filed under
/// slot `s`, in increasing order.
pub open spec fn slot_indices(nodes: Seq<NodeV>, s: int, k: int) -> Seq<int>
    decreases k,
{
    if k <= 0 {
        Seq::empty()
    } else {
        slot_indices(nodes, s, k - 1) + if type_slot(nodes[k - 1].node_type) == s {
            seq![k - 1]
        } else {
            Seq::empty()
        }
    }
}

/// The payloads picked up by walking the positions `is` and keeping the
/// nodes that match `p`.
pub open spec fn collected(nodes: Seq<NodeV>, is: Seq<int>, p: spec_fn(NodeV) -> bool) -> Seq<crate::model::NodeDataV>
    decreases is.len(),
{
    if is.len() == 0 {
        Seq::empty()
    } else {
        collected(nodes, is.drop_last(), p) + if p(nodes[is.last()]) {
            seq![nodes[is.last()].node_data]
        } else {
            Seq::empty()
        }
    }
}

/// Every recorded position is in range and filed under its slot.
pub proof fn lemma_slot_indices_valid(nodes: Seq<NodeV>, s: int, k: int)
    requires
        k <= nodes.len(),
    ensures
        forall|j: int| 0 <= j < slot_indices(nodes, s, k).len()
            ==> 0 <= #[trigger] slot_indices(nodes, s, k)[j] < k
                && type_slot(nodes[slot_indices(nodes, s, k)[j]].node_type) == s,
        forall|j1: int, j2: int| 0 <= j1 < j2 < slot_indices(nodes, s, k).len()
            ==> slot_indices(nodes, s, k)[j1] < slot_indices(nodes, s, k)[j2],
    decreases k,
{
    if k > 0 {
        lemma_slot_indices_valid(nodes, s, k - 1);
    }
}

/// Walking a slot's positions with a filter that only holds on that slot
/// collects exactly what a full filtered scan collects.
pub proof fn lemma_collect_eq_filter(nodes: Seq<NodeV>, s: int, k: int, p: spec_fn(NodeV) -> bool)
    requires
        0 <= k <= nodes.len(),
        forall|n: NodeV| #[trigger] p(n) ==> type_slot(n.node_type) == s,
    ensures
        collected(nodes, slot_indices(nodes, s, k), p)
            == payloads(nodes.take(k).filter(p)),
    decreases k,
{
    if k <= 0 {
        assert(nodes.take(0).filter(p) =~= Seq::empty());
        assert(collected(nodes, slot_indices(nodes, s, k), p)
            =~= payloads(nodes.take(0).filter(p)));
    } else {
        lemma_collect_eq_filter(nodes, s, k - 1, p);
        crate::queries::lemma_filter_snoc(nodes, p, k - 1);
        if type_slot(nodes[k - 1].node_type) == s {
            let prev = slot_indices(nodes, s, k - 1);
            assert(slot_indices(nodes, s, k) == prev + seq![k - 1]);
            assert((prev + seq![k - 1]).drop_last() =~= prev);
            assert((prev + seq![k - 1]).last() == k - 1);
            if p(nodes[k - 1]) {
                assert(collected(nodes, slot_indices(nodes, s, k), p)
                    =~= collected(nodes, prev, p).push(nodes[k - 1].node_data));
                assert(payloads(nodes.take(k).filter(p))
                    =~= payloads(nodes.take(k - 1).filter(p)).push(nodes[k - 1].node_data));
            } else {
                assert(collected(nodes, slot_indices(nodes, s, k), p)
                    =~= collected(nodes, prev, p));
                assert(payloads(nodes.take(k).filter(p))
                    =~= payloads(nodes.take(k - 1).filter(p)));
            }
        } else {
            assert(!p(nodes[k - 1]));
            assert(slot_indices(nodes, s, k) =~= slot_indices(nodes, s, k - 1));
            assert(payloads(nodes.take(k).filter(p))
                =~= payloads(nodes.take(k - 1).filter(p)));
        }
    }
}

/// The positions recorded for a slot depend only on the nodes scanned.
pub proof fn lemma_slot_indices_frame(n1: Seq<NodeV>, n2: Seq<NodeV>, s: int, k: int)
    requires
        forall|j: int| 0 <= j < k ==> n1[j] == n2[j],
    ensures
        slot_indices(n1, s, k) == slot_indices(n2, s, k),
    decreases k,
{
    if k > 0 {
        lemma_slot_indices_frame(n1, n2, s, k - 1);
    }
}

/// A graph whose node lookups go through a per-kind position index.
#[derive(Debug)]
pub struct IndexGraph {
    nodes: Vec<Node>,
    edges: Vec<Edge>,
    errors: Vec<String>,
    node_index: Vec<Vec<usize>>,
}

impl View for IndexGraph {
    type V = GraphV;

    closed spec fn view(&self) -> GraphV {
        GraphV {
            nodes: self.nodes@.map_values(|n: Node| n@),
            edges: self.edges@.map_values(|e: Edge| e@),
            errors: self.errors@.map_values(|s: String| s@),
        }
    }
}

impl IndexGraph {
    /// The index is complete and correct: one bucket per kind, holding
    /// exactly the positions of that kind's nodes, in order. Constructors
    /// establish it and every method preserves it.
    pub closed spec fn wf(self) -> bool {
        &&& self.node_index@.len() == slot_count()
        &&& forall|s: int| 0 <= s < slot_count()
            ==> idxs(#[trigger] self.node_index@[s]@) == slot_indices(self@.nodes, s, self@.nodes.len() as int)
    }

    /// The slot a node kind is filed under.
    fn slot_of(t: NodeType) -> (r: usize)
        ensures
            r as int == type_slot(t),
            r < 14,
    {
        match t {
            NodeType::Repository => 0,
            NodeType::Language => 1,
            NodeType::File => 2,
            NodeType::Function => 3,
            NodeType::Class => 4,
            NodeType::Endpoint => 5,
            NodeType::DataModel => 6,
            NodeType::Page => 7,
            NodeType::Request => 8,
            NodeType::Instance => 9,
            NodeType::Import => 10,
            NodeType::Test => 11,
            NodeType::IntegrationTest => 12,
            NodeType::Library => 13,
        }
    }

    /// An empty graph with an empty index.
    pub fn new() -> (r: Self)
        ensures
            r.wf(),
            r@.nodes.len() == 0,
            r@.edges.len() == 0,
            r@.errors.len() == 0,
    {
        let mut node_index: Vec<Vec<usize>> = Vec::new();
        for i in 0..14usize
            invariant
                node_index@.len() == i,
                forall|s: int| 0 <= s < i ==> (#[trigger] node_index@[s])@.len() == 0,
        {
            node_index.push(Vec::new());
        }
        let r = IndexGraph { nodes: Vec::new(), edges: Vec::new(), errors: Vec::new(), node_index };
        proof {
            assert forall|s: int| 0 <= s < slot_count()
                implies idxs(#[trigger] r.node_index@[s]@) == slot_indices(r@.nodes, s, r@.nodes.len() as int) by {
                assert(idxs(r.node_index@[s]@) =~= slot_indices(r@.nodes, s, 0));
            }
        }
        r
    }

    /// Appends a node and files its position in the index.
    pub fn add_node(&mut self, node_type: NodeType, node_data: NodeData)
        requires
            old(self).wf(),
        ensures
            final(self).wf(),
            final(self)@.nodes == old(self)@.nodes.push((NodeV { node_type, node_data: node_data@ })),
            final(self)@.edges == old(self)@.edges,
            final(self)@.errors == old(self)@.errors,
    {
        let pos = self.nodes.len();
        let slot = Self::slot_of(node_type);
        self.nodes.push(Node::new(node_type, node_data));
        let mut bucket = self.node_index.remove(slot);
        bucket.push(pos);
        self.node_index.insert(slot, bucket);
        proof {
            assert(final(self)@.nodes =~= old(self)@.nodes.push(
                (NodeV { node_type, node_data: node_data@ })));
            assert(final(self)@.edges =~= old(self)@.edges);
            assert(final(self)@.errors =~= old(self)@.errors);
            let nn = final(self)@.nodes;
            let len = nn.len() as int;
            assert forall|s: int| 0 <= s < slot_count()
                implies idxs(#[trigger] self.node_index@[s]@) == slot_indices(nn, s, len) by {
                assert(forall|k: int| 0 <= k < len - 1 ==> nn[k] == old(self)@.nodes[k]);
                lemma_slot_indices_frame(nn, old(self)@.nodes, s, len - 1);
                assert(slot_indices(nn, s, len - 1) == slot_indices(old(self)@.nodes, s, len - 1));
                if s == slot {
                    assert(self.node_index@[s]@ =~= old(self).node_index@[s]@.push(pos));
                    assert(idxs(self.node_index@[s]@)
                        =~= slot_indices(nn, s, len - 1) + seq![len - 1]);
                    assert(slot_indices(nn, s, len)
                        =~= slot_indices(nn, s, len - 1) + seq![len - 1]);
                } else {
                    assert(self.node_index@[s]@ =~= old(self).node_index@[s]@);
                    assert(slot_indices(nn, s, len) =~= slot_indices(nn, s, len - 1));
                }
            }
        }
    }

    /// Appends an edge.
    pub fn add_edge(&mut self, e: Edge)
        requires
            old(self).wf(),
        ensures
            final(self).wf(),
            final(self)@.nodes == old(self)@.nodes,
            final(self)@.edges == old(self)@.edges.push(e@),
            final(self)@.errors == old(self)@.errors,
    {
        self.edges.push(e);
        proof {
            assert(final(self)@.edges =~= old(self)@.edges.push(e@));
            assert(final(self)@.nodes =~= old(self)@.nodes);
            assert(final(self)@.errors =~= old(self)@.errors);
        }
    }

    /// Records a soft extraction error.
    pub fn add_error(&mut self, message: String)
        requires
            old(self).wf(),
        ensures
            final(self).wf(),
            final(self)@.nodes == old(self)@.nodes,
            final(self)@.edges == old(self)@.edges,
            final(self)@.errors == old(self)@.errors.push(message@),
    {
        self.errors.push(message);
        proof {
            assert(final(self)@.errors =~= old(self)@.errors.push(message@));
            assert(final(self)@.nodes =~= old(self)@.nodes);
            assert(final(self)@.edges =~= old(self)@.edges);
        }
    }

    /// The node and edge counts.
    pub fn get_graph_size(&self) -> (r: (u32, u32))
        requires
            self@.nodes.len() <= u32::MAX,
            self@.edges.len() <= u32::MAX,
        ensures
            r.0 == self@.nodes.len(),
            r.1 == self@.edges.len(),
    {
        (self.nodes.len() as u32, self.edges.len() as u32)
    }

    /// The payloads of all nodes of kind `node_type`, touching only that
    /// kind's bucket.
    pub fn find_nodes_by_type(&self, node_type: NodeType) -> (r: Vec<NodeData>)
        requires
            self.wf(),
        ensures
            data_views(r@) == nodes_where(self@, p_node_typed(node_type)),
    {
        let ghost p = p_node_typed(node_type);
        let slot = Self::slot_of(node_type);
        let ghost s = slot as int;
        let ghost positions = slot_indices(self@.nodes, s, self@.nodes.len() as int);
        proof {
            lemma_slot_indices_valid(self@.nodes, s, self@.nodes.len() as int);
        }
        let bucket_len = self.node_index[slot].len();
        let mut r: Vec<NodeData> = Vec::new();
        for j in 0..bucket_len
            invariant
                p == p_node_typed(node_type),
                s == slot as int,
                slot < self.node_index@.len(),
                positions == slot_indices(self@.nodes, s, self@.nodes.len() as int),
                idxs(self.node_index@[s]@) == positions,
                bucket_len == self.node_index@[s]@.len(),
                forall|q: int| 0 <= q < positions.len()
                    ==> 0 <= #[trigger] positions[q] < self@.nodes.len()
                        && type_slot(self@.nodes[positions[q]].node_type) == s,
                data_views(r@) =~= collected(self@.nodes, positions.take(j as int), p),
        {
            let pos = self.node_index[slot][j];
            proof {
                assert(positions[j as int] == pos as int);
                assert(self@.nodes[pos as int] == self.nodes@[pos as int]@);
                assert(positions.take(j + 1).drop_last() =~= positions.take(j as int));
            }
            let node = &self.nodes[pos];
            if node.node_type == node_type {
                r.push(node.node_data.clone());
            }
            proof {
                assert(data_views(r@) =~= collected(self@.nodes, positions.take(j + 1), p));
            }
        }
        proof {
            assert(positions.take(bucket_len as int) =~= positions);
            lemma_collect_eq_filter(self@.nodes, s, self@.nodes.len() as int, p);
            assert(self@.nodes.take(self@.nodes.len() as int) =~= self@.nodes);
        }
        r
    }

    /// The payloads of all nodes of kind `node_type` named `name`, touching
    /// only that kind's bucket.
    pub fn find_nodes_by_name(&self, node_type: NodeType, name: &str) -> (r: Vec<NodeData>)
        requires
            self.wf(),
        ensures
            data_views(r@) == nodes_where(self@, p_node_named(node_type, name@)),
    {
        let ghost p = p_node_named(node_type, name@);
        let slot = Self::slot_of(node_type);
        let ghost s = slot as int;
        let ghost positions = slot_indices(self@.nodes, s, self@.nodes.len() as int);
        proof {
            lemma_slot_indices_valid(self@.nodes, s, self@.nodes.len() as int);
        }
        let bucket_len = self.node_index[slot].len();
        let mut r: Vec<NodeData> = Vec::new();
        for j in 0..bucket_len
            invariant
                p == p_node_named(node_type, name@),
                s == slot as int,
                slot < self.node_index@.len(),
                positions == slot_indices(self@.nodes, s, self@.nodes.len() as int),
                idxs(self.node_index@[s]@) == positions,
                bucket_len == self.node_index@[s]@.len(),
                forall|q: int| 0 <= q < positions.len()
                    ==> 0 <= #[trigger] positions[q] < self@.nodes.len()
                        && type_slot(self@.nodes[positions[q]].node_type) == s,
                data_views(r@) =~= collected(self@.nodes, positions.take(j as int), p),
        {
            let pos = self.node_index[slot][j];
            proof {
                assert(positions[j as int] == pos as int);
                assert(self@.nodes[pos as int] == self.nodes@[pos as int]@);
                assert(positions.take(j + 1).drop_last() =~= positions.take(j as int));
            }
            let node = &self.nodes[pos];
            if node.node_type == node_type && str_eq(node.node_data.name.as_str(), name) {
                r.push(node.node_data.clone());
            }
            proof {
                assert(data_views(r@) =~= collected(self@.nodes, positions.take(j + 1), p));
            }
        }
        proof {
            assert(positions.take(bucket_len as int) =~= positions);
            lemma_collect_eq_filter(self@.nodes, s, self@.nodes.len() as int, p);
            assert(self@.nodes.take(self@.nodes.len() as int) =~= self@.nodes);
        }
        r
    }

    /// The number of edges whose kind matches `edge_type`, with `Calls`
    /// matching on variant identity only; edges are not indexed, so this
    /// is a scan, as in the linear backend.
    pub fn count_edges_of_type(&self, edge_type: &EdgeType) -> (r: usize)
        ensures
            r == count_edges(self@, edge_type@),
    {
        let ghost p = p_edge_kind(edge_type@);
        let mut c: usize = 0;
        let n = self.edges.len();
        for i in 0..n
            invariant
                p == p_edge_kind(edge_type@),
                n == self.edges.len(),
                c <= i,
                c == count_edges_upto(self@, edge_type@, i as int),
        {
            let edge = &self.edges[i];
            proof {
                assert(self@.edges[i as int] == self.edges@[i as int]@);
                lemma_filter_snoc(self@.edges, p, i as int);
            }
            if edge_kind_matches(&edge.edge, edge_type) {
                c = c + 1;
            }
        }
        proof {
            assert(self@.edges.take(n as int) =~= self@.edges);
        }
        c
    }
}

} // verus!
