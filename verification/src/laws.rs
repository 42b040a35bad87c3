//! Whole-library laws: the properties that hold across the backends and
//! the linking passes, stated over the logical views and proved once.

use vstd::prelude::*;
use vstd::seq_lib::lemma_multiset_commutative;
use crate::linker::{add_endpoint_step, add_endpoints_spec};
use crate::model::{meta_lookup, EdgeTypeV, EdgeV, NodeDataV, NodeType, NodeV};
use crate::queries::{
    count_edges, direct_usage, first_index_where, first_node_where, lemma_first_index_sound,
    nodes_where, p_endpoint, p_keep_edge, p_keep_node, p_node_named, p_node_typed, GraphV,
};

verus! {

/// Backend equivalence: any two graphs with the same logical content give
/// the same answer to every lookup, because each lookup's contract is a
/// function of the logical view alone; the linear-scan and the indexed
/// backend both pin their answers to these functions.
pub proof fn law_backend_equivalence(a: GraphV, b: GraphV)
    requires
        a.nodes == b.nodes,
        a.edges == b.edges,
        a.errors == b.errors,
    ensures
        forall|t: NodeType, name: Seq<char>|
            nodes_where(a, p_node_named(t, name)) == nodes_where(b, p_node_named(t, name)),
        forall|t: NodeType| nodes_where(a, p_node_typed(t)) == nodes_where(b, p_node_typed(t)),
        forall|et: EdgeTypeV| count_edges(a, et) == count_edges(b, et),
        forall|f: Seq<char>, dm: Seq<char>| direct_usage(a, f, dm) == direct_usage(b, f, dm),
        forall|p: spec_fn(NodeV) -> bool| first_node_where(a, p) == first_node_where(b, p),
{
}

/// Determinism of merging: combining two builds in either order yields the
/// same multiset of nodes and of edges — order affects only positions,
/// never content.
pub proof fn law_merge_order_irrelevant(g1: GraphV, g2: GraphV)
    ensures
        (g1.nodes + g2.nodes).to_multiset() == (g2.nodes + g1.nodes).to_multiset(),
        (g1.edges + g2.edges).to_multiset() == (g2.edges + g1.edges).to_multiset(),
{
    lemma_multiset_commutative(g1.nodes, g2.nodes);
    lemma_multiset_commutative(g2.nodes, g1.nodes);
    lemma_multiset_commutative(g1.edges, g2.edges);
    lemma_multiset_commutative(g2.edges, g1.edges);
    assert((g1.nodes + g2.nodes).to_multiset() =~= (g2.nodes + g1.nodes).to_multiset());
    assert((g1.edges + g2.edges).to_multiset() =~= (g2.edges + g1.edges).to_multiset());
}

/// Endpoint dedup: ingesting two endpoint records that agree on name, file
/// and bound verb adds the node for the first record at most once — the
/// second record changes no node.
pub proof fn law_endpoint_dedup(g: GraphV, e1: (NodeDataV, Option<EdgeV>), e2: (NodeDataV, Option<EdgeV>))
    requires
        e1.0.name == e2.0.name,
        e1.0.file == e2.0.file,
        meta_lookup(e1.0.meta, "handler"@) is Some,
        meta_lookup(e2.0.meta, "handler"@) is Some,
        meta_lookup(e1.0.meta, "verb"@) is Some,
        meta_lookup(e1.0.meta, "verb"@) == meta_lookup(e2.0.meta, "verb"@),
    ensures
        add_endpoints_spec(g, seq![e1, e2], 2).nodes == add_endpoints_spec(g, seq![e1], 1).nodes,
{
    let es2 = seq![e1, e2];
    let es1 = seq![e1];
    assert(es2[0] == e1 && es2[1] == e2 && es1[0] == e1);
    assert(add_endpoints_spec(g, es2, 1) == add_endpoint_step(add_endpoints_spec(g, es2, 0), e1));
    assert(add_endpoints_spec(g, es2, 0) == g);
    let g1 = add_endpoint_step(g, e1);
    assert(add_endpoints_spec(g, es2, 2) == add_endpoint_step(g1, e2));
    assert(add_endpoints_spec(g, es1, 0) == g);
    assert(add_endpoints_spec(g, es1, 1) == g1);
    let verb = meta_lookup(e1.0.meta, "verb"@)->0;
    let p = p_endpoint(e2.0.name, e2.0.file, verb);
    if first_index_where(g.nodes, p_endpoint(e1.0.name, e1.0.file, verb)) is Some {
        assert(g1 == g);
    } else {
        let n = g1.nodes.len() - 1;
        assert(g1.nodes[n] == (NodeV { node_type: NodeType::Endpoint, node_data: e1.0 }));
        assert(p(g1.nodes[n]));
        lemma_first_index_sound(g1.nodes, p);
        assert(first_index_where(g1.nodes, p) is Some);
    }
}

/// Filter correctness: the filtered node sequence keeps every Repository
/// node and every node whose file is allowed, and nothing else; the
/// filtered edge sequence keeps exactly the edges with an allowed endpoint.
pub proof fn law_filter_correctness(g: GraphV, files: Seq<Seq<char>>)
    ensures
        forall|i: int| 0 <= i < g.nodes.len()
            && ((#[trigger] g.nodes[i]).node_type == NodeType::Repository
                || files.contains(g.nodes[i].node_data.file))
            ==> g.nodes.filter(p_keep_node(files)).contains(g.nodes[i]),
        forall|j: int| 0 <= j < g.nodes.filter(p_keep_node(files)).len()
            ==> (#[trigger] g.nodes.filter(p_keep_node(files))[j]).node_type == NodeType::Repository
                || files.contains(g.nodes.filter(p_keep_node(files))[j].node_data.file),
        forall|i: int| 0 <= i < g.edges.len()
            && (files.contains((#[trigger] g.edges[i]).source.node_data.file)
                || files.contains(g.edges[i].target.node_data.file))
            ==> g.edges.filter(p_keep_edge(files)).contains(g.edges[i]),
        forall|j: int| 0 <= j < g.edges.filter(p_keep_edge(files)).len()
            ==> files.contains((#[trigger] g.edges.filter(p_keep_edge(files))[j]).source.node_data.file)
                || files.contains(g.edges.filter(p_keep_edge(files))[j].target.node_data.file),
{
    broadcast use vstd::seq_lib::group_filter_ensures;

    assert forall|i: int| 0 <= i < g.nodes.len()
        && ((#[trigger] g.nodes[i]).node_type == NodeType::Repository
            || files.contains(g.nodes[i].node_data.file))
        implies g.nodes.filter(p_keep_node(files)).contains(g.nodes[i]) by {
        assert(p_keep_node(files)(g.nodes[i]));
    }
    assert forall|i: int| 0 <= i < g.edges.len()
        && (files.contains((#[trigger] g.edges[i]).source.node_data.file)
            || files.contains(g.edges[i].target.node_data.file))
        implies g.edges.filter(p_keep_edge(files)).contains(g.edges[i]) by {
        assert(p_keep_edge(files)(g.edges[i]));
    }
    assert forall|j: int| 0 <= j < g.nodes.filter(p_keep_node(files)).len()
        implies (#[trigger] g.nodes.filter(p_keep_node(files))[j]).node_type == NodeType::Repository
            || files.contains(g.nodes.filter(p_keep_node(files))[j].node_data.file) by {
        assert(p_keep_node(files)(g.nodes.filter(p_keep_node(files))[j]));
    }
    assert forall|j: int| 0 <= j < g.edges.filter(p_keep_edge(files)).len()
        implies files.contains((#[trigger] g.edges.filter(p_keep_edge(files))[j]).source.node_data.file)
            || files.contains(g.edges.filter(p_keep_edge(files))[j].target.node_data.file) by {
        assert(p_keep_edge(files)(g.edges.filter(p_keep_edge(files))[j]));
    }
}

} // verus!
