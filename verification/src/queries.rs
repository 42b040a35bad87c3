//! The logical view of a graph and the spec-level query functions that both
//! storage backends are specified against: whichever backend answers a
//! lookup, the answer is pinned to the same function of the same view.

use vstd::prelude::*;
use crate::model::{
    meta_lookup, request_call_edge, same_edge_kind, Edge, EdgeTypeV, EdgeV, FunctionCall,
    FunctionCallV, FunctionRec, FunctionRecV, Node, NodeData, NodeDataV, NodeKeys, NodeKeysV,
    NodeType, NodeV,
};
use crate::text::{spec_contains, spec_ends_with, string_views};

verus! {

/// The logical content of a graph: node, edge and error sequences.
pub struct GraphV {
    pub nodes: Seq<NodeV>,
    pub edges: Seq<EdgeV>,
    pub errors: Seq<Seq<char>>,
}

/// The view of an optional payload.
pub open spec fn opt_data_view(r: Option<NodeData>) -> Option<NodeDataV> {
    match r {
        Some(d) => Some(d@),
        None => None,
    }
}

/// The view of optional node keys.
pub open spec fn opt_keys_view(r: Option<NodeKeys>) -> Option<NodeKeysV> {
    match r {
        Some(k) => Some(k@),
        None => None,
    }
}

/// The views of a vector of payloads.
pub open spec fn data_views(r: Seq<NodeData>) -> Seq<NodeDataV> {
    r.map_values(|d: NodeData| d@)
}

/// The views of a vector of nodes.
pub open spec fn node_views(r: Seq<Node>) -> Seq<NodeV> {
    r.map_values(|n: Node| n@)
}

/// The views of a vector of edges.
pub open spec fn edge_views(r: Seq<Edge>) -> Seq<EdgeV> {
    r.map_values(|e: Edge| e@)
}

/// The views of a vector of function records.
pub open spec fn frec_views(r: Seq<FunctionRec>) -> Seq<FunctionRecV> {
    r.map_values(|f: FunctionRec| f@)
}

/// The views of a vector of call records.
pub open spec fn call_views(r: Seq<(FunctionCall, Option<NodeData>)>) -> Seq<(FunctionCallV, Option<NodeDataV>)> {
    r.map_values(|c: (FunctionCall, Option<NodeData>)| (c.0@, opt_data_view(c.1)))
}

/// The views of a vector of page records.
pub open spec fn page_views(r: Seq<(NodeData, Vec<Edge>)>) -> Seq<(NodeDataV, Seq<EdgeV>)> {
    r.map_values(|p: (NodeData, Vec<Edge>)| (p.0@, edge_views(p.1@)))
}

/// The view of an optional edge.
pub open spec fn opt_edge_view(r: Option<Edge>) -> Option<EdgeV> {
    match r {
        Some(e) => Some(e@),
        None => None,
    }
}

/// The views of a vector of endpoint records.
pub open spec fn endpoint_views(r: Seq<(NodeData, Option<Edge>)>) -> Seq<(NodeDataV, Option<EdgeV>)> {
    r.map_values(|p: (NodeData, Option<Edge>)| (p.0@, opt_edge_view(p.1)))
}

/// An optional edge as a zero- or one-element sequence.
pub open spec fn opt_edge_seq(o: Option<EdgeV>) -> Seq<EdgeV> {
    match o {
        Some(e) => seq![e],
        None => Seq::empty(),
    }
}

/// The nodes recorded for a list of outbound request literals.
pub open spec fn request_nodes(rs: Seq<NodeDataV>) -> Seq<NodeV> {
    rs.map_values(|r: NodeDataV| (NodeV { node_type: NodeType::Request, node_data: r }))
}

/// The `Calls` edges recorded for a list of outbound request literals found
/// in the body of `f`.
pub open spec fn request_call_edges(f: NodeDataV, rs: Seq<NodeDataV>) -> Seq<EdgeV> {
    rs.map_values(|r: NodeDataV| request_call_edge(f, r))
}

// ---------------------------------------------------------------------------
// First-match machinery
// ---------------------------------------------------------------------------

/// The least index of `s` whose element satisfies `p`, if any.
pub open spec fn first_index_where<A>(s: Seq<A>, p: spec_fn(A) -> bool) -> Option<int>
    decreases s.len(),
{
    if s.len() == 0 {
        None
    } else if p(s[0]) {
        Some(0)
    } else {
        match first_index_where(s.drop_first(), p) {
            Some(j) => Some(j + 1),
            None => None,
        }
    }
}

/// `first_index_where` returns `i` when `i` is a match and nothing before it is.
pub proof fn lemma_first_index_is<A>(s: Seq<A>, p: spec_fn(A) -> bool, i: int)
    requires
        0 <= i < s.len(),
        p(s[i]),
        forall|k: int| 0 <= k < i ==> !p(s[k]),
    ensures
        first_index_where(s, p) == Some(i),
    decreases i,
{
    if i == 0 {
    } else {
        assert(!p(s[0]));
        assert(forall|k: int| 0 <= k < i - 1 ==> s.drop_first()[k] == s[k + 1]);
        lemma_first_index_is(s.drop_first(), p, i - 1);
    }
}

/// `first_index_where` returns nothing when nothing matches.
pub proof fn lemma_first_index_none<A>(s: Seq<A>, p: spec_fn(A) -> bool)
    requires
        forall|k: int| 0 <= k < s.len() ==> !p(s[k]),
    ensures
        first_index_where(s, p) is None,
    decreases s.len(),
{
    if s.len() > 0 {
        assert(forall|k: int| 0 <= k < s.len() - 1 ==> s.drop_first()[k] == s[k + 1]);
        lemma_first_index_none(s.drop_first(), p);
    }
}

/// What a `first_index_where` answer means.
pub proof fn lemma_first_index_sound<A>(s: Seq<A>, p: spec_fn(A) -> bool)
    ensures
        match first_index_where(s, p) {
            Some(i) => 0 <= i < s.len() && p(s[i]) && (forall|k: int| 0 <= k < i ==> !p(s[k])),
            None => forall|k: int| 0 <= k < s.len() ==> !p(s[k]),
        },
    decreases s.len(),
{
    if s.len() > 0 && !p(s[0]) {
        lemma_first_index_sound(s.drop_first(), p);
        match first_index_where(s.drop_first(), p) {
            Some(j) => {
                assert(s.drop_first()[j] == s[j + 1]);
                assert forall|k: int| 0 <= k < j + 1 implies !p(s[k]) by {
                    if k > 0 {
                        assert(s[k] == s.drop_first()[k - 1]);
                    }
                }
            },
            None => {
                assert forall|k: int| 0 <= k < s.len() implies !p(s[k]) by {
                    if k > 0 {
                        assert(s[k] == s.drop_first()[k - 1]);
                    }
                }
            },
        }
    }
}

/// Filtering one more element appends it exactly when it matches.
pub proof fn lemma_filter_snoc<A>(s: Seq<A>, p: spec_fn(A) -> bool, i: int)
    requires
        0 <= i < s.len(),
    ensures
        s.take(i + 1).filter(p) == if p(s[i]) {
            s.take(i).filter(p).push(s[i])
        } else {
            s.take(i).filter(p)
        },
{
    reveal(Seq::filter);
    assert(s.take(i + 1).drop_last() =~= s.take(i));
    assert(s.take(i + 1).last() == s[i]);
    assert(s.take(i + 1).len() == i + 1);
}

// ---------------------------------------------------------------------------
// Node and edge predicates
// ---------------------------------------------------------------------------

/// Node of kind `t` named `name`.
pub open spec fn p_node_named(t: NodeType, name: Seq<char>) -> spec_fn(NodeV) -> bool {
    |n: NodeV| n.node_type == t && n.node_data.name == name
}

/// Node of kind `t`.
pub open spec fn p_node_typed(t: NodeType) -> spec_fn(NodeV) -> bool {
    |n: NodeV| n.node_type == t
}

/// Node of kind `t` named `name` defined in `file`.
pub open spec fn p_node_keyed(t: NodeType, name: Seq<char>, file: Seq<char>) -> spec_fn(NodeV) -> bool {
    |n: NodeV| n.node_type == t && n.node_data.name == name && n.node_data.file == file
}

/// Node of kind `t` defined in `file`.
pub open spec fn p_node_in_file(t: NodeType, file: Seq<char>) -> spec_fn(NodeV) -> bool {
    |n: NodeV| n.node_type == t && n.node_data.file == file
}

/// Node of kind `t` in `file` whose line span contains `row`.
pub open spec fn p_node_in_range(t: NodeType, row: nat, file: Seq<char>) -> spec_fn(NodeV) -> bool {
    |n: NodeV| n.node_type == t && n.node_data.file == file
        && n.node_data.start <= row && n.node_data.end >= row
}

/// Node of kind `t` in `file` starting exactly at `line`.
pub open spec fn p_node_at_line(t: NodeType, file: Seq<char>, line: nat) -> spec_fn(NodeV) -> bool {
    |n: NodeV| n.node_type == t && n.node_data.file == file && n.node_data.start == line
}

/// Node of kind `t` whose file ends with `suffix`.
pub open spec fn p_node_file_suffix(t: NodeType, suffix: Seq<char>) -> spec_fn(NodeV) -> bool {
    |n: NodeV| n.node_type == t && spec_ends_with(n.node_data.file, suffix)
}

/// Node of kind `t` named `name` whose file ends with `suffix`.
pub open spec fn p_node_named_file_suffix(t: NodeType, name: Seq<char>, suffix: Seq<char>) -> spec_fn(NodeV) -> bool {
    |n: NodeV| n.node_type == t && n.node_data.name == name
        && spec_ends_with(n.node_data.file, suffix)
}

/// File node whose defining file is exactly `file`.
pub open spec fn p_file_node(file: Seq<char>) -> spec_fn(NodeV) -> bool {
    |n: NodeV| n.node_type == NodeType::File && n.node_data.file == file
}

/// Endpoint node with the given name, file, and bound verb.
pub open spec fn p_endpoint(name: Seq<char>, file: Seq<char>, verb: Seq<char>) -> spec_fn(NodeV) -> bool {
    |n: NodeV| n.node_type == NodeType::Endpoint && n.node_data.name == name
        && n.node_data.file == file
        && meta_lookup(n.node_data.meta, "verb"@) == Some(verb)
}

/// Data-model node whose name contains `name`.
pub open spec fn p_data_model(name: Seq<char>) -> spec_fn(NodeV) -> bool {
    |n: NodeV| n.node_type == NodeType::DataModel && spec_contains(n.node_data.name, name)
}

/// Edge whose kind matches `et` (with `Calls` on variant identity only) and
/// whose target copy carries the given name and file.
pub open spec fn p_edge_kind_target(et: EdgeTypeV, name: Seq<char>, file: Seq<char>) -> spec_fn(EdgeV) -> bool {
    |e: EdgeV| same_edge_kind(e.edge, et) && e.target.node_data.name == name
        && e.target.node_data.file == file
}

/// Edge whose source copy carries the given name and file.
pub open spec fn p_edge_source(name: Seq<char>, file: Seq<char>) -> spec_fn(EdgeV) -> bool {
    |e: EdgeV| e.source.node_data.name == name && e.source.node_data.file == file
}

/// Node kept by a file filter: Repository nodes unconditionally, others only
/// when their file is in the allow-list.
pub open spec fn p_keep_node(files: Seq<Seq<char>>) -> spec_fn(NodeV) -> bool {
    |n: NodeV| n.node_type == NodeType::Repository || files.contains(n.node_data.file)
}

/// Edge kept by a file filter: either endpoint's file is in the allow-list.
pub open spec fn p_keep_edge(files: Seq<Seq<char>>) -> spec_fn(EdgeV) -> bool {
    |e: EdgeV| files.contains(e.source.node_data.file) || files.contains(e.target.node_data.file)
}

// ---------------------------------------------------------------------------
// Pure queries over the logical view
// ---------------------------------------------------------------------------

/// The payload at the first node matching `p`, if any.
pub open spec fn first_node_where(g: GraphV, p: spec_fn(NodeV) -> bool) -> Option<NodeDataV> {
    match first_index_where(g.nodes, p) {
        Some(i) => Some(g.nodes[i].node_data),
        None => None,
    }
}

/// The payloads of a node sequence.
pub open spec fn payloads(s: Seq<NodeV>) -> Seq<NodeDataV> {
    s.map_values(|n: NodeV| n.node_data)
}

/// The payloads of all nodes matching `p`, in graph order.
pub open spec fn nodes_where(g: GraphV, p: spec_fn(NodeV) -> bool) -> Seq<NodeDataV> {
    payloads(g.nodes.filter(p))
}

/// The payloads of all matching nodes among the first `i`.
pub open spec fn nodes_where_upto(g: GraphV, p: spec_fn(NodeV) -> bool, i: int) -> Seq<NodeDataV> {
    payloads(g.nodes.take(i).filter(p))
}

/// Scanning one more node appends its payload exactly when it matches.
pub proof fn lemma_nodes_where_snoc(g: GraphV, p: spec_fn(NodeV) -> bool, i: int)
    requires
        0 <= i < g.nodes.len(),
    ensures
        nodes_where_upto(g, p, i + 1) == if p(g.nodes[i]) {
            nodes_where_upto(g, p, i).push(g.nodes[i].node_data)
        } else {
            nodes_where_upto(g, p, i)
        },
{
    lemma_filter_snoc(g.nodes, p, i);
    if p(g.nodes[i]) {
        assert(payloads(g.nodes.take(i + 1).filter(p))
            =~= payloads(g.nodes.take(i).filter(p)).push(g.nodes[i].node_data));
    }
}

/// Edge whose kind matches `et` (with `Calls` on variant identity only).
pub open spec fn p_edge_kind(et: EdgeTypeV) -> spec_fn(EdgeV) -> bool {
    |e: EdgeV| same_edge_kind(e.edge, et)
}

/// The number of edges whose kind matches `et`.
pub open spec fn count_edges(g: GraphV, et: EdgeTypeV) -> nat {
    g.edges.filter(p_edge_kind(et)).len()
}

/// The number of matching edges among the first `i`.
pub open spec fn count_edges_upto(g: GraphV, et: EdgeTypeV, i: int) -> nat {
    g.edges.take(i).filter(p_edge_kind(et)).len()
}

/// The source copy of the first edge matching `p`, if any.
pub open spec fn first_edge_source(g: GraphV, p: spec_fn(EdgeV) -> bool) -> Option<NodeKeysV> {
    match first_index_where(g.edges, p) {
        Some(i) => Some(g.edges[i].source.node_data),
        None => None,
    }
}

/// The views of a vector of payload pairs.
pub open spec fn pair_views(r: Seq<(NodeData, NodeData)>) -> Seq<(NodeDataV, NodeDataV)> {
    r.map_values(|p: (NodeData, NodeData)| (p.0@, p.1@))
}

/// A `Calls` edge whose source copy carries `name` and `file`.
pub open spec fn p_calls_from(name: Seq<char>, file: Seq<char>) -> spec_fn(EdgeV) -> bool {
    |e: EdgeV| e.edge is Calls && e.source.node_data.name == name && e.source.node_data.file == file
}

/// A `Handler` edge whose source copy carries `name`.
pub open spec fn p_handler_from(name: Seq<char>) -> spec_fn(EdgeV) -> bool {
    |e: EdgeV| e.edge is Handler && e.source.node_data.name == name
}

/// An edge of matching kind between a source node of kind `st` and a
/// target node of kind `tt`.
pub open spec fn p_edge_shape(et: EdgeTypeV, st: NodeType, tt: NodeType) -> spec_fn(EdgeV) -> bool {
    |e: EdgeV| same_edge_kind(e.edge, et) && e.source.node_type == st && e.target.node_type == tt
}

/// The functions reached by the first `k` edges: for each `Calls` edge out
/// of `f`, every function node matching the edge's target copy.
pub open spec fn called_by(g: GraphV, f: NodeDataV, k: int) -> Seq<NodeDataV>
    decreases k,
{
    if k <= 0 {
        Seq::empty()
    } else {
        called_by(g, f, k - 1) + if p_calls_from(f.name, f.file)(g.edges[k - 1]) {
            nodes_where(g, p_node_keyed(NodeType::Function, g.edges[k - 1].target.node_data.name,
                g.edges[k - 1].target.node_data.file))
        } else {
            Seq::empty()
        }
    }
}

/// The handlers bound through the first `k` edges: for each `Handler` edge
/// out of the endpoint, the first function node matching the edge's target
/// copy, if any.
pub open spec fn handlers_for(g: GraphV, endpoint_name: Seq<char>, k: int) -> Seq<NodeDataV>
    decreases k,
{
    if k <= 0 {
        Seq::empty()
    } else {
        handlers_for(g, endpoint_name, k - 1) + if p_handler_from(endpoint_name)(g.edges[k - 1]) {
            match first_index_where(g.nodes, p_node_keyed(NodeType::Function,
                g.edges[k - 1].target.node_data.name, g.edges[k - 1].target.node_data.file)) {
                Some(fi) => seq![g.nodes[fi].node_data],
                None => Seq::empty(),
            }
        } else {
            Seq::empty()
        }
    }
}

/// The node pairs named by the first `k` edges of the given shape: each
/// side is the first node of the edge's endpoint kind bearing the endpoint
/// copy's name; edges whose endpoints are not backed by nodes contribute
/// nothing.
pub open spec fn edge_pairs(g: GraphV, st: NodeType, tt: NodeType, et: EdgeTypeV, k: int) -> Seq<(NodeDataV, NodeDataV)>
    decreases k,
{
    if k <= 0 {
        Seq::empty()
    } else {
        edge_pairs(g, st, tt, et, k - 1) + if p_edge_shape(et, st, tt)(g.edges[k - 1]) {
            match (first_index_where(g.nodes, p_node_named(st, g.edges[k - 1].source.node_data.name)),
                   first_index_where(g.nodes, p_node_named(tt, g.edges[k - 1].target.node_data.name))) {
                (Some(a), Some(b)) => seq![(g.nodes[a].node_data, g.nodes[b].node_data)],
                _ => Seq::empty(),
            }
        } else {
            Seq::empty()
        }
    }
}

/// Whether a node's name matches a query path: either its canonical form
/// or its raw name contains the path.
pub open spec fn resource_path_ok(d: NodeDataV, path: Seq<char>) -> bool {
    ||| match crate::text::spec_normalize(d.name) {
            Some(p) => spec_contains(p, path),
            None => false,
        }
    ||| spec_contains(d.name, path)
}

/// Whether a node's bound verb matches a query verb, case-insensitively;
/// a node without a verb matches any.
pub open spec fn resource_verb_ok(d: NodeDataV, verb: Seq<char>) -> bool {
    match meta_lookup(d.meta, "verb"@) {
        Some(v) => crate::text::spec_upper(v) == crate::text::spec_upper(verb),
        None => true,
    }
}

/// Resource node of kind `t` matching the query verb and path.
pub open spec fn p_resource(t: NodeType, verb: Seq<char>, path: Seq<char>) -> spec_fn(NodeV) -> bool {
    |n: NodeV| n.node_type == t && resource_path_ok(n.node_data, path)
        && resource_verb_ok(n.node_data, verb)
}

// ---------------------------------------------------------------------------
// The traversal measure: function nodes not yet visited
// ---------------------------------------------------------------------------

/// How many of the first `k` nodes are function nodes whose name is not in
/// `visited`; the measure that makes the call-graph traversal terminate.
pub open spec fn unvisited_count(nodes: Seq<NodeV>, visited: Seq<Seq<char>>, k: int) -> nat
    decreases k,
{
    if k <= 0 {
        0
    } else {
        unvisited_count(nodes, visited, k - 1) + if nodes[k - 1].node_type == NodeType::Function
            && !visited.contains(nodes[k - 1].node_data.name) {
            1nat
        } else {
            0nat
        }
    }
}

/// Growing the visited set cannot grow the measure.
pub proof fn lemma_unvisited_mono(nodes: Seq<NodeV>, v1: Seq<Seq<char>>, v2: Seq<Seq<char>>, k: int)
    requires
        forall|x: Seq<char>| v1.contains(x) ==> v2.contains(x),
    ensures
        unvisited_count(nodes, v2, k) <= unvisited_count(nodes, v1, k),
    decreases k,
{
    if k > 0 {
        lemma_unvisited_mono(nodes, v1, v2, k - 1);
    }
}

/// Visiting the name of some function node strictly shrinks the measure.
pub proof fn lemma_unvisited_strict(nodes: Seq<NodeV>, v1: Seq<Seq<char>>, v2: Seq<Seq<char>>, idx: int, k: int)
    requires
        forall|x: Seq<char>| v1.contains(x) ==> v2.contains(x),
        0 <= idx < k <= nodes.len(),
        nodes[idx].node_type == NodeType::Function,
        !v1.contains(nodes[idx].node_data.name),
        v2.contains(nodes[idx].node_data.name),
    ensures
        unvisited_count(nodes, v2, k) < unvisited_count(nodes, v1, k),
    decreases k,
{
    if idx == k - 1 {
        lemma_unvisited_mono(nodes, v1, v2, k - 1);
    } else {
        lemma_unvisited_strict(nodes, v1, v2, idx, k - 1);
    }
}

/// A prefix's strings all remain present in the longer list.
pub proof fn lemma_prefix_string_contains(v1: Seq<String>, v2: Seq<String>)
    requires
        v1.is_prefix_of(v2),
    ensures
        forall|x: Seq<char>| string_views(v1).contains(x) ==> string_views(v2).contains(x),
{
    assert forall|x: Seq<char>| string_views(v1).contains(x) implies string_views(v2).contains(x) by {
        let i = choose|i: int| 0 <= i < string_views(v1).len() && string_views(v1)[i] == x;
        assert(v2[i] == v1[i]);
        assert(string_views(v2)[i] == x);
    }
}

/// Whether some `Contains` edge runs from a node named `function_name` to a
/// target whose name contains `data_model`.
pub open spec fn direct_usage(g: GraphV, function_name: Seq<char>, data_model: Seq<char>) -> bool {
    exists|k: int| 0 <= k < g.edges.len() && {
        let e = #[trigger] g.edges[k];
        &&& e.edge is Contains
        &&& e.source.node_data.name == function_name
        &&& spec_contains(e.target.node_data.name, data_model)
    }
}

} // verus!
