//! The linear-scan storage backend: nodes, edges and soft errors held in
//! plain vectors, every lookup a scan. The indexed backend answers the same
//! queries against the same logical view.

use vstd::prelude::*;
use crate::model::{
    class_imports_edge, contains_edge, edge_kind_matches, meta_lookup, of_edge, parent_of_edge,
    same_edge_kind, CallsMeta, CallsMetaV, Edge, EdgeNode, EdgeNodeV, EdgeType, EdgeTypeV, EdgeV,
    Node, NodeData, NodeDataV, NodeKeys, NodeKeysV, NodeType, NodeV,
};
use crate::queries::{
    called_by, count_edges, count_edges_upto, data_views, direct_usage, edge_pairs,
    first_edge_source, first_index_where, first_node_where, handlers_for, lemma_filter_snoc,
    lemma_first_index_is, lemma_first_index_none, lemma_first_index_sound,
    lemma_nodes_where_snoc, lemma_prefix_string_contains, lemma_unvisited_strict, nodes_where,
    nodes_where_upto, opt_data_view, opt_keys_view, p_calls_from, p_data_model, p_edge_kind,
    p_edge_kind_target, p_edge_shape, p_edge_source, p_endpoint, p_file_node, p_handler_from,
    p_keep_edge, p_keep_node, p_node_at_line, p_node_file_suffix, p_node_in_range, p_node_keyed,
    p_node_named, p_node_named_file_suffix, p_node_typed, p_resource, pair_views,
    unvisited_count, GraphV,
};
use crate::text::{
    spec_contains, spec_ends_with, spec_upper, str_contains, str_ends_with, str_eq,
    string_list_contains, string_views,
};

verus! {

/// A graph stored as flat node/edge/error vectors, queried by linear scan.
#[derive(Debug)]
pub struct ArrayGraph {
    pub nodes: Vec<Node>,
    pub edges: Vec<Edge>,
    pub errors: Vec<String>,
}

impl View for ArrayGraph {
    type V = GraphV;

    open spec fn view(&self) -> GraphV {
        GraphV {
            nodes: self.nodes@.map_values(|n: Node| n@),
            edges: self.edges@.map_values(|e: Edge| e@),
            errors: self.errors@.map_values(|s: String| s@),
        }
    }
}

impl ArrayGraph {
    /// An empty graph.
    pub fn new() -> (r: Self)
        ensures
            r@.nodes.len() == 0,
            r@.edges.len() == 0,
            r@.errors.len() == 0,
    {
        ArrayGraph { nodes: Vec::new(), edges: Vec::new(), errors: Vec::new() }
    }

    /// An empty graph; the capacity hint only pre-sizes storage and leaves
    /// the logical content empty.
    pub fn with_capacity(nodes: usize, edges: usize) -> (r: Self)
        ensures
            r@.nodes.len() == 0,
            r@.edges.len() == 0,
            r@.errors.len() == 0,
    {
        ArrayGraph {
            nodes: Vec::with_capacity(nodes),
            edges: Vec::with_capacity(edges),
            errors: Vec::new(),
        }
    }

    /// Appends another graph's nodes, edges and errors after this graph's own.
    pub fn extend_graph(&mut self, other: Self)
        ensures
            final(self)@.nodes == old(self)@.nodes + other@.nodes,
            final(self)@.edges == old(self)@.edges + other@.edges,
            final(self)@.errors == old(self)@.errors + other@.errors,
    {
        let Self { mut nodes, mut edges, mut errors } = other;
        self.nodes.append(&mut nodes);
        self.edges.append(&mut edges);
        self.errors.append(&mut errors);
        proof {
            assert(final(self)@.nodes =~= old(self)@.nodes + other@.nodes);
            assert(final(self)@.edges =~= old(self)@.edges + other@.edges);
            assert(final(self)@.errors =~= old(self)@.errors + other@.errors);
        }
    }

    /// The node and edge counts.
    pub fn get_graph_size(&self) -> (r: (u32, u32))
        requires
            self@.nodes.len() <= u32::MAX,
            self@.edges.len() <= u32::MAX,
        ensures
            r.0 == self@.nodes.len(),
            r.1 == self@.edges.len(),
    {
        (self.nodes.len() as u32, self.edges.len() as u32)
    }

    /// Records a soft extraction error; building never aborts because of one.
    pub fn add_error(&mut self, message: String)
        ensures
            final(self)@.nodes == old(self)@.nodes,
            final(self)@.edges == old(self)@.edges,
            final(self)@.errors == old(self)@.errors.push(message@),
    {
        self.errors.push(message);
        proof {
            assert(final(self)@.errors =~= old(self)@.errors.push(message@));
            assert(final(self)@.nodes =~= old(self)@.nodes);
            assert(final(self)@.edges =~= old(self)@.edges);
        }
    }

    /// Appends pre-built edges, in order; used by linking passes whose edge
    /// discovery runs outside the graph (data-model usage sites).
    pub fn add_edges(&mut self, edges: Vec<Edge>)
        ensures
            final(self)@.nodes == old(self)@.nodes,
            final(self)@.edges == old(self)@.edges + edges@.map_values(|e: Edge| e@),
            final(self)@.errors == old(self)@.errors,
    {
        let Ghost(added) = Ghost(edges@.map_values(|e: Edge| e@));
        let mut edges = edges;
        self.edges.append(&mut edges);
        proof {
            assert(final(self)@.edges =~= old(self)@.edges + added);
            assert(final(self)@.nodes =~= old(self)@.nodes);
            assert(final(self)@.errors =~= old(self)@.errors);
        }
    }

    /// The payload of the first `File` node whose defining file is `filename`.
    pub fn file_data(&self, filename: &str) -> (r: Option<NodeData>)
        ensures
            opt_data_view(r) == first_node_where(self@, p_file_node(filename@)),
    {
        let ghost p = p_file_node(filename@);
        let n = self.nodes.len();
        for i in 0..n
            invariant
                p == p_file_node(filename@),
                n == self.nodes.len(),
                forall|k: int| 0 <= k < i ==> !p(self@.nodes[k]),
        {
            let node = &self.nodes[i];
            proof {
                assert(self@.nodes[i as int] == self.nodes@[i as int]@);
            }
            if node.node_type == NodeType::File && str_eq(node.node_data.file.as_str(), filename) {
                proof {
                    lemma_first_index_is(self@.nodes, p, i as int);
                }
                return Some(node.node_data.clone());
            }
        }
        proof {
            lemma_first_index_none(self@.nodes, p);
        }
        None
    }

    /// The position of the first node of kind `nt` named `name`.
    pub fn find_index_by_name(&self, nt: NodeType, name: &str) -> (r: Option<usize>)
        ensures
            match r {
                Some(i) => first_index_where(self@.nodes, p_node_named(nt, name@)) == Some(i as int),
                None => first_index_where(self@.nodes, p_node_named(nt, name@)) is None,
            },
    {
        let ghost p = p_node_named(nt, name@);
        let n = self.nodes.len();
        for i in 0..n
            invariant
                p == p_node_named(nt, name@),
                n == self.nodes.len(),
                forall|k: int| 0 <= k < i ==> !p(self@.nodes[k]),
        {
            let node = &self.nodes[i];
            proof {
                assert(self@.nodes[i as int] == self.nodes@[i as int]@);
            }
            if node.node_type == nt && str_eq(node.node_data.name.as_str(), name) {
                proof {
                    lemma_first_index_is(self@.nodes, p, i as int);
                }
                return Some(i);
            }
        }
        proof {
            lemma_first_index_none(self@.nodes, p);
        }
        None
    }

    /// The position of the first edge whose source copy carries `name` and `file`.
    pub fn find_edge_index_by_src(&self, name: &str, file: &str) -> (r: Option<usize>)
        ensures
            match r {
                Some(i) => first_index_where(self@.edges, p_edge_source(name@, file@)) == Some(i as int),
                None => first_index_where(self@.edges, p_edge_source(name@, file@)) is None,
            },
    {
        let ghost p = p_edge_source(name@, file@);
        let n = self.edges.len();
        for i in 0..n
            invariant
                p == p_edge_source(name@, file@),
                n == self.edges.len(),
                forall|k: int| 0 <= k < i ==> !p(self@.edges[k]),
        {
            let edge = &self.edges[i];
            proof {
                assert(self@.edges[i as int] == self.edges@[i as int]@);
            }
            if str_eq(edge.source.node_data.name.as_str(), name)
                && str_eq(edge.source.node_data.file.as_str(), file) {
                proof {
                    lemma_first_index_is(self@.edges, p, i as int);
                }
                return Some(i);
            }
        }
        proof {
            lemma_first_index_none(self@.edges, p);
        }
        None
    }

    /// The payloads of all nodes of kind `node_type` named `name`.
    pub fn find_nodes_by_name(&self, node_type: NodeType, name: &str) -> (r: Vec<NodeData>)
        ensures
            data_views(r@) == nodes_where(self@, p_node_named(node_type, name@)),
    {
        let ghost p = p_node_named(node_type, name@);
        let mut r: Vec<NodeData> = Vec::new();
        let n = self.nodes.len();
        for i in 0..n
            invariant
                p == p_node_named(node_type, name@),
                n == self.nodes.len(),
                data_views(r@) =~= nodes_where_upto(self@, p, i as int),
        {
            let node = &self.nodes[i];
            proof {
                assert(self@.nodes[i as int] == self.nodes@[i as int]@);
                lemma_filter_snoc(self@.nodes, p, i as int);
            }
            if node.node_type == node_type && str_eq(node.node_data.name.as_str(), name) {
                r.push(node.node_data.clone());
            }
            proof {
                lemma_nodes_where_snoc(self@, p, i as int);
            }
        }
        proof {
            assert(self@.nodes.take(n as int) =~= self@.nodes);
        }
        r
    }

    /// The payloads of all nodes of kind `node_type`.
    pub fn find_nodes_by_type(&self, node_type: NodeType) -> (r: Vec<NodeData>)
        ensures
            data_views(r@) == nodes_where(self@, p_node_typed(node_type)),
    {
        let ghost p = p_node_typed(node_type);
        let mut r: Vec<NodeData> = Vec::new();
        let n = self.nodes.len();
        for i in 0..n
            invariant
                p == p_node_typed(node_type),
                n == self.nodes.len(),
                data_views(r@) =~= nodes_where_upto(self@, p, i as int),
        {
            let node = &self.nodes[i];
            proof {
                assert(self@.nodes[i as int] == self.nodes@[i as int]@);
                lemma_filter_snoc(self@.nodes, p, i as int);
            }
            if node.node_type == node_type {
                r.push(node.node_data.clone());
            }
            proof {
                lemma_nodes_where_snoc(self@, p, i as int);
            }
        }
        proof {
            assert(self@.nodes.take(n as int) =~= self@.nodes);
        }
        r
    }

    /// The payload of the first node of kind `node_type` in `file` whose
    /// line span contains `row`.
    pub fn find_nodes_in_range(&self, node_type: NodeType, row: u32, file: &str) -> (r: Option<NodeData>)
        ensures
            opt_data_view(r) == first_node_where(self@, p_node_in_range(node_type, row as nat, file@)),
    {
        let ghost p = p_node_in_range(node_type, row as nat, file@);
        let n = self.nodes.len();
        for i in 0..n
            invariant
                p == p_node_in_range(node_type, row as nat, file@),
                n == self.nodes.len(),
                forall|k: int| 0 <= k < i ==> !p(self@.nodes[k]),
        {
            let node = &self.nodes[i];
            proof {
                assert(self@.nodes[i as int] == self.nodes@[i as int]@);
            }
            if node.node_type == node_type
                && str_eq(node.node_data.file.as_str(), file)
                && node.node_data.start <= row as usize
                && node.node_data.end >= row as usize {
                proof {
                    lemma_first_index_is(self@.nodes, p, i as int);
                }
                return Some(node.node_data.clone());
            }
        }
        proof {
            lemma_first_index_none(self@.nodes, p);
        }
        None
    }

    /// The payload of the first node of kind `node_type` in `file` starting
    /// exactly at `line`.
    pub fn find_node_at(&self, node_type: NodeType, file: &str, line: u32) -> (r: Option<NodeData>)
        ensures
            opt_data_view(r) == first_node_where(self@, p_node_at_line(node_type, file@, line as nat)),
    {
        let ghost p = p_node_at_line(node_type, file@, line as nat);
        let n = self.nodes.len();
        for i in 0..n
            invariant
                p == p_node_at_line(node_type, file@, line as nat),
                n == self.nodes.len(),
                forall|k: int| 0 <= k < i ==> !p(self@.nodes[k]),
        {
            let node = &self.nodes[i];
            proof {
                assert(self@.nodes[i as int] == self.nodes@[i as int]@);
            }
            if node.node_type == node_type
                && str_eq(node.node_data.file.as_str(), file)
                && node.node_data.start == line as usize {
                proof {
                    lemma_first_index_is(self@.nodes, p, i as int);
                }
                return Some(node.node_data.clone());
            }
        }
        proof {
            lemma_first_index_none(self@.nodes, p);
        }
        None
    }

    /// The payload of the first node of kind `node_type` named `name` and
    /// defined in `file`.
    pub fn find_node_by_name_in_file(&self, node_type: NodeType, name: &str, file: &str) -> (r: Option<NodeData>)
        ensures
            opt_data_view(r) == first_node_where(self@, p_node_keyed(node_type, name@, file@)),
    {
        let ghost p = p_node_keyed(node_type, name@, file@);
        let n = self.nodes.len();
        for i in 0..n
            invariant
                p == p_node_keyed(node_type, name@, file@),
                n == self.nodes.len(),
                forall|k: int| 0 <= k < i ==> !p(self@.nodes[k]),
        {
            let node = &self.nodes[i];
            proof {
                assert(self@.nodes[i as int] == self.nodes@[i as int]@);
            }
            if node.node_type == node_type
                && str_eq(node.node_data.name.as_str(), name)
                && str_eq(node.node_data.file.as_str(), file) {
                proof {
                    lemma_first_index_is(self@.nodes, p, i as int);
                }
                return Some(node.node_data.clone());
            }
        }
        proof {
            lemma_first_index_none(self@.nodes, p);
        }
        None
    }

    /// The payload of the first node of kind `node_type` named `name` whose
    /// file ends with `suffix`.
    pub fn find_node_by_name_and_file_end_with(&self, node_type: NodeType, name: &str, suffix: &str) -> (r: Option<NodeData>)
        ensures
            opt_data_view(r) == first_node_where(self@, p_node_named_file_suffix(node_type, name@, suffix@)),
    {
        let ghost p = p_node_named_file_suffix(node_type, name@, suffix@);
        let n = self.nodes.len();
        for i in 0..n
            invariant
                p == p_node_named_file_suffix(node_type, name@, suffix@),
                n == self.nodes.len(),
                forall|k: int| 0 <= k < i ==> !p(self@.nodes[k]),
        {
            let node = &self.nodes[i];
            proof {
                assert(self@.nodes[i as int] == self.nodes@[i as int]@);
            }
            if node.node_type == node_type
                && str_eq(node.node_data.name.as_str(), name)
                && str_ends_with(node.node_data.file.as_str(), suffix) {
                proof {
                    lemma_first_index_is(self@.nodes, p, i as int);
                }
                return Some(node.node_data.clone());
            }
        }
        proof {
            lemma_first_index_none(self@.nodes, p);
        }
        None
    }

    /// The payloads of all nodes of kind `node_type` whose file ends with `file`.
    pub fn find_nodes_by_file_ends_with(&self, node_type: NodeType, file: &str) -> (r: Vec<NodeData>)
        ensures
            data_views(r@) == nodes_where(self@, p_node_file_suffix(node_type, file@)),
    {
        let ghost p = p_node_file_suffix(node_type, file@);
        let mut r: Vec<NodeData> = Vec::new();
        let n = self.nodes.len();
        for i in 0..n
            invariant
                p == p_node_file_suffix(node_type, file@),
                n == self.nodes.len(),
                data_views(r@) =~= nodes_where_upto(self@, p, i as int),
        {
            let node = &self.nodes[i];
            proof {
                assert(self@.nodes[i as int] == self.nodes@[i as int]@);
                lemma_filter_snoc(self@.nodes, p, i as int);
            }
            if node.node_type == node_type && str_ends_with(node.node_data.file.as_str(), file) {
                r.push(node.node_data.clone());
            }
            proof {
                lemma_nodes_where_snoc(self@, p, i as int);
            }
        }
        proof {
            assert(self@.nodes.take(n as int) =~= self@.nodes);
        }
        r
    }

    /// The payload of the first endpoint with the given name, file and verb.
    pub fn find_endpoint(&self, name: &str, file: &str, verb: &str) -> (r: Option<NodeData>)
        ensures
            opt_data_view(r) == first_node_where(self@, p_endpoint(name@, file@, verb@)),
    {
        let ghost p = p_endpoint(name@, file@, verb@);
        let n = self.nodes.len();
        for i in 0..n
            invariant
                p == p_endpoint(name@, file@, verb@),
                n == self.nodes.len(),
                forall|k: int| 0 <= k < i ==> !p(self@.nodes[k]),
        {
            let node = &self.nodes[i];
            proof {
                assert(self@.nodes[i as int] == self.nodes@[i as int]@);
            }
            let verb_bound = match node.node_data.get_meta("verb") {
                Some(v) => str_eq(v.as_str(), verb),
                None => false,
            };
            if node.node_type == NodeType::Endpoint
                && str_eq(node.node_data.name.as_str(), name)
                && str_eq(node.node_data.file.as_str(), file)
                && verb_bound {
                proof {
                    lemma_first_index_is(self@.nodes, p, i as int);
                }
                return Some(node.node_data.clone());
            }
        }
        proof {
            lemma_first_index_none(self@.nodes, p);
        }
        None
    }

    /// The payloads of all data-model nodes whose name contains `name`.
    pub fn find_data_model_nodes(&self, name: &str) -> (r: Vec<NodeData>)
        ensures
            data_views(r@) == nodes_where(self@, p_data_model(name@)),
    {
        let ghost p = p_data_model(name@);
        let mut r: Vec<NodeData> = Vec::new();
        let n = self.nodes.len();
        for i in 0..n
            invariant
                p == p_data_model(name@),
                n == self.nodes.len(),
                data_views(r@) =~= nodes_where_upto(self@, p, i as int),
        {
            let node = &self.nodes[i];
            proof {
                assert(self@.nodes[i as int] == self.nodes@[i as int]@);
                lemma_filter_snoc(self@.nodes, p, i as int);
            }
            if node.node_type == NodeType::DataModel
                && str_contains(node.node_data.name.as_str(), name) {
                r.push(node.node_data.clone());
            }
            proof {
                lemma_nodes_where_snoc(self@, p, i as int);
            }
        }
        proof {
            assert(self@.nodes.take(n as int) =~= self@.nodes);
        }
        r
    }

    /// Whether some `Contains` edge runs from a node named `function_name`
    /// to a target whose name contains `data_model`.
    pub fn check_direct_data_model_usage(&self, function_name: &str, data_model: &str) -> (r: bool)
        ensures
            r == direct_usage(self@, function_name@, data_model@),
    {
        let n = self.edges.len();
        for i in 0..n
            invariant
                n == self.edges.len(),
                forall|k: int| 0 <= k < i ==> !{
                    let e = #[trigger] self@.edges[k];
                    &&& e.edge is Contains
                    &&& e.source.node_data.name == function_name@
                    &&& spec_contains(e.target.node_data.name, data_model@)
                },
        {
            let edge = &self.edges[i];
            proof {
                assert(self@.edges[i as int] == self.edges@[i as int]@);
            }
            if matches!(&edge.edge, EdgeType::Contains)
                && str_eq(edge.source.node_data.name.as_str(), function_name)
                && str_contains(edge.target.node_data.name.as_str(), data_model) {
                return true;
            }
        }
        false
    }

    /// The number of edges whose kind matches `edge_type`, with `Calls`
    /// matching on variant identity only.
    pub fn count_edges_of_type(&self, edge_type: &EdgeType) -> (r: usize)
        ensures
            r == count_edges(self@, edge_type@),
    {
        let ghost p = p_edge_kind(edge_type@);
        let mut c: usize = 0;
        let n = self.edges.len();
        for i in 0..n
            invariant
                p == p_edge_kind(edge_type@),
                n == self.edges.len(),
                c <= i,
                c == count_edges_upto(self@, edge_type@, i as int),
        {
            let edge = &self.edges[i];
            proof {
                assert(self@.edges[i as int] == self.edges@[i as int]@);
                lemma_filter_snoc(self@.edges, p, i as int);
            }
            if edge_kind_matches(&edge.edge, edge_type) {
                c = c + 1;
            }
        }
        proof {
            assert(self@.edges.take(n as int) =~= self@.edges);
        }
        c
    }

    /// The source copy of the first edge whose kind matches `edge_type` and
    /// whose target copy carries `target_name` and `target_file`.
    pub fn find_source_edge_by_name_and_file(&self, edge_type: &EdgeType, target_name: &str, target_file: &str) -> (r: Option<NodeKeys>)
        ensures
            opt_keys_view(r) == first_edge_source(self@, p_edge_kind_target(edge_type@, target_name@, target_file@)),
    {
        let ghost p = p_edge_kind_target(edge_type@, target_name@, target_file@);
        let n = self.edges.len();
        for i in 0..n
            invariant
                p == p_edge_kind_target(edge_type@, target_name@, target_file@),
                n == self.edges.len(),
                forall|k: int| 0 <= k < i ==> !p(self@.edges[k]),
        {
            let edge = &self.edges[i];
            proof {
                assert(self@.edges[i as int] == self.edges@[i as int]@);
            }
            if edge_kind_matches(&edge.edge, edge_type)
                && str_eq(edge.target.node_data.name.as_str(), target_name)
                && str_eq(edge.target.node_data.file.as_str(), target_file) {
                proof {
                    lemma_first_index_is(self@.edges, p, i as int);
                }
                return Some(edge.source.node_data.clone());
            }
        }
        proof {
            lemma_first_index_none(self@.edges, p);
        }
        None
    }

    /// A new graph holding Repository nodes unconditionally, other nodes
    /// only if their file is in the allow-list, and edges only if either
    /// endpoint's file is; its error list starts empty.
    pub fn create_filtered_graph(&self, final_filter: &Vec<String>) -> (r: Self)
        ensures
            r@.nodes == self@.nodes.filter(p_keep_node(final_filter@.map_values(|s: String| s@))),
            r@.edges == self@.edges.filter(p_keep_edge(final_filter@.map_values(|s: String| s@))),
            r@.errors.len() == 0,
    {
        let ghost files = final_filter@.map_values(|s: String| s@);
        let ghost pn = p_keep_node(files);
        let ghost pe = p_keep_edge(files);
        let mut out = ArrayGraph::new();
        let n = self.nodes.len();
        for i in 0..n
            invariant
                files == final_filter@.map_values(|s: String| s@),
                pn == p_keep_node(files),
                n == self.nodes.len(),
                out@.nodes =~= self@.nodes.take(i as int).filter(pn),
                out@.edges.len() == 0,
                out@.errors.len() == 0,
        {
            let node = &self.nodes[i];
            proof {
                assert(self@.nodes[i as int] == self.nodes@[i as int]@);
                lemma_filter_snoc(self@.nodes, pn, i as int);
            }
            if node.node_type == NodeType::Repository
                || string_list_contains(final_filter, node.node_data.file.as_str()) {
                out.nodes.push(node.clone());
                proof {
                    assert(out@.nodes =~= self@.nodes.take(i + 1).filter(pn));
                }
            }
        }
        let m = self.edges.len();
        for i in 0..m
            invariant
                files == final_filter@.map_values(|s: String| s@),
                pe == p_keep_edge(files),
                m == self.edges.len(),
                out@.nodes =~= self@.nodes.take(n as int).filter(p_keep_node(files)),
                n == self.nodes.len(),
                out@.edges =~= self@.edges.take(i as int).filter(pe),
                out@.errors.len() == 0,
        {
            let edge = &self.edges[i];
            proof {
                assert(self@.edges[i as int] == self.edges@[i as int]@);
                lemma_filter_snoc(self@.edges, pe, i as int);
            }
            if string_list_contains(final_filter, edge.source.node_data.file.as_str())
                || string_list_contains(final_filter, edge.target.node_data.file.as_str()) {
                out.edges.push(edge.clone());
                proof {
                    assert(out@.edges =~= self@.edges.take(i + 1).filter(pe));
                }
            }
        }
        proof {
            assert(self@.nodes.take(n as int) =~= self@.nodes);
            assert(self@.edges.take(m as int) =~= self@.edges);
        }
        out
    }
}


impl ArrayGraph {
    /// The payloads of all nodes of kind `t` named `name` in `file`.
    fn collect_keyed(&self, t: NodeType, name: &str, file: &str) -> (r: Vec<NodeData>)
        ensures
            data_views(r@) == nodes_where(self@, p_node_keyed(t, name@, file@)),
    {
        let ghost p = p_node_keyed(t, name@, file@);
        let mut r: Vec<NodeData> = Vec::new();
        let n = self.nodes.len();
        for i in 0..n
            invariant
                p == p_node_keyed(t, name@, file@),
                n == self.nodes.len(),
                data_views(r@) =~= nodes_where_upto(self@, p, i as int),
        {
            let node = &self.nodes[i];
            proof {
                assert(self@.nodes[i as int] == self.nodes@[i as int]@);
                lemma_filter_snoc(self@.nodes, p, i as int);
            }
            if node.node_type == t
                && str_eq(node.node_data.name.as_str(), name)
                && str_eq(node.node_data.file.as_str(), file) {
                r.push(node.node_data.clone());
            }
            proof {
                lemma_nodes_where_snoc(self@, p, i as int);
            }
        }
        proof {
            assert(self@.nodes.take(n as int) =~= self@.nodes);
        }
        r
    }

    /// The payloads of all functions this function calls: for each of its
    /// `Calls` edges, every function node matching the edge's target copy.
    pub fn find_functions_called_by(&self, function: &NodeData) -> (r: Vec<NodeData>)
        ensures
            data_views(r@) == called_by(self@, function@, self@.edges.len() as int),
    {
        let mut r: Vec<NodeData> = Vec::new();
        let m = self.edges.len();
        for i in 0..m
            invariant
                m == self.edges.len(),
                data_views(r@) =~= called_by(self@, function@, i as int),
        {
            let edge = &self.edges[i];
            proof {
                assert(self@.edges[i as int] == self.edges@[i as int]@);
            }
            let is_calls = matches!(&edge.edge, EdgeType::Calls(_));
            if is_calls
                && str_eq(edge.source.node_data.name.as_str(), function.name.as_str())
                && str_eq(edge.source.node_data.file.as_str(), function.file.as_str()) {
                let name = edge.target.node_data.name.clone();
                let file = edge.target.node_data.file.clone();
                let mut found = self.collect_keyed(NodeType::Function, name.as_str(), file.as_str());
                let ghost fv = data_views(found@);
                r.append(&mut found);
                proof {
                    assert(data_views(r@) =~= called_by(self@, function@, i as int) + fv);
                    assert(data_views(r@) =~= called_by(self@, function@, i + 1));
                }
            } else {
                proof {
                    assert(!(p_calls_from(function@.name, function@.file)(self@.edges[i as int])));
                    assert(data_views(r@) =~= called_by(self@, function@, i + 1));
                }
            }
        }
        r
    }

    /// Every function bound to the endpoint through a `Handler` edge; an
    /// endpoint that is not in the graph has no handlers.
    pub fn find_handlers_for_endpoint(&self, endpoint: &NodeData) -> (r: Vec<NodeData>)
        ensures
            data_views(r@) == match first_index_where(self@.nodes,
                p_node_keyed(NodeType::Endpoint, endpoint@.name, endpoint@.file)) {
                Some(i) => handlers_for(self@, self@.nodes[i].node_data.name, self@.edges.len() as int),
                None => Seq::empty(),
            },
    {
        let ep = {
            let name = endpoint.name.clone();
            let file = endpoint.file.clone();
            self.find_node_by_name_in_file(NodeType::Endpoint, name.as_str(), file.as_str())
        };
        match ep {
            Some(epd) => {
                let ghost ph = p_handler_from(epd@.name);
                let mut r: Vec<NodeData> = Vec::new();
                let m = self.edges.len();
                for i in 0..m
                    invariant
                        ph == p_handler_from(epd@.name),
                        m == self.edges.len(),
                        data_views(r@) =~= handlers_for(self@, epd@.name, i as int),
                {
                    let edge = &self.edges[i];
                    proof {
                        assert(self@.edges[i as int] == self.edges@[i as int]@);
                    }
                    let is_handler = matches!(&edge.edge, EdgeType::Handler);
                    if is_handler && str_eq(edge.source.node_data.name.as_str(), epd.name.as_str()) {
                        let name = edge.target.node_data.name.clone();
                        let file = edge.target.node_data.file.clone();
                        match self.find_node_by_name_in_file(NodeType::Function, name.as_str(), file.as_str()) {
                            Some(fd) => {
                                r.push(fd);
                            },
                            None => {},
                        }
                    }
                    proof {
                        assert(data_views(r@) =~= handlers_for(self@, epd@.name, i + 1));
                    }
                }
                r
            },
            None => Vec::new(),
        }
    }

    /// The node pairs linked by edges of the given kind between the given
    /// node kinds; each side resolves to the first node of that kind with
    /// the edge copy's name, and edges with an unresolved side are skipped.
    pub fn find_nodes_with_edge_type(&self, source_type: NodeType, target_type: NodeType, edge_type: &EdgeType) -> (r: Vec<(NodeData, NodeData)>)
        ensures
            pair_views(r@) == edge_pairs(self@, source_type, target_type, edge_type@, self@.edges.len() as int),
    {
        let ghost ps = p_edge_shape(edge_type@, source_type, target_type);
        let mut r: Vec<(NodeData, NodeData)> = Vec::new();
        let m = self.edges.len();
        for i in 0..m
            invariant
                ps == p_edge_shape(edge_type@, source_type, target_type),
                m == self.edges.len(),
                pair_views(r@) =~= edge_pairs(self@, source_type, target_type, edge_type@, i as int),
        {
            let edge = &self.edges[i];
            proof {
                assert(self@.edges[i as int] == self.edges@[i as int]@);
            }
            if edge_kind_matches(&edge.edge, edge_type)
                && edge.source.node_type == source_type
                && edge.target.node_type == target_type {
                let sname = edge.source.node_data.name.clone();
                let tname = edge.target.node_data.name.clone();
                let si = self.find_index_by_name(source_type, sname.as_str());
                let ti = self.find_index_by_name(target_type, tname.as_str());
                match (si, ti) {
                    (Some(a), Some(b)) => {
                        proof {
                            lemma_first_index_sound(self@.nodes, p_node_named(source_type, sname@));
                            lemma_first_index_sound(self@.nodes, p_node_named(target_type, tname@));
                            assert(self@.nodes[a as int] == self.nodes@[a as int]@);
                            assert(self@.nodes[b as int] == self.nodes@[b as int]@);
                        }
                        r.push((self.nodes[a].node_data.clone(), self.nodes[b].node_data.clone()));
                    },
                    _ => {},
                }
            }
            proof {
                assert(pair_views(r@) =~= edge_pairs(self@, source_type, target_type, edge_type@, i + 1));
            }
        }
        r
    }

    /// The payloads of all nodes of kind `node_type` matching the query
    /// verb (case-insensitively; a node without a verb matches any) and
    /// the query path (contained in the canonical or the raw name).
    pub fn find_resource_nodes(&self, node_type: NodeType, verb: &str, path: &str) -> (r: Vec<NodeData>)
        ensures
            data_views(r@) == nodes_where(self@, p_resource(node_type, verb@, path@)),
    {
        let ghost p = p_resource(node_type, verb@, path@);
        let mut r: Vec<NodeData> = Vec::new();
        let n = self.nodes.len();
        for i in 0..n
            invariant
                p == p_resource(node_type, verb@, path@),
                n == self.nodes.len(),
                data_views(r@) =~= nodes_where_upto(self@, p, i as int),
        {
            let node = &self.nodes[i];
            proof {
                assert(self@.nodes[i as int] == self.nodes@[i as int]@);
                lemma_filter_snoc(self@.nodes, p, i as int);
            }
            if node.node_type == node_type {
                let path_matches = {
                    let norm_hit = match crate::text::normalize_backend_path(node.node_data.name.as_str()) {
                        Some(np) => str_contains(np.as_str(), path),
                        None => false,
                    };
                    norm_hit || str_contains(node.node_data.name.as_str(), path)
                };
                let verb_matches = match node.node_data.get_meta("verb") {
                    Some(v) => crate::text::eq_ignore_ascii_case(v.as_str(), verb),
                    None => true,
                };
                if path_matches && verb_matches {
                    r.push(node.node_data.clone());
                }
            }
            proof {
                lemma_nodes_where_snoc(self@, p, i as int);
            }
        }
        proof {
            assert(self@.nodes.take(n as int) =~= self@.nodes);
        }
        r
    }

    /// Whether `function_name` reaches a use of `data_model` through its
    /// call graph: a depth-first traversal over `Calls` edges that
    /// short-circuits on direct usage and terminates on cyclic call graphs
    /// through the visited list.
    pub fn check_indirect_data_model_usage(&self, function_name: &str, data_model: &str, visited: &mut Vec<String>) -> (r: bool)
        ensures
            old(visited)@.is_prefix_of(final(visited)@),
            string_views(old(visited)@).contains(function_name@)
                ==> r == false && final(visited)@ == old(visited)@,
            !string_views(old(visited)@).contains(function_name@)
                ==> string_views(final(visited)@).contains(function_name@),
            !string_views(old(visited)@).contains(function_name@)
                && direct_usage(self@, function_name@, data_model@) ==> r == true,
            r == true ==> exists|nm: Seq<char>| direct_usage(self@, nm, data_model@),
        decreases unvisited_count(self@.nodes, string_views(visited@), self@.nodes.len() as int),
    {
        let ghost v_entry = string_views(visited@);
        if string_list_contains(visited, function_name) {
            proof {
                assert(old(visited)@.is_prefix_of(visited@));
            }
            return false;
        }
        visited.push(function_name.to_owned());
        proof {
            assert(visited@.drop_last() =~= old(visited)@);
            assert(old(visited)@.is_prefix_of(visited@));
            assert(string_views(visited@)[string_views(visited@).len() - 1] == function_name@);
            assert(string_views(visited@).contains(function_name@));
        }
        if self.check_direct_data_model_usage(function_name, data_model) {
            proof {
                assert(direct_usage(self@, function_name@, data_model@));
            }
            return true;
        }
        let fi = match self.find_index_by_name(NodeType::Function, function_name) {
            Some(fi) => fi,
            None => {
                return false;
            },
        };
        proof {
            lemma_first_index_sound(self@.nodes, p_node_named(NodeType::Function, function_name@));
        }
        let fdata = self.nodes[fi].node_data.clone();
        let called = self.find_functions_called_by(&fdata);
        let ghost fnode_idx = fi as int;
        let m = called.len();
        for j in 0..m
            invariant
                m == called.len(),
                0 <= fnode_idx < self@.nodes.len(),
                self@.nodes[fnode_idx].node_type == NodeType::Function,
                self@.nodes[fnode_idx].node_data.name == function_name@,
                v_entry == string_views(old(visited)@),
                !v_entry.contains(function_name@),
                old(visited)@.is_prefix_of(visited@),
                string_views(visited@).contains(function_name@),
        {
            let cname = called[j].name.clone();
            if !string_list_contains(visited, cname.as_str()) {
                proof {
                    lemma_prefix_string_contains(old(visited)@, visited@);
                    lemma_unvisited_strict(self@.nodes, v_entry, string_views(visited@),
                        fnode_idx, self@.nodes.len() as int);
                }
                let ghost v_before = visited@;
                let hit = self.check_indirect_data_model_usage(cname.as_str(), data_model, visited);
                proof {
                    assert(v_before.is_prefix_of(visited@));
                    assert(old(visited)@.is_prefix_of(v_before));
                    assert(forall|k: int| 0 <= k < old(visited)@.len()
                        ==> old(visited)@[k] == visited@[k]);
                    assert(old(visited)@.is_prefix_of(visited@));
                    lemma_prefix_string_contains(v_before, visited@);
                }
                if hit {
                    return true;
                }
            }
        }
        false
    }
}

impl Default for ArrayGraph {
    fn default() -> (r: Self)
        ensures
            r@.nodes.len() == 0,
            r@.edges.len() == 0,
            r@.errors.len() == 0,
    {
        ArrayGraph { nodes: Vec::new(), edges: Vec::new(), errors: Vec::new() }
    }
}

} // verus!
