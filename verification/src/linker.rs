//! The linking passes: ingestion of extracted records into the graph and
//! the whole-graph resolution steps that run after per-file extraction.
//! Each pass's contract pins the new logical view to a spec-level
//! transformer of the old view and the pass's inputs.

use vstd::prelude::*;
use vstd::string::StringExecFns;
use crate::linear::ArrayGraph;
use crate::model::{
    contains_edge, fc_edge, meta_lookup, of_edge, parent_of_edge, request_call_edge, uses_edge,
    CallsMeta, Edge, EdgeType, EdgeV, FunctionCall, FunctionCallV, FunctionRec, FunctionRecV,
    Node, NodeData, NodeDataV, NodeType, NodeV,
};
use crate::queries::{
    call_views, data_views, edge_views, endpoint_views, first_index_where, frec_views,
    lemma_first_index_is, lemma_first_index_none, opt_edge_seq, p_endpoint, p_file_node,
    p_node_in_file, p_node_named, page_views, request_call_edges, request_nodes, GraphV,
};
use crate::text::str_eq;

verus! {

// ---------------------------------------------------------------------------
// Spec-level transformers
// ---------------------------------------------------------------------------

/// Adding a node under its structural parent: the node is always added; a
/// containment edge is added only when the first parent-kind node in
/// `parent_file` exists.
pub open spec fn add_node_with_parent_spec(
    g: GraphV,
    node_type: NodeType,
    data: NodeDataV,
    parent_type: NodeType,
    parent_file: Seq<char>,
) -> GraphV {
    let nodes2 = g.nodes.push(NodeV { node_type, node_data: data });
    match first_index_where(g.nodes, p_node_in_file(parent_type, parent_file)) {
        Some(i) => GraphV {
            nodes: nodes2,
            edges: g.edges.push(contains_edge(parent_type, g.nodes[i].node_data, node_type, data)),
            errors: g.errors,
        },
        None => GraphV { nodes: nodes2, edges: g.edges, errors: g.errors },
    }
}

/// Ingesting one object instantiation: only instances whose declared type
/// resolves to an existing class are added, parented under their file, with
/// an instance-of edge to the first class of that name.
pub open spec fn add_instance_step(g: GraphV, inst: NodeDataV) -> GraphV {
    match inst.data_type {
        Some(of) => match first_index_where(g.nodes, p_node_named(NodeType::Class, of)) {
            Some(ci) => {
                let g1 = add_node_with_parent_spec(g, NodeType::Instance, inst, NodeType::File, inst.file);
                GraphV {
                    nodes: g1.nodes,
                    edges: g1.edges.push(of_edge(inst, g.nodes[ci].node_data)),
                    errors: g1.errors,
                }
            },
            None => g,
        },
        None => g,
    }
}

/// Ingesting the first `k` object instantiations, in order.
pub open spec fn add_instances_spec(g: GraphV, insts: Seq<NodeDataV>, k: int) -> GraphV
    decreases k,
{
    if k <= 0 {
        g
    } else {
        add_instance_step(add_instances_spec(g, insts, k - 1), insts[k - 1])
    }
}

/// Ingesting one extracted function: a containment edge from its file when
/// the file node exists, the function node, its pre-resolved edges, and one
/// request node plus call edge per outbound request literal in its body.
pub open spec fn add_function_step(g: GraphV, f: FunctionRecV) -> GraphV {
    let e0 = match first_index_where(g.nodes, p_file_node(f.node.file)) {
        Some(i) => g.edges.push(contains_edge(NodeType::File, g.nodes[i].node_data, NodeType::Function, f.node)),
        None => g.edges,
    };
    GraphV {
        nodes: g.nodes.push(NodeV { node_type: NodeType::Function, node_data: f.node })
            + request_nodes(f.requests),
        edges: e0 + opt_edge_seq(f.method_of) + opt_edge_seq(f.trait_operand) + f.return_types
            + request_call_edges(f.node, f.requests) + f.data_model_edges,
        errors: g.errors,
    }
}

/// Ingesting the first `k` extracted functions, in order.
pub open spec fn add_functions_spec(g: GraphV, fs: Seq<FunctionRecV>, k: int) -> GraphV
    decreases k,
{
    if k <= 0 {
        g
    } else {
        add_function_step(add_functions_spec(g, fs, k - 1), fs[k - 1])
    }
}

/// The diagnostic recorded when an endpoint arrives without bound handler
/// metadata.
pub open spec fn missing_handler_note() -> Seq<char> {
    "missing handler on endpoint"@
}

/// The diagnostic recorded when an endpoint's handler edge cannot be found
/// during group renaming.
pub open spec fn missing_edge_note() -> Seq<char> {
    "missing edge for endpoint"@
}

/// Ingesting one endpoint record: an endpoint without handler metadata is
/// dropped with a recorded diagnostic; one that duplicates an existing
/// `(name, file, verb)` is skipped; otherwise the node and its handler edge
/// are added.
pub open spec fn add_endpoint_step(g: GraphV, e: (NodeDataV, Option<EdgeV>)) -> GraphV {
    if meta_lookup(e.0.meta, "handler"@) is Some {
        let verb = match meta_lookup(e.0.meta, "verb"@) {
            Some(v) => v,
            None => Seq::empty(),
        };
        if first_index_where(g.nodes, p_endpoint(e.0.name, e.0.file, verb)) is Some {
            g
        } else {
            GraphV {
                nodes: g.nodes.push(NodeV { node_type: NodeType::Endpoint, node_data: e.0 }),
                edges: match e.1 {
                    Some(h) => g.edges.push(h),
                    None => g.edges,
                },
                errors: g.errors,
            }
        }
    } else {
        GraphV { nodes: g.nodes, edges: g.edges, errors: g.errors.push(missing_handler_note()) }
    }
}

/// Ingesting the first `k` endpoint records, in order.
pub open spec fn add_endpoints_spec(g: GraphV, es: Seq<(NodeDataV, Option<EdgeV>)>, k: int) -> GraphV
    decreases k,
{
    if k <= 0 {
        g
    } else {
        add_endpoint_step(add_endpoints_spec(g, es, k - 1), es[k - 1])
    }
}

/// Merging one ordinary or test call: a call resolved to an external
/// function contributes a uses edge plus the external function node if it
/// is not yet present by name and file; a local call contributes a call
/// edge whose source is of kind `source_type`.
pub open spec fn add_call_step(g: GraphV, c: (FunctionCallV, Option<NodeDataV>), source_type: NodeType) -> GraphV {
    match c.1 {
        Some(nd) => GraphV {
            nodes: if first_index_where(g.nodes, crate::queries::p_node_keyed(NodeType::Function, nd.name, nd.file)) is Some {
                g.nodes
            } else {
                g.nodes.push(NodeV { node_type: NodeType::Function, node_data: nd })
            },
            edges: g.edges.push(uses_edge(c.0.source, nd)),
            errors: g.errors,
        },
        None => GraphV {
            nodes: g.nodes,
            edges: g.edges.push(fc_edge(c.0, source_type)),
            errors: g.errors,
        },
    }
}

/// Merging the first `k` calls of one category, in order.
pub open spec fn add_calls_spec(g: GraphV, cs: Seq<(FunctionCallV, Option<NodeDataV>)>, source_type: NodeType, k: int) -> GraphV
    decreases k,
{
    if k <= 0 {
        g
    } else {
        add_call_step(add_calls_spec(g, cs, source_type, k - 1), cs[k - 1], source_type)
    }
}

/// The inheritance edges contributed by the first `k` nodes: one edge per
/// class node whose `parent` metadata resolves to an existing class.
pub open spec fn inherit_edges(all: Seq<NodeV>, k: int) -> Seq<EdgeV>
    decreases k,
{
    if k <= 0 {
        Seq::empty()
    } else {
        inherit_edges(all, k - 1) + inherit_contribution(all, all[k - 1])
    }
}

/// The inheritance edge contributed by one node, if any.
pub open spec fn inherit_contribution(all: Seq<NodeV>, n: NodeV) -> Seq<EdgeV> {
    if n.node_type == NodeType::Class {
        match meta_lookup(n.node_data.meta, "parent"@) {
            Some(parent) => match first_index_where(all, p_node_named(NodeType::Class, parent)) {
                Some(pi) => seq![parent_of_edge(all[pi].node_data, n.node_data)],
                None => Seq::empty(),
            },
            None => Seq::empty(),
        }
    } else {
        Seq::empty()
    }
}

// ---------------------------------------------------------------------------
// The passes
// ---------------------------------------------------------------------------

impl ArrayGraph {
    /// Pushes one node; no edge bookkeeping.
    fn push_node(&mut self, node_type: NodeType, data: NodeData)
        ensures
            final(self)@.nodes == old(self)@.nodes.push((NodeV { node_type, node_data: data@ })),
            final(self)@.edges == old(self)@.edges,
            final(self)@.errors == old(self)@.errors,
    {
        self.nodes.push(Node::new(node_type, data));
        proof {
            assert(final(self)@.nodes =~= old(self)@.nodes.push(
                (NodeV { node_type, node_data: data@ })));
            assert(final(self)@.edges =~= old(self)@.edges);
            assert(final(self)@.errors =~= old(self)@.errors);
        }
    }

    /// Pushes one edge.
    fn push_edge(&mut self, e: Edge)
        ensures
            final(self)@.nodes == old(self)@.nodes,
            final(self)@.edges == old(self)@.edges.push(e@),
            final(self)@.errors == old(self)@.errors,
    {
        self.edges.push(e);
        proof {
            assert(final(self)@.edges =~= old(self)@.edges.push(e@));
            assert(final(self)@.nodes =~= old(self)@.nodes);
            assert(final(self)@.errors =~= old(self)@.errors);
        }
    }

    /// The position of the first node of kind `t` whose file is `file`.
    fn find_parent_index(&self, t: NodeType, file: &str) -> (r: Option<usize>)
        ensures
            match r {
                Some(i) => first_index_where(self@.nodes, p_node_in_file(t, file@)) == Some(i as int)
                    && 0 <= i < self.nodes@.len(),
                None => first_index_where(self@.nodes, p_node_in_file(t, file@)) is None,
            },
    {
        let ghost p = p_node_in_file(t, file@);
        let n = self.nodes.len();
        for i in 0..n
            invariant
                p == p_node_in_file(t, file@),
                n == self.nodes.len(),
                forall|k: int| 0 <= k < i ==> !p(self@.nodes[k]),
        {
            let node = &self.nodes[i];
            proof {
                assert(self@.nodes[i as int] == self.nodes@[i as int]@);
            }
            if node.node_type == t && str_eq(node.node_data.file.as_str(), file) {
                proof {
                    lemma_first_index_is(self@.nodes, p, i as int);
                }
                return Some(i);
            }
        }
        proof {
            lemma_first_index_none(self@.nodes, p);
        }
        None
    }

    /// The position of the first node of kind `t` named `name`.
    fn find_named_index(&self, t: NodeType, name: &str) -> (r: Option<usize>)
        ensures
            match r {
                Some(i) => first_index_where(self@.nodes, p_node_named(t, name@)) == Some(i as int)
                    && 0 <= i < self.nodes@.len(),
                None => first_index_where(self@.nodes, p_node_named(t, name@)) is None,
            },
    {
        let ghost p = p_node_named(t, name@);
        let n = self.nodes.len();
        for i in 0..n
            invariant
                p == p_node_named(t, name@),
                n == self.nodes.len(),
                forall|k: int| 0 <= k < i ==> !p(self@.nodes[k]),
        {
            let node = &self.nodes[i];
            proof {
                assert(self@.nodes[i as int] == self.nodes@[i as int]@);
            }
            if node.node_type == t && str_eq(node.node_data.name.as_str(), name) {
                proof {
                    lemma_first_index_is(self@.nodes, p, i as int);
                }
                return Some(i);
            }
        }
        proof {
            lemma_first_index_none(self@.nodes, p);
        }
        None
    }

    /// Adds a node and, when the first parent-kind node in `parent_file`
    /// exists, a containment edge from that parent to the new node.
    pub fn add_node_with_parent(&mut self, node_type: NodeType, node_data: NodeData, parent_type: NodeType, parent_file: &str)
        ensures
            final(self)@ == add_node_with_parent_spec(old(self)@, node_type, node_data@, parent_type, parent_file@),
    {
        match self.find_parent_index(parent_type, parent_file) {
            Some(i) => {
                let e = Edge::contains(parent_type, &self.nodes[i].node_data, node_type, &node_data);
                proof {
                    assert(self@.nodes[i as int] == self.nodes@[i as int]@);
                }
                self.push_node(node_type, node_data);
                self.push_edge(e);
            },
            None => {
                self.push_node(node_type, node_data);
            },
        }
    }

    /// Adds one page node and its optional render edge.
    pub fn add_page(&mut self, page: (NodeData, Option<Edge>))
        ensures
            final(self)@.nodes == old(self)@.nodes.push((NodeV { node_type: NodeType::Page, node_data: page.0@ })),
            final(self)@.edges == old(self)@.edges + opt_edge_seq(crate::queries::opt_edge_view(page.1)),
            final(self)@.errors == old(self)@.errors,
    {
        let (p, e) = page;
        self.push_node(NodeType::Page, p);
        match e {
            Some(edge) => {
                self.push_edge(edge);
                proof {
                    assert(final(self)@.edges =~= old(self)@.edges + opt_edge_seq(
                        crate::queries::opt_edge_view(page.1)));
                }
            },
            None => {
                proof {
                    assert(final(self)@.edges =~= old(self)@.edges + opt_edge_seq(
                        crate::queries::opt_edge_view(page.1)));
                }
            },
        }
    }

    /// Adds a batch of page nodes, each with its render edges.
    pub fn add_pages(&mut self, pages: Vec<(NodeData, Vec<Edge>)>)
        ensures
            final(self)@.nodes == old(self)@.nodes + pages_nodes(page_views(pages@), pages@.len() as int),
            final(self)@.edges == old(self)@.edges + pages_edges(page_views(pages@), pages@.len() as int),
            final(self)@.errors == old(self)@.errors,
    {
        let ghost psv = page_views(pages@);
        let n = pages.len();
        for i in 0..n
            invariant
                psv == page_views(pages@),
                n == pages.len(),
                self@.nodes =~= old(self)@.nodes + pages_nodes(psv, i as int),
                self@.edges =~= old(self)@.edges + pages_edges(psv, i as int),
                self@.errors == old(self)@.errors,
        {
            proof {
                assert(psv[i as int] == (pages@[i as int].0@, edge_views(pages@[i as int].1@)));
            }
            self.push_node(NodeType::Page, pages[i].0.clone());
            let m = pages[i].1.len();
            for j in 0..m
                invariant
                    psv == page_views(pages@),
                    n == pages.len(),
                    i < n,
                    m == pages@[i as int].1.len(),
                    psv[i as int] == (pages@[i as int].0@, edge_views(pages@[i as int].1@)),
                    self@.nodes =~= old(self)@.nodes + pages_nodes(psv, i as int).push(
                        (NodeV { node_type: NodeType::Page, node_data: psv[i as int].0 })),
                    self@.edges =~= old(self)@.edges + pages_edges(psv, i as int)
                        + psv[i as int].1.take(j as int),
                    self@.errors == old(self)@.errors,
            {
                self.push_edge(pages[i].1[j].clone());
                proof {
                    assert(psv[i as int].1[j as int] == pages@[i as int].1@[j as int]@);
                    assert(psv[i as int].1.take(j + 1)
                        =~= psv[i as int].1.take(j as int).push(psv[i as int].1[j as int]));
                    assert(self@.edges =~= old(self)@.edges + pages_edges(psv, i as int)
                        + psv[i as int].1.take(j + 1));
                }
            }
            proof {
                assert(psv[i as int].1.take(m as int) =~= psv[i as int].1);
                assert(pages_nodes(psv, i + 1) =~= pages_nodes(psv, i as int).push(
                    (NodeV { node_type: NodeType::Page, node_data: psv[i as int].0 })));
                assert(pages_edges(psv, i + 1) =~= pages_edges(psv, i as int) + psv[i as int].1);
                assert(self@.edges =~= old(self)@.edges + pages_edges(psv, i + 1));
            }
        }
    }

    /// Adds one test node parented under its file, plus its optional edge.
    pub fn add_test_node(&mut self, test_data: NodeData, test_type: NodeType, test_edge: Option<Edge>)
        ensures
            final(self)@ == ({
                let g1 = add_node_with_parent_spec(old(self)@, test_type, test_data@, NodeType::File, test_data@.file);
                match test_edge {
                    Some(e) => GraphV { nodes: g1.nodes, edges: g1.edges.push(e@), errors: g1.errors },
                    None => g1,
                }
            }),
    {
        let file = test_data.file.clone();
        self.add_node_with_parent(test_type, test_data, NodeType::File, file.as_str());
        match test_edge {
            Some(e) => {
                self.push_edge(e);
            },
            None => {},
        }
    }

    /// Ingests object instantiations, in order.
    pub fn add_instances(&mut self, instances: Vec<NodeData>)
        ensures
            final(self)@ == add_instances_spec(old(self)@, data_views(instances@), instances@.len() as int),
    {
        let ghost isv = data_views(instances@);
        let n = instances.len();
        for i in 0..n
            invariant
                isv == data_views(instances@),
                n == instances.len(),
                self@ == add_instances_spec(old(self)@, isv, i as int),
        {
            proof {
                assert(isv[i as int] == instances@[i as int]@);
            }
            let inst = &instances[i];
            match &inst.data_type {
                Some(of) => {
                    match self.find_named_index(NodeType::Class, of.as_str()) {
                        Some(ci) => {
                            let ghost gpre = self@;
                            let cl = self.nodes[ci].node_data.clone();
                            proof {
                                assert(self@.nodes[ci as int] == self.nodes@[ci as int]@);
                            }
                            let of_e = Edge::of(inst, &cl);
                            let file = inst.file.clone();
                            self.add_node_with_parent(NodeType::Instance, inst.clone(), NodeType::File, file.as_str());
                            self.push_edge(of_e);
                            proof {
                                assert(self@ == add_instance_step(gpre, isv[i as int]));
                            }
                        },
                        None => {},
                    }
                },
                None => {},
            }
        }
    }

    /// Ingests extracted functions, in order.
    pub fn add_functions(&mut self, functions: Vec<FunctionRec>)
        ensures
            final(self)@ == add_functions_spec(old(self)@, frec_views(functions@), functions@.len() as int),
    {
        let ghost fsv = frec_views(functions@);
        let n = functions.len();
        for i in 0..n
            invariant
                fsv == frec_views(functions@),
                n == functions.len(),
                self@ == add_functions_spec(old(self)@, fsv, i as int),
        {
            proof {
                assert(fsv[i as int] == functions@[i as int]@);
            }
            let ghost gpre = self@;
            let ghost fv = fsv[i as int];
            let f = &functions[i];
            match self.find_parent_index(NodeType::File, f.node.file.as_str()) {
                Some(fi) => {
                    let e = Edge::contains(NodeType::File, &self.nodes[fi].node_data, NodeType::Function, &f.node);
                    proof {
                        assert(self@.nodes[fi as int] == self.nodes@[fi as int]@);
                    }
                    self.push_edge(e);
                },
                None => {},
            }
            self.push_node(NodeType::Function, f.node.clone());
            match &f.method_of {
                Some(e) => self.push_edge(e.clone()),
                None => {},
            }
            match &f.trait_operand {
                Some(e) => self.push_edge(e.clone()),
                None => {},
            }
            let rt = f.return_types.len();
            for j in 0..rt
                invariant
                    fsv == frec_views(functions@),
                    n == functions.len(),
                    i < n,
                    fv == fsv[i as int],
                    rt == functions@[i as int].return_types@.len(),
                    fv.return_types == edge_views(functions@[i as int].return_types@),
                    self@.nodes == gpre.nodes.push((NodeV { node_type: NodeType::Function, node_data: fv.node })),
                    self@.errors == gpre.errors,
                    self@.edges =~= file_edge_part(gpre, fv) + opt_edge_seq(fv.method_of)
                        + opt_edge_seq(fv.trait_operand) + fv.return_types.take(j as int),
            {
                self.push_edge(functions[i].return_types[j].clone());
                proof {
                    assert(fv.return_types[j as int] == functions@[i as int].return_types@[j as int]@);
                    assert(fv.return_types.take(j + 1)
                        =~= fv.return_types.take(j as int).push(fv.return_types[j as int]));
                    assert(self@.edges =~= file_edge_part(gpre, fv) + opt_edge_seq(fv.method_of)
                        + opt_edge_seq(fv.trait_operand) + fv.return_types.take(j + 1));
                }
            }
            proof {
                assert(fv.return_types.take(rt as int) =~= fv.return_types);
            }
            let rq = f.requests.len();
            for j in 0..rq
                invariant
                    fsv == frec_views(functions@),
                    n == functions.len(),
                    i < n,
                    fv == fsv[i as int],
                    rq == functions@[i as int].requests@.len(),
                    fv.requests == data_views(functions@[i as int].requests@),
                    self@.nodes =~= gpre.nodes.push((NodeV { node_type: NodeType::Function, node_data: fv.node }))
                        + request_nodes(fv.requests.take(j as int)),
                    self@.errors == gpre.errors,
                    self@.edges =~= file_edge_part(gpre, fv) + opt_edge_seq(fv.method_of)
                        + opt_edge_seq(fv.trait_operand) + fv.return_types
                        + request_call_edges(fv.node, fv.requests.take(j as int)),
            {
                let req = &functions[i].requests[j];
                proof {
                    assert(fv.requests[j as int] == functions@[i as int].requests@[j as int]@);
                }
                let ce = Edge::calls(NodeType::Function, &functions[i].node, NodeType::Request, req,
                    CallsMeta { call_start: req.start, call_end: req.end, operand: None });
                self.push_edge(ce);
                self.push_node(NodeType::Request, functions[i].requests[j].clone());
                proof {
                    assert(fv.requests.take(j + 1)
                        =~= fv.requests.take(j as int).push(fv.requests[j as int]));
                    assert(request_nodes(fv.requests.take(j + 1))
                        =~= request_nodes(fv.requests.take(j as int)).push(
                            (NodeV { node_type: NodeType::Request, node_data: fv.requests[j as int] })));
                    assert(request_call_edges(fv.node, fv.requests.take(j + 1))
                        =~= request_call_edges(fv.node, fv.requests.take(j as int)).push(
                            request_call_edge(fv.node, fv.requests[j as int])));
                    assert(self@.nodes =~= gpre.nodes.push((NodeV { node_type: NodeType::Function, node_data: fv.node }))
                        + request_nodes(fv.requests.take(j + 1)));
                    assert(self@.edges =~= file_edge_part(gpre, fv) + opt_edge_seq(fv.method_of)
                        + opt_edge_seq(fv.trait_operand) + fv.return_types
                        + request_call_edges(fv.node, fv.requests.take(j + 1)));
                }
            }
            proof {
                assert(fv.requests.take(rq as int) =~= fv.requests);
            }
            let dm = f.data_model_edges.len();
            for j in 0..dm
                invariant
                    fsv == frec_views(functions@),
                    n == functions.len(),
                    i < n,
                    fv == fsv[i as int],
                    dm == functions@[i as int].data_model_edges@.len(),
                    fv.data_model_edges == edge_views(functions@[i as int].data_model_edges@),
                    self@.nodes =~= gpre.nodes.push((NodeV { node_type: NodeType::Function, node_data: fv.node }))
                        + request_nodes(fv.requests),
                    self@.errors == gpre.errors,
                    self@.edges =~= file_edge_part(gpre, fv) + opt_edge_seq(fv.method_of)
                        + opt_edge_seq(fv.trait_operand) + fv.return_types
                        + request_call_edges(fv.node, fv.requests)
                        + fv.data_model_edges.take(j as int),
            {
                self.push_edge(functions[i].data_model_edges[j].clone());
                proof {
                    assert(fv.data_model_edges[j as int] == functions@[i as int].data_model_edges@[j as int]@);
                    assert(fv.data_model_edges.take(j + 1)
                        =~= fv.data_model_edges.take(j as int).push(fv.data_model_edges[j as int]));
                    assert(self@.edges =~= file_edge_part(gpre, fv) + opt_edge_seq(fv.method_of)
                        + opt_edge_seq(fv.trait_operand) + fv.return_types
                        + request_call_edges(fv.node, fv.requests)
                        + fv.data_model_edges.take(j + 1));
                }
            }
            proof {
                assert(fv.data_model_edges.take(dm as int) =~= fv.data_model_edges);
                assert(self@.nodes =~= add_function_step(gpre, fv).nodes);
                assert(self@.edges =~= add_function_step(gpre, fv).edges);
                assert(self@ == add_function_step(gpre, fv));
            }
        }
    }

    /// Ingests endpoint records, in order, deduplicating on
    /// `(name, file, verb)` and dropping records without handler metadata.
    pub fn add_endpoints(&mut self, endpoints: Vec<(NodeData, Option<Edge>)>)
        ensures
            final(self)@ == add_endpoints_spec(old(self)@, endpoint_views(endpoints@), endpoints@.len() as int),
    {
        let ghost esv = endpoint_views(endpoints@);
        let n = endpoints.len();
        for i in 0..n
            invariant
                esv == endpoint_views(endpoints@),
                n == endpoints.len(),
                self@ == add_endpoints_spec(old(self)@, esv, i as int),
        {
            proof {
                assert(esv[i as int] == (endpoints@[i as int].0@,
                    crate::queries::opt_edge_view(endpoints@[i as int].1)));
            }
            let ghost gpre = self@;
            let e = &endpoints[i].0;
            if e.get_meta("handler").is_some() {
                let verb = match e.get_meta("verb") {
                    Some(v) => v.clone(),
                    None => String::new(),
                };
                let dup = {
                    let name = e.name.clone();
                    let file = e.file.clone();
                    crate::linear::ArrayGraph::find_endpoint(self, name.as_str(), file.as_str(), verb.as_str())
                };
                if dup.is_none() {
                    self.push_node(NodeType::Endpoint, e.clone());
                    match &endpoints[i].1 {
                        Some(h) => self.push_edge(h.clone()),
                        None => {},
                    }
                }
                proof {
                    assert(self@ == add_endpoint_step(gpre, esv[i as int]));
                }
            } else {
                self.add_error("missing handler on endpoint".to_owned());
                proof {
                    assert(self@ == add_endpoint_step(gpre, esv[i as int]));
                }
            }
        }
    }

    /// Merges the three call categories: ordinary calls, test calls, and
    /// pre-built integration-test edges, in that order.
    pub fn add_calls(&mut self, calls: (Vec<(FunctionCall, Option<NodeData>)>, Vec<(FunctionCall, Option<NodeData>)>, Vec<Edge>))
        ensures
            final(self)@ == ({
                let g1 = add_calls_spec(old(self)@, call_views(calls.0@), NodeType::Function, calls.0@.len() as int);
                let g2 = add_calls_spec(g1, call_views(calls.1@), NodeType::Test, calls.1@.len() as int);
                GraphV { nodes: g2.nodes, edges: g2.edges + edge_views(calls.2@), errors: g2.errors }
            }),
    {
        let (funcs, tests, int_tests) = calls;
        self.add_call_batch(funcs, NodeType::Function);
        self.add_call_batch(tests, NodeType::Test);
        self.add_edges(int_tests);
    }

    /// Merges one category of calls, in order.
    fn add_call_batch(&mut self, batch: Vec<(FunctionCall, Option<NodeData>)>, source_type: NodeType)
        ensures
            final(self)@ == add_calls_spec(old(self)@, call_views(batch@), source_type, batch@.len() as int),
    {
        let ghost csv = call_views(batch@);
        let n = batch.len();
        for i in 0..n
            invariant
                csv == call_views(batch@),
                n == batch.len(),
                self@ == add_calls_spec(old(self)@, csv, source_type, i as int),
        {
            proof {
                assert(csv[i as int] == (batch@[i as int].0@,
                    crate::queries::opt_data_view(batch@[i as int].1)));
            }
            let ghost gpre = self@;
            match &batch[i].1 {
                Some(ext) => {
                    let nd = ext.clone();
                    let src = batch[i].0.source.clone();
                    self.push_edge(Edge::uses(src, &nd));
                    let known = {
                        let name = nd.name.clone();
                        let file = nd.file.clone();
                        self.find_node_by_name_in_file(NodeType::Function, name.as_str(), file.as_str())
                    };
                    if known.is_none() {
                        self.push_node(NodeType::Function, nd);
                    }
                    proof {
                        assert(self@ == add_call_step(gpre, csv[i as int], source_type));
                    }
                },
                None => {
                    let fc = batch[i].0.clone();
                    self.push_edge(fc.into_edge(source_type));
                    proof {
                        assert(self@ == add_call_step(gpre, csv[i as int], source_type));
                    }
                },
            }
        }
    }
}

/// A string with `root` prepended.
fn rooted_string(root: &str, s: &str) -> (r: String)
    ensures
        r@ == root@ + s@,
{
    let mut f = root.to_owned();
    f.append(s);
    f
}

impl ArrayGraph {
    /// The inheritance edges currently implied by the class nodes.
    fn collect_inherit_edges(&self) -> (r: Vec<Edge>)
        ensures
            edge_views(r@) == inherit_edges(self@.nodes, self@.nodes.len() as int),
    {
        let mut out: Vec<Edge> = Vec::new();
        let n = self.nodes.len();
        for i in 0..n
            invariant
                n == self.nodes.len(),
                edge_views(out@) =~= inherit_edges(self@.nodes, i as int),
        {
            let node = &self.nodes[i];
            proof {
                assert(self@.nodes[i as int] == self.nodes@[i as int]@);
            }
            if node.node_type == NodeType::Class {
                match node.node_data.get_meta("parent") {
                    Some(parent) => {
                        match self.find_named_index(NodeType::Class, parent.as_str()) {
                            Some(pi) => {
                                proof {
                                    assert(self@.nodes[pi as int] == self.nodes@[pi as int]@);
                                }
                                out.push(Edge::parent_of(&self.nodes[pi].node_data, &node.node_data));
                            },
                            None => {},
                        }
                    },
                    None => {},
                }
            }
            proof {
                assert(edge_views(out@) =~= inherit_edges(self@.nodes, i + 1));
            }
        }
        out
    }

    /// For every class carrying a `parent` metadata key whose parent
    /// resolves among the class nodes, adds an inheritance edge; unresolved
    /// parents are silently skipped.
    pub fn class_inherits(&mut self)
        ensures
            final(self)@.nodes == old(self)@.nodes,
            final(self)@.edges == old(self)@.edges
                + inherit_edges(old(self)@.nodes, old(self)@.nodes.len() as int),
            final(self)@.errors == old(self)@.errors,
    {
        let es = self.collect_inherit_edges();
        self.add_edges(es);
    }

    /// The mixin-inclusion edges currently implied by the class nodes.
    fn collect_include_edges(&self) -> (r: Vec<Edge>)
        ensures
            edge_views(r@) == includes_edges(self@.nodes, self@.nodes.len() as int),
    {
        let mut out: Vec<Edge> = Vec::new();
        let n = self.nodes.len();
        for i in 0..n
            invariant
                n == self.nodes.len(),
                edge_views(out@) =~= includes_edges(self@.nodes, i as int),
        {
            let node = &self.nodes[i];
            proof {
                assert(self@.nodes[i as int] == self.nodes@[i as int]@);
            }
            if node.node_type == NodeType::Class {
                match node.node_data.get_meta("includes") {
                    Some(v) => {
                        let pieces = crate::text::split_csv_trimmed(v.as_str());
                        let ghost psv = crate::text::string_views(pieces@);
                        let m = pieces.len();
                        for j in 0..m
                            invariant
                                n == self.nodes.len(),
                                i < n,
                                psv == crate::text::string_views(pieces@),
                                m == pieces.len(),
                                self@.nodes[i as int] == self.nodes@[i as int]@,
                                edge_views(out@) =~= includes_edges(self@.nodes, i as int)
                                    + pieces_edges(self@.nodes, self@.nodes[i as int].node_data, psv, j as int),
                        {
                            proof {
                                assert(psv[j as int] == pieces@[j as int]@);
                            }
                            let ghost prev = edge_views(out@);
                            match self.find_named_index(NodeType::Class, pieces[j].as_str()) {
                                Some(mi) => {
                                    proof {
                                        assert(self@.nodes[mi as int] == self.nodes@[mi as int]@);
                                        assert(first_index_where(self@.nodes,
                                            p_node_named(NodeType::Class, psv[j as int])) == Some(mi as int));
                                    }
                                    out.push(Edge::class_imports(&self.nodes[i].node_data, &self.nodes[mi].node_data));
                                    proof {
                                        assert(edge_views(out@) =~= prev.push(
                                            crate::model::class_imports_edge(self@.nodes[i as int].node_data,
                                                self@.nodes[mi as int].node_data)));
                                        assert(pieces_edges(self@.nodes, self@.nodes[i as int].node_data, psv, j + 1)
                                            =~= pieces_edges(self@.nodes, self@.nodes[i as int].node_data, psv, j as int)
                                                .push(crate::model::class_imports_edge(self@.nodes[i as int].node_data,
                                                    self@.nodes[mi as int].node_data)));
                                    }
                                },
                                None => {
                                    proof {
                                        assert(first_index_where(self@.nodes,
                                            p_node_named(NodeType::Class, psv[j as int])) is None);
                                        assert(pieces_edges(self@.nodes, self@.nodes[i as int].node_data, psv, j + 1)
                                            =~= pieces_edges(self@.nodes, self@.nodes[i as int].node_data, psv, j as int));
                                    }
                                },
                            }
                            proof {
                                assert(edge_views(out@) =~= includes_edges(self@.nodes, i as int)
                                    + pieces_edges(self@.nodes, self@.nodes[i as int].node_data, psv, j + 1));
                            }
                        }
                    },
                    None => {},
                }
            }
            proof {
                assert(edge_views(out@) =~= includes_edges(self@.nodes, i + 1));
            }
        }
        out
    }

    /// For every class carrying a comma-separated `includes` metadata key,
    /// adds a mixin-inclusion edge per included name that resolves among
    /// the class nodes; unresolved names are skipped.
    pub fn class_includes(&mut self)
        ensures
            final(self)@.nodes == old(self)@.nodes,
            final(self)@.edges == old(self)@.edges
                + includes_edges(old(self)@.nodes, old(self)@.nodes.len() as int),
            final(self)@.errors == old(self)@.errors,
    {
        let es = self.collect_include_edges();
        self.add_edges(es);
    }

    /// The payload of the function implementing an endpoint group, resolved
    /// through the group marker's `group` metadata key.
    pub fn group_function(&self, group: &NodeData) -> (r: Option<NodeData>)
        ensures
            match meta_lookup(group@.meta, "group"@) {
                Some(g) => crate::queries::opt_data_view(r)
                    == crate::queries::first_node_where(self@, p_node_named(NodeType::Function, g)),
                None => r is None,
            },
    {
        match group.get_meta("group") {
            Some(g) => match self.find_named_index(NodeType::Function, g.as_str()) {
                Some(i) => {
                    proof {
                        assert(self@.nodes[i as int] == self.nodes@[i as int]@);
                    }
                    Some(self.nodes[i].node_data.clone())
                },
                None => None,
            },
            None => None,
        }
    }

    /// Renames the endpoints of one group: each endpoint found inside the
    /// group's function body gets the group's name prefixed onto its node
    /// name, and the rename is propagated to the edge copy holding the old
    /// name; a missing edge is recorded as a diagnostic, not a failure.
    ///
    /// The caller re-runs the endpoint patterns against the group
    /// function's body (see [`Self::group_function`]) and hands the
    /// extracted endpoint records in.
    pub fn process_endpoint_group(&mut self, group: &NodeData, endpoints_in_group: &Vec<NodeData>)
        ensures
            final(self)@ == rename_spec(old(self)@, group@.name, data_views(endpoints_in_group@),
                endpoints_in_group@.len() as int),
    {
        let ghost esv = data_views(endpoints_in_group@);
        let n = endpoints_in_group.len();
        for i in 0..n
            invariant
                esv == data_views(endpoints_in_group@),
                n == endpoints_in_group.len(),
                self@ == rename_spec(old(self)@, group@.name, esv, i as int),
        {
            proof {
                assert(esv[i as int] == endpoints_in_group@[i as int]@);
            }
            let ghost gpre = self@;
            let end = &endpoints_in_group[i];
            match self.find_named_index(NodeType::Endpoint, end.name.as_str()) {
                Some(idx) => {
                    let mut newname = group.name.clone();
                    newname.append(self.nodes[idx].node_data.name.as_str());
                    proof {
                        assert(self@.nodes[idx as int] == self.nodes@[idx as int]@);
                    }
                    let mut node = self.nodes[idx].clone();
                    node.node_data.name = newname.clone();
                    self.nodes[idx] = node;
                    proof {
                        assert(self@.nodes =~= gpre.nodes.update(idx as int,
                            renamed_node(gpre.nodes[idx as int], newname@)));
                        assert(self@.edges =~= gpre.edges);
                        assert(self@.errors =~= gpre.errors);
                    }
                    match self.find_edge_index_by_src(end.name.as_str(), end.file.as_str()) {
                        Some(ei) => {
                            proof {
                                crate::queries::lemma_first_index_sound(self@.edges,
                                    crate::queries::p_edge_source(esv[i as int].name, esv[i as int].file));
                                assert(self@.edges[ei as int] == self.edges@[ei as int]@);
                            }
                            let mut e = self.edges[ei].clone();
                            e.source.node_data.name = newname;
                            self.edges[ei] = e;
                            proof {
                                assert(self@.edges =~= gpre.edges.update(ei as int,
                                    renamed_edge_source(gpre.edges[ei as int], newname@)));
                                assert(self@ == rename_step(gpre, group@.name, esv[i as int]));
                            }
                        },
                        None => {
                            self.add_error("missing edge for endpoint".to_owned());
                            proof {
                                assert(self@ == rename_step(gpre, group@.name, esv[i as int]));
                            }
                        },
                    }
                },
                None => {},
            }
        }
    }

    /// Whether some node of kind `ct` binds `key` to `name` in its metadata.
    fn has_child_meta(&self, ct: NodeType, key: &str, name: &str) -> (r: bool)
        ensures
            r == has_child(self@.nodes, ct, key@, name@),
    {
        let n = self.nodes.len();
        for i in 0..n
            invariant
                n == self.nodes.len(),
                forall|k: int| 0 <= k < i ==> !((#[trigger] self@.nodes[k]).node_type == ct
                    && meta_lookup(self@.nodes[k].node_data.meta, key@) == Some(name@)),
        {
            let node = &self.nodes[i];
            proof {
                assert(self@.nodes[i as int] == self.nodes@[i as int]@);
            }
            if node.node_type == ct {
                match node.node_data.get_meta(key) {
                    Some(v) => {
                        if str_eq(v.as_str(), name) {
                            return true;
                        }
                    },
                    None => {},
                }
            }
        }
        false
    }

    /// Removes nodes of the parent kind that no child-kind node names
    /// through `child_meta_key`; everything else is kept.
    pub fn filter_out_nodes_without_children(&mut self, parent_type: NodeType, child_type: NodeType, child_meta_key: &str)
        ensures
            final(self)@.nodes == old(self)@.nodes.filter(
                p_keep_parent(old(self)@.nodes, parent_type, child_type, child_meta_key@)),
            final(self)@.edges == old(self)@.edges,
            final(self)@.errors == old(self)@.errors,
    {
        let ghost all = self@.nodes;
        let ghost p = p_keep_parent(all, parent_type, child_type, child_meta_key@);
        let mut kept: Vec<Node> = Vec::new();
        let n = self.nodes.len();
        for i in 0..n
            invariant
                all == self@.nodes,
                p == p_keep_parent(all, parent_type, child_type, child_meta_key@),
                n == self.nodes.len(),
                kept@.map_values(|x: Node| x@) =~= all.take(i as int).filter(p),
        {
            let node = &self.nodes[i];
            proof {
                assert(self@.nodes[i as int] == self.nodes@[i as int]@);
                crate::queries::lemma_filter_snoc(all, p, i as int);
            }
            let keep = if node.node_type == parent_type {
                self.has_child_meta(child_type, child_meta_key, node.node_data.name.as_str())
            } else {
                true
            };
            if keep {
                kept.push(node.clone());
                proof {
                    assert(kept@.map_values(|x: Node| x@) =~= all.take(i + 1).filter(p));
                }
            }
        }
        proof {
            assert(all.take(n as int) =~= all);
        }
        self.nodes = kept;
        proof {
            assert(final(self)@.nodes =~= old(self)@.nodes.filter(p));
            assert(final(self)@.edges =~= old(self)@.edges);
            assert(final(self)@.errors =~= old(self)@.errors);
        }
    }

    /// Rewrites every node's and edge-endpoint's file path to be rooted
    /// under `root`; used when composing multiple repositories or revisions
    /// into one namespace. The caller supplies any separator as part of
    /// `root`.
    pub fn prefix_paths(&mut self, root: &str)
        ensures
            final(self)@.nodes == rooted_nodes(root@, old(self)@.nodes),
            final(self)@.edges == rooted_edges(root@, old(self)@.edges),
            final(self)@.errors == old(self)@.errors,
    {
        let mut new_nodes: Vec<Node> = Vec::new();
        let n = self.nodes.len();
        for i in 0..n
            invariant
                n == self.nodes.len(),
                new_nodes@.len() == i,
                forall|k: int| 0 <= k < i ==> (#[trigger] new_nodes@[k])@
                    == rooted_node(root@, self@.nodes[k]),
        {
            let node = &self.nodes[i];
            proof {
                assert(self@.nodes[i as int] == self.nodes@[i as int]@);
            }
            let mut nd = node.node_data.clone();
            nd.file = rooted_string(root, node.node_data.file.as_str());
            proof {
                assert(nd@ == rooted_data(root@, self@.nodes[i as int].node_data));
            }
            new_nodes.push(Node::new(node.node_type, nd));
        }
        let mut new_edges: Vec<Edge> = Vec::new();
        let m = self.edges.len();
        for i in 0..m
            invariant
                m == self.edges.len(),
                n == self.nodes.len(),
                new_nodes@.len() == n,
                forall|k: int| 0 <= k < n ==> (#[trigger] new_nodes@[k])@
                    == rooted_node(root@, self@.nodes[k]),
                new_edges@.len() == i,
                forall|k: int| 0 <= k < i ==> (#[trigger] new_edges@[k])@
                    == rooted_edge(root@, self@.edges[k]),
        {
            let edge = &self.edges[i];
            proof {
                assert(self@.edges[i as int] == self.edges@[i as int]@);
            }
            let mut e = edge.clone();
            e.source.node_data.file = rooted_string(root, edge.source.node_data.file.as_str());
            e.target.node_data.file = rooted_string(root, edge.target.node_data.file.as_str());
            proof {
                assert(e@ == rooted_edge(root@, self@.edges[i as int]));
            }
            new_edges.push(e);
        }
        self.nodes = new_nodes;
        self.edges = new_edges;
        proof {
            assert(final(self)@.nodes =~= rooted_nodes(root@, old(self)@.nodes));
            assert(final(self)@.edges =~= rooted_edges(root@, old(self)@.edges));
            assert(final(self)@.errors =~= old(self)@.errors);
        }
    }
}

/// The mixin-inclusion edges contributed by the first `k` pieces of one
/// class's comma-separated `includes` list.
pub open spec fn pieces_edges(all: Seq<NodeV>, nd: NodeDataV, pieces: Seq<Seq<char>>, k: int) -> Seq<EdgeV>
    decreases k,
{
    if k <= 0 {
        Seq::empty()
    } else {
        pieces_edges(all, nd, pieces, k - 1) + match first_index_where(all, p_node_named(NodeType::Class, pieces[k - 1])) {
            Some(mi) => seq![crate::model::class_imports_edge(nd, all[mi].node_data)],
            None => Seq::empty(),
        }
    }
}

/// The mixin-inclusion edges contributed by one node, if any.
pub open spec fn includes_contribution(all: Seq<NodeV>, n: NodeV) -> Seq<EdgeV> {
    if n.node_type == NodeType::Class {
        match meta_lookup(n.node_data.meta, "includes"@) {
            Some(v) => {
                let pieces = crate::text::spec_split_trim(v);
                pieces_edges(all, n.node_data, pieces, pieces.len() as int)
            },
            None => Seq::empty(),
        }
    } else {
        Seq::empty()
    }
}

/// The mixin-inclusion edges contributed by the first `k` nodes.
pub open spec fn includes_edges(all: Seq<NodeV>, k: int) -> Seq<EdgeV>
    decreases k,
{
    if k <= 0 {
        Seq::empty()
    } else {
        includes_edges(all, k - 1) + includes_contribution(all, all[k - 1])
    }
}

/// A node with its payload renamed.
pub open spec fn renamed_node(n: NodeV, name: Seq<char>) -> NodeV {
    NodeV {
        node_type: n.node_type,
        node_data: NodeDataV {
            name,
            file: n.node_data.file,
            start: n.node_data.start,
            end: n.node_data.end,
            body: n.node_data.body,
            meta: n.node_data.meta,
            data_type: n.node_data.data_type,
        },
    }
}

/// An edge with the name in its source copy rewritten.
pub open spec fn renamed_edge_source(e: EdgeV, name: Seq<char>) -> EdgeV {
    EdgeV {
        edge: e.edge,
        source: crate::model::EdgeNodeV {
            node_type: e.source.node_type,
            node_data: crate::model::NodeKeysV { name, file: e.source.node_data.file },
        },
        target: e.target,
    }
}

/// Renaming one endpoint of a group: the first endpoint node with the
/// extracted name gets the group's name prefixed, and the rename is
/// propagated to the first edge whose source copy carries the endpoint's
/// extracted name and file; a missing edge is recorded as a diagnostic.
pub open spec fn rename_step(g: GraphV, group_name: Seq<char>, end: NodeDataV) -> GraphV {
    match first_index_where(g.nodes, p_node_named(NodeType::Endpoint, end.name)) {
        Some(i) => {
            let newname = group_name + g.nodes[i].node_data.name;
            let nodes2 = g.nodes.update(i, renamed_node(g.nodes[i], newname));
            match first_index_where(g.edges, crate::queries::p_edge_source(end.name, end.file)) {
                Some(ei) => GraphV {
                    nodes: nodes2,
                    edges: g.edges.update(ei, renamed_edge_source(g.edges[ei], newname)),
                    errors: g.errors,
                },
                None => GraphV {
                    nodes: nodes2,
                    edges: g.edges,
                    errors: g.errors.push(missing_edge_note()),
                },
            }
        },
        None => g,
    }
}

/// Renaming the first `k` endpoints of a group, in order.
pub open spec fn rename_spec(g: GraphV, group_name: Seq<char>, ends: Seq<NodeDataV>, k: int) -> GraphV
    decreases k,
{
    if k <= 0 {
        g
    } else {
        rename_step(rename_spec(g, group_name, ends, k - 1), group_name, ends[k - 1])
    }
}

/// Whether some node of kind `ct` binds `key` to `name` in its metadata.
pub open spec fn has_child(all: Seq<NodeV>, ct: NodeType, key: Seq<char>, name: Seq<char>) -> bool {
    exists|k: int| 0 <= k < all.len() && (#[trigger] all[k]).node_type == ct
        && meta_lookup(all[k].node_data.meta, key) == Some(name)
}

/// Node kept by the pruning pass: everything that is not of the parent
/// kind, plus parents for which some child's metadata names them.
pub open spec fn p_keep_parent(all: Seq<NodeV>, pt: NodeType, ct: NodeType, key: Seq<char>) -> spec_fn(NodeV) -> bool {
    |n: NodeV| n.node_type != pt || has_child(all, ct, key, n.node_data.name)
}

/// A payload with its file path re-rooted.
pub open spec fn rooted_data(root: Seq<char>, d: NodeDataV) -> NodeDataV {
    NodeDataV {
        name: d.name,
        file: root + d.file,
        start: d.start,
        end: d.end,
        body: d.body,
        meta: d.meta,
        data_type: d.data_type,
    }
}

/// A node with its file path re-rooted.
pub open spec fn rooted_node(root: Seq<char>, n: NodeV) -> NodeV {
    NodeV { node_type: n.node_type, node_data: rooted_data(root, n.node_data) }
}

/// An edge with both endpoint copies' file paths re-rooted.
pub open spec fn rooted_edge(root: Seq<char>, e: EdgeV) -> EdgeV {
    EdgeV {
        edge: e.edge,
        source: crate::model::EdgeNodeV {
            node_type: e.source.node_type,
            node_data: crate::model::NodeKeysV {
                name: e.source.node_data.name,
                file: root + e.source.node_data.file,
            },
        },
        target: crate::model::EdgeNodeV {
            node_type: e.target.node_type,
            node_data: crate::model::NodeKeysV {
                name: e.target.node_data.name,
                file: root + e.target.node_data.file,
            },
        },
    }
}

/// All nodes re-rooted.
pub open spec fn rooted_nodes(root: Seq<char>, s: Seq<NodeV>) -> Seq<NodeV> {
    s.map_values(|n: NodeV| rooted_node(root, n))
}

/// All edges re-rooted.
pub open spec fn rooted_edges(root: Seq<char>, s: Seq<EdgeV>) -> Seq<EdgeV> {
    s.map_values(|e: EdgeV| rooted_edge(root, e))
}

/// The edge sequence after the file-containment step of one function
/// ingestion.
pub open spec fn file_edge_part(g: GraphV, f: FunctionRecV) -> Seq<EdgeV> {
    match first_index_where(g.nodes, p_file_node(f.node.file)) {
        Some(i) => g.edges.push(contains_edge(NodeType::File, g.nodes[i].node_data, NodeType::Function, f.node)),
        None => g.edges,
    }
}

/// The page nodes contributed by the first `k` page records.
pub open spec fn pages_nodes(ps: Seq<(NodeDataV, Seq<EdgeV>)>, k: int) -> Seq<NodeV>
    decreases k,
{
    if k <= 0 {
        Seq::empty()
    } else {
        pages_nodes(ps, k - 1).push((NodeV { node_type: NodeType::Page, node_data: ps[k - 1].0 }))
    }
}

/// The render edges contributed by the first `k` page records.
pub open spec fn pages_edges(ps: Seq<(NodeDataV, Seq<EdgeV>)>, k: int) -> Seq<EdgeV>
    decreases k,
{
    if k <= 0 {
        Seq::empty()
    } else {
        pages_edges(ps, k - 1) + ps[k - 1].1
    }
}

} // verus!
