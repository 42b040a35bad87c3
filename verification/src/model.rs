//! The graph vocabulary: node kinds, edge kinds, entity payloads, and the
//! spec-level views that the backend contracts are stated over.

use vstd::prelude::*;

verus! {

/// The closed set of entity kinds a node can have.
#[derive(Clone, Copy, Debug, PartialEq, Eq, Structural)]
pub enum NodeType {
    Repository,
    Language,
    File,
    Function,
    Class,
    Endpoint,
    DataModel,
    Page,
    Request,
    Instance,
    Import,
    Test,
    IntegrationTest,
    Library,
}

/// Call-site metadata carried by a `Calls` edge: the span of the call site
/// and an optional receiver/operand name.
#[derive(Debug)]
pub struct CallsMeta {
    pub call_start: usize,
    pub call_end: usize,
    pub operand: Option<String>,
}

/// The closed set of relation kinds an edge can have.
#[derive(Debug)]
pub enum EdgeType {
    Contains,
    Calls(CallsMeta),
    Handler,
    Renders,
    Of,
    ParentOf,
    ClassImports,
    Uses,
}

/// The `(name, file)` pair that identifies a node inside an edge endpoint.
#[derive(Debug)]
pub struct NodeKeys {
    pub name: String,
    pub file: String,
}

/// The entity payload shared by all node kinds.
#[derive(Debug)]
pub struct NodeData {
    /// Display/identifier string.
    pub name: String,
    /// Path of the defining file, used as a scoping key.
    pub file: String,
    /// First line of the entity's span.
    pub start: usize,
    /// Last line of the entity's span.
    pub end: usize,
    /// Raw source text of the entity.
    pub body: String,
    /// Free-form key/value facts (HTTP verb, group name, parent class, ...).
    pub meta: Vec<(String, String)>,
    /// Optional declared type name, used to resolve "instance of class X".
    pub data_type: Option<String>,
}

/// A typed node.
#[derive(Debug)]
pub struct Node {
    pub node_type: NodeType,
    pub node_data: NodeData,
}

/// One endpoint of an edge: the node's kind and its identifying keys,
/// stored as a denormalized copy, not a reference.
#[derive(Debug)]
pub struct EdgeNode {
    pub node_type: NodeType,
    pub node_data: NodeKeys,
}

/// A typed, directed relation between two node payload copies.
#[derive(Debug)]
pub struct Edge {
    pub edge: EdgeType,
    pub source: EdgeNode,
    pub target: EdgeNode,
}

// ---------------------------------------------------------------------------
// Views
// ---------------------------------------------------------------------------

/// Spec-level image of `CallsMeta`.
pub struct CallsMetaV {
    pub call_start: nat,
    pub call_end: nat,
    pub operand: Option<Seq<char>>,
}

/// Spec-level image of `EdgeType`.
pub enum EdgeTypeV {
    Contains,
    Calls(CallsMetaV),
    Handler,
    Renders,
    Of,
    ParentOf,
    ClassImports,
    Uses,
}

/// Spec-level image of `NodeKeys`.
pub struct NodeKeysV {
    pub name: Seq<char>,
    pub file: Seq<char>,
}

/// Spec-level image of `NodeData`.
pub struct NodeDataV {
    pub name: Seq<char>,
    pub file: Seq<char>,
    pub start: nat,
    pub end: nat,
    pub body: Seq<char>,
    pub meta: Seq<(Seq<char>, Seq<char>)>,
    pub data_type: Option<Seq<char>>,
}

/// Spec-level image of `Node`.
pub struct NodeV {
    pub node_type: NodeType,
    pub node_data: NodeDataV,
}

/// Spec-level image of `EdgeNode`.
pub struct EdgeNodeV {
    pub node_type: NodeType,
    pub node_data: NodeKeysV,
}

/// Spec-level image of `Edge`.
pub struct EdgeV {
    pub edge: EdgeTypeV,
    pub source: EdgeNodeV,
    pub target: EdgeNodeV,
}

impl View for CallsMeta {
    type V = CallsMetaV;

    open spec fn view(&self) -> CallsMetaV {
        CallsMetaV {
            call_start: self.call_start as nat,
            call_end: self.call_end as nat,
            operand: match self.operand {
                Some(s) => Some(s@),
                None => None,
            },
        }
    }
}

impl View for EdgeType {
    type V = EdgeTypeV;

    open spec fn view(&self) -> EdgeTypeV {
        match self {
            EdgeType::Contains => EdgeTypeV::Contains,
            EdgeType::Calls(m) => EdgeTypeV::Calls(m@),
            EdgeType::Handler => EdgeTypeV::Handler,
            EdgeType::Renders => EdgeTypeV::Renders,
            EdgeType::Of => EdgeTypeV::Of,
            EdgeType::ParentOf => EdgeTypeV::ParentOf,
            EdgeType::ClassImports => EdgeTypeV::ClassImports,
            EdgeType::Uses => EdgeTypeV::Uses,
        }
    }
}

impl View for NodeKeys {
    type V = NodeKeysV;

    open spec fn view(&self) -> NodeKeysV {
        NodeKeysV { name: self.name@, file: self.file@ }
    }
}

impl View for NodeData {
    type V = NodeDataV;

    open spec fn view(&self) -> NodeDataV {
        NodeDataV {
            name: self.name@,
            file: self.file@,
            start: self.start as nat,
            end: self.end as nat,
            body: self.body@,
            meta: self.meta@.map_values(|p: (String, String)| (p.0@, p.1@)),
            data_type: match self.data_type {
                Some(s) => Some(s@),
                None => None,
            },
        }
    }
}

impl View for Node {
    type V = NodeV;

    open spec fn view(&self) -> NodeV {
        NodeV { node_type: self.node_type, node_data: self.node_data@ }
    }
}

impl View for EdgeNode {
    type V = EdgeNodeV;

    open spec fn view(&self) -> EdgeNodeV {
        EdgeNodeV { node_type: self.node_type, node_data: self.node_data@ }
    }
}

impl View for Edge {
    type V = EdgeV;

    open spec fn view(&self) -> EdgeV {
        EdgeV { edge: self.edge@, source: self.source@, target: self.target@ }
    }
}

// ---------------------------------------------------------------------------
// Spec helpers over views
// ---------------------------------------------------------------------------

/// Whether two edge kinds match, with `Calls` compared on variant identity
/// only, ignoring its carried call-site metadata.
pub open spec fn same_edge_kind(a: EdgeTypeV, b: EdgeTypeV) -> bool {
    match (a, b) {
        (EdgeTypeV::Contains, EdgeTypeV::Contains) => true,
        (EdgeTypeV::Calls(_), EdgeTypeV::Calls(_)) => true,
        (EdgeTypeV::Handler, EdgeTypeV::Handler) => true,
        (EdgeTypeV::Renders, EdgeTypeV::Renders) => true,
        (EdgeTypeV::Of, EdgeTypeV::Of) => true,
        (EdgeTypeV::ParentOf, EdgeTypeV::ParentOf) => true,
        (EdgeTypeV::ClassImports, EdgeTypeV::ClassImports) => true,
        (EdgeTypeV::Uses, EdgeTypeV::Uses) => true,
        _ => false,
    }
}

/// Whether two edge kinds match, with `Calls` compared on variant identity
/// only.
pub fn edge_kind_matches(a: &EdgeType, b: &EdgeType) -> (r: bool)
    ensures
        r == same_edge_kind(a@, b@),
{
    match (a, b) {
        (EdgeType::Contains, EdgeType::Contains) => true,
        (EdgeType::Calls(_), EdgeType::Calls(_)) => true,
        (EdgeType::Handler, EdgeType::Handler) => true,
        (EdgeType::Renders, EdgeType::Renders) => true,
        (EdgeType::Of, EdgeType::Of) => true,
        (EdgeType::ParentOf, EdgeType::ParentOf) => true,
        (EdgeType::ClassImports, EdgeType::ClassImports) => true,
        (EdgeType::Uses, EdgeType::Uses) => true,
        _ => false,
    }
}

/// First value bound to `key` in a metadata list, if any.
pub open spec fn meta_lookup(meta: Seq<(Seq<char>, Seq<char>)>, key: Seq<char>) -> Option<Seq<char>>
    decreases meta.len(),
{
    if meta.len() == 0 {
        None
    } else if meta[0].0 == key {
        Some(meta[0].1)
    } else {
        meta_lookup(meta.drop_first(), key)
    }
}

impl NodeData {
    /// Whether the metadata list binds `key` at all.
    pub open spec fn spec_has_meta(&self, key: Seq<char>) -> bool {
        meta_lookup(self@.meta, key) is Some
    }

    /// Looks up the first value bound to `key` in this node's metadata.
    pub fn get_meta(&self, key: &str) -> (r: Option<&String>)
        ensures
            match r {
                Some(v) => meta_lookup(self@.meta, key@) == Some(v@),
                None => meta_lookup(self@.meta, key@) is None,
            },
    {
        let n = self.meta.len();
        proof {
            assert(self@.meta.skip(0) =~= self@.meta);
        }
        for i in 0..n
            invariant
                n == self.meta.len(),
                self@.meta.len() == n,
                meta_lookup(self@.meta.skip(i as int), key@) == meta_lookup(self@.meta, key@),
        {
            proof {
                assert(self@.meta[i as int] == (self.meta@[i as int].0@, self.meta@[i as int].1@));
                assert(self@.meta.skip(i as int)[0] == self@.meta[i as int]);
                assert(self@.meta.skip(i as int).drop_first() =~= self@.meta.skip(i + 1));
            }
            if crate::text::str_eq(self.meta[i].0.as_str(), key) {
                proof {
                    assert(self@.meta.skip(i as int)[0].0 == key@);
                    assert(meta_lookup(self@.meta.skip(i as int), key@)
                        == Some(self@.meta[i as int].1));
                }
                return Some(&self.meta[i].1);
            }
            proof {
                assert(self@.meta.skip(i as int)[0].0 != key@);
                assert(meta_lookup(self@.meta.skip(i as int), key@)
                    == meta_lookup(self@.meta.skip(i + 1), key@));
            }
        }
        proof {
            assert(self@.meta.skip(n as int).len() == 0);
        }
        None
    }
}

// ---------------------------------------------------------------------------
// Exec constructors and comparisons
// ---------------------------------------------------------------------------

impl NodeKeys {
    /// Identifying keys for a freshly named entity.
    pub fn new(name: &str, file: &str) -> (r: NodeKeys)
        ensures
            r@.name == name@,
            r@.file == file@,
    {
        NodeKeys { name: name.to_owned(), file: file.to_owned() }
    }

    /// The keys of an extracted payload.
    pub fn of_data(d: &NodeData) -> (r: NodeKeys)
        ensures
            r@.name == d@.name,
            r@.file == d@.file,
    {
        NodeKeys { name: d.name.clone(), file: d.file.clone() }
    }
}

impl Node {
    /// A node of the given kind around the given payload.
    pub fn new(node_type: NodeType, node_data: NodeData) -> (r: Node)
        ensures
            r@ == (NodeV { node_type, node_data: node_data@ }),
    {
        Node { node_type, node_data }
    }
}

impl Edge {
    /// A structural parent-to-child containment edge.
    pub fn contains(parent_type: NodeType, parent: &NodeData, child_type: NodeType, child: &NodeData) -> (r: Edge)
        ensures
            r@ == contains_edge(parent_type, parent@, child_type, child@),
    {
        Edge {
            edge: EdgeType::Contains,
            source: EdgeNode { node_type: parent_type, node_data: NodeKeys::of_data(parent) },
            target: EdgeNode { node_type: child_type, node_data: NodeKeys::of_data(child) },
        }
    }

    /// An inheritance edge from a parent class to a child class.
    pub fn parent_of(parent: &NodeData, child: &NodeData) -> (r: Edge)
        ensures
            r@ == parent_of_edge(parent@, child@),
    {
        Edge {
            edge: EdgeType::ParentOf,
            source: EdgeNode { node_type: NodeType::Class, node_data: NodeKeys::of_data(parent) },
            target: EdgeNode { node_type: NodeType::Class, node_data: NodeKeys::of_data(child) },
        }
    }

    /// A mixin/module-inclusion edge between two classes.
    pub fn class_imports(includer: &NodeData, included: &NodeData) -> (r: Edge)
        ensures
            r@ == class_imports_edge(includer@, included@),
    {
        Edge {
            edge: EdgeType::ClassImports,
            source: EdgeNode { node_type: NodeType::Class, node_data: NodeKeys::of_data(includer) },
            target: EdgeNode { node_type: NodeType::Class, node_data: NodeKeys::of_data(included) },
        }
    }

    /// An instance-of edge from an object instantiation to its class.
    pub fn of(instance: &NodeData, class: &NodeData) -> (r: Edge)
        ensures
            r@ == of_edge(instance@, class@),
    {
        Edge {
            edge: EdgeType::Of,
            source: EdgeNode { node_type: NodeType::Instance, node_data: NodeKeys::of_data(instance) },
            target: EdgeNode { node_type: NodeType::Class, node_data: NodeKeys::of_data(class) },
        }
    }

    /// A call edge with call-site metadata.
    pub fn calls(source_type: NodeType, source: &NodeData, target_type: NodeType, target: &NodeData, meta: CallsMeta) -> (r: Edge)
        ensures
            r@ == (EdgeV {
                edge: EdgeTypeV::Calls(meta@),
                source: EdgeNodeV {
                    node_type: source_type,
                    node_data: NodeKeysV { name: source@.name, file: source@.file },
                },
                target: EdgeNodeV {
                    node_type: target_type,
                    node_data: NodeKeysV { name: target@.name, file: target@.file },
                },
            }),
    {
        Edge {
            edge: EdgeType::Calls(meta),
            source: EdgeNode { node_type: source_type, node_data: NodeKeys::of_data(source) },
            target: EdgeNode { node_type: target_type, node_data: NodeKeys::of_data(target) },
        }
    }

    /// A uses edge from a caller to an external/library function.
    pub fn uses(source: NodeKeys, target: &NodeData) -> (r: Edge)
        ensures
            r@ == (EdgeV {
                edge: EdgeTypeV::Uses,
                source: EdgeNodeV { node_type: NodeType::Function, node_data: source@ },
                target: EdgeNodeV {
                    node_type: NodeType::Function,
                    node_data: NodeKeysV { name: target@.name, file: target@.file },
                },
            }),
    {
        Edge {
            edge: EdgeType::Uses,
            source: EdgeNode { node_type: NodeType::Function, node_data: source },
            target: EdgeNode { node_type: NodeType::Function, node_data: NodeKeys::of_data(target) },
        }
    }
}

/// Spec image of a containment edge.
pub open spec fn contains_edge(parent_type: NodeType, parent: NodeDataV, child_type: NodeType, child: NodeDataV) -> EdgeV {
    EdgeV {
        edge: EdgeTypeV::Contains,
        source: EdgeNodeV {
            node_type: parent_type,
            node_data: NodeKeysV { name: parent.name, file: parent.file },
        },
        target: EdgeNodeV {
            node_type: child_type,
            node_data: NodeKeysV { name: child.name, file: child.file },
        },
    }
}

/// Spec image of an inheritance edge.
pub open spec fn parent_of_edge(parent: NodeDataV, child: NodeDataV) -> EdgeV {
    EdgeV {
        edge: EdgeTypeV::ParentOf,
        source: EdgeNodeV {
            node_type: NodeType::Class,
            node_data: NodeKeysV { name: parent.name, file: parent.file },
        },
        target: EdgeNodeV {
            node_type: NodeType::Class,
            node_data: NodeKeysV { name: child.name, file: child.file },
        },
    }
}

/// Spec image of a mixin-inclusion edge.
pub open spec fn class_imports_edge(includer: NodeDataV, included: NodeDataV) -> EdgeV {
    EdgeV {
        edge: EdgeTypeV::ClassImports,
        source: EdgeNodeV {
            node_type: NodeType::Class,
            node_data: NodeKeysV { name: includer.name, file: includer.file },
        },
        target: EdgeNodeV {
            node_type: NodeType::Class,
            node_data: NodeKeysV { name: included.name, file: included.file },
        },
    }
}

// ---------------------------------------------------------------------------
// Extraction records handed to the linking passes
// ---------------------------------------------------------------------------

/// A resolved method-of relation: the enclosing type and the function.
#[derive(Debug)]
pub struct Operand {
    pub source: NodeKeys,
    pub target: NodeKeys,
}

/// One extracted function together with everything extraction already
/// resolved for it: its method-of and trait-operand edges, outbound request
/// literals found in its body, data-model edges and return-type edges.
#[derive(Debug)]
pub struct FunctionRec {
    pub node: NodeData,
    pub method_of: Option<Edge>,
    pub requests: Vec<NodeData>,
    pub data_model_edges: Vec<Edge>,
    pub trait_operand: Option<Edge>,
    pub return_types: Vec<Edge>,
}

/// Spec-level image of `FunctionRec`.
pub struct FunctionRecV {
    pub node: NodeDataV,
    pub method_of: Option<EdgeV>,
    pub requests: Seq<NodeDataV>,
    pub data_model_edges: Seq<EdgeV>,
    pub trait_operand: Option<EdgeV>,
    pub return_types: Seq<EdgeV>,
}

impl View for FunctionRec {
    type V = FunctionRecV;

    open spec fn view(&self) -> FunctionRecV {
        FunctionRecV {
            node: self.node@,
            method_of: match self.method_of {
                Some(e) => Some(e@),
                None => None,
            },
            requests: self.requests@.map_values(|d: NodeData| d@),
            data_model_edges: self.data_model_edges@.map_values(|e: Edge| e@),
            trait_operand: match self.trait_operand {
                Some(e) => Some(e@),
                None => None,
            },
            return_types: self.return_types@.map_values(|e: Edge| e@),
        }
    }
}

/// One extracted call site: caller and callee keys plus call-site metadata.
#[derive(Debug)]
pub struct FunctionCall {
    pub source: NodeKeys,
    pub target: NodeKeys,
    pub call_start: usize,
    pub call_end: usize,
    pub operand: Option<String>,
}

/// Spec-level image of `FunctionCall`.
pub struct FunctionCallV {
    pub source: NodeKeysV,
    pub target: NodeKeysV,
    pub call_start: nat,
    pub call_end: nat,
    pub operand: Option<Seq<char>>,
}

impl View for FunctionCall {
    type V = FunctionCallV;

    open spec fn view(&self) -> FunctionCallV {
        FunctionCallV {
            source: self.source@,
            target: self.target@,
            call_start: self.call_start as nat,
            call_end: self.call_end as nat,
            operand: match self.operand {
                Some(s) => Some(s@),
                None => None,
            },
        }
    }
}

/// Spec image of the `Calls` edge recorded for a call site; the source node
/// is of kind `source_type` (a function or a test).
pub open spec fn fc_edge(fc: FunctionCallV, source_type: NodeType) -> EdgeV {
    EdgeV {
        edge: EdgeTypeV::Calls(CallsMetaV {
            call_start: fc.call_start,
            call_end: fc.call_end,
            operand: fc.operand,
        }),
        source: EdgeNodeV { node_type: source_type, node_data: fc.source },
        target: EdgeNodeV { node_type: NodeType::Function, node_data: fc.target },
    }
}

/// Spec image of a uses edge from a caller to an external function.
pub open spec fn uses_edge(source: NodeKeysV, target: NodeDataV) -> EdgeV {
    EdgeV {
        edge: EdgeTypeV::Uses,
        source: EdgeNodeV { node_type: NodeType::Function, node_data: source },
        target: EdgeNodeV {
            node_type: NodeType::Function,
            node_data: NodeKeysV { name: target.name, file: target.file },
        },
    }
}

/// Spec image of the `Calls` edge from a function to an outbound request
/// literal found in its body.
pub open spec fn request_call_edge(f: NodeDataV, r: NodeDataV) -> EdgeV {
    EdgeV {
        edge: EdgeTypeV::Calls(CallsMetaV {
            call_start: r.start,
            call_end: r.end,
            operand: None,
        }),
        source: EdgeNodeV {
            node_type: NodeType::Function,
            node_data: NodeKeysV { name: f.name, file: f.file },
        },
        target: EdgeNodeV {
            node_type: NodeType::Request,
            node_data: NodeKeysV { name: r.name, file: r.file },
        },
    }
}

impl FunctionCall {
    /// The `Calls` edge recorded for this call site.
    pub fn into_edge(self, source_type: NodeType) -> (r: Edge)
        ensures
            r@ == fc_edge(self@, source_type),
    {
        let FunctionCall { source, target, call_start, call_end, operand } = self;
        Edge {
            edge: EdgeType::Calls(CallsMeta { call_start, call_end, operand }),
            source: EdgeNode { node_type: source_type, node_data: source },
            target: EdgeNode { node_type: NodeType::Function, node_data: target },
        }
    }
}

// ---------------------------------------------------------------------------
// Cloning, with the copies pinned to the originals' views
// ---------------------------------------------------------------------------

/// An exact copy of a metadata list.
fn clone_meta(m: &Vec<(String, String)>) -> (r: Vec<(String, String)>)
    ensures
        r@.map_values(|p: (String, String)| (p.0@, p.1@))
            == m@.map_values(|p: (String, String)| (p.0@, p.1@)),
{
    let mut r: Vec<(String, String)> = Vec::new();
    let n = m.len();
    for i in 0..n
        invariant
            n == m.len(),
            r@.len() == i,
            forall|k: int| 0 <= k < i ==> (#[trigger] r@[k].0@, r@[k].1@)
                == (m@[k].0@, m@[k].1@),
    {
        r.push((m[i].0.clone(), m[i].1.clone()));
    }
    proof {
        assert(r@.map_values(|p: (String, String)| (p.0@, p.1@))
            =~= m@.map_values(|p: (String, String)| (p.0@, p.1@)));
    }
    r
}

/// An exact copy of an optional string.
fn clone_opt_string(s: &Option<String>) -> (r: Option<String>)
    ensures
        match (r, s) {
            (Some(a), Some(b)) => a@ == b@,
            (None, None) => true,
            _ => false,
        },
{
    match s {
        Some(v) => Some(v.clone()),
        None => None,
    }
}

impl Clone for CallsMeta {
    fn clone(&self) -> (r: Self)
        ensures
            r@ == self@,
    {
        CallsMeta {
            call_start: self.call_start,
            call_end: self.call_end,
            operand: clone_opt_string(&self.operand),
        }
    }
}

impl Clone for EdgeType {
    fn clone(&self) -> (r: Self)
        ensures
            r@ == self@,
    {
        match self {
            EdgeType::Contains => EdgeType::Contains,
            EdgeType::Calls(m) => EdgeType::Calls(m.clone()),
            EdgeType::Handler => EdgeType::Handler,
            EdgeType::Renders => EdgeType::Renders,
            EdgeType::Of => EdgeType::Of,
            EdgeType::ParentOf => EdgeType::ParentOf,
            EdgeType::ClassImports => EdgeType::ClassImports,
            EdgeType::Uses => EdgeType::Uses,
        }
    }
}

impl Clone for FunctionCall {
    fn clone(&self) -> (r: Self)
        ensures
            r@ == self@,
    {
        FunctionCall {
            source: self.source.clone(),
            target: self.target.clone(),
            call_start: self.call_start,
            call_end: self.call_end,
            operand: clone_opt_string(&self.operand),
        }
    }
}

impl Clone for NodeKeys {
    fn clone(&self) -> (r: Self)
        ensures
            r@ == self@,
    {
        NodeKeys { name: self.name.clone(), file: self.file.clone() }
    }
}

impl Clone for NodeData {
    fn clone(&self) -> (r: Self)
        ensures
            r@ == self@,
    {
        NodeData {
            name: self.name.clone(),
            file: self.file.clone(),
            start: self.start,
            end: self.end,
            body: self.body.clone(),
            meta: clone_meta(&self.meta),
            data_type: clone_opt_string(&self.data_type),
        }
    }
}

impl Clone for Node {
    fn clone(&self) -> (r: Self)
        ensures
            r@ == self@,
    {
        Node { node_type: self.node_type, node_data: self.node_data.clone() }
    }
}

impl Clone for EdgeNode {
    fn clone(&self) -> (r: Self)
        ensures
            r@ == self@,
    {
        EdgeNode { node_type: self.node_type, node_data: self.node_data.clone() }
    }
}

impl Clone for Edge {
    fn clone(&self) -> (r: Self)
        ensures
            r@ == self@,
    {
        Edge { edge: self.edge.clone(), source: self.source.clone(), target: self.target.clone() }
    }
}

/// Spec image of an instance-of edge.
pub open spec fn of_edge(instance: NodeDataV, class: NodeDataV) -> EdgeV {
    EdgeV {
        edge: EdgeTypeV::Of,
        source: EdgeNodeV {
            node_type: NodeType::Instance,
            node_data: NodeKeysV { name: instance.name, file: instance.file },
        },
        target: EdgeNodeV {
            node_type: NodeType::Class,
            node_data: NodeKeysV { name: class.name, file: class.file },
        },
    }
}

} // verus!
