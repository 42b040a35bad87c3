//! A round-trip-safe codec for graphs: the logical content is serialized
//! to a flat token stream that preserves every node's and edge's variant
//! tag and full payload, and decoding an encoded graph reproduces the
//! original content exactly (see [`round_trip`]).

use vstd::prelude::*;
use vstd::string::StrSliceExecFns;
use crate::indexed::type_slot;
use crate::linear::ArrayGraph;
use crate::model::{
    CallsMeta, CallsMetaV, Edge, EdgeNode, EdgeNodeV, EdgeType, EdgeTypeV, EdgeV, Node, NodeData,
    NodeDataV, NodeKeys, NodeKeysV, NodeType, NodeV,
};
use crate::queries::{edge_views, node_views, GraphV};
use crate::text::{push_char, string_views};

verus! {

/// Relies on `char::from_u32`: `Some` exactly on valid Unicode scalar
/// values, and the inverse of `as u32` there.
#[verifier::external_body]
fn char_from_u32(v: u32) -> (r: Option<char>)
    ensures
        r matches Some(c) ==> c as u32 == v,
        (v <= 0x10FFFF && !(0xD800 <= v && v <= 0xDFFF)) ==> r is Some,
{
    char::from_u32(v)
}

/// Every character is a valid Unicode scalar value.
proof fn char_scalar_bounds(c: char)
    ensures
        c as u32 <= 0x10FFFF,
        !(0xD800 <= c as u32 && c as u32 <= 0xDFFF),
{
}

/// The scalar value determines the character.
proof fn char_cast_injective(a: char, b: char)
    requires
        a as u32 == b as u32,
    ensures
        a == b,
{
}

/// A payload whose span fits the machine.
pub open spec fn bounded_data(d: NodeDataV) -> bool {
    d.start <= usize::MAX && d.end <= usize::MAX
}

/// An edge whose call-site span, if any, fits the machine.
pub open spec fn bounded_edge(e: EdgeV) -> bool {
    match e.edge {
        EdgeTypeV::Calls(m) => m.call_start <= usize::MAX && m.call_end <= usize::MAX,
        _ => true,
    }
}

/// A graph whose numeric fields all fit the machine; every graph held in a
/// backend is bounded.
pub open spec fn bounded_graph(g: GraphV) -> bool {
    &&& forall|i: int| 0 <= i < g.nodes.len() ==> bounded_data((#[trigger] g.nodes[i]).node_data)
    &&& forall|i: int| 0 <= i < g.edges.len() ==> bounded_edge(#[trigger] g.edges[i])
}

// ---------------------------------------------------------------------------
// The token images
// ---------------------------------------------------------------------------

/// The characters of a string as tokens.
pub open spec fn scalars(s: Seq<char>) -> Seq<u64> {
    s.map_values(|c: char| (c as u32) as u64)
}

/// A string: its length, then its characters.
pub open spec fn enc_str(s: Seq<char>) -> Seq<u64> {
    seq![s.len() as u64] + scalars(s)
}

/// An optional string: an absence/presence tag, then the string.
pub open spec fn enc_opt_str(o: Option<Seq<char>>) -> Seq<u64> {
    match o {
        None => seq![0u64],
        Some(s) => seq![1u64] + enc_str(s),
    }
}

/// The first `k` metadata pairs.
pub open spec fn enc_pairs(m: Seq<(Seq<char>, Seq<char>)>, k: int) -> Seq<u64>
    decreases k,
{
    if k <= 0 {
        Seq::empty()
    } else {
        enc_pairs(m, k - 1) + enc_str(m[k - 1].0) + enc_str(m[k - 1].1)
    }
}

/// A metadata list: its length, then its pairs.
pub open spec fn enc_meta(m: Seq<(Seq<char>, Seq<char>)>) -> Seq<u64> {
    seq![m.len() as u64] + enc_pairs(m, m.len() as int)
}

/// A node payload: name, file, span, body, metadata, declared type.
pub open spec fn enc_data(d: NodeDataV) -> Seq<u64> {
    enc_str(d.name) + enc_str(d.file) + seq![d.start as u64, d.end as u64] + enc_str(d.body)
        + enc_meta(d.meta) + enc_opt_str(d.data_type)
}

/// A node: its kind tag, then its payload.
pub open spec fn enc_node(n: NodeV) -> Seq<u64> {
    seq![type_slot(n.node_type) as u64] + enc_data(n.node_data)
}

/// An edge endpoint copy: its kind tag, then its keys.
pub open spec fn enc_enode(en: EdgeNodeV) -> Seq<u64> {
    seq![type_slot(en.node_type) as u64] + enc_str(en.node_data.name) + enc_str(en.node_data.file)
}

/// The tag of an edge kind.
pub open spec fn kind_tag(e: EdgeTypeV) -> int {
    match e {
        EdgeTypeV::Contains => 0,
        EdgeTypeV::Calls(_) => 1,
        EdgeTypeV::Handler => 2,
        EdgeTypeV::Renders => 3,
        EdgeTypeV::Of => 4,
        EdgeTypeV::ParentOf => 5,
        EdgeTypeV::ClassImports => 6,
        EdgeTypeV::Uses => 7,
    }
}

/// An edge: its kind tag, the call-site metadata where the kind carries
/// one, then both endpoint copies.
pub open spec fn enc_edge(e: EdgeV) -> Seq<u64> {
    seq![kind_tag(e.edge) as u64] + (match e.edge {
        EdgeTypeV::Calls(m) => seq![m.call_start as u64, m.call_end as u64]
            + enc_opt_str(m.operand),
        _ => Seq::empty(),
    }) + enc_enode(e.source) + enc_enode(e.target)
}

/// The first `k` nodes.
pub open spec fn enc_nodes(s: Seq<NodeV>, k: int) -> Seq<u64>
    decreases k,
{
    if k <= 0 {
        Seq::empty()
    } else {
        enc_nodes(s, k - 1) + enc_node(s[k - 1])
    }
}

/// The first `k` edges.
pub open spec fn enc_edges(s: Seq<EdgeV>, k: int) -> Seq<u64>
    decreases k,
{
    if k <= 0 {
        Seq::empty()
    } else {
        enc_edges(s, k - 1) + enc_edge(s[k - 1])
    }
}

/// The first `k` error strings.
pub open spec fn enc_errs(s: Seq<Seq<char>>, k: int) -> Seq<u64>
    decreases k,
{
    if k <= 0 {
        Seq::empty()
    } else {
        enc_errs(s, k - 1) + enc_str(s[k - 1])
    }
}

/// A whole graph: the node list, the edge list, the error list, each
/// length-prefixed.
pub open spec fn enc_graph(g: GraphV) -> Seq<u64> {
    seq![g.nodes.len() as u64] + enc_nodes(g.nodes, g.nodes.len() as int)
        + seq![g.edges.len() as u64] + enc_edges(g.edges, g.edges.len() as int)
        + seq![g.errors.len() as u64] + enc_errs(g.errors, g.errors.len() as int)
}

// ---------------------------------------------------------------------------
// Encoding
// ---------------------------------------------------------------------------

/// Appends the tokens of one string.
fn push_str_tokens(out: &mut Vec<u64>, s: &str)
    ensures
        final(out)@ == old(out)@ + enc_str(s@),
{
    let n = s.unicode_len();
    out.push(n as u64);
    for i in 0..n
        invariant
            n == s@.len(),
            out@ =~= old(out)@ + seq![s@.len() as u64] + scalars(s@.take(i as int)),
    {
        let c = s.get_char(i);
        let u: u32 = c as u32;
        out.push(u as u64);
        proof {
            assert(scalars(s@.take(i + 1))
                =~= scalars(s@.take(i as int)).push((s@[i as int] as u32) as u64));
        }
    }
    proof {
        assert(s@.take(n as int) =~= s@);
        assert(final(out)@ =~= old(out)@ + enc_str(s@));
    }
}

/// Appends the tokens of one optional string.
fn push_opt_str_tokens(out: &mut Vec<u64>, o: &Option<String>)
    ensures
        final(out)@ == old(out)@ + enc_opt_str(match o {
            Some(s) => Some(s@),
            None => None,
        }),
    {
    match o {
        None => {
            out.push(0u64);
            proof {
                assert(final(out)@ =~= old(out)@ + enc_opt_str(None));
            }
        },
        Some(s) => {
            out.push(1u64);
            push_str_tokens(out, s.as_str());
            proof {
                assert(final(out)@ =~= old(out)@ + enc_opt_str(Some(s@)));
            }
        },
    }
}

/// Appends the tokens of one payload.
fn push_data_tokens(out: &mut Vec<u64>, d: &NodeData)
    ensures
        final(out)@ == old(out)@ + enc_data(d@),
{
    push_str_tokens(out, d.name.as_str());
    push_str_tokens(out, d.file.as_str());
    out.push(d.start as u64);
    out.push(d.end as u64);
    push_str_tokens(out, d.body.as_str());
    let m = d.meta.len();
    out.push(m as u64);
    for i in 0..m
        invariant
            m == d.meta@.len(),
            out@ =~= old(out)@ + enc_str(d@.name) + enc_str(d@.file)
                + seq![d@.start as u64, d@.end as u64] + enc_str(d@.body)
                + seq![d@.meta.len() as u64] + enc_pairs(d@.meta, i as int),
    {
        proof {
            assert(d@.meta[i as int] == (d.meta@[i as int].0@, d.meta@[i as int].1@));
        }
        push_str_tokens(out, d.meta[i].0.as_str());
        push_str_tokens(out, d.meta[i].1.as_str());
        proof {
            assert(out@ =~= old(out)@ + enc_str(d@.name) + enc_str(d@.file)
                + seq![d@.start as u64, d@.end as u64] + enc_str(d@.body)
                + seq![d@.meta.len() as u64] + enc_pairs(d@.meta, i + 1));
        }
    }
    push_opt_str_tokens(out, &d.data_type);
    proof {
        assert(final(out)@ =~= old(out)@ + enc_data(d@));
    }
}

/// The tag of a node kind.
fn tag_of(t: NodeType) -> (r: u64)
    ensures
        r as int == type_slot(t),
{
    match t {
        NodeType::Repository => 0,
        NodeType::Language => 1,
        NodeType::File => 2,
        NodeType::Function => 3,
        NodeType::Class => 4,
        NodeType::Endpoint => 5,
        NodeType::DataModel => 6,
        NodeType::Page => 7,
        NodeType::Request => 8,
        NodeType::Instance => 9,
        NodeType::Import => 10,
        NodeType::Test => 11,
        NodeType::IntegrationTest => 12,
        NodeType::Library => 13,
    }
}

/// The node kind filed under a tag, for tags written by [`tag_of`].
fn type_of_tag(tag: u64) -> (r: NodeType)
    requires
        0 <= tag < 14,
    ensures
        type_slot(r) == tag as int,
{
    if tag == 0 { NodeType::Repository }
    else if tag == 1 { NodeType::Language }
    else if tag == 2 { NodeType::File }
    else if tag == 3 { NodeType::Function }
    else if tag == 4 { NodeType::Class }
    else if tag == 5 { NodeType::Endpoint }
    else if tag == 6 { NodeType::DataModel }
    else if tag == 7 { NodeType::Page }
    else if tag == 8 { NodeType::Request }
    else if tag == 9 { NodeType::Instance }
    else if tag == 10 { NodeType::Import }
    else if tag == 11 { NodeType::Test }
    else if tag == 12 { NodeType::IntegrationTest }
    else { NodeType::Library }
}

/// Appends the tokens of one edge endpoint copy.
fn push_enode_tokens(out: &mut Vec<u64>, en: &EdgeNode)
    ensures
        final(out)@ == old(out)@ + enc_enode(en@),
{
    out.push(tag_of(en.node_type));
    push_str_tokens(out, en.node_data.name.as_str());
    push_str_tokens(out, en.node_data.file.as_str());
    proof {
        assert(final(out)@ =~= old(out)@ + enc_enode(en@));
    }
}

/// Appends the tokens of one edge.
fn push_edge_tokens(out: &mut Vec<u64>, e: &Edge)
    ensures
        final(out)@ == old(out)@ + enc_edge(e@),
{
    match &e.edge {
        EdgeType::Contains => out.push(0u64),
        EdgeType::Calls(_) => out.push(1u64),
        EdgeType::Handler => out.push(2u64),
        EdgeType::Renders => out.push(3u64),
        EdgeType::Of => out.push(4u64),
        EdgeType::ParentOf => out.push(5u64),
        EdgeType::ClassImports => out.push(6u64),
        EdgeType::Uses => out.push(7u64),
    }
    match &e.edge {
        EdgeType::Calls(m) => {
            out.push(m.call_start as u64);
            out.push(m.call_end as u64);
            push_opt_str_tokens(out, &m.operand);
        },
        _ => {},
    }
    push_enode_tokens(out, &e.source);
    push_enode_tokens(out, &e.target);
    proof {
        assert(final(out)@ =~= old(out)@ + enc_edge(e@));
    }
}

/// The token stream of a whole graph.
pub fn encode_graph(g: &ArrayGraph) -> (r: Vec<u64>)
    ensures
        r@ == enc_graph(g@),
{
    let mut out: Vec<u64> = Vec::new();
    let n = g.nodes.len();
    out.push(n as u64);
    for i in 0..n
        invariant
            n == g.nodes@.len(),
            out@ =~= seq![g@.nodes.len() as u64] + enc_nodes(g@.nodes, i as int),
    {
        proof {
            assert(g@.nodes[i as int] == g.nodes@[i as int]@);
        }
        out.push(tag_of(g.nodes[i].node_type));
        push_data_tokens(&mut out, &g.nodes[i].node_data);
        proof {
            assert(out@ =~= seq![g@.nodes.len() as u64] + enc_nodes(g@.nodes, i + 1));
        }
    }
    let m = g.edges.len();
    out.push(m as u64);
    for i in 0..m
        invariant
            n == g.nodes@.len(),
            m == g.edges@.len(),
            out@ =~= seq![g@.nodes.len() as u64] + enc_nodes(g@.nodes, n as int)
                + seq![g@.edges.len() as u64] + enc_edges(g@.edges, i as int),
    {
        proof {
            assert(g@.edges[i as int] == g.edges@[i as int]@);
        }
        push_edge_tokens(&mut out, &g.edges[i]);
        proof {
            assert(out@ =~= seq![g@.nodes.len() as u64] + enc_nodes(g@.nodes, n as int)
                + seq![g@.edges.len() as u64] + enc_edges(g@.edges, i + 1));
        }
    }
    let k = g.errors.len();
    out.push(k as u64);
    for i in 0..k
        invariant
            n == g.nodes@.len(),
            m == g.edges@.len(),
            k == g.errors@.len(),
            out@ =~= seq![g@.nodes.len() as u64] + enc_nodes(g@.nodes, n as int)
                + seq![g@.edges.len() as u64] + enc_edges(g@.edges, m as int)
                + seq![g@.errors.len() as u64] + enc_errs(g@.errors, i as int),
    {
        proof {
            assert(g@.errors[i as int] == g.errors@[i as int]@);
        }
        push_str_tokens(&mut out, g.errors[i].as_str());
        proof {
            assert(out@ =~= seq![g@.nodes.len() as u64] + enc_nodes(g@.nodes, n as int)
                + seq![g@.edges.len() as u64] + enc_edges(g@.edges, m as int)
                + seq![g@.errors.len() as u64] + enc_errs(g@.errors, i + 1));
        }
    }
    proof {
        assert(out@ =~= enc_graph(g@));
    }
    out
}

// ---------------------------------------------------------------------------
// Decoding
// ---------------------------------------------------------------------------

/// A token segment sits at `pos` inside `t`.
pub open spec fn seg_at(t: Seq<u64>, pos: int, seg: Seq<u64>) -> bool {
    &&& 0 <= pos
    &&& pos + seg.len() <= t.len()
    &&& t.subrange(pos, pos + seg.len()) == seg
}

/// A prefix of a segment is a segment at the same place.
proof fn lemma_seg_prefix(t: Seq<u64>, pos: int, a: Seq<u64>, b: Seq<u64>)
    requires
        a.is_prefix_of(b),
        seg_at(t, pos, b),
    ensures
        seg_at(t, pos, a),
{
    assert forall|j: int| 0 <= j < a.len() implies t[pos + j] == a[j] by {
        assert(t.subrange(pos, pos + b.len())[j] == b[j]);
    }
    assert(t.subrange(pos, pos + a.len()) =~= a);
}

/// Splitting a segment made of two parts.
proof fn lemma_seg_split(t: Seq<u64>, pos: int, a: Seq<u64>, b: Seq<u64>)
    requires
        seg_at(t, pos, a + b),
    ensures
        seg_at(t, pos, a),
        seg_at(t, pos + a.len(), b),
{
    assert forall|j: int| 0 <= j < a.len() implies t[pos + j] == a[j] by {
        assert(t.subrange(pos, pos + (a + b).len())[j] == (a + b)[j]);
    }
    assert forall|j: int| 0 <= j < b.len() implies t[pos + a.len() + j] == b[j] by {
        assert(t.subrange(pos, pos + (a + b).len())[a.len() + j] == (a + b)[a.len() + j]);
    }
    assert(t.subrange(pos, pos + a.len()) =~= a);
    assert(t.subrange(pos + a.len(), pos + a.len() + b.len()) =~= b);
}

/// Reads back one string.
fn dec_str(t: &Vec<u64>, pos: usize, Ghost(s): Ghost<Seq<char>>) -> (r: (String, usize))
    requires
        seg_at(t@, pos as int, enc_str(s)),
    ensures
        r.0@ == s,
        r.1 == pos + enc_str(s).len(),
{
    let total = t.len();
    proof {
        assert(t@.subrange(pos as int, pos + enc_str(s).len())[0] == s.len() as u64);
        assert(t@[pos as int] == s.len() as u64);
        assert(enc_str(s).len() == 1 + s.len());
        assert(s.len() + 1 <= total);
        assert(s.len() < usize::MAX);
    }
    let len64 = t[pos];
    let len = len64 as usize;
    let mut out = String::new();
    let mut i: usize = 0;
    while i < len
        invariant
            seg_at(t@, pos as int, enc_str(s)),
            len == s.len(),
            pos + 1 + len <= t@.len(),
            t@.len() <= usize::MAX,
            i <= len,
            out@ =~= s.take(i as int),
        decreases len - i,
    {
        proof {
            assert(enc_str(s)[1 + i] == scalars(s)[i as int]);
            assert(t@.subrange(pos as int, pos + enc_str(s).len())[1 + i] == enc_str(s)[1 + i]);
            assert(t@[pos + 1 + i] == (s[i as int] as u32) as u64);
            char_scalar_bounds(s[i as int]);
        }
        let v = t[pos + 1 + i];
        let c = match char_from_u32(v as u32) {
            Some(c) => c,
            None => {
                proof {
                    assert(false);
                }
                ' '
            },
        };
        proof {
            assert(v as u32 == s[i as int] as u32);
            assert(c as u32 == s[i as int] as u32);
            char_cast_injective(c, s[i as int]);
        }
        push_char(&mut out, c);
        proof {
            assert(s.take(i + 1) =~= s.take(i as int).push(s[i as int]));
        }
        i = i + 1;
    }
    proof {
        assert(s.take(len as int) =~= s);
    }
    (out, pos + 1 + len)
}

/// Reads back one optional string.
fn dec_opt_str(t: &Vec<u64>, pos: usize, Ghost(o): Ghost<Option<Seq<char>>>) -> (r: (Option<String>, usize))
    requires
        seg_at(t@, pos as int, enc_opt_str(o)),
    ensures
        match (r.0, o) {
            (Some(a), Some(b)) => a@ == b,
            (None, None) => true,
            _ => false,
        },
        r.1 == pos + enc_opt_str(o).len(),
{
    let total = t.len();
    proof {
        assert(t@.subrange(pos as int, pos + enc_opt_str(o).len())[0] == enc_opt_str(o)[0]);
    }
    let tag = t[pos];
    if tag == 0 {
        proof {
            assert(t@[pos as int] == enc_opt_str(o)[0]);
            if o is Some {
                assert(enc_opt_str(o)[0] == 1u64);
            }
        }
        (None, pos + 1)
    } else {
        proof {
            assert(t@[pos as int] == enc_opt_str(o)[0]);
            if o is None {
                assert(enc_opt_str(o)[0] == 0u64);
            }
        }
        let ghost sv = o->0;
        proof {
            assert(enc_opt_str(o) =~= seq![1u64] + enc_str(sv));
            lemma_seg_split(t@, pos as int, seq![1u64], enc_str(sv));
        }
        let (s, np) = dec_str(t, pos + 1, Ghost(sv));
        (Some(s), np)
    }
}

/// Reads back one payload.
fn dec_data(t: &Vec<u64>, pos: usize, Ghost(d): Ghost<NodeDataV>) -> (r: (NodeData, usize))
    requires
        seg_at(t@, pos as int, enc_data(d)),
        bounded_data(d),
    ensures
        r.0@ == d,
        r.1 == pos + enc_data(d).len(),
{
    let total = t.len();
    proof {
        assert(enc_data(d) =~= enc_str(d.name) + (enc_str(d.file)
            + (seq![d.start as u64, d.end as u64] + (enc_str(d.body)
            + (enc_meta(d.meta) + enc_opt_str(d.data_type))))));
        lemma_seg_split(t@, pos as int, enc_str(d.name), enc_str(d.file)
            + (seq![d.start as u64, d.end as u64] + (enc_str(d.body)
            + (enc_meta(d.meta) + enc_opt_str(d.data_type)))));
        lemma_seg_split(t@, pos + enc_str(d.name).len(), enc_str(d.file),
            seq![d.start as u64, d.end as u64] + (enc_str(d.body)
            + (enc_meta(d.meta) + enc_opt_str(d.data_type))));
        lemma_seg_split(t@, pos + enc_str(d.name).len() + enc_str(d.file).len(),
            seq![d.start as u64, d.end as u64], enc_str(d.body)
            + (enc_meta(d.meta) + enc_opt_str(d.data_type)));
        lemma_seg_split(t@, pos + enc_str(d.name).len() + enc_str(d.file).len() + 2,
            enc_str(d.body), enc_meta(d.meta) + enc_opt_str(d.data_type));
        lemma_seg_split(t@,
            pos + enc_str(d.name).len() + enc_str(d.file).len() + 2 + enc_str(d.body).len(),
            enc_meta(d.meta), enc_opt_str(d.data_type));
    }
    let (name, p1) = dec_str(t, pos, Ghost(d.name));
    let (file, p2) = dec_str(t, p1, Ghost(d.file));
    proof {
        assert(t@.subrange(p2 as int, p2 + 2)[0] == d.start as u64);
        assert(t@.subrange(p2 as int, p2 + 2)[1] == d.end as u64);
        assert(t@[p2 as int] == d.start as u64);
        assert(t@[p2 + 1] == d.end as u64);
    }
    let start = t[p2] as usize;
    let end = t[p2 + 1] as usize;
    let (body, p3) = dec_str(t, p2 + 2, Ghost(d.body));
    let (meta, p4) = dec_meta(t, p3, Ghost(d.meta));
    let (data_type, p5) = dec_opt_str(t, p4, Ghost(d.data_type));
    let out = NodeData { name, file, start, end, body, meta, data_type };
    proof {
        assert(out@ == d);
    }
    (out, p5)
}

/// Reads back one metadata list.
fn dec_meta(t: &Vec<u64>, pos: usize, Ghost(m): Ghost<Seq<(Seq<char>, Seq<char>)>>) -> (r: (Vec<(String, String)>, usize))
    requires
        seg_at(t@, pos as int, enc_meta(m)),
    ensures
        r.0@.map_values(|p: (String, String)| (p.0@, p.1@)) == m,
        r.1 == pos + enc_meta(m).len(),
{
    let total = t.len();
    proof {
        assert(enc_meta(m) =~= seq![m.len() as u64] + enc_pairs(m, m.len() as int));
        lemma_seg_split(t@, pos as int, seq![m.len() as u64], enc_pairs(m, m.len() as int));
        assert(t@.subrange(pos as int, pos + 1)[0] == m.len() as u64);
        assert(t@[pos as int] == m.len() as u64);
        lemma_enc_pairs_len(m, m.len() as int);
        assert(m.len() <= t@.len());
    }
    let len = t[pos] as usize;
    let mut out: Vec<(String, String)> = Vec::new();
    let mut p = pos + 1;
    let mut i: usize = 0;
    while i < len
        invariant
            seg_at(t@, pos + 1, enc_pairs(m, m.len() as int)),
            len == m.len(),
            i <= len,
            p == pos + 1 + enc_pairs(m, i as int).len(),
            out@.map_values(|q: (String, String)| (q.0@, q.1@)) =~= m.take(i as int),
        decreases len - i,
    {
        proof {
            lemma_enc_pairs_prefix(m, i as int, m.len() as int);
            lemma_seg_prefix(t@, pos + 1, enc_pairs(m, i + 1), enc_pairs(m, m.len() as int));
            assert(seg_at(t@, pos + 1, enc_pairs(m, i + 1)));
            assert(enc_pairs(m, i + 1) =~= enc_pairs(m, i as int)
                + (enc_str(m[i as int].0) + enc_str(m[i as int].1)));
            lemma_seg_split(t@, pos + 1, enc_pairs(m, i as int),
                enc_str(m[i as int].0) + enc_str(m[i as int].1));
            lemma_seg_split(t@, pos + 1 + enc_pairs(m, i as int).len(),
                enc_str(m[i as int].0), enc_str(m[i as int].1));
        }
        let (k, p1) = dec_str(t, p, Ghost(m[i as int].0));
        let (v, p2) = dec_str(t, p1, Ghost(m[i as int].1));
        out.push((k, v));
        proof {
            assert(m.take(i + 1) =~= m.take(i as int).push(m[i as int]));
            assert(out@.map_values(|q: (String, String)| (q.0@, q.1@)) =~= m.take(i + 1));
        }
        p = p2;
        i = i + 1;
    }
    proof {
        assert(m.take(len as int) =~= m);
    }
    (out, p)
}

/// An encoded pair list holds at least one token per pair.
proof fn lemma_enc_pairs_len(m: Seq<(Seq<char>, Seq<char>)>, k: int)
    requires
        0 <= k,
    ensures
        enc_pairs(m, k).len() >= k,
    decreases k,
{
    if k > 0 {
        lemma_enc_pairs_len(m, k - 1);
    }
}

/// A prefix of an encoded pair list is a segment of the whole.
proof fn lemma_enc_pairs_prefix(m: Seq<(Seq<char>, Seq<char>)>, i: int, k: int)
    requires
        0 <= i < k,
    ensures
        enc_pairs(m, k).len() >= enc_pairs(m, i + 1).len(),
        enc_pairs(m, i + 1).is_prefix_of(enc_pairs(m, k)),
    decreases k,
{
    if i + 1 == k {
        assert(enc_pairs(m, k).is_prefix_of(enc_pairs(m, k)));
    } else {
        lemma_enc_pairs_prefix(m, i, k - 1);
        assert(enc_pairs(m, i + 1).is_prefix_of(enc_pairs(m, k - 1)));
        assert(enc_pairs(m, k - 1).is_prefix_of(enc_pairs(m, k)));
        assert(enc_pairs(m, i + 1).is_prefix_of(enc_pairs(m, k)));
    }
}

/// Reads back one edge endpoint copy.
fn dec_enode(t: &Vec<u64>, pos: usize, Ghost(en): Ghost<EdgeNodeV>) -> (r: (EdgeNode, usize))
    requires
        seg_at(t@, pos as int, enc_enode(en)),
    ensures
        r.0@ == en,
        r.1 == pos + enc_enode(en).len(),
{
    let total = t.len();
    proof {
        assert(enc_enode(en) =~= seq![type_slot(en.node_type) as u64]
            + (enc_str(en.node_data.name) + enc_str(en.node_data.file)));
        lemma_seg_split(t@, pos as int, seq![type_slot(en.node_type) as u64],
            enc_str(en.node_data.name) + enc_str(en.node_data.file));
        lemma_seg_split(t@, pos + 1, enc_str(en.node_data.name), enc_str(en.node_data.file));
        assert(t@.subrange(pos as int, pos + 1)[0] == type_slot(en.node_type) as u64);
        assert(t@[pos as int] == type_slot(en.node_type) as u64);
    }
    let tag = t[pos];
    let node_type = type_of_tag(tag);
    proof {
        lemma_type_slot_injective(node_type, en.node_type);
    }
    let (name, p1) = dec_str(t, pos + 1, Ghost(en.node_data.name));
    let (file, p2) = dec_str(t, p1, Ghost(en.node_data.file));
    (EdgeNode { node_type, node_data: NodeKeys { name, file } }, p2)
}

/// Two node kinds filed under the same slot are the same kind.
proof fn lemma_type_slot_injective(a: NodeType, b: NodeType)
    requires
        type_slot(a) == type_slot(b),
    ensures
        a == b,
{
}

/// Reads back one edge.
fn dec_edge(t: &Vec<u64>, pos: usize, Ghost(e): Ghost<EdgeV>) -> (r: (Edge, usize))
    requires
        seg_at(t@, pos as int, enc_edge(e)),
        bounded_edge(e),
    ensures
        r.0@ == e,
        r.1 == pos + enc_edge(e).len(),
{
    let total = t.len();
    let ghost mid: Seq<u64> = match e.edge {
        EdgeTypeV::Calls(m) => seq![m.call_start as u64, m.call_end as u64]
            + enc_opt_str(m.operand),
        _ => Seq::empty(),
    };
    proof {
        assert(enc_edge(e) =~= seq![kind_tag(e.edge) as u64]
            + (mid + (enc_enode(e.source) + enc_enode(e.target))));
        lemma_seg_split(t@, pos as int, seq![kind_tag(e.edge) as u64],
            mid + (enc_enode(e.source) + enc_enode(e.target)));
        lemma_seg_split(t@, pos + 1, mid, enc_enode(e.source) + enc_enode(e.target));
        lemma_seg_split(t@, pos + 1 + mid.len(), enc_enode(e.source), enc_enode(e.target));
        assert(t@.subrange(pos as int, pos + 1)[0] == kind_tag(e.edge) as u64);
        assert(t@[pos as int] == kind_tag(e.edge) as u64);
    }
    let tag = t[pos];
    let (edge, pmid): (EdgeType, usize) = if tag == 1 {
        proof {
            assert(e.edge is Calls);
        }
        let ghost cm = e.edge->Calls_0;
        proof {
            assert(mid =~= seq![cm.call_start as u64, cm.call_end as u64]
                + enc_opt_str(cm.operand));
            lemma_seg_split(t@, pos + 1, seq![cm.call_start as u64, cm.call_end as u64],
                enc_opt_str(cm.operand));
            assert(t@.subrange(pos + 1, pos + 3)[0] == cm.call_start as u64);
            assert(t@.subrange(pos + 1, pos + 3)[1] == cm.call_end as u64);
            assert(t@[pos + 1] == cm.call_start as u64);
            assert(t@[pos + 2] == cm.call_end as u64);
        }
        let call_start = t[pos + 1] as usize;
        let call_end = t[pos + 2] as usize;
        let (operand, pm) = dec_opt_str(t, pos + 3, Ghost(e.edge->Calls_0.operand));
        (EdgeType::Calls(CallsMeta { call_start, call_end, operand }), pm)
    } else {
        let k = if tag == 0 { EdgeType::Contains }
            else if tag == 2 { EdgeType::Handler }
            else if tag == 3 { EdgeType::Renders }
            else if tag == 4 { EdgeType::Of }
            else if tag == 5 { EdgeType::ParentOf }
            else if tag == 6 { EdgeType::ClassImports }
            else { EdgeType::Uses };
        (k, pos + 1)
    };
    proof {
        assert(edge@ == e.edge);
        assert(pmid == pos + 1 + mid.len());
    }
    let (source, p1) = dec_enode(t, pmid, Ghost(e.source));
    let (target, p2) = dec_enode(t, p1, Ghost(e.target));
    (Edge { edge, source, target }, p2)
}

#[verifier::rlimit(100)]
#[verifier::spinoff_prover]
fn dec_node_list(t: &Vec<u64>, pos: usize, count: usize, Ghost(ns): Ghost<Seq<NodeV>>, out: &mut Vec<Node>) -> (r: usize)
    requires
        old(out)@.len() == 0,
        seg_at(t@, pos as int, enc_nodes(ns, ns.len() as int)),
        count == ns.len(),
        forall|q: int| 0 <= q < ns.len() ==> bounded_data((#[trigger] ns[q]).node_data),
    ensures
        node_views(final(out)@) == ns,
        r == pos + enc_nodes(ns, ns.len() as int).len(),
{
    let total = t.len();
    let mut p = pos;
    let mut i: usize = 0;
    while i < count
        invariant
            t@.len() <= usize::MAX,
            seg_at(t@, pos as int, enc_nodes(ns, ns.len() as int)),
            count == ns.len(),
            forall|q: int| 0 <= q < ns.len() ==> bounded_data((#[trigger] ns[q]).node_data),
            i <= count,
            p == pos + enc_nodes(ns, i as int).len(),
            node_views(out@) =~= ns.take(i as int),
        decreases count - i,
    {
        proof {
            lemma_enc_nodes_prefix(ns, i as int, ns.len() as int);
            lemma_seg_prefix(t@, pos as int, enc_nodes(ns, i + 1), enc_nodes(ns, ns.len() as int));
            assert(enc_nodes(ns, i + 1) =~= enc_nodes(ns, i as int) + enc_node(ns[i as int]));
            lemma_seg_split(t@, pos as int, enc_nodes(ns, i as int), enc_node(ns[i as int]));
            assert(enc_node(ns[i as int]) =~= seq![type_slot(ns[i as int].node_type) as u64]
                + enc_data(ns[i as int].node_data));
            lemma_seg_split(t@, p as int, seq![type_slot(ns[i as int].node_type) as u64],
                enc_data(ns[i as int].node_data));
            assert(t@.subrange(p as int, p + 1)[0] == type_slot(ns[i as int].node_type) as u64);
            assert(t@[p as int] == type_slot(ns[i as int].node_type) as u64);
        }
        let tag = t[p];
        let node_type = type_of_tag(tag);
        proof {
            lemma_type_slot_injective(node_type, ns[i as int].node_type);
        }
        let (data, p1) = dec_data(t, p + 1, Ghost(ns[i as int].node_data));
        let ghost pre = out@;
        proof {
            assert(node_views(pre) == ns.take(i as int));
            assert(node_views(pre).len() == pre.len());
            assert(pre.len() == i);
        }
        out.push(Node::new(node_type, data));
        proof {
            assert(out@ == pre.push(out@[i as int]));
            assert(out@[i as int]@ == ns[i as int]);
            assert forall|k: int| 0 <= k < i + 1 implies node_views(out@)[k]
                == ns.take(i + 1)[k] by {
                if k < i {
                    assert(out@[k] == pre[k]);
                    assert(node_views(pre)[k] == pre[k]@);
                    assert(node_views(pre)[k] == ns.take(i as int)[k]);
                }
            }
            assert(node_views(out@) =~= ns.take(i + 1));
        }
        p = p1;
        i = i + 1;
    }
    proof {
        assert(ns.take(count as int) =~= ns);
    }
    p
}

/// Reads back the edge list.
#[verifier::rlimit(100)]
#[verifier::spinoff_prover]
fn dec_edge_list(t: &Vec<u64>, pos: usize, count: usize, Ghost(es): Ghost<Seq<EdgeV>>, out: &mut Vec<Edge>) -> (r: usize)
    requires
        old(out)@.len() == 0,
        seg_at(t@, pos as int, enc_edges(es, es.len() as int)),
        count == es.len(),
        forall|q: int| 0 <= q < es.len() ==> bounded_edge(#[trigger] es[q]),
    ensures
        edge_views(final(out)@) == es,
        r == pos + enc_edges(es, es.len() as int).len(),
{
    let total = t.len();
    let mut p = pos;
    let mut i: usize = 0;
    while i < count
        invariant
            t@.len() <= usize::MAX,
            seg_at(t@, pos as int, enc_edges(es, es.len() as int)),
            count == es.len(),
            forall|q: int| 0 <= q < es.len() ==> bounded_edge(#[trigger] es[q]),
            i <= count,
            p == pos + enc_edges(es, i as int).len(),
            edge_views(out@) =~= es.take(i as int),
        decreases count - i,
    {
        proof {
            lemma_enc_edges_prefix(es, i as int, es.len() as int);
            lemma_seg_prefix(t@, pos as int, enc_edges(es, i + 1), enc_edges(es, es.len() as int));
            assert(enc_edges(es, i + 1) =~= enc_edges(es, i as int) + enc_edge(es[i as int]));
            lemma_seg_split(t@, pos as int, enc_edges(es, i as int), enc_edge(es[i as int]));
        }
        let (edge, p1) = dec_edge(t, p, Ghost(es[i as int]));
        let ghost pre = out@;
        proof {
            assert(edge_views(pre) == es.take(i as int));
            assert(edge_views(pre).len() == pre.len());
            assert(pre.len() == i);
        }
        out.push(edge);
        proof {
            assert(out@ == pre.push(out@[i as int]));
            assert(out@[i as int]@ == es[i as int]);
            assert forall|k: int| 0 <= k < i + 1 implies edge_views(out@)[k]
                == es.take(i + 1)[k] by {
                if k < i {
                    assert(out@[k] == pre[k]);
                    assert(edge_views(pre)[k] == pre[k]@);
                    assert(edge_views(pre)[k] == es.take(i as int)[k]);
                }
            }
            assert(edge_views(out@) =~= es.take(i + 1));
        }
        p = p1;
        i = i + 1;
    }
    proof {
        assert(es.take(count as int) =~= es);
    }
    p
}

/// Reads back the error list.
#[verifier::rlimit(100)]
#[verifier::spinoff_prover]
fn dec_err_list(t: &Vec<u64>, pos: usize, count: usize, Ghost(rs): Ghost<Seq<Seq<char>>>, out: &mut Vec<String>) -> (r: usize)
    requires
        old(out)@.len() == 0,
        seg_at(t@, pos as int, enc_errs(rs, rs.len() as int)),
        count == rs.len(),
    ensures
        string_views(final(out)@) == rs,
        r == pos + enc_errs(rs, rs.len() as int).len(),
{
    let total = t.len();
    let mut p = pos;
    let mut i: usize = 0;
    while i < count
        invariant
            t@.len() <= usize::MAX,
            seg_at(t@, pos as int, enc_errs(rs, rs.len() as int)),
            count == rs.len(),
            i <= count,
            p == pos + enc_errs(rs, i as int).len(),
            string_views(out@) =~= rs.take(i as int),
        decreases count - i,
    {
        proof {
            lemma_enc_errs_prefix(rs, i as int, rs.len() as int);
            lemma_seg_prefix(t@, pos as int, enc_errs(rs, i + 1), enc_errs(rs, rs.len() as int));
            assert(enc_errs(rs, i + 1) =~= enc_errs(rs, i as int) + enc_str(rs[i as int]));
            lemma_seg_split(t@, pos as int, enc_errs(rs, i as int), enc_str(rs[i as int]));
        }
        let (msg, p1) = dec_str(t, p, Ghost(rs[i as int]));
        let ghost pre = out@;
        proof {
            assert(string_views(pre) == rs.take(i as int));
            assert(string_views(pre).len() == pre.len());
            assert(pre.len() == i);
        }
        out.push(msg);
        proof {
            assert(out@ == pre.push(out@[i as int]));
            assert(out@[i as int]@ == rs[i as int]);
            assert forall|k: int| 0 <= k < i + 1 implies string_views(out@)[k]
                == rs.take(i + 1)[k] by {
                if k < i {
                    assert(out@[k] == pre[k]);
                    assert(string_views(pre)[k] == pre[k]@);
                    assert(string_views(pre)[k] == rs.take(i as int)[k]);
                }
            }
            assert(string_views(out@) =~= rs.take(i + 1));
        }
        p = p1;
        i = i + 1;
    }
    proof {
        assert(rs.take(count as int) =~= rs);
    }
    p
}

/// Reads back a whole graph from the encoding of `gv`.
fn decode_core(t: &Vec<u64>, Ghost(gv): Ghost<GraphV>) -> (r: ArrayGraph)
    requires
        t@ == enc_graph(gv),
        bounded_graph(gv),
    ensures
        r@ == gv,
{
    let total = t.len();
    let ghost nseg = enc_nodes(gv.nodes, gv.nodes.len() as int);
    let ghost eseg = enc_edges(gv.edges, gv.edges.len() as int);
    let ghost rseg = enc_errs(gv.errors, gv.errors.len() as int);
    proof {
        assert(t@ =~= seq![gv.nodes.len() as u64] + (nseg + (seq![gv.edges.len() as u64]
            + (eseg + (seq![gv.errors.len() as u64] + rseg)))));
        assert(t@.subrange(0, t@.len() as int) =~= t@);
        lemma_seg_split(t@, 0, seq![gv.nodes.len() as u64], nseg + (seq![gv.edges.len() as u64]
            + (eseg + (seq![gv.errors.len() as u64] + rseg))));
        lemma_seg_split(t@, 1, nseg, seq![gv.edges.len() as u64]
            + (eseg + (seq![gv.errors.len() as u64] + rseg)));
        lemma_seg_split(t@, 1 + nseg.len() as int, seq![gv.edges.len() as u64],
            eseg + (seq![gv.errors.len() as u64] + rseg));
        lemma_seg_split(t@, 1 + nseg.len() as int + 1, eseg, seq![gv.errors.len() as u64] + rseg);
        lemma_seg_split(t@, 1 + nseg.len() as int + 1 + eseg.len() as int,
            seq![gv.errors.len() as u64], rseg);
        lemma_enc_nodes_len(gv.nodes, gv.nodes.len() as int);
        lemma_enc_edges_len(gv.edges, gv.edges.len() as int);
        lemma_enc_errs_len(gv.errors, gv.errors.len() as int);
        assert(t@.subrange(0, 1)[0] == gv.nodes.len() as u64);
        assert(t@[0] == gv.nodes.len() as u64);
        assert(t@.subrange(1 + nseg.len() as int, 1 + nseg.len() as int + 1)[0]
            == gv.edges.len() as u64);
        assert(t@[1 + nseg.len() as int] == gv.edges.len() as u64);
        assert(t@.subrange(1 + nseg.len() as int + 1 + eseg.len() as int,
            1 + nseg.len() as int + 1 + eseg.len() as int + 1)[0] == gv.errors.len() as u64);
        assert(t@[1 + nseg.len() as int + 1 + eseg.len() as int] == gv.errors.len() as u64);
    }
    let n = t[0] as usize;
    let mut nodes: Vec<Node> = Vec::new();
    let p1 = dec_node_list(t, 1, n, Ghost(gv.nodes), &mut nodes);
    let m = t[p1] as usize;
    let mut edges: Vec<Edge> = Vec::new();
    let p2 = dec_edge_list(t, p1 + 1, m, Ghost(gv.edges), &mut edges);
    let k = t[p2] as usize;
    let mut errors: Vec<String> = Vec::new();
    let _p3 = dec_err_list(t, p2 + 1, k, Ghost(gv.errors), &mut errors);
    let g = ArrayGraph { nodes, edges, errors };
    proof {
        assert(g@.nodes =~= gv.nodes);
        assert(g@.edges =~= gv.edges);
        assert(g@.errors =~= gv.errors);
        assert(g@ == gv);
    }
    g
}

/// Each encoded node list holds at least one token per node.
proof fn lemma_enc_nodes_len(s: Seq<NodeV>, k: int)
    requires
        0 <= k,
    ensures
        enc_nodes(s, k).len() >= k,
    decreases k,
{
    if k > 0 {
        lemma_enc_nodes_len(s, k - 1);
    }
}

/// Each encoded edge list holds at least one token per edge.
proof fn lemma_enc_edges_len(s: Seq<EdgeV>, k: int)
    requires
        0 <= k,
    ensures
        enc_edges(s, k).len() >= k,
    decreases k,
{
    if k > 0 {
        lemma_enc_edges_len(s, k - 1);
    }
}

/// Each encoded error list holds at least one token per entry.
proof fn lemma_enc_errs_len(s: Seq<Seq<char>>, k: int)
    requires
        0 <= k,
    ensures
        enc_errs(s, k).len() >= k,
    decreases k,
{
    if k > 0 {
        lemma_enc_errs_len(s, k - 1);
    }
}

/// A prefix of an encoded node list is a prefix of the whole.
proof fn lemma_enc_nodes_prefix(s: Seq<NodeV>, i: int, k: int)
    requires
        0 <= i < k,
    ensures
        enc_nodes(s, i + 1).is_prefix_of(enc_nodes(s, k)),
    decreases k,
{
    if i + 1 == k {
        assert(enc_nodes(s, k).is_prefix_of(enc_nodes(s, k)));
    } else {
        lemma_enc_nodes_prefix(s, i, k - 1);
        assert(enc_nodes(s, k - 1).is_prefix_of(enc_nodes(s, k)));
        assert(enc_nodes(s, i + 1).is_prefix_of(enc_nodes(s, k)));
    }
}

/// A prefix of an encoded edge list is a prefix of the whole.
proof fn lemma_enc_edges_prefix(s: Seq<EdgeV>, i: int, k: int)
    requires
        0 <= i < k,
    ensures
        enc_edges(s, i + 1).is_prefix_of(enc_edges(s, k)),
    decreases k,
{
    if i + 1 == k {
        assert(enc_edges(s, k).is_prefix_of(enc_edges(s, k)));
    } else {
        lemma_enc_edges_prefix(s, i, k - 1);
        assert(enc_edges(s, k - 1).is_prefix_of(enc_edges(s, k)));
        assert(enc_edges(s, i + 1).is_prefix_of(enc_edges(s, k)));
    }
}

/// A prefix of an encoded error list is a prefix of the whole.
proof fn lemma_enc_errs_prefix(s: Seq<Seq<char>>, i: int, k: int)
    requires
        0 <= i < k,
    ensures
        enc_errs(s, i + 1).is_prefix_of(enc_errs(s, k)),
    decreases k,
{
    if i + 1 == k {
        assert(enc_errs(s, k).is_prefix_of(enc_errs(s, k)));
    } else {
        lemma_enc_errs_prefix(s, i, k - 1);
        assert(enc_errs(s, k - 1).is_prefix_of(enc_errs(s, k)));
        assert(enc_errs(s, i + 1).is_prefix_of(enc_errs(s, k)));
    }
}

/// Reads back a graph from a token stream that some graph encoded to.
pub fn decode_graph(t: &Vec<u64>) -> (r: ArrayGraph)
    requires
        exists|gv: GraphV| t@ == enc_graph(gv) && bounded_graph(gv),
    ensures
        t@ == enc_graph(r@),
{
    let ghost gv = choose|gv: GraphV| t@ == enc_graph(gv) && bounded_graph(gv);
    decode_core(t, Ghost(gv))
}

/// Round-trip: serializing a graph and deserializing it reproduces an
/// identical node, edge and error content.
pub fn round_trip(g: &ArrayGraph) -> (r: ArrayGraph)
    ensures
        r@ == g@,
{
    let t = encode_graph(g);
    proof {
        assert forall|i: int| 0 <= i < g@.nodes.len()
            implies bounded_data((#[trigger] g@.nodes[i]).node_data) by {
            assert(g@.nodes[i] == g.nodes@[i]@);
        }
        assert forall|i: int| 0 <= i < g@.edges.len()
            implies bounded_edge(#[trigger] g@.edges[i]) by {
            assert(g@.edges[i] == g.edges@[i]@);
        }
    }
    decode_core(&t, Ghost(g@))
}

} // verus!
