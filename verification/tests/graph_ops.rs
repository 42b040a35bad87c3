use codegraph::codec::{encode_graph, round_trip};
use codegraph::indexed::IndexGraph;
use codegraph::linear::ArrayGraph;
use codegraph::model::{
    CallsMeta, Edge, EdgeNode, EdgeType, FunctionCall, FunctionRec, Node, NodeData, NodeKeys,
    NodeType,
};

fn data(name: &str, file: &str) -> NodeData {
    NodeData {
        name: name.to_string(),
        file: file.to_string(),
        start: 1,
        end: 10,
        body: String::new(),
        meta: Vec::new(),
        data_type: None,
    }
}

fn data_with_meta(name: &str, file: &str, meta: Vec<(&str, &str)>) -> NodeData {
    let mut d = data(name, file);
    d.meta = meta.iter().map(|(k, v)| (k.to_string(), v.to_string())).collect();
    d
}

fn calls_edge(src: &str, src_file: &str, dst: &str, dst_file: &str) -> Edge {
    Edge {
        edge: EdgeType::Calls(CallsMeta { call_start: 2, call_end: 3, operand: None }),
        source: EdgeNode {
            node_type: NodeType::Function,
            node_data: NodeKeys { name: src.to_string(), file: src_file.to_string() },
        },
        target: EdgeNode {
            node_type: NodeType::Function,
            node_data: NodeKeys { name: dst.to_string(), file: dst_file.to_string() },
        },
    }
}

#[test]
fn empty_graph_is_empty() {
    let g = ArrayGraph::new();
    let (n, e) = g.get_graph_size();
    assert_eq!(n, 0);
    assert_eq!(e, 0);
}

#[test]
fn lookups_find_what_was_added() {
    let mut g = ArrayGraph::new();
    g.nodes.push(Node::new(NodeType::File, data("main.rb", "app/main.rb")));
    g.add_node_with_parent(NodeType::Function, data("run", "app/main.rb"), NodeType::File, "app/main.rb");
    let (n, e) = g.get_graph_size();
    assert_eq!(n, 2);
    assert_eq!(e, 1);
    let found = g.find_nodes_by_name(NodeType::Function, "run");
    assert_eq!(found.len(), 1);
    assert_eq!(found[0].file, "app/main.rb");
    assert!(g.find_node_by_name_in_file(NodeType::Function, "run", "app/main.rb").is_some());
    assert!(g.find_node_by_name_in_file(NodeType::Function, "run", "other.rb").is_none());
    assert!(g.file_data("app/main.rb").is_some());
    assert!(g.file_data("missing.rb").is_none());
    assert_eq!(g.find_index_by_name(NodeType::File, "main.rb"), Some(0));
    assert!(g.find_nodes_in_range(NodeType::Function, 5, "app/main.rb").is_some());
    assert!(g.find_nodes_in_range(NodeType::Function, 50, "app/main.rb").is_none());
    assert!(g.find_node_at(NodeType::Function, "app/main.rb", 1).is_some());
    assert!(g.find_node_at(NodeType::Function, "app/main.rb", 2).is_none());
    assert!(g.find_node_by_name_and_file_end_with(NodeType::Function, "run", "main.rb").is_some());
    assert_eq!(g.find_nodes_by_file_ends_with(NodeType::Function, ".rb").len(), 1);
}

#[test]
fn backends_agree_on_lookups() {
    let mut a = ArrayGraph::new();
    let mut b = IndexGraph::new();
    let items = [
        (NodeType::Function, "alpha", "f1"),
        (NodeType::Class, "Widget", "f1"),
        (NodeType::Function, "beta", "f2"),
        (NodeType::Function, "alpha", "f2"),
        (NodeType::Endpoint, "person/:id", "routes.rb"),
    ];
    for (t, name, file) in items.iter() {
        a.nodes.push(Node::new(*t, data(name, file)));
        b.add_node(*t, data(name, file));
    }
    a.edges.push(calls_edge("alpha", "f1", "beta", "f2"));
    b.add_edge(calls_edge("alpha", "f1", "beta", "f2"));

    let (an, ae) = a.get_graph_size();
    let (bn, be) = b.get_graph_size();
    assert_eq!((an, ae), (bn, be));

    let af = a.find_nodes_by_type(NodeType::Function);
    let bf = b.find_nodes_by_type(NodeType::Function);
    assert_eq!(af.len(), bf.len());
    for (x, y) in af.iter().zip(bf.iter()) {
        assert_eq!(x.name, y.name);
        assert_eq!(x.file, y.file);
    }

    let aa = a.find_nodes_by_name(NodeType::Function, "alpha");
    let ba = b.find_nodes_by_name(NodeType::Function, "alpha");
    assert_eq!(aa.len(), 2);
    assert_eq!(ba.len(), 2);
    assert_eq!(aa[0].file, ba[0].file);
    assert_eq!(aa[1].file, ba[1].file);

    let probe = EdgeType::Calls(CallsMeta { call_start: 9, call_end: 9, operand: None });
    assert_eq!(a.count_edges_of_type(&probe), b.count_edges_of_type(&probe));
    assert_eq!(a.count_edges_of_type(&EdgeType::Handler), b.count_edges_of_type(&EdgeType::Handler));
}

#[test]
fn merge_order_preserves_content() {
    let mut g1 = ArrayGraph::new();
    g1.nodes.push(Node::new(NodeType::Function, data("a", "f1")));
    g1.errors.push("one".to_string());
    let mut g2 = ArrayGraph::new();
    g2.nodes.push(Node::new(NodeType::Function, data("b", "f2")));

    let mut left = ArrayGraph::new();
    let mut lg1 = ArrayGraph::new();
    lg1.nodes.push(Node::new(NodeType::Function, data("a", "f1")));
    lg1.errors.push("one".to_string());
    let mut lg2 = ArrayGraph::new();
    lg2.nodes.push(Node::new(NodeType::Function, data("b", "f2")));
    left.extend_graph(lg1);
    left.extend_graph(lg2);

    let mut right = ArrayGraph::new();
    right.extend_graph(g2);
    right.extend_graph(g1);

    let mut ln: Vec<String> = left.nodes.iter().map(|n| n.node_data.name.clone()).collect();
    let mut rn: Vec<String> = right.nodes.iter().map(|n| n.node_data.name.clone()).collect();
    ln.sort();
    rn.sort();
    assert_eq!(ln, rn);
    assert_eq!(left.nodes.len(), right.nodes.len());
    assert_eq!(left.errors.len(), right.errors.len());
}

#[test]
fn codec_round_trip_reproduces_graph() {
    let mut g = ArrayGraph::new();
    g.nodes.push(Node::new(NodeType::Class, data_with_meta("\u{03A9}mega", "src/m.swift",
        vec![("parent", "Base"), ("includes", "A, B")])));
    let mut d = data("fetch", "src/m.swift");
    d.data_type = Some("Widget".to_string());
    d.body = "let x = 1\n".to_string();
    g.nodes.push(Node::new(NodeType::Function, d));
    g.edges.push(calls_edge("fetch", "src/m.swift", "helper", "src/h.swift"));
    g.edges.push(Edge {
        edge: EdgeType::Handler,
        source: EdgeNode {
            node_type: NodeType::Endpoint,
            node_data: NodeKeys { name: "person".to_string(), file: "routes.rb".to_string() },
        },
        target: EdgeNode {
            node_type: NodeType::Function,
            node_data: NodeKeys { name: "fetch".to_string(), file: "src/m.swift".to_string() },
        },
    });
    g.errors.push("soft problem".to_string());

    let r = round_trip(&g);
    assert_eq!(r.nodes.len(), g.nodes.len());
    assert_eq!(r.edges.len(), g.edges.len());
    assert_eq!(r.errors, g.errors);
    for (x, y) in g.nodes.iter().zip(r.nodes.iter()) {
        assert_eq!(x.node_type, y.node_type);
        assert_eq!(x.node_data.name, y.node_data.name);
        assert_eq!(x.node_data.file, y.node_data.file);
        assert_eq!(x.node_data.start, y.node_data.start);
        assert_eq!(x.node_data.end, y.node_data.end);
        assert_eq!(x.node_data.body, y.node_data.body);
        assert_eq!(x.node_data.meta, y.node_data.meta);
        assert_eq!(x.node_data.data_type, y.node_data.data_type);
    }
    for (x, y) in g.edges.iter().zip(r.edges.iter()) {
        assert_eq!(x.source.node_data.name, y.source.node_data.name);
        assert_eq!(x.target.node_data.file, y.target.node_data.file);
    }
    let t1 = encode_graph(&g);
    let t2 = encode_graph(&r);
    assert_eq!(t1, t2);
}

#[test]
fn endpoint_dedup_keeps_one_node() {
    let mut g = ArrayGraph::new();
    let e1 = data_with_meta("person", "routes.rb", vec![("handler", "show"), ("verb", "GET")]);
    let e2 = data_with_meta("person", "routes.rb", vec![("handler", "show"), ("verb", "GET")]);
    g.add_endpoints(vec![(e1, None), (e2, None)]);
    assert_eq!(g.find_nodes_by_type(NodeType::Endpoint).len(), 1);

    let e3 = data_with_meta("person", "routes.rb", vec![("handler", "create"), ("verb", "POST")]);
    g.add_endpoints(vec![(e3, None)]);
    assert_eq!(g.find_nodes_by_type(NodeType::Endpoint).len(), 2);

    let no_handler = data_with_meta("orphan", "routes.rb", vec![("verb", "GET")]);
    g.add_endpoints(vec![(no_handler, None)]);
    assert_eq!(g.find_nodes_by_type(NodeType::Endpoint).len(), 2);
    assert_eq!(g.errors.len(), 1);
    assert_eq!(g.errors[0], "missing handler on endpoint");
}

#[test]
fn cyclic_call_graph_traversal_terminates_false() {
    let mut g = ArrayGraph::new();
    g.nodes.push(Node::new(NodeType::Function, data("a", "f")));
    g.nodes.push(Node::new(NodeType::Function, data("b", "f")));
    g.edges.push(calls_edge("a", "f", "b", "f"));
    g.edges.push(calls_edge("b", "f", "a", "f"));
    let mut visited: Vec<String> = Vec::new();
    assert!(!g.check_indirect_data_model_usage("a", "Model", &mut visited));
    assert!(visited.contains(&"a".to_string()));
    assert!(visited.contains(&"b".to_string()));
}

#[test]
fn indirect_usage_found_through_calls() {
    let mut g = ArrayGraph::new();
    g.nodes.push(Node::new(NodeType::Function, data("a", "f")));
    g.nodes.push(Node::new(NodeType::Function, data("b", "f")));
    g.edges.push(calls_edge("a", "f", "b", "f"));
    g.edges.push(Edge {
        edge: EdgeType::Contains,
        source: EdgeNode {
            node_type: NodeType::Function,
            node_data: NodeKeys { name: "b".to_string(), file: "f".to_string() },
        },
        target: EdgeNode {
            node_type: NodeType::DataModel,
            node_data: NodeKeys { name: "PersonModel".to_string(), file: "f".to_string() },
        },
    });
    assert!(g.check_direct_data_model_usage("b", "Person"));
    assert!(!g.check_direct_data_model_usage("a", "Person"));
    let mut visited: Vec<String> = Vec::new();
    assert!(g.check_indirect_data_model_usage("a", "Person", &mut visited));
}

#[test]
fn filter_keeps_repositories_and_allowed_files() {
    let mut g = ArrayGraph::new();
    g.nodes.push(Node::new(NodeType::Repository, data("repo", "")));
    g.nodes.push(Node::new(NodeType::Function, data("a", "f1")));
    g.nodes.push(Node::new(NodeType::Function, data("b", "f2")));
    g.edges.push(calls_edge("a", "f1", "b", "f2"));
    g.edges.push(calls_edge("b", "f2", "b", "f2"));
    let filtered = g.create_filtered_graph(&vec!["f1".to_string()]);
    assert_eq!(filtered.nodes.len(), 2);
    assert!(filtered.nodes.iter().any(|n| n.node_type == NodeType::Repository));
    assert!(filtered.nodes.iter().all(|n| {
        n.node_type == NodeType::Repository || n.node_data.file == "f1"
    }));
    assert_eq!(filtered.edges.len(), 1);
    assert_eq!(filtered.errors.len(), 0);
}

#[test]
fn functions_ingest_with_requests_and_containment() {
    let mut g = ArrayGraph::new();
    g.nodes.push(Node::new(NodeType::File, data("App.tsx", "src/App.tsx")));
    let rec = FunctionRec {
        node: data("App", "src/App.tsx"),
        method_of: None,
        requests: vec![data("/api/people", "src/App.tsx")],
        data_model_edges: Vec::new(),
        trait_operand: None,
        return_types: Vec::new(),
    };
    g.add_functions(vec![rec]);
    assert_eq!(g.find_nodes_by_type(NodeType::Function).len(), 1);
    assert_eq!(g.find_nodes_by_type(NodeType::Request).len(), 1);
    // one containment edge from the file, one call edge to the request
    assert_eq!(g.count_edges_of_type(&EdgeType::Contains), 1);
    let probe = EdgeType::Calls(CallsMeta { call_start: 0, call_end: 0, operand: None });
    assert_eq!(g.count_edges_of_type(&probe), 1);
}

#[test]
fn same_build_twice_yields_same_content() {
    let build = || {
        let mut g = ArrayGraph::new();
        g.nodes.push(Node::new(NodeType::File, data("r.rb", "r.rb")));
        g.add_endpoints(vec![(
            {
                let mut d = data("person", "r.rb");
                d.meta = vec![
                    ("handler".to_string(), "show".to_string()),
                    ("verb".to_string(), "GET".to_string()),
                ];
                d
            },
            None,
        )]);
        g.add_node_with_parent(NodeType::Function, data("show", "r.rb"), NodeType::File, "r.rb");
        g.class_inherits();
        g
    };
    let g1 = build();
    let g2 = build();
    assert_eq!(encode_graph(&g1), encode_graph(&g2));
}

#[test]
fn pages_and_tests_ingest() {
    let mut g = ArrayGraph::new();
    g.nodes.push(Node::new(NodeType::File, data("App.tsx", "src/App.tsx")));
    g.add_page((data("/", "src/App.tsx"), None));
    g.add_pages(vec![(data("/about", "src/About.tsx"), vec![calls_edge("p", "f", "q", "f")])]);
    assert_eq!(g.find_nodes_by_type(NodeType::Page).len(), 2);
    g.add_test_node(data("test_app", "src/App.tsx"), NodeType::Test, None);
    assert_eq!(g.find_nodes_by_type(NodeType::Test).len(), 1);
    // the test node is parented under its file
    assert_eq!(g.count_edges_of_type(&EdgeType::Contains), 1);
}

#[test]
fn calls_merge_adds_external_targets_once() {
    let mut g = ArrayGraph::new();
    g.nodes.push(Node::new(NodeType::Function, data("main", "f")));
    let fc = |target: &str| FunctionCall {
        source: NodeKeys { name: "main".to_string(), file: "f".to_string() },
        target: NodeKeys { name: target.to_string(), file: "lib".to_string() },
        call_start: 1,
        call_end: 1,
        operand: None,
    };
    let ext = data("parse", "lib");
    let ext2 = data("parse", "lib");
    g.add_calls((vec![(fc("parse"), Some(ext)), (fc("parse"), Some(ext2))], Vec::new(), Vec::new()));
    // the external function node is added only once, but both uses edges stay
    assert_eq!(g.find_nodes_by_name(NodeType::Function, "parse").len(), 1);
    assert_eq!(g.count_edges_of_type(&EdgeType::Uses), 2);
}
