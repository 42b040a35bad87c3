use codegraph::linear::ArrayGraph;
use codegraph::model::{Edge, EdgeNode, EdgeType, Node, NodeData, NodeKeys, NodeType};
use codegraph::service::{AppError, ProcessResponse};
use codegraph::swift::Swift;
use codegraph::text::{normalize_backend_path, split_csv_trimmed};

fn data(name: &str, file: &str) -> NodeData {
    NodeData {
        name: name.to_string(),
        file: file.to_string(),
        start: 1,
        end: 10,
        body: String::new(),
        meta: Vec::new(),
        data_type: None,
    }
}

fn data_with_meta(name: &str, file: &str, meta: Vec<(&str, &str)>) -> NodeData {
    let mut d = data(name, file);
    d.meta = meta.iter().map(|(k, v)| (k.to_string(), v.to_string())).collect();
    d
}

#[test]
fn inheritance_resolves_known_parents() {
    let mut g = ArrayGraph::new();
    g.nodes.push(Node::new(NodeType::Class, data("Base", "a.rb")));
    g.nodes.push(Node::new(NodeType::Class, data_with_meta("Child", "b.rb", vec![("parent", "Base")])));
    g.nodes.push(Node::new(NodeType::Class, data_with_meta("Orphan", "c.rb", vec![("parent", "Missing")])));
    g.class_inherits();
    assert_eq!(g.count_edges_of_type(&EdgeType::ParentOf), 1);
    assert_eq!(g.edges[0].source.node_data.name, "Base");
    assert_eq!(g.edges[0].target.node_data.name, "Child");
}

#[test]
fn mixin_inclusion_resolves_each_listed_module() {
    let mut g = ArrayGraph::new();
    g.nodes.push(Node::new(NodeType::Class, data("Mixable", "m.rb")));
    g.nodes.push(Node::new(NodeType::Class, data("Other", "o.rb")));
    g.nodes.push(Node::new(NodeType::Class,
        data_with_meta("User", "u.rb", vec![("includes", "Mixable, Missing ,Other")])));
    g.class_includes();
    assert_eq!(g.count_edges_of_type(&EdgeType::ClassImports), 2);
    assert_eq!(g.edges[0].source.node_data.name, "User");
    assert_eq!(g.edges[0].target.node_data.name, "Mixable");
    assert_eq!(g.edges[1].target.node_data.name, "Other");
}

#[test]
fn instances_attach_to_resolved_classes() {
    let mut g = ArrayGraph::new();
    g.nodes.push(Node::new(NodeType::File, data("u.rb", "u.rb")));
    g.nodes.push(Node::new(NodeType::Class, data("Widget", "w.rb")));
    let mut inst = data("w", "u.rb");
    inst.data_type = Some("Widget".to_string());
    let mut unresolved = data("x", "u.rb");
    unresolved.data_type = Some("Nothing".to_string());
    g.add_instances(vec![inst, unresolved]);
    assert_eq!(g.find_nodes_by_type(NodeType::Instance).len(), 1);
    assert_eq!(g.count_edges_of_type(&EdgeType::Of), 1);
    assert_eq!(g.count_edges_of_type(&EdgeType::Contains), 1);
}

#[test]
fn endpoint_group_rename_prefixes_and_propagates() {
    let mut g = ArrayGraph::new();
    g.nodes.push(Node::new(NodeType::Function, data("PeopleHandlers", "h.go")));
    g.nodes.push(Node::new(NodeType::Endpoint, data("/people", "h.go")));
    g.edges.push(Edge {
        edge: EdgeType::Handler,
        source: EdgeNode {
            node_type: NodeType::Endpoint,
            node_data: NodeKeys { name: "/people".to_string(), file: "h.go".to_string() },
        },
        target: EdgeNode {
            node_type: NodeType::Function,
            node_data: NodeKeys { name: "getPeople".to_string(), file: "h.go".to_string() },
        },
    });
    let group = data_with_meta("People", "h.go", vec![("group", "PeopleHandlers")]);
    let gf = g.group_function(&group).expect("group function present");
    assert_eq!(gf.name, "PeopleHandlers");
    g.process_endpoint_group(&group, &vec![data("/people", "h.go")]);
    assert_eq!(g.find_nodes_by_name(NodeType::Endpoint, "People/people").len(), 1);
    assert_eq!(g.edges[0].source.node_data.name, "People/people");

    // an endpoint whose edge is missing is renamed and the gap recorded
    g.nodes.push(Node::new(NodeType::Endpoint, data("/lonely", "h.go")));
    g.process_endpoint_group(&group, &vec![data("/lonely", "h.go")]);
    assert_eq!(g.find_nodes_by_name(NodeType::Endpoint, "People/lonely").len(), 1);
    assert_eq!(g.errors.len(), 1);
    assert_eq!(g.errors[0], "missing edge for endpoint");
}

#[test]
fn pruning_drops_childless_parents() {
    let mut g = ArrayGraph::new();
    g.nodes.push(Node::new(NodeType::Class, data("WithChild", "a")));
    g.nodes.push(Node::new(NodeType::Class, data("Childless", "b")));
    g.nodes.push(Node::new(NodeType::Endpoint,
        data_with_meta("/e", "a", vec![("group", "WithChild")])));
    g.filter_out_nodes_without_children(NodeType::Class, NodeType::Endpoint, "group");
    assert_eq!(g.find_nodes_by_name(NodeType::Class, "WithChild").len(), 1);
    assert_eq!(g.find_nodes_by_name(NodeType::Class, "Childless").len(), 0);
    assert_eq!(g.find_nodes_by_type(NodeType::Endpoint).len(), 1);
}

#[test]
fn prefix_paths_roots_nodes_and_edge_copies() {
    let mut g = ArrayGraph::new();
    g.nodes.push(Node::new(NodeType::Function, data("a", "src/a.rb")));
    g.edges.push(Edge {
        edge: EdgeType::Contains,
        source: EdgeNode {
            node_type: NodeType::File,
            node_data: NodeKeys { name: "a.rb".to_string(), file: "src/a.rb".to_string() },
        },
        target: EdgeNode {
            node_type: NodeType::Function,
            node_data: NodeKeys { name: "a".to_string(), file: "src/a.rb".to_string() },
        },
    });
    g.prefix_paths("repo/");
    assert_eq!(g.nodes[0].node_data.file, "repo/src/a.rb");
    assert_eq!(g.edges[0].source.node_data.file, "repo/src/a.rb");
    assert_eq!(g.edges[0].target.node_data.file, "repo/src/a.rb");
    assert_eq!(g.nodes[0].node_data.name, "a");
}

#[test]
fn resource_nodes_match_normalized_paths_and_verbs() {
    let mut g = ArrayGraph::new();
    g.nodes.push(Node::new(NodeType::Endpoint,
        data_with_meta("person/{id}", "routes.rb", vec![("verb", "get")])));
    g.nodes.push(Node::new(NodeType::Endpoint,
        data_with_meta("person/{id}", "routes.rb", vec![("verb", "post")])));
    g.nodes.push(Node::new(NodeType::Page, data("/people", "app.tsx")));

    let hits = g.find_resource_nodes(NodeType::Endpoint, "GET", "person/:id");
    assert_eq!(hits.len(), 1);
    // a candidate without a verb matches any verb
    let pages = g.find_resource_nodes(NodeType::Page, "DELETE", "/people");
    assert_eq!(pages.len(), 1);
}

#[test]
fn handlers_resolve_through_handler_edges() {
    let mut g = ArrayGraph::new();
    let ep = data_with_meta("person", "routes.rb", vec![("verb", "GET")]);
    g.nodes.push(Node::new(NodeType::Endpoint, ep.clone()));
    g.nodes.push(Node::new(NodeType::Function, data("show_person", "people.rb")));
    g.edges.push(Edge {
        edge: EdgeType::Handler,
        source: EdgeNode {
            node_type: NodeType::Endpoint,
            node_data: NodeKeys { name: "person".to_string(), file: "routes.rb".to_string() },
        },
        target: EdgeNode {
            node_type: NodeType::Function,
            node_data: NodeKeys { name: "show_person".to_string(), file: "people.rb".to_string() },
        },
    });
    let handlers = g.find_handlers_for_endpoint(&ep);
    assert_eq!(handlers.len(), 1);
    assert_eq!(handlers[0].name, "show_person");
    assert!(g.find_handlers_for_endpoint(&data("ghost", "routes.rb")).is_empty());

    let pairs = g.find_nodes_with_edge_type(NodeType::Endpoint, NodeType::Function, &EdgeType::Handler);
    assert_eq!(pairs.len(), 1);
    assert_eq!(pairs[0].0.name, "person");
    assert_eq!(pairs[0].1.name, "show_person");

    assert!(g.find_source_edge_by_name_and_file(&EdgeType::Handler, "show_person", "people.rb").is_some());
    assert!(g.find_source_edge_by_name_and_file(&EdgeType::Handler, "ghost", "people.rb").is_none());
    let called = g.find_functions_called_by(&data("show_person", "people.rb"));
    assert!(called.is_empty());
}

#[test]
fn endpoint_lookup_requires_matching_verb() {
    let mut g = ArrayGraph::new();
    g.nodes.push(Node::new(NodeType::Endpoint,
        data_with_meta("person", "routes.rb", vec![("verb", "GET")])));
    assert!(g.find_endpoint("person", "routes.rb", "GET").is_some());
    assert!(g.find_endpoint("person", "routes.rb", "POST").is_none());
    assert!(g.find_endpoint("person", "other.rb", "GET").is_none());
}

#[test]
fn text_utilities_behave_exactly() {
    assert_eq!(normalize_backend_path("person/{id}"), Some("person/:id".to_string()));
    assert_eq!(normalize_backend_path("person/<id>"), Some("person/:id".to_string()));
    assert_eq!(normalize_backend_path("person/:id"), Some("person/:id".to_string()));
    assert_eq!(normalize_backend_path(""), None);
    assert_eq!(split_csv_trimmed(" a , b,c "), vec!["a", "b", "c"]);
    assert_eq!(split_csv_trimmed("solo"), vec!["solo"]);
    assert_eq!(split_csv_trimmed("x,,y"), vec!["x", "", "y"]);
}

#[test]
fn data_model_queries_scan_names() {
    let mut g = ArrayGraph::new();
    g.nodes.push(Node::new(NodeType::DataModel, data("PersonModel", "m.rb")));
    g.nodes.push(Node::new(NodeType::DataModel, data("Article", "m.rb")));
    assert_eq!(g.find_data_model_nodes("Person").len(), 1);
    assert_eq!(g.find_data_model_nodes("Model").len(), 1);
    assert_eq!(g.find_data_model_nodes("zzz").len(), 0);
}

#[test]
fn swift_capability_supplies_patterns_and_rules() {
    let sw = Swift::new();
    assert!(sw.imports_query().unwrap().contains("import_declaration"));
    assert!(sw.class_definition_query().contains("class_declaration"));
    assert!(sw.function_definition_query().contains("function_declaration"));
    assert!(sw.function_call_query().contains("call_expression"));
    assert_eq!(sw.endpoint_finders().len(), 1);
    assert!(sw.data_model_query().is_some());
    assert!(sw.data_model_within_query().is_some());
    assert!(sw.is_test("test_fetch", "t.swift"));
    assert!(!sw.is_test("fetch", "t.swift"));
    let kinds = vec![
        "block".to_string(),
        "class_declaration".to_string(),
        "source_file".to_string(),
    ];
    assert_eq!(sw.find_parent_ancestor(&kinds), Some(1));
    assert_eq!(sw.find_parent_ancestor(&vec!["block".to_string()]), None);
    let op = sw.parent_operand("Widget", "render", "w.swift");
    assert_eq!(op.source.name, "Widget");
    assert_eq!(op.target.name, "render");
    assert_eq!(op.target.file, "w.swift");
}

#[test]
fn service_types_carry_summaries_and_errors() {
    let r = ProcessResponse::new("Ok".to_string(), "built".to_string(), 50, 57);
    assert_eq!(r.status, "Ok");
    assert_eq!(r.message, "built");
    assert_eq!(r.nodes, 50);
    assert_eq!(r.edges, 57);
    let e = AppError::from_message("clone failed".to_string());
    assert_eq!(e.message(), "clone failed");
}

#[test]
fn visited_functions_are_not_revisited() {
    let g = {
        let mut g = ArrayGraph::new();
        g.nodes.push(Node::new(NodeType::Function, data("a", "f")));
        g
    };
    let mut visited = vec!["a".to_string()];
    assert!(!g.check_indirect_data_model_usage("a", "Model", &mut visited));
    assert_eq!(visited, vec!["a".to_string()]);
}
