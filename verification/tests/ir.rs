use matter::ieee::Binary64;
use matter::ir::{
    first_prototype_graph, Edge, EdgeKind, GraphError, IrGraph, Node, NodeId, NodeKind, Origin,
    Quantity, Range, RefinementState, Value, IR_SCHEMA_VERSION,
};

fn f(x: f64) -> Binary64 {
    Binary64::from_bits(x.to_bits())
}

fn node_id_by_name(graph: &IrGraph, name: &str) -> NodeId {
    let index = graph
        .nodes()
        .iter()
        .position(|node| node.name == name)
        .expect("node exists");
    graph.node_id_at(index)
}

fn has_edge(graph: &IrGraph, kind: EdgeKind, source: NodeId, target: NodeId) -> bool {
    graph
        .edges()
        .iter()
        .any(|edge| edge.kind == kind && edge.source == source && edge.target == target)
}

#[test]
fn creates_root_node_with_expected_defaults() {
    let graph = IrGraph::new(NodeKind::System, "fidget_spinner", Origin::InputSpec);
    let root = graph.node(graph.root()).expect("root node exists");

    assert_eq!(graph.version(), IR_SCHEMA_VERSION);
    assert_eq!(root.kind, NodeKind::System);
    assert_eq!(root.state, RefinementState::Abstract);
    assert_eq!(root.origin, Origin::InputSpec);
}

#[test]
fn stores_typed_attribute_values_with_units() {
    let node = Node::new(NodeKind::Constraint, "diameter", Origin::InputSpec)
        .with_attr(
            "target",
            Value::Quantity(Quantity {
                value: f(60.0),
                unit: "mm".into(),
            }),
        )
        .with_attr(
            "tolerance",
            Value::Range(Range {
                min: f(-0.2),
                max: f(0.2),
                unit: "mm".into(),
            }),
        );

    assert_eq!(
        node.attrs.get("target"),
        Some(&Value::Quantity(Quantity {
            value: f(60.0),
            unit: "mm".into()
        }))
    );
    assert_eq!(
        node.attrs.get("tolerance"),
        Some(&Value::Range(Range {
            min: f(-0.2),
            max: f(0.2),
            unit: "mm".into()
        }))
    );
}

#[test]
fn supports_typed_relationships_for_minimal_printable_prototype() {
    let mut graph = IrGraph::new(NodeKind::System, "fidget_spinner", Origin::InputSpec);
    let root = graph.root();

    let body = graph.add_node(Node::new(NodeKind::Part, "body", Origin::pass("synthesis")));
    let material = graph.add_node(Node::new(
        NodeKind::Material,
        "PLA",
        Origin::pass("manufacturability"),
    ));
    let process = graph.add_node(Node::new(
        NodeKind::Process,
        "fdm_printing",
        Origin::pass("manufacturability"),
    ));
    let artifact = graph.add_node(Node::new(NodeKind::Artifact, "stl_mesh", Origin::pass("output")));

    let contains = graph
        .add_edge(Edge::new(EdgeKind::Contains, root, body, Origin::pass("synthesis")))
        .expect("contains edge is valid");
    let uses_material = graph
        .add_edge(Edge::new(
            EdgeKind::UsesMaterial,
            body,
            material,
            Origin::pass("manufacturability"),
        ))
        .expect("uses_material edge is valid");
    let produces = graph
        .add_edge(Edge::new(EdgeKind::Produces, body, artifact, Origin::pass("output")))
        .expect("produces edge is valid");
    graph
        .add_edge(Edge::new(
            EdgeKind::TargetsProcess,
            root,
            process,
            Origin::pass("manufacturability"),
        ))
        .expect("targets_process edge is valid");

    assert_eq!(graph.edge(contains).expect("contains edge").kind, EdgeKind::Contains);
    assert_eq!(graph.edge(uses_material).expect("material edge").kind, EdgeKind::UsesMaterial);
    assert_eq!(graph.edge(produces).expect("artifact edge").kind, EdgeKind::Produces);
    assert_eq!(graph.nodes().len(), 5);
    assert_eq!(graph.edges().len(), 4);
}

#[test]
fn maps_readme_first_prototype_into_ir_graph() {
    let graph = first_prototype_graph().expect("prototype graph builds");
    let root = graph.root();
    let design_target = node_id_by_name(&graph, "design_target");
    let body = node_id_by_name(&graph, "body");
    let material = node_id_by_name(&graph, "PLA");
    let process = node_id_by_name(&graph, "fdm_printing");
    let tolerance = node_id_by_name(&graph, "tolerance");
    let gcode = node_id_by_name(&graph, "gcode");

    assert_eq!(
        graph.metadata().get("prototype"),
        Some(&Value::String("README first prototype".into()))
    );
    assert!(has_edge(&graph, EdgeKind::Constrains, root, design_target));
    assert!(has_edge(&graph, EdgeKind::Contains, root, body));
    assert!(has_edge(&graph, EdgeKind::TargetsProcess, root, process));
    assert!(has_edge(&graph, EdgeKind::UsesMaterial, body, material));
    assert!(has_edge(&graph, EdgeKind::UsesMaterial, process, material));
    assert!(has_edge(&graph, EdgeKind::Constrains, process, tolerance));
    assert!(has_edge(&graph, EdgeKind::Satisfies, body, design_target));
    assert!(has_edge(&graph, EdgeKind::Produces, body, gcode));
    assert_eq!(graph.nodes().len(), 11);
    assert_eq!(graph.edges().len(), 14);
}

#[test]
fn keeps_the_first_prototype_within_simple_printable_scope() {
    let graph = first_prototype_graph().expect("prototype graph builds");
    let allowed_kinds = [
        NodeKind::System,
        NodeKind::Part,
        NodeKind::Constraint,
        NodeKind::Material,
        NodeKind::Process,
        NodeKind::Artifact,
    ];

    assert!(graph.nodes().iter().all(|node| allowed_kinds.contains(&node.kind)));
    assert_eq!(
        graph.node(node_id_by_name(&graph, "design_target")),
        Some(
            &Node::new(NodeKind::Constraint, "design_target", Origin::InputSpec)
                .with_attr("object", Value::String("fidget_spinner".into()))
                .with_attr("category", Value::Enum("fidget_toy".into()))
                .with_attr(
                    "diameter",
                    Value::Quantity(Quantity {
                        value: f(60.0),
                        unit: "mm".into(),
                    })
                )
                .with_attr("electronics_required", Value::Bool(false))
        )
    );
}

#[test]
fn refuses_edges_to_missing_nodes_and_leaves_the_graph_unchanged() {
    let mut graph = IrGraph::new(NodeKind::System, "spinner", Origin::Sdk);
    let root = graph.root();
    let body = graph.add_node(Node::new(NodeKind::Part, "body", Origin::Sdk));
    let mut other = IrGraph::new(NodeKind::System, "other", Origin::Sdk);
    other.add_node(Node::new(NodeKind::Part, "a", Origin::Sdk));
    other.add_node(Node::new(NodeKind::Part, "b", Origin::Sdk));
    let missing = other.node_id_at(2);
    let before = graph.clone();

    assert_eq!(
        graph.add_edge(Edge::new(EdgeKind::Contains, missing, body, Origin::Sdk)),
        Err(GraphError::MissingNode(missing))
    );
    assert_eq!(
        graph.add_edge(Edge::new(EdgeKind::Contains, root, missing, Origin::Sdk)),
        Err(GraphError::MissingNode(missing))
    );
    assert_eq!(graph, before);
    assert_eq!(missing.raw(), 2);
    assert_eq!(body.raw(), 1);
}

#[test]
fn identifiers_follow_the_order_of_addition() {
    let mut graph = IrGraph::new(NodeKind::System, "spinner", Origin::Sdk);
    let a = graph.add_node(Node::new(NodeKind::Part, "a", Origin::Sdk));
    let b = graph.add_node(Node::new(NodeKind::Part, "b", Origin::Sdk));
    let e0 = graph.add_edge(Edge::new(EdgeKind::Contains, a, b, Origin::Sdk)).unwrap();
    let e1 = graph.add_edge(Edge::new(EdgeKind::Contains, b, a, Origin::Sdk)).unwrap();
    assert_eq!((a.raw(), b.raw(), e0.raw(), e1.raw()), (1, 2, 0, 1));
    assert_eq!(graph.node(b).unwrap().name, "b");
    assert_eq!(graph.edge(e1).unwrap().source, b);
}

#[test]
fn a_later_attribute_replaces_an_earlier_one() {
    let node = Node::new(NodeKind::Constraint, "c", Origin::Sdk)
        .with_attr("value", Value::Int(1))
        .with_attr("value", Value::Int(2))
        .with_attr("alpha", Value::Bool(true));
    assert_eq!(node.attrs.get("value"), Some(&Value::Int(2)));
    assert_eq!(node.attrs.len(), 2);
    assert_eq!(node.attrs.entries()[0].0, "alpha");
    let mut graph = IrGraph::new(NodeKind::System, "s", Origin::Sdk);
    graph.insert_metadata("k", Value::Int(1));
    graph.insert_metadata("k", Value::Int(3));
    assert_eq!(graph.metadata().get("k"), Some(&Value::Int(3)));
    assert_eq!(graph.metadata().len(), 1);
}

#[test]
fn graph_errors_name_the_missing_node() {
    let mut other = IrGraph::new(NodeKind::System, "other", Origin::Sdk);
    for _ in 0..12 {
        other.add_node(Node::new(NodeKind::Part, "p", Origin::Sdk));
    }
    assert_eq!(GraphError::MissingNode(other.node_id_at(12)).message(), "missing node 12");
    assert_eq!(GraphError::MissingNode(other.node_id_at(0)).message(), "missing node 0");
}
