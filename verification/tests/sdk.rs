use matter::context::{
    AvailableTool, BuildVolume, LayerHeight, MachineIdentity, ManufacturingConstraints,
    ManufacturingContext, ManufacturingEnvironment, ManufacturingTarget, Material, ProcessType,
    Tolerance,
};
use matter::ieee::{Binary32, Binary64};
use matter::ir::{EdgeKind, IrGraph, NodeId, NodeKind, Origin, Quantity, RefinementState, Value};
use matter::sdk::lower::{author_kind_label, connection_kind_label, interface_kind_label, material_label, lower_typed_value};
use matter::sdk::{
    Assembly, AuthorKind, Component, Connection, ConnectionKind, Constraint, Design, Interface,
    InterfaceKind, InterfaceRef, LoweringError, Part, Provenance, Requirement, TypedValue,
    ValidationError,
};

fn mm(x: f64) -> Binary64 {
    Binary64::from_bits(x.to_bits())
}

fn mm32(x: f32) -> Binary32 {
    Binary32::from_bits(x.to_bits())
}

fn node_id_by_name(graph: &IrGraph, name: &str) -> NodeId {
    let index = graph
        .nodes()
        .iter()
        .position(|node| node.name == name)
        .expect("node exists");
    graph.node_id_at(index)
}

fn has_edge(graph: &IrGraph, kind: EdgeKind, source: NodeId, target: NodeId) -> bool {
    graph
        .edges()
        .iter()
        .any(|edge| edge.kind == kind && edge.source == source && edge.target == target)
}

#[test]
fn validates_a_minimal_mechanical_design_without_exposing_ir() {
    let design = Design::new(
        "fidget_spinner",
        Assembly::new("spinner")
            .with_component(Component::Part(
                Part::new("body", Material::Pla)
                    .with_interface(Interface::new("cap_socket", InterfaceKind::Mechanical))
                    .with_constraint(Constraint::new("diameter", TypedValue::LengthMm(mm(60.0)))),
            ))
            .with_component(Component::Part(
                Part::new("cap", Material::Pla)
                    .with_interface(Interface::new("cap_spigot", InterfaceKind::Mechanical)),
            ))
            .with_connection(Connection::new(
                "cap_join",
                InterfaceRef::new("body", "cap_socket"),
                InterfaceRef::new("cap", "cap_spigot"),
                ConnectionKind::Fixed,
            )),
        ManufacturingContext::initial_prototype(),
        Provenance::new(AuthorKind::Human, "Pete", "README first prototype"),
    )
    .with_requirement(Requirement::new("artefact_class", TypedValue::Text("fidget_toy".into())))
    .with_requirement(Requirement::new("diameter", TypedValue::LengthMm(mm(60.0))));

    assert_eq!(design.validate(), Ok(()));
}

#[test]
fn rejects_connections_to_interfaces_that_do_not_exist() {
    let design = Design::new(
        "invalid_join",
        Assembly::new("spinner")
            .with_component(Component::Part(
                Part::new("body", Material::Pla)
                    .with_interface(Interface::new("cap_socket", InterfaceKind::Mechanical)),
            ))
            .with_component(Component::Part(
                Part::new("cap", Material::Pla)
                    .with_interface(Interface::new("cap_spigot", InterfaceKind::Mechanical)),
            ))
            .with_connection(Connection::new(
                "cap_join",
                InterfaceRef::new("body", "missing_socket"),
                InterfaceRef::new("cap", "cap_spigot"),
                ConnectionKind::Fixed,
            )),
        ManufacturingContext::initial_prototype(),
        Provenance::new(AuthorKind::Ai, "design-agent", "task prompt"),
    );

    assert_eq!(
        design.validate(),
        Err(ValidationError::MissingConnectionInterface {
            connection: "cap_join".into(),
            component: "body".into(),
            interface: "missing_socket".into(),
        })
    );
}

#[test]
fn rejects_part_materials_that_are_not_supported_by_the_target_context() {
    let unsupported_context = ManufacturingContext {
        target: ManufacturingTarget::new(
            ManufacturingEnvironment::new("Home workshop"),
            ProcessType::FusedDepositionModeling,
            MachineIdentity::new("Bambu Lab", "P1S"),
        ),
        constraints: ManufacturingConstraints::new(
            BuildVolume::new(256, 256, 256).unwrap(),
            vec![Material::Pla],
            LayerHeight::new_mm(mm32(0.2)).unwrap(),
            Tolerance::plus_minus_mm(mm32(0.2)).unwrap(),
            vec![AvailableTool::FusedDepositionPrinter],
        )
        .unwrap(),
    };

    let mut unsupported_context = unsupported_context;
    unsupported_context.constraints.supported_materials.clear();

    let design = Design::new(
        "unsupported_material",
        Assembly::new("spinner").with_component(Component::Part(Part::new("body", Material::Pla))),
        unsupported_context,
        Provenance::new(AuthorKind::Human, "Pete", "test"),
    );

    assert_eq!(
        design.validate(),
        Err(ValidationError::UnsupportedMaterial {
            part: "body".into(),
            material: Material::Pla,
        })
    );
}

#[test]
fn rejects_blank_design_names() {
    let design = Design::new(
        "   ",
        Assembly::new("spinner").with_component(Component::Part(Part::new("body", Material::Pla))),
        ManufacturingContext::initial_prototype(),
        Provenance::new(AuthorKind::Human, "Pete", "test"),
    );

    assert_eq!(design.validate(), Err(ValidationError::EmptyName("design")));
}

#[test]
fn rejects_empty_root_assemblies() {
    let design = Design::new(
        "empty_spinner",
        Assembly::new("spinner"),
        ManufacturingContext::initial_prototype(),
        Provenance::new(AuthorKind::Human, "Pete", "test"),
    );

    assert_eq!(design.validate(), Err(ValidationError::EmptyAssembly("spinner".into())));
}

#[test]
fn rejects_duplicate_component_ids() {
    let design = Design::new(
        "duplicate_parts",
        Assembly::new("spinner")
            .with_component(Component::Part(Part::new("body", Material::Pla)))
            .with_component(Component::Part(Part::new("body", Material::Pla))),
        ManufacturingContext::initial_prototype(),
        Provenance::new(AuthorKind::Human, "Pete", "test"),
    );

    assert_eq!(design.validate(), Err(ValidationError::DuplicateComponentId("body".into())));
}

#[test]
fn rejects_duplicate_interface_ids_within_a_component() {
    let design = Design::new(
        "duplicate_interfaces",
        Assembly::new("spinner").with_component(Component::Part(
            Part::new("body", Material::Pla)
                .with_interface(Interface::new("cap_socket", InterfaceKind::Mechanical))
                .with_interface(Interface::new("cap_socket", InterfaceKind::Mechanical)),
        )),
        ManufacturingContext::initial_prototype(),
        Provenance::new(AuthorKind::Human, "Pete", "test"),
    );

    assert_eq!(
        design.validate(),
        Err(ValidationError::DuplicateInterfaceId {
            component: "body".into(),
            interface: "cap_socket".into(),
        })
    );
}

#[test]
fn rejects_non_positive_length_requirements() {
    let design = Design::new(
        "invalid_requirement",
        Assembly::new("spinner").with_component(Component::Part(Part::new("body", Material::Pla))),
        ManufacturingContext::initial_prototype(),
        Provenance::new(AuthorKind::Human, "Pete", "test"),
    )
    .with_requirement(Requirement::new("diameter", TypedValue::LengthMm(mm(0.0))));

    assert_eq!(
        design.validate(),
        Err(ValidationError::InvalidLength {
            name: "diameter".into(),
            value_mm: mm(0.0),
        })
    );
}

#[test]
fn lowers_a_minimal_authored_design_into_deterministic_ir() {
    let design = Design::new(
        "fidget_spinner",
        Assembly::new("spinner")
            .with_part(
                Part::new("body", Material::Pla)
                    .with_interface(Interface::new("cap_socket", InterfaceKind::Mechanical))
                    .with_constraint(Constraint::new("outer_diameter", TypedValue::LengthMm(mm(60.0)))),
            )
            .with_part(
                Part::new("cap", Material::Pla)
                    .with_interface(Interface::new("cap_spigot", InterfaceKind::Mechanical)),
            )
            .with_connection(Connection::new(
                "cap_join",
                InterfaceRef::new("body", "cap_socket"),
                InterfaceRef::new("cap", "cap_spigot"),
                ConnectionKind::Fixed,
            )),
        ManufacturingContext::initial_prototype(),
        Provenance::new(AuthorKind::Ai, "design-agent", "task prompt"),
    )
    .with_requirement(Requirement::new("artefact_class", TypedValue::Text("fidget_toy".into())));

    let first = design.lower_to_ir().expect("lowering succeeds");
    let second = design.lower_to_ir().expect("lowering is deterministic");
    let graph = &first.graph;
    let root = graph.root();
    let spinner = node_id_by_name(graph, "spinner");
    let body = node_id_by_name(graph, "body");
    let cap = node_id_by_name(graph, "cap");
    let body_socket = node_id_by_name(graph, "body.cap_socket");
    let cap_spigot = node_id_by_name(graph, "cap.cap_spigot");
    let outer_diameter = node_id_by_name(graph, "outer_diameter");
    let artefact_class = node_id_by_name(graph, "artefact_class");
    let pla = node_id_by_name(graph, "PLA");

    assert_eq!(first, second);
    assert_eq!(first.manufacturing, ManufacturingContext::initial_prototype());
    assert_eq!(
        graph.metadata().get("sdk.lowering_contract"),
        Some(&Value::String("design-sdk:minimal-v1".into()))
    );
    assert_eq!(graph.metadata().get("sdk.author_kind"), Some(&Value::Enum("ai".into())));
    assert_eq!(graph.metadata().get("sdk.author"), Some(&Value::String("design-agent".into())));
    assert_eq!(graph.metadata().get("sdk.source"), Some(&Value::String("task prompt".into())));
    assert_eq!(graph.node(root).expect("root node").kind, NodeKind::System);
    assert_eq!(graph.node(root).expect("root node").origin, Origin::Sdk);
    assert!(has_edge(graph, EdgeKind::Contains, root, spinner));
    assert!(has_edge(graph, EdgeKind::Contains, spinner, body));
    assert!(has_edge(graph, EdgeKind::Contains, spinner, cap));
    assert!(has_edge(graph, EdgeKind::Contains, body, body_socket));
    assert!(has_edge(graph, EdgeKind::Contains, cap, cap_spigot));
    assert!(has_edge(graph, EdgeKind::Constrains, body, outer_diameter));
    assert!(has_edge(graph, EdgeKind::Constrains, root, artefact_class));
    assert!(has_edge(graph, EdgeKind::UsesMaterial, body, pla));
    assert!(has_edge(graph, EdgeKind::UsesMaterial, cap, pla));
    assert!(has_edge(graph, EdgeKind::Connects, body_socket, cap_spigot));
    assert_eq!(graph.node(pla).expect("material node").state, RefinementState::Selected);
    assert_eq!(
        graph.node(body).expect("body node").attrs.get("sdk.authoring_path"),
        Some(&Value::String("design.root.components[0]".into()))
    );
    assert_eq!(
        graph.node(body_socket).expect("body interface").attrs.get("sdk.authoring_path"),
        Some(&Value::String("design.root.components[0].interfaces[0]".into()))
    );
    assert_eq!(
        graph.node(outer_diameter).expect("body constraint").attrs.get("value"),
        Some(&Value::Quantity(Quantity {
            value: mm(60.0),
            unit: "mm".into(),
        }))
    );
    let connects = graph
        .edges()
        .iter()
        .find(|edge| edge.kind == EdgeKind::Connects)
        .expect("connects edge exists");
    assert_eq!(connects.attrs.get("name"), Some(&Value::String("cap_join".into())));
    assert_eq!(
        connects.attrs.get("sdk.authoring_path"),
        Some(&Value::String("design.root.connections[0]".into()))
    );
    assert_eq!(graph.nodes().len(), 9);
    assert_eq!(graph.edges().len(), 10);
}

#[test]
fn lowering_reports_validation_failures_without_partial_ir() {
    let design = Design::new(
        "invalid_join",
        Assembly::new("spinner")
            .with_part(
                Part::new("body", Material::Pla)
                    .with_interface(Interface::new("cap_socket", InterfaceKind::Mechanical)),
            )
            .with_part(
                Part::new("cap", Material::Pla)
                    .with_interface(Interface::new("cap_spigot", InterfaceKind::Mechanical)),
            )
            .with_connection(Connection::new(
                "cap_join",
                InterfaceRef::new("body", "missing_socket"),
                InterfaceRef::new("cap", "cap_spigot"),
                ConnectionKind::Fixed,
            )),
        ManufacturingContext::initial_prototype(),
        Provenance::new(AuthorKind::Human, "Pete", "test"),
    );

    assert_eq!(
        design.lower_to_ir(),
        Err(LoweringError::Validation(ValidationError::MissingConnectionInterface {
            connection: "cap_join".into(),
            component: "body".into(),
            interface: "missing_socket".into(),
        }))
    );
}

/// The SDK's sample design.
fn build_design() -> Design {
    Design::new(
        "fidget_spinner",
        Assembly::new("spinner")
            .with_part(
                Part::new("body", Material::Pla)
                    .with_interface(Interface::new("cap_socket", InterfaceKind::Mechanical))
                    .with_constraint(Constraint::new("outer_diameter", TypedValue::LengthMm(mm(60.0)))),
            )
            .with_part(
                Part::new("cap", Material::Pla)
                    .with_interface(Interface::new("cap_spigot", InterfaceKind::Mechanical))
                    .with_constraint(Constraint::new("retention_depth", TypedValue::LengthMm(mm(4.0)))),
            )
            .with_connection(Connection::new(
                "cap_join",
                InterfaceRef::new("body", "cap_socket"),
                InterfaceRef::new("cap", "cap_spigot"),
                ConnectionKind::Fixed,
            )),
        ManufacturingContext::initial_prototype(),
        Provenance::new(
            AuthorKind::Human,
            "prototype-example",
            "crates/design-sdk/examples/fidget_spinner.rs",
        ),
    )
    .with_requirement(Requirement::new("artefact_class", TypedValue::Text("fidget_toy".into())))
    .with_requirement(Requirement::new("max_diameter", TypedValue::LengthMm(mm(60.0))))
}

#[test]
fn fidget_spinner_example_validates_and_lowers_end_to_end() {
    let design = build_design();

    assert_eq!(design.validate(), Ok(()));

    let lowered = design.lower_to_ir().expect("example lowers successfully");
    let graph = &lowered.graph;

    assert_eq!(lowered.manufacturing.target.machine.model, "P1S");
    assert_eq!(lowered.manufacturing.constraints.supported_materials.len(), 1);
    assert_eq!(design.provenance.author_kind, AuthorKind::Human);
    assert_eq!(graph.node(graph.root()).expect("root exists").kind, NodeKind::System);
    assert_eq!(
        graph.metadata().get("sdk.source"),
        Some(&Value::String("crates/design-sdk/examples/fidget_spinner.rs".into()))
    );
    assert!(graph.nodes().iter().any(|node| node.name == "spinner"));
    assert!(graph.nodes().iter().any(|node| node.name == "body"));
    assert!(graph.nodes().iter().any(|node| node.name == "cap"));
    assert!(graph.edges().iter().any(|edge| edge.kind == EdgeKind::Connects));
    assert_eq!(graph.nodes().len(), 11);
    assert_eq!(graph.edges().len(), 12);
}

#[test]
fn labels_every_kind() {
    assert_eq!(author_kind_label(&AuthorKind::Human), "human");
    assert_eq!(author_kind_label(&AuthorKind::Ai), "ai");
    assert_eq!(connection_kind_label(&ConnectionKind::Fixed), "fixed");
    assert_eq!(connection_kind_label(&ConnectionKind::Rotational), "rotational");
    assert_eq!(interface_kind_label(&InterfaceKind::Mechanical), "mechanical");
    assert_eq!(interface_kind_label(&InterfaceKind::ElectricalPlaceholder), "electrical_placeholder");
    assert_eq!(material_label(Material::Pla), "PLA");
    assert_eq!(lower_typed_value(&TypedValue::Count(7)), Value::Int(7));
    assert_eq!(lower_typed_value(&TypedValue::Boolean(true)), Value::Bool(true));
    assert_eq!(
        lower_typed_value(&TypedValue::LengthMm(mm(2.5))),
        Value::Quantity(Quantity { value: mm(2.5), unit: "mm".into() })
    );
}

#[test]
fn nested_assemblies_lower_depth_first_with_their_paths() {
    let design = Design::new(
        "rig",
        Assembly::new("frame")
            .with_assembly(
                Assembly::new("arm")
                    .with_part(Part::new("link", Material::Pla).with_interface(Interface::new("pin", InterfaceKind::Mechanical)))
                    .with_constraint(Constraint::new("count", TypedValue::Count(2))),
            )
            .with_part(Part::new("base", Material::Pla).with_interface(Interface::new("hole", InterfaceKind::Mechanical)))
            .with_connection(Connection::new(
                "hinge",
                InterfaceRef::new("link", "pin"),
                InterfaceRef::new("base", "hole"),
                ConnectionKind::Rotational,
            )),
        ManufacturingContext::initial_prototype(),
        Provenance::new(AuthorKind::Human, "Pete", "test"),
    );
    let lowered = design.lower_to_ir().expect("nested design lowers");
    let graph = &lowered.graph;
    let names: Vec<&str> = graph.nodes().iter().map(|n| n.name.as_str()).collect();
    assert_eq!(names, vec!["rig", "frame", "arm", "count", "link", "link.pin", "PLA", "base", "base.hole"]);
    let link = node_id_by_name(graph, "link");
    assert_eq!(
        graph.node(link).unwrap().attrs.get("sdk.authoring_path"),
        Some(&Value::String("design.root.components[0].components[0]".into()))
    );
    let base = node_id_by_name(graph, "base");
    let pla = node_id_by_name(graph, "PLA");
    assert!(has_edge(graph, EdgeKind::UsesMaterial, base, pla));
    let connects = graph.edges().last().unwrap();
    assert_eq!(connects.kind, EdgeKind::Connects);
    assert_eq!(connects.attrs.get("connection_kind"), Some(&Value::Enum("rotational".into())));
    assert_eq!(graph.nodes().iter().filter(|n| n.kind == NodeKind::Material).count(), 1);
    assert_eq!(graph.edges().len(), 10);
}
