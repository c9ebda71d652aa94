use matter::compiler::artifact::{ascii_stl, extrude_profile, StlFacet, StlTriple};
use matter::compiler::pipeline::{
    compile_lowered_plan, compile_prototype_plan, ensure_prototype_context, max_build_dimension,
    spinner_artifacts,
};
use matter::compiler::spinner::extract_spinner_geometry_inputs;
use matter::compiler::{
    CompileError, ContextValue, PrototypeArtifact, PrototypeArtifactFormat,
    PrototypeConnectionKind, PrototypeLengthUnit, PrototypePass, PrototypeProfile,
    PrototypeTriangle, PrototypeTriangleMesh, PrototypeVertex,
};
use matter::context::{
    BuildVolume, LayerHeight, MachineIdentity, ManufacturingContext, Material, ProcessType,
};
use matter::ieee::{Binary32, Binary64};
use matter::ir::{Edge, EdgeKind, Node, NodeKind, Origin};
use matter::sdk::{
    Assembly, AuthorKind, Component, Connection, ConnectionKind, Constraint, Design, Interface,
    InterfaceKind, InterfaceRef, LoweringError, Part, Provenance, Requirement, TypedValue,
    ValidationError,
};

fn mm(x: f64) -> Binary64 {
    Binary64::from_bits(x.to_bits())
}

fn printed(length: Binary64) -> String {
    format!("{}", f64::from_bits(length.to_bits()))
}

fn vertex(x: f64, y: f64, z: f64) -> PrototypeVertex {
    PrototypeVertex { x: mm(x), y: mm(y), z: mm(z) }
}

fn prototype_design() -> Design {
    Design::new(
        "fidget_spinner",
        Assembly::new("spinner")
            .with_part(
                Part::new("body", Material::Pla)
                    .with_interface(Interface::new("cap_socket", InterfaceKind::Mechanical))
                    .with_constraint(Constraint::new("outer_diameter", TypedValue::LengthMm(mm(60.0)))),
            )
            .with_part(
                Part::new("cap", Material::Pla)
                    .with_interface(Interface::new("cap_spigot", InterfaceKind::Mechanical)),
            )
            .with_connection(Connection::new(
                "cap_join",
                InterfaceRef::new("body", "cap_socket"),
                InterfaceRef::new("cap", "cap_spigot"),
                ConnectionKind::Fixed,
            )),
        ManufacturingContext::initial_prototype(),
        Provenance::new(AuthorKind::Human, "prototype-example", "test"),
    )
}

fn spinner_design() -> Design {
    spinner_design_with_max_diameter(60.0)
}

fn spinner_design_with_max_diameter(max_diameter_mm: f64) -> Design {
    Design::new(
        "fidget_spinner",
        Assembly::new("spinner")
            .with_part(
                Part::new("body", Material::Pla)
                    .with_interface(Interface::new("cap_socket", InterfaceKind::Mechanical))
                    .with_constraint(Constraint::new("outer_diameter", TypedValue::LengthMm(mm(60.0)))),
            )
            .with_part(
                Part::new("cap", Material::Pla)
                    .with_interface(Interface::new("cap_spigot", InterfaceKind::Mechanical))
                    .with_constraint(Constraint::new("retention_depth", TypedValue::LengthMm(mm(4.0)))),
            )
            .with_connection(Connection::new(
                "cap_join",
                InterfaceRef::new("body", "cap_socket"),
                InterfaceRef::new("cap", "cap_spigot"),
                ConnectionKind::Fixed,
            )),
        ManufacturingContext::initial_prototype(),
        Provenance::new(AuthorKind::Human, "prototype-example", "examples/fidget_spinner/src/lib.rs"),
    )
    .with_requirement(Requirement::new("artefact_class", TypedValue::Text("fidget_toy".into())))
    .with_requirement(Requirement::new("max_diameter", TypedValue::LengthMm(mm(max_diameter_mm))))
}

#[test]
fn rejects_non_canonical_machine_models() {
    let mut design = prototype_design();
    design.manufacturing.target.machine = MachineIdentity::new("Bambu Lab", "X1C");

    assert_eq!(
        compile_prototype_plan(&design),
        Err(CompileError::UnsupportedPrototypeContext {
            field: "target.machine.model",
            expected: ContextValue::Text("P1S".into()),
            found: ContextValue::Text("X1C".into()),
        })
    );
}

#[test]
fn rejects_out_of_scope_interface_and_connection_kinds() {
    let mut electrical = prototype_design();
    electrical.root.components[0] = Component::Part(
        Part::new("body", Material::Pla)
            .with_interface(Interface::new("cap_socket", InterfaceKind::ElectricalPlaceholder))
            .with_constraint(Constraint::new("outer_diameter", TypedValue::LengthMm(mm(60.0)))),
    );

    assert_eq!(
        compile_prototype_plan(&electrical),
        Err(CompileError::UnsupportedInterfaceKind {
            interface: "body.cap_socket".into(),
            kind: "electrical_placeholder".into(),
        })
    );

    let rotational = Design::new(
        "spinner_joint",
        Assembly::new("spinner")
            .with_part(
                Part::new("body", Material::Pla)
                    .with_interface(Interface::new("hub", InterfaceKind::Mechanical)),
            )
            .with_part(
                Part::new("cap", Material::Pla)
                    .with_interface(Interface::new("bearing", InterfaceKind::Mechanical)),
            )
            .with_connection(Connection::new(
                "bearing_join",
                InterfaceRef::new("body", "hub"),
                InterfaceRef::new("cap", "bearing"),
                ConnectionKind::Rotational,
            )),
        ManufacturingContext::initial_prototype(),
        Provenance::new(AuthorKind::Human, "prototype-example", "test"),
    );

    assert_eq!(
        compile_prototype_plan(&rotational),
        Err(CompileError::UnsupportedConnectionKind {
            connection: "bearing_join".into(),
            kind: "rotational".into(),
        })
    );
}

#[test]
fn rejects_dimensions_that_exceed_the_build_volume() {
    let design = prototype_design()
        .with_requirement(Requirement::new("oversized_diameter", TypedValue::LengthMm(mm(300.0))));

    assert_eq!(
        compile_prototype_plan(&design),
        Err(CompileError::ExceedsBuildVolume {
            name: "oversized_diameter".into(),
            value_mm: mm(300.0),
            limit_mm: 256,
        })
    );
}

#[test]
fn rejects_later_stage_ir_shapes_and_propagates_lowering_failures() {
    let mut lowered = prototype_design().lower_to_ir().expect("design lowers");
    let process = lowered.graph.add_node(Node::new(
        NodeKind::Process,
        "fdm_printing",
        Origin::pass("manufacturability"),
    ));
    let root = lowered.graph.root();
    lowered
        .graph
        .add_edge(Edge::new(
            EdgeKind::TargetsProcess,
            root,
            process,
            Origin::pass("manufacturability"),
        ))
        .expect("edge is valid");

    assert_eq!(
        compile_lowered_plan(lowered),
        Err(CompileError::UnsupportedNodeKind { kind: NodeKind::Process })
    );

    let invalid = Design::new(
        "invalid_join",
        Assembly::new("spinner")
            .with_part(
                Part::new("body", Material::Pla)
                    .with_interface(Interface::new("cap_socket", InterfaceKind::Mechanical)),
            )
            .with_part(
                Part::new("cap", Material::Pla)
                    .with_interface(Interface::new("cap_spigot", InterfaceKind::Mechanical)),
            )
            .with_connection(Connection::new(
                "cap_join",
                InterfaceRef::new("body", "missing_socket"),
                InterfaceRef::new("cap", "cap_spigot"),
                ConnectionKind::Fixed,
            )),
        ManufacturingContext::initial_prototype(),
        Provenance::new(AuthorKind::Human, "prototype-example", "test"),
    );

    assert_eq!(
        compile_prototype_plan(&invalid),
        Err(CompileError::Lowering(LoweringError::Validation(
            ValidationError::MissingConnectionInterface {
                connection: "cap_join".into(),
                component: "body".into(),
                interface: "missing_socket".into(),
            }
        )))
    );
}

#[test]
fn creates_a_deterministic_stl_artifact_boundary() {
    let triangle = PrototypeTriangle {
        vertices: [vertex(0.0, 0.0, 0.0), vertex(10.0, 0.0, 0.0), vertex(0.0, 10.0, 0.0)],
    };
    let mesh = PrototypeTriangleMesh::new(vec![triangle.clone()]);
    let artifact = PrototypeArtifact::stl("spinner_body", mesh.clone());

    assert_eq!(artifact.name, "spinner_body");
    assert_eq!(artifact.format, PrototypeArtifactFormat::Stl);
    assert_eq!(artifact.mesh.units, PrototypeLengthUnit::Millimetres);
    assert_eq!(artifact.mesh.triangles, vec![triangle]);
    assert_eq!(artifact.mesh, mesh);
}

fn triple(x: &str, y: &str, z: &str) -> StlTriple {
    StlTriple { x: x.into(), y: y.into(), z: z.into() }
}

#[test]
fn frames_printed_facets_as_an_ascii_solid() {
    let facet = StlFacet {
        normal: triple("0.000000", "0.000000", "1.000000"),
        first: triple("0.000000", "0.000000", "0.000000"),
        second: triple("10.000000", "0.000000", "0.000000"),
        third: triple("0.000000", "10.000000", "0.000000"),
    };
    assert_eq!(
        ascii_stl("spinner_body", &vec![facet]),
        "solid spinner_body\n  facet normal 0.000000 0.000000 1.000000\n    outer loop\n      vertex 0.000000 0.000000 0.000000\n      vertex 10.000000 0.000000 0.000000\n      vertex 0.000000 10.000000 0.000000\n    endloop\n  endfacet\nendsolid spinner_body\n"
    );
    assert_eq!(ascii_stl("empty", &Vec::new()), "solid empty\nendsolid empty\n");
}

#[test]
fn extrudes_four_faces_per_profile_point() {
    let profile = vec![(mm(10.0), mm(0.0)), (mm(0.0), mm(10.0)), (mm(-10.0), mm(0.0))];
    let mesh = extrude_profile(&profile, mm(4.0));
    assert_eq!(mesh.units, PrototypeLengthUnit::Millimetres);
    assert_eq!(mesh.triangles.len(), 12);
    assert_eq!(
        mesh.triangles[0],
        PrototypeTriangle {
            vertices: [vertex(0.0, 0.0, 4.0), vertex(10.0, 0.0, 4.0), vertex(0.0, 10.0, 4.0)]
        }
    );
    assert_eq!(
        mesh.triangles[1],
        PrototypeTriangle {
            vertices: [vertex(0.0, 0.0, 0.0), vertex(0.0, 10.0, 0.0), vertex(10.0, 0.0, 0.0)]
        }
    );
    // The last edge closes the profile back to its first point.
    assert_eq!(
        mesh.triangles[11],
        PrototypeTriangle {
            vertices: [vertex(-10.0, 0.0, 0.0), vertex(10.0, 0.0, 4.0), vertex(-10.0, 0.0, 4.0)]
        }
    );
    assert_eq!(extrude_profile(&Vec::new(), mm(1.0)).triangles.len(), 0);
}

#[test]
fn plans_the_sample_spinner_and_reads_its_geometry() {
    let design = spinner_design();
    let plan = compile_prototype_plan(&design).expect("sample design is planned");
    assert_eq!(plan.profile, PrototypeProfile::PlaOnP1sSingleProcess);
    assert_eq!(plan.design_name, "fidget_spinner");
    assert_eq!(plan.plan.material, Material::Pla);
    assert_eq!(plan.plan.parts.len(), 2);
    assert_eq!(plan.plan.parts[0].part, "body");
    assert_eq!(plan.plan.connections.len(), 1);
    assert_eq!(plan.plan.connections[0].kind, PrototypeConnectionKind::Fixed);
    assert_eq!(plan.report.validated_part_count, 2);
    assert_eq!(plan.report.validated_connection_count, 1);
    assert_eq!(plan.report.validated_dimensions.len(), 3);
    assert_eq!(plan.report.validated_dimensions[0].build_volume_limit_mm, 256);
    assert_eq!(
        plan.report.executed_passes,
        vec![
            PrototypePass::ValidatePrototypeContext,
            PrototypePass::ValidateLoweredGraph,
            PrototypePass::ValidateBuildEnvelope,
            PrototypePass::AssembleSingleProcessPlan,
        ]
    );
    assert!(plan.artifacts.is_empty());
    assert_eq!(plan.node_count(), 11);
    assert_eq!(plan.edge_count(), 12);

    let inputs = extract_spinner_geometry_inputs(&plan.graph, printed).expect("spinner inputs");
    assert_eq!(inputs.outer_diameter_mm, mm(60.0));
    assert_eq!(inputs.retention_depth_mm, mm(4.0));

    let body = extrude_profile(&vec![(mm(1.0), mm(0.0))], mm(8.0));
    let cap = extrude_profile(&vec![(mm(2.0), mm(0.0))], mm(4.0));
    let finished = plan.with_artifacts(spinner_artifacts(body, cap));
    assert_eq!(finished.artifacts.len(), 2);
    assert_eq!(finished.artifacts[0].name, "body");
    assert_eq!(finished.artifacts[1].name, "cap");
    assert_eq!(finished.report.executed_passes.last(), Some(&PrototypePass::SynthesizeArtifacts));
    assert!(finished.artifact("cap").is_some());
    assert!(finished.artifact("missing_part").is_none());
}

#[test]
fn refuses_graphs_that_are_not_the_spinner() {
    let mut design = spinner_design();
    design.name = "gizmo".into();
    let plan = compile_prototype_plan(&design).expect("gizmo is planned");
    assert_eq!(
        extract_spinner_geometry_inputs(&plan.graph, printed),
        Err(CompileError::UnsupportedPrototypeShape {
            design: "gizmo".into(),
            reason: "only the existing fidget_spinner synthesis path is supported".into(),
        })
    );

    let missing_depth = prototype_design()
        .with_requirement(Requirement::new("artefact_class", TypedValue::Text("fidget_toy".into())))
        .with_requirement(Requirement::new("max_diameter", TypedValue::LengthMm(mm(60.0))));
    let plan = compile_prototype_plan(&missing_depth).expect("planned");
    assert_eq!(
        extract_spinner_geometry_inputs(&plan.graph, printed),
        Err(CompileError::UnsupportedPrototypeShape {
            design: "fidget_spinner".into(),
            reason: "missing required spinner constraint cap.retention_depth".into(),
        })
    );

    let mut three_parts = spinner_design();
    three_parts.root = three_parts.root.with_part(Part::new("axle", Material::Pla));
    let plan = compile_prototype_plan(&three_parts).expect("planned");
    assert_eq!(
        extract_spinner_geometry_inputs(&plan.graph, printed),
        Err(CompileError::UnsupportedPrototypeShape {
            design: "fidget_spinner".into(),
            reason: "expected printable parts [\"body\", \"cap\"], found [\"axle\", \"body\", \"cap\"]".into(),
        })
    );
}

#[test]
fn outer_diameter_must_match_the_maximum_diameter() {
    let plan = compile_prototype_plan(&spinner_design_with_max_diameter(61.5)).expect("planned");
    assert_eq!(
        extract_spinner_geometry_inputs(&plan.graph, printed),
        Err(CompileError::UnsupportedPrototypeShape {
            design: "fidget_spinner".into(),
            reason: "expected body.outer_diameter (60mm) to match max_diameter (61.5mm)".into(),
        })
    );

    let plan = compile_prototype_plan(&spinner_design_with_max_diameter(60.0 + 5e-10)).expect("planned");
    let inputs = extract_spinner_geometry_inputs(&plan.graph, printed).expect("within the tolerance");
    assert_eq!(inputs.outer_diameter_mm, mm(60.0));
    assert_eq!(inputs.retention_depth_mm, mm(4.0));

    let plan = compile_prototype_plan(&spinner_design_with_max_diameter(60.000001)).expect("planned");
    assert_eq!(
        extract_spinner_geometry_inputs(&plan.graph, printed),
        Err(CompileError::UnsupportedPrototypeShape {
            design: "fidget_spinner".into(),
            reason: "expected body.outer_diameter (60mm) to match max_diameter (60.000001mm)".into(),
        })
    );
}

#[test]
fn the_largest_edge_bounds_every_dimension() {
    assert_eq!(max_build_dimension(BuildVolume { x_mm: 10, y_mm: 300, z_mm: 20 }), 300);
    assert_eq!(max_build_dimension(BuildVolume { x_mm: 256, y_mm: 256, z_mm: 256 }), 256);
    assert_eq!(max_build_dimension(BuildVolume { x_mm: 5, y_mm: 4, z_mm: 9 }), 9);
}

#[test]
fn part_without_material_edge_is_refused() {
    let mut lowered = prototype_design().lower_to_ir().expect("design lowers");
    lowered.graph.add_node(Node::new(NodeKind::Part, "loose", Origin::Sdk));
    assert_eq!(
        compile_lowered_plan(lowered),
        Err(CompileError::InvalidPartMaterialAssignments { part: "loose".into(), count: 0 })
    );
}

#[test]
fn authored_and_lowered_designs_plan_alike() {
    let design = spinner_design();
    let authored = compile_prototype_plan(&design).expect("authored design is planned");
    let lowered = compile_lowered_plan(design.lower_to_ir().expect("design lowers"))
        .expect("lowered design is planned");
    assert_eq!(authored, lowered);
}

#[test]
fn the_prototype_context_passes_and_any_change_is_named() {
    let prototype = ManufacturingContext::initial_prototype();
    assert_eq!(ensure_prototype_context(&prototype), Ok(()));

    let mut thicker = ManufacturingContext::initial_prototype();
    let layer = LayerHeight::new_mm(Binary32::from_bits(0.3f32.to_bits())).unwrap();
    thicker.constraints.nominal_layer_height = layer;
    assert_eq!(
        ensure_prototype_context(&thicker),
        Err(CompileError::UnsupportedPrototypeContext {
            field: "constraints.nominal_layer_height",
            expected: ContextValue::LayerHeight(prototype.constraints.nominal_layer_height),
            found: ContextValue::LayerHeight(layer),
        })
    );

    let mut renamed = ManufacturingContext::initial_prototype();
    renamed.target.environment.name = "Lab".into();
    renamed.constraints.supported_materials.clear();
    assert_eq!(
        ensure_prototype_context(&renamed),
        Err(CompileError::UnsupportedPrototypeContext {
            field: "target.environment.name",
            expected: ContextValue::Text("Home workshop".into()),
            found: ContextValue::Text("Lab".into()),
        })
    );
    assert_eq!(prototype.target.process, ProcessType::FusedDepositionModeling);
}

#[test]
fn accepted_dimensions_fit_the_envelope() {
    let design = spinner_design()
        .with_requirement(Requirement::new("exact_fit", TypedValue::LengthMm(mm(256.0))));
    let plan = compile_prototype_plan(&design).expect("a dimension equal to the limit fits");
    for check in &plan.report.validated_dimensions {
        assert!(f64::from_bits(check.value_mm.to_bits()) <= 256.0);
        assert_eq!(check.build_volume_limit_mm, 256);
    }
    assert_eq!(plan.report.validated_dimensions.len(), 4);
    assert_eq!(plan.report.validated_dimensions[3].name, "exact_fit");
}

#[test]
fn messages_spell_out_each_error() {
    let context = CompileError::UnsupportedPrototypeContext {
        field: "target.machine.model",
        expected: ContextValue::Text("P1S".into()),
        found: ContextValue::Text("X1C".into()),
    };
    assert_eq!(
        context.message("", "", ""),
        "unsupported prototype context for target.machine.model: expected \"P1S\", found \"X1C\""
    );
    let volume = CompileError::UnsupportedPrototypeContext {
        field: "constraints.build_volume",
        expected: ContextValue::BuildVolume(BuildVolume { x_mm: 256, y_mm: 256, z_mm: 256 }),
        found: ContextValue::Materials(vec![Material::Pla, Material::Pla]),
    };
    assert_eq!(
        volume.message("", "", ""),
        "unsupported prototype context for constraints.build_volume: expected BuildVolume { x_mm: 256, y_mm: 256, z_mm: 256 }, found [Pla, Pla]"
    );
    let layer = LayerHeight::new_mm(Binary32::from_bits(0.2f32.to_bits())).unwrap();
    let layers = CompileError::UnsupportedPrototypeContext {
        field: "constraints.nominal_layer_height",
        expected: ContextValue::LayerHeight(layer),
        found: ContextValue::LayerHeight(layer),
    };
    assert_eq!(
        layers.message("", "0.2", "0.3"),
        "unsupported prototype context for constraints.nominal_layer_height: expected LayerHeight { millimeters: 0.2 }, found LayerHeight { millimeters: 0.3 }"
    );
    let exceeds = CompileError::ExceedsBuildVolume {
        name: "oversized_diameter".into(),
        value_mm: mm(300.0),
        limit_mm: 256,
    };
    assert_eq!(
        exceeds.message("300", "", ""),
        "constraint oversized_diameter exceeds prototype build volume: 300mm > 256mm"
    );
    let lowering = CompileError::Lowering(LoweringError::Validation(
        ValidationError::MissingConnectionInterface {
            connection: "cap_join".into(),
            component: "body".into(),
            interface: "missing_socket".into(),
        },
    ));
    assert_eq!(
        lowering.message("", "", ""),
        "failed to lower design into IR: Validation(MissingConnectionInterface { connection: \"cap_join\", component: \"body\", interface: \"missing_socket\" })"
    );
    assert_eq!(
        CompileError::UnsupportedNodeKind { kind: NodeKind::Process }.message("", "", ""),
        "unsupported prototype node kind: Process"
    );
    assert_eq!(
        CompileError::InvalidPartMaterialAssignments { part: "loose".into(), count: 0 }
            .message("", "", ""),
        "part loose must have exactly one prototype material assignment, found 0"
    );
    assert_eq!(
        CompileError::InvalidGraphRelationship {
            edge: EdgeKind::UsesMaterial,
            source: "a".into(),
            target: "b".into(),
        }
        .message("", "", ""),
        "invalid prototype graph relationship UsesMaterial: a -> b"
    );
    assert_eq!(
        CompileError::Lowering(LoweringError::Validation(ValidationError::InvalidLength {
            name: "diameter".into(),
            value_mm: mm(0.0),
        }))
        .message("0.0", "", ""),
        "failed to lower design into IR: Validation(InvalidLength { name: \"diameter\", value_mm: 0.0 })"
    );
}

#[test]
fn compiling_is_lowering_then_compiling() {
    let mut design = spinner_design();
    design.manufacturing.target.machine = MachineIdentity::new("Bambu Lab", "X1C");
    let lowered = design.lower_to_ir().expect("design lowers");
    assert_eq!(compile_prototype_plan(&design), compile_lowered_plan(lowered));

    let mut invalid = spinner_design();
    invalid.name = " ".into();
    let lowering = invalid.lower_to_ir().expect_err("blank name is refused");
    assert_eq!(compile_prototype_plan(&invalid), Err(CompileError::Lowering(lowering)));
}
