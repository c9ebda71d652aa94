use matter::context::{
    AvailableTool, BuildVolume, LayerHeight, MachineIdentity, ManufacturingConstraints,
    ManufacturingContext, ManufacturingEnvironment, ManufacturingTarget, Material, ProcessType,
    SchemaError, Tolerance,
};
use matter::ieee::Binary32;
use matter::schema;

fn mm32(x: f32) -> Binary32 {
    Binary32::from_bits(x.to_bits())
}

#[test]
fn exposes_the_initial_prototype_context() {
    let prototype = ManufacturingContext::initial_prototype();

    assert_eq!(prototype.target.environment.name, "Home workshop");
    assert_eq!(prototype.target.process, ProcessType::FusedDepositionModeling);
    assert_eq!(prototype.target.machine.manufacturer, "Bambu Lab");
    assert_eq!(prototype.target.machine.model, "P1S");
    assert_eq!(prototype.constraints.build_volume.x_mm, 256);
    assert_eq!(prototype.constraints.build_volume.y_mm, 256);
    assert_eq!(prototype.constraints.build_volume.z_mm, 256);
    assert_eq!(prototype.constraints.supported_materials, vec![Material::Pla]);
    assert_eq!(f32::from_bits(prototype.constraints.nominal_layer_height.millimeters.to_bits()), 0.2);
    assert_eq!(f32::from_bits(prototype.constraints.achievable_tolerance.plus_minus_mm.to_bits()), 0.2);
    assert_eq!(
        prototype.constraints.available_tools,
        vec![AvailableTool::FusedDepositionPrinter]
    );
}

#[test]
fn rejects_invalid_constraint_inputs() {
    assert_eq!(BuildVolume::new(0, 256, 256), Err(SchemaError::BuildVolumeMustBePositive));
    assert_eq!(LayerHeight::new_mm(mm32(0.0)), Err(SchemaError::LayerHeightMustBePositive));
    assert_eq!(Tolerance::plus_minus_mm(mm32(0.0)), Err(SchemaError::ToleranceMustBePositive));
    assert_eq!(
        ManufacturingConstraints::new(
            BuildVolume::new(256, 256, 256).unwrap(),
            Vec::new(),
            LayerHeight::new_mm(mm32(0.2)).unwrap(),
            Tolerance::plus_minus_mm(mm32(0.2)).unwrap(),
            vec![AvailableTool::FusedDepositionPrinter],
        ),
        Err(SchemaError::MissingSupportedMaterials)
    );
    assert_eq!(
        ManufacturingConstraints::new(
            BuildVolume::new(256, 256, 256).unwrap(),
            vec![Material::Pla],
            LayerHeight::new_mm(mm32(0.2)).unwrap(),
            Tolerance::plus_minus_mm(mm32(0.2)).unwrap(),
            Vec::new(),
        ),
        Err(SchemaError::MissingAvailableTools)
    );
}

#[test]
fn explicit_construction_matches_the_canonical_prototype() {
    let target = ManufacturingTarget::new(
        ManufacturingEnvironment::new("Home workshop"),
        ProcessType::FusedDepositionModeling,
        MachineIdentity::new("Bambu Lab", "P1S"),
    );

    let constraints = ManufacturingConstraints::new(
        BuildVolume::new(256, 256, 256).unwrap(),
        vec![Material::Pla],
        LayerHeight::new_mm(mm32(0.2)).unwrap(),
        Tolerance::plus_minus_mm(mm32(0.2)).unwrap(),
        vec![AvailableTool::FusedDepositionPrinter],
    )
    .unwrap();

    let constructed = ManufacturingContext::new(target, constraints);

    assert_eq!(constructed, ManufacturingContext::initial_prototype());
}

#[test]
fn scaffold_exports_root_context_type() {
    let _ = schema::ManufacturingContext::default();
}

#[test]
fn non_positive_limits_are_refused_in_every_field() {
    assert_eq!(BuildVolume::new(256, 0, 256), Err(SchemaError::BuildVolumeMustBePositive));
    assert_eq!(BuildVolume::new(256, 256, 0), Err(SchemaError::BuildVolumeMustBePositive));
    assert_eq!(LayerHeight::new_mm(mm32(-0.1)), Err(SchemaError::LayerHeightMustBePositive));
    assert_eq!(Tolerance::plus_minus_mm(mm32(-0.0)), Err(SchemaError::ToleranceMustBePositive));
    assert!(LayerHeight::new_mm(mm32(0.05)).is_ok());
    assert_eq!(BuildVolume::new(1, 2, 3).unwrap().z_mm, 3);
}

#[test]
fn cloned_contexts_keep_every_field() {
    let prototype = ManufacturingContext::initial_prototype();
    assert_eq!(prototype.clone(), prototype);
}
