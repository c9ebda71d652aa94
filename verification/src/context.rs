//! Manufacturing environment abstractions: the target machine, its process and its limits.

use crate::ieee::{lemma_normal_positive_32, Binary32};
use vstd::prelude::*;

verus! {

/// Root type describing a concrete manufacturing target and its constraints.
#[derive(Debug, PartialEq)]
pub struct ManufacturingContext {
    pub target: ManufacturingTarget,
    pub constraints: ManufacturingConstraints,
}

#[derive(Debug, PartialEq)]
pub struct ManufacturingTarget {
    pub environment: ManufacturingEnvironment,
    pub process: ProcessType,
    pub machine: MachineIdentity,
}

#[derive(Debug, PartialEq)]
pub struct ManufacturingEnvironment {
    pub name: String,
}

#[derive(Debug, PartialEq)]
pub struct MachineIdentity {
    pub manufacturer: String,
    pub model: String,
}

#[derive(Debug, PartialEq)]
pub struct ManufacturingConstraints {
    pub build_volume: BuildVolume,
    pub supported_materials: Vec<Material>,
    pub nominal_layer_height: LayerHeight,
    pub achievable_tolerance: Tolerance,
    pub available_tools: Vec<AvailableTool>,
}

#[derive(Debug, Clone, Copy, PartialEq, Eq, Structural)]
pub enum ProcessType {
    FusedDepositionModeling,
}

#[derive(Debug, Clone, Copy, PartialEq, Eq, Structural)]
pub enum Material {
    Pla,
}

#[derive(Debug, Clone, Copy, PartialEq, Eq, Structural)]
pub enum AvailableTool {
    FusedDepositionPrinter,
}

#[derive(Debug, Clone, Copy, PartialEq, Eq, Structural)]
pub struct BuildVolume {
    pub x_mm: u16,
    pub y_mm: u16,
    pub z_mm: u16,
}

#[derive(Debug, Clone, Copy, PartialEq)]
pub struct LayerHeight {
    pub millimeters: Binary32,
}

#[derive(Debug, Clone, Copy, PartialEq)]
pub struct Tolerance {
    pub plus_minus_mm: Binary32,
}

#[derive(Debug, Clone, Copy, PartialEq, Eq, Structural)]
pub enum SchemaError {
    BuildVolumeMustBePositive,
    LayerHeightMustBePositive,
    ToleranceMustBePositive,
    MissingSupportedMaterials,
    MissingAvailableTools,
}

impl ManufacturingConstraints {
    /// The same limits, materials and tools.
    pub open spec fn same_as(self, other: Self) -> bool {
        &&& self.build_volume == other.build_volume
        &&& self.supported_materials@ == other.supported_materials@
        &&& self.nominal_layer_height == other.nominal_layer_height
        &&& self.achievable_tolerance == other.achievable_tolerance
        &&& self.available_tools@ == other.available_tools@
    }
}

impl ManufacturingContext {
    /// The same target and the same constraints.
    pub open spec fn same_as(self, other: Self) -> bool {
        self.target == other.target && self.constraints.same_as(other.constraints)
    }
}

fn copy_materials(v: &Vec<Material>) -> (r: Vec<Material>)
    ensures
        r@ == v@,
{
    let mut r: Vec<Material> = Vec::new();
    let mut i: usize = 0;
    while i < v.len()
        invariant
            i <= v@.len(),
            r@ == v@.take(i as int),
        decreases v@.len() - i,
    {
        r.push(v[i]);
        assert(r@ =~= v@.take(i + 1));
        i = i + 1;
    }
    assert(v@.take(v@.len() as int) =~= v@);
    r
}

fn copy_tools(v: &Vec<AvailableTool>) -> (r: Vec<AvailableTool>)
    ensures
        r@ == v@,
{
    let mut r: Vec<AvailableTool> = Vec::new();
    let mut i: usize = 0;
    while i < v.len()
        invariant
            i <= v@.len(),
            r@ == v@.take(i as int),
        decreases v@.len() - i,
    {
        r.push(v[i]);
        assert(r@ =~= v@.take(i + 1));
        i = i + 1;
    }
    assert(v@.take(v@.len() as int) =~= v@);
    r
}

impl Clone for ManufacturingEnvironment {
    fn clone(&self) -> (r: Self)
        ensures
            r == *self,
    {
        ManufacturingEnvironment { name: self.name.clone() }
    }
}

impl Clone for MachineIdentity {
    fn clone(&self) -> (r: Self)
        ensures
            r == *self,
    {
        MachineIdentity { manufacturer: self.manufacturer.clone(), model: self.model.clone() }
    }
}

impl Clone for ManufacturingTarget {
    fn clone(&self) -> (r: Self)
        ensures
            r == *self,
    {
        ManufacturingTarget {
            environment: self.environment.clone(),
            process: self.process,
            machine: self.machine.clone(),
        }
    }
}

impl Clone for ManufacturingConstraints {
    fn clone(&self) -> (r: Self)
        ensures
            r.same_as(*self),
    {
        ManufacturingConstraints {
            build_volume: self.build_volume,
            supported_materials: copy_materials(&self.supported_materials),
            nominal_layer_height: self.nominal_layer_height,
            achievable_tolerance: self.achievable_tolerance,
            available_tools: copy_tools(&self.available_tools),
        }
    }
}

impl Clone for ManufacturingContext {
    fn clone(&self) -> (r: Self)
        ensures
            r.same_as(*self),
    {
        ManufacturingContext { target: self.target.clone(), constraints: self.constraints.clone() }
    }
}

/// Encoding of the prototype's nominal layer height and tolerance, 0.2 mm as binary32.
pub const PROTOTYPE_TENTH_PAIR_BITS: u32 = 0x3E4C_CCCD;

impl ManufacturingContext {
    /// Creates a manufacturing context from its target and constraints parts.
    pub fn new(target: ManufacturingTarget, constraints: ManufacturingConstraints) -> (r: Self)
        ensures
            r.target == target,
            r.constraints == constraints,
    {
        ManufacturingContext { target, constraints }
    }

    /// The canonical prototype context: a Bambu Lab P1S in a home workshop, FDM, PLA,
    /// 256 mm cube, 0.2 mm layers, plus or minus 0.2 mm.
    pub open spec fn is_initial_prototype(self) -> bool {
        &&& self.target.environment.name@ == "Home workshop"@
        &&& self.target.process == ProcessType::FusedDepositionModeling
        &&& self.target.machine.manufacturer@ == "Bambu Lab"@
        &&& self.target.machine.model@ == "P1S"@
        &&& self.constraints.build_volume == (BuildVolume { x_mm: 256, y_mm: 256, z_mm: 256 })
        &&& self.constraints.supported_materials@ == seq![Material::Pla]
        &&& self.constraints.nominal_layer_height.millimeters.bits == PROTOTYPE_TENTH_PAIR_BITS
        &&& self.constraints.achievable_tolerance.plus_minus_mm.bits == PROTOTYPE_TENTH_PAIR_BITS
        &&& self.constraints.available_tools@ == seq![AvailableTool::FusedDepositionPrinter]
    }

    /// Canonical manufacturing context for the initial prototype.
    pub fn initial_prototype() -> (r: Self)
        ensures
            r.is_initial_prototype(),
    {
        let target = ManufacturingTarget::new(
            ManufacturingEnvironment::new("Home workshop"),
            ProcessType::FusedDepositionModeling,
            MachineIdentity::new("Bambu Lab", "P1S"),
        );
        let tenth = Binary32::from_bits(PROTOTYPE_TENTH_PAIR_BITS);
        proof {
            lemma_normal_positive_32(tenth);
        }
        let build_volume = BuildVolume::new(256, 256, 256).unwrap();
        let layer_height = LayerHeight::new_mm(tenth).unwrap();
        let tolerance = Tolerance::plus_minus_mm(tenth).unwrap();
        let constraints = ManufacturingConstraints::new(
            build_volume,
            vec![Material::Pla],
            layer_height,
            tolerance,
            vec![AvailableTool::FusedDepositionPrinter],
        ).unwrap();
        let r = Self::new(target, constraints);
        assert(r.constraints.supported_materials@ =~= seq![Material::Pla]);
        assert(r.constraints.available_tools@ =~= seq![AvailableTool::FusedDepositionPrinter]);
        r
    }
}

impl ManufacturingTarget {
    pub fn new(
        environment: ManufacturingEnvironment,
        process: ProcessType,
        machine: MachineIdentity,
    ) -> (r: Self)
        ensures
            r.environment == environment,
            r.process == process,
            r.machine == machine,
    {
        ManufacturingTarget { environment, process, machine }
    }
}

impl ManufacturingEnvironment {
    pub fn new(name: &str) -> (r: Self)
        ensures
            r.name@ == name@,
    {
        ManufacturingEnvironment { name: name.to_owned() }
    }
}

impl MachineIdentity {
    pub fn new(manufacturer: &str, model: &str) -> (r: Self)
        ensures
            r.manufacturer@ == manufacturer@,
            r.model@ == model@,
    {
        MachineIdentity { manufacturer: manufacturer.to_owned(), model: model.to_owned() }
    }
}

impl ManufacturingConstraints {
    /// Checks that at least one material and one tool are listed.
    pub fn new(
        build_volume: BuildVolume,
        supported_materials: Vec<Material>,
        nominal_layer_height: LayerHeight,
        achievable_tolerance: Tolerance,
        available_tools: Vec<AvailableTool>,
    ) -> (r: Result<Self, SchemaError>)
        ensures
            supported_materials.len() == 0 ==> r == Err::<Self, SchemaError>(
                SchemaError::MissingSupportedMaterials,
            ),
            supported_materials.len() != 0 && available_tools.len() == 0 ==> r == Err::<
                Self,
                SchemaError,
            >(SchemaError::MissingAvailableTools),
            supported_materials.len() != 0 && available_tools.len() != 0 ==> r == Ok::<
                Self,
                SchemaError,
            >(
                ManufacturingConstraints {
                    build_volume,
                    supported_materials,
                    nominal_layer_height,
                    achievable_tolerance,
                    available_tools,
                },
            ),
    {
        if supported_materials.len() == 0 {
            return Err(SchemaError::MissingSupportedMaterials);
        }
        if available_tools.len() == 0 {
            return Err(SchemaError::MissingAvailableTools);
        }
        Ok(
            ManufacturingConstraints {
                build_volume,
                supported_materials,
                nominal_layer_height,
                achievable_tolerance,
                available_tools,
            },
        )
    }
}

impl BuildVolume {
    /// Every edge of the build volume must be longer than zero.
    pub fn new(x_mm: u16, y_mm: u16, z_mm: u16) -> (r: Result<Self, SchemaError>)
        ensures
            (x_mm == 0 || y_mm == 0 || z_mm == 0) ==> r == Err::<Self, SchemaError>(
                SchemaError::BuildVolumeMustBePositive,
            ),
            (x_mm != 0 && y_mm != 0 && z_mm != 0) ==> r == Ok::<Self, SchemaError>(
                BuildVolume { x_mm, y_mm, z_mm },
            ),
    {
        if x_mm == 0 || y_mm == 0 || z_mm == 0 {
            return Err(SchemaError::BuildVolumeMustBePositive);
        }
        Ok(BuildVolume { x_mm, y_mm, z_mm })
    }

    /// The largest edge of the build volume.
    pub open spec fn max_edge(self) -> u16 {
        if self.x_mm >= self.y_mm && self.x_mm >= self.z_mm {
            self.x_mm
        } else if self.y_mm >= self.z_mm {
            self.y_mm
        } else {
            self.z_mm
        }
    }
}

impl LayerHeight {
    /// A layer height must be a number greater than zero (NaN is let through, as `<=` is false).
    pub fn new_mm(millimeters: Binary32) -> (r: Result<Self, SchemaError>)
        ensures
            millimeters.at_most_zero() ==> r == Err::<Self, SchemaError>(
                SchemaError::LayerHeightMustBePositive,
            ),
            !millimeters.at_most_zero() ==> r == Ok::<Self, SchemaError>(
                LayerHeight { millimeters },
            ),
    {
        if millimeters.is_at_most_zero() {
            return Err(SchemaError::LayerHeightMustBePositive);
        }
        Ok(LayerHeight { millimeters })
    }
}

impl Tolerance {
    /// A tolerance must be a number greater than zero (NaN is let through, as `<=` is false).
    pub fn plus_minus_mm(plus_minus_mm: Binary32) -> (r: Result<Self, SchemaError>)
        ensures
            plus_minus_mm.at_most_zero() ==> r == Err::<Self, SchemaError>(
                SchemaError::ToleranceMustBePositive,
            ),
            !plus_minus_mm.at_most_zero() ==> r == Ok::<Self, SchemaError>(
                Tolerance { plus_minus_mm },
            ),
    {
        if plus_minus_mm.is_at_most_zero() {
            return Err(SchemaError::ToleranceMustBePositive);
        }
        Ok(Tolerance { plus_minus_mm })
    }
}

} // verus!
