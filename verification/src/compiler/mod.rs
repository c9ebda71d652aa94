//! Prototype compilation pipeline: context and graph checks, the manufacturing plan and the
//! printable artefacts.

pub mod artifact;
pub mod message;
pub mod pipeline;
pub mod spinner;
pub mod staging;

use crate::context::{
    BuildVolume, LayerHeight, MachineIdentity, ManufacturingContext, Material, ProcessType,
    Tolerance,
};
use crate::ieee::Binary64;
use crate::ir::{EdgeKind, GraphError, IrGraph, NodeKind};
use crate::sdk::{LoweringError, ValidationIssue};
pub use artifact::{
    PrototypeArtifact, PrototypeArtifactFormat, PrototypeLengthUnit, PrototypeTriangle,
    PrototypeTriangleMesh, PrototypeVertex,
};
use vstd::prelude::*;

verus! {

/// Structured result returned when the prototype compiler accepts an input.
#[derive(Debug, Clone, PartialEq)]
pub struct PrototypeCompilation {
    /// Name of the root design being compiled.
    pub design_name: String,
    /// Prototype profile accepted by the compiler.
    pub profile: PrototypeProfile,
    /// Canonical lowered IR graph accepted by the compiler.
    pub graph: IrGraph,
    /// Manufacturing context validated against the supported prototype target.
    pub manufacturing: ManufacturingContext,
    /// Deterministic single-process manufacturing plan for the prototype.
    pub plan: PrototypePlan,
    /// Printable artefacts produced for the prototype backend.
    pub artifacts: Vec<PrototypeArtifact>,
    /// Structured validation and pass report for the compilation.
    pub report: PrototypeCompileReport,
}

/// Supported prototype profile for this milestone.
#[derive(Debug, Clone, Copy, PartialEq, Eq, Structural)]
pub enum PrototypeProfile {
    /// PLA, Bambu Lab P1S, and a single FDM manufacturing process.
    PlaOnP1sSingleProcess,
}

/// Deterministic manufacturing plan produced for the supported prototype.
#[derive(Debug, Clone, PartialEq)]
pub struct PrototypePlan {
    pub machine: MachineIdentity,
    pub process: ProcessType,
    pub material: Material,
    pub build_volume: BuildVolume,
    pub nominal_layer_height: LayerHeight,
    pub achievable_tolerance: Tolerance,
    pub parts: Vec<PrototypePartPlan>,
    pub connections: Vec<PrototypeConnectionPlan>,
}

/// Deterministic manufacturing assignment for a compiled part.
#[derive(Debug, Clone, PartialEq, Eq)]
pub struct PrototypePartPlan {
    pub part: String,
    pub material: Material,
}

/// Deterministic manufacturing assignment for a compiled connection.
#[derive(Debug, Clone, PartialEq, Eq)]
pub struct PrototypeConnectionPlan {
    pub name: String,
    pub kind: PrototypeConnectionKind,
}

/// Connection kinds accepted by the prototype pipeline.
#[derive(Debug, Clone, Copy, PartialEq, Eq, Structural)]
pub enum PrototypeConnectionKind {
    Fixed,
}

/// Structured report describing the prototype pass sequence.
#[derive(Debug, Clone, PartialEq)]
pub struct PrototypeCompileReport {
    pub executed_passes: Vec<PrototypePass>,
    pub validated_part_count: usize,
    pub validated_connection_count: usize,
    pub validated_dimensions: Vec<PrototypeDimensionCheck>,
}

/// Deterministic passes executed by the prototype compiler.
#[derive(Debug, Clone, Copy, PartialEq, Eq, Structural)]
pub enum PrototypePass {
    ValidatePrototypeContext,
    ValidateLoweredGraph,
    ValidateBuildEnvelope,
    AssembleSingleProcessPlan,
    SynthesizeArtifacts,
}

/// Successful dimensional validation performed during compilation.
#[derive(Debug, Clone, PartialEq)]
pub struct PrototypeDimensionCheck {
    pub name: String,
    pub value_mm: Binary64,
    pub build_volume_limit_mm: u16,
}

/// A manufacturing-context value named in a mismatch report.
#[derive(Debug, Clone, PartialEq)]
pub enum ContextValue {
    Text(String),
    Process(ProcessType),
    BuildVolume(BuildVolume),
    Materials(Vec<Material>),
    LayerHeight(LayerHeight),
    Tolerance(Tolerance),
}

/// Errors returned when compiling the prototype design.
#[derive(Debug, Clone, PartialEq)]
pub enum CompileError {
    Lowering(LoweringError),
    UnsupportedPrototypeContext { field: &'static str, expected: ContextValue, found: ContextValue },
    UnsupportedNodeKind { kind: NodeKind },
    UnsupportedEdgeKind { kind: EdgeKind },
    UnsupportedInterfaceKind { interface: String, kind: String },
    UnsupportedMaterial { material: String },
    UnsupportedConnectionKind { connection: String, kind: String },
    UnsupportedPrototypeShape { design: String, reason: String },
    InvalidPartMaterialAssignments { part: String, count: usize },
    InvalidGraphRelationship { edge: EdgeKind, source: String, target: String },
    ExceedsBuildVolume { name: String, value_mm: Binary64, limit_mm: u16 },
    InvalidGraphAttribute { element: String, attribute: &'static str, expected: &'static str },
}

/// What a context value says, with texts as character sequences.
pub enum ContextValueView {
    Text(Seq<char>),
    Process(ProcessType),
    BuildVolume(BuildVolume),
    Materials(Seq<Material>),
    LayerHeight(LayerHeight),
    Tolerance(Tolerance),
}

impl View for ContextValue {
    type V = ContextValueView;

    open spec fn view(&self) -> ContextValueView {
        match self {
            ContextValue::Text(s) => ContextValueView::Text(s@),
            ContextValue::Process(p) => ContextValueView::Process(*p),
            ContextValue::BuildVolume(b) => ContextValueView::BuildVolume(*b),
            ContextValue::Materials(m) => ContextValueView::Materials(m@),
            ContextValue::LayerHeight(l) => ContextValueView::LayerHeight(*l),
            ContextValue::Tolerance(t) => ContextValueView::Tolerance(*t),
        }
    }
}

/// What a lowering error says.
pub enum LoweringIssue {
    Validation(ValidationIssue),
    Graph(GraphError),
}

impl View for LoweringError {
    type V = LoweringIssue;

    open spec fn view(&self) -> LoweringIssue {
        match self {
            LoweringError::Validation(e) => LoweringIssue::Validation(e@),
            LoweringError::Graph(g) => LoweringIssue::Graph(*g),
        }
    }
}

/// What a compile error says, with texts as character sequences.
pub enum CompileIssue {
    Lowering(LoweringIssue),
    UnsupportedPrototypeContext {
        field: Seq<char>,
        expected: ContextValueView,
        found: ContextValueView,
    },
    UnsupportedNodeKind { kind: NodeKind },
    UnsupportedEdgeKind { kind: EdgeKind },
    UnsupportedInterfaceKind { interface: Seq<char>, kind: Seq<char> },
    UnsupportedMaterial { material: Seq<char> },
    UnsupportedConnectionKind { connection: Seq<char>, kind: Seq<char> },
    UnsupportedPrototypeShape { design: Seq<char>, reason: Seq<char> },
    InvalidPartMaterialAssignments { part: Seq<char>, count: nat },
    InvalidGraphRelationship { edge: EdgeKind, source: Seq<char>, target: Seq<char> },
    ExceedsBuildVolume { name: Seq<char>, value_mm: Binary64, limit_mm: u16 },
    InvalidGraphAttribute { element: Seq<char>, attribute: Seq<char>, expected: Seq<char> },
}

impl View for CompileError {
    type V = CompileIssue;

    open spec fn view(&self) -> CompileIssue {
        match self {
            CompileError::Lowering(e) => CompileIssue::Lowering(e@),
            CompileError::UnsupportedPrototypeContext { field, expected, found } => {
                CompileIssue::UnsupportedPrototypeContext {
                    field: field@,
                    expected: expected@,
                    found: found@,
                }
            },
            CompileError::UnsupportedNodeKind { kind } => CompileIssue::UnsupportedNodeKind {
                kind: *kind,
            },
            CompileError::UnsupportedEdgeKind { kind } => CompileIssue::UnsupportedEdgeKind {
                kind: *kind,
            },
            CompileError::UnsupportedInterfaceKind { interface, kind } => {
                CompileIssue::UnsupportedInterfaceKind { interface: interface@, kind: kind@ }
            },
            CompileError::UnsupportedMaterial { material } => CompileIssue::UnsupportedMaterial {
                material: material@,
            },
            CompileError::UnsupportedConnectionKind { connection, kind } => {
                CompileIssue::UnsupportedConnectionKind { connection: connection@, kind: kind@ }
            },
            CompileError::UnsupportedPrototypeShape { design, reason } => {
                CompileIssue::UnsupportedPrototypeShape { design: design@, reason: reason@ }
            },
            CompileError::InvalidPartMaterialAssignments { part, count } => {
                CompileIssue::InvalidPartMaterialAssignments { part: part@, count: *count as nat }
            },
            CompileError::InvalidGraphRelationship { edge, source, target } => {
                CompileIssue::InvalidGraphRelationship {
                    edge: *edge,
                    source: source@,
                    target: target@,
                }
            },
            CompileError::ExceedsBuildVolume { name, value_mm, limit_mm } => {
                CompileIssue::ExceedsBuildVolume {
                    name: name@,
                    value_mm: *value_mm,
                    limit_mm: *limit_mm,
                }
            },
            CompileError::InvalidGraphAttribute { element, attribute, expected } => {
                CompileIssue::InvalidGraphAttribute {
                    element: element@,
                    attribute: attribute@,
                    expected: expected@,
                }
            },
        }
    }
}

impl PrototypeCompilation {
    /// The index of the first artefact with the given name.
    pub open spec fn artifact_index(self, name: Seq<char>) -> Option<int> {
        if exists|i: int| 0 <= i < self.artifacts@.len() && #[trigger] self.artifacts@[i].name@ == name {
            Some(
                choose|i: int|
                    0 <= i < self.artifacts@.len() && self.artifacts@[i].name@ == name && forall|j: int|
                        0 <= j < i ==> #[trigger] self.artifacts@[j].name@ != name,
            )
        } else {
            None
        }
    }

    /// Returns the first compiled artefact with the provided name.
    pub fn artifact(&self, name: &str) -> (r: Option<&PrototypeArtifact>)
        ensures
            r is None <==> self.artifact_index(name@) is None,
            r matches Some(a) ==> *a == self.artifacts@[self.artifact_index(name@).unwrap()],
    {
        let n = self.artifacts.len();
        let mut i: usize = 0;
        while i < n
            invariant
                n == self.artifacts@.len(),
                i <= n,
                forall|j: int| 0 <= j < i ==> #[trigger] self.artifacts@[j].name@ != name@,
            decreases n - i,
        {
            if let crate::attrs::TextOrder::Equal = crate::attrs::text_order(
                self.artifacts[i].name.as_str(),
                name,
            ) {
                proof {
                    let k = choose|k: int|
                        0 <= k < self.artifacts@.len() && self.artifacts@[k].name@ == name@ && forall|j: int|
                            0 <= j < k ==> #[trigger] self.artifacts@[j].name@ != name@;
                    if k < i {
                        assert(self.artifacts@[k].name@ != name@);
                    } else if k > i {
                        assert(self.artifacts@[i as int].name@ != name@);
                    }
                }
                return Some(&self.artifacts[i]);
            }
            i = i + 1;
        }
        None
    }

    /// Returns the number of nodes in the compiled IR graph.
    pub fn node_count(&self) -> (r: usize)
        ensures
            r == self.graph.node_seq().len(),
    {
        self.graph.nodes().len()
    }

    /// Returns the number of edges in the compiled IR graph.
    pub fn edge_count(&self) -> (r: usize)
        ensures
            r == self.graph.edge_seq().len(),
    {
        self.graph.edges().len()
    }
}

} // verus!
