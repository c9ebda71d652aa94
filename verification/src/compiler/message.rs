//! The human-readable message of a compile error. Numbers held as binary64 or binary32
//! encodings are printed by the caller and handed in as text; everything else is spelled out
//! here, with identifiers and values as `Debug` prints them.

use super::{CompileError, CompileIssue, ContextValue, ContextValueView, LoweringIssue};
use crate::context::{BuildVolume, Material, ProcessType};
use crate::ir::{GraphError, NodeKind};
use crate::sdk::{LoweringError, ValidationError, ValidationIssue};
use crate::text::{debug_quoted, debug_text, decimal, push_decimal};
use vstd::prelude::*;

verus! {

/// A node kind's variant name, as `Debug` prints it.
pub open spec fn node_kind_text(k: NodeKind) -> Seq<char> {
    match k {
        NodeKind::System => "System"@,
        NodeKind::Assembly => "Assembly"@,
        NodeKind::Part => "Part"@,
        NodeKind::Interface => "Interface"@,
        NodeKind::Constraint => "Constraint"@,
        NodeKind::Material => "Material"@,
        NodeKind::Process => "Process"@,
        NodeKind::Artifact => "Artifact"@,
    }
}

pub open spec fn material_debug(m: Material) -> Seq<char> {
    match m {
        Material::Pla => "Pla"@,
    }
}

pub open spec fn process_debug(p: ProcessType) -> Seq<char> {
    match p {
        ProcessType::FusedDepositionModeling => "FusedDepositionModeling"@,
    }
}

/// The materials of a list, separated by `, `.
pub open spec fn material_items(ms: Seq<Material>) -> Seq<char>
    decreases ms.len(),
{
    if ms.len() == 0 {
        Seq::empty()
    } else if ms.len() == 1 {
        material_debug(ms[0])
    } else {
        material_items(ms.drop_last()) + ", "@ + material_debug(ms.last())
    }
}

pub open spec fn build_volume_debug(b: BuildVolume) -> Seq<char> {
    "BuildVolume { x_mm: "@ + decimal(b.x_mm as nat) + ", y_mm: "@ + decimal(b.y_mm as nat)
        + ", z_mm: "@ + decimal(b.z_mm as nat) + " }"@
}

/// A context value as `Debug` prints it; `number` is the printed binary32 of a layer height
/// or a tolerance.
pub open spec fn context_debug(v: ContextValueView, number: Seq<char>) -> Seq<char> {
    match v {
        ContextValueView::Text(s) => debug_text(s),
        ContextValueView::Process(p) => process_debug(p),
        ContextValueView::BuildVolume(b) => build_volume_debug(b),
        ContextValueView::Materials(ms) => "["@ + material_items(ms) + "]"@,
        ContextValueView::LayerHeight(_) => "LayerHeight { millimeters: "@ + number + " }"@,
        ContextValueView::Tolerance(_) => "Tolerance { plus_minus_mm: "@ + number + " }"@,
    }
}

/// A validation error as `Debug` prints it; `number` is the printed binary64 of an invalid
/// length.
pub open spec fn validation_debug(e: ValidationIssue, number: Seq<char>) -> Seq<char> {
    match e {
        ValidationIssue::EmptyName(s) => "EmptyName("@ + debug_text(s) + ")"@,
        ValidationIssue::EmptyAssembly(s) => "EmptyAssembly("@ + debug_text(s) + ")"@,
        ValidationIssue::DuplicateComponentId(s) => "DuplicateComponentId("@ + debug_text(s) + ")"@,
        ValidationIssue::DuplicateInterfaceId { component, interface } => "DuplicateInterfaceId { component: "@
            + debug_text(component) + ", interface: "@ + debug_text(interface) + " }"@,
        ValidationIssue::MissingConnectionComponent { connection, component } =>
            "MissingConnectionComponent { connection: "@ + debug_text(connection) + ", component: "@
            + debug_text(component) + " }"@,
        ValidationIssue::MissingConnectionInterface { connection, component, interface } =>
            "MissingConnectionInterface { connection: "@ + debug_text(connection) + ", component: "@
            + debug_text(component) + ", interface: "@ + debug_text(interface) + " }"@,
        ValidationIssue::UnsupportedMaterial { part, material } => "UnsupportedMaterial { part: "@
            + debug_text(part) + ", material: "@ + material_debug(material) + " }"@,
        ValidationIssue::InvalidLength { name, value_mm } => "InvalidLength { name: "@ + debug_text(
            name,
        ) + ", value_mm: "@ + number + " }"@,
    }
}

/// A lowering error as `Debug` prints it.
pub open spec fn lowering_debug(e: LoweringIssue, number: Seq<char>) -> Seq<char> {
    match e {
        LoweringIssue::Validation(v) => "Validation("@ + validation_debug(v, number) + ")"@,
        LoweringIssue::Graph(GraphError::MissingNode(id)) => "Graph(MissingNode(NodeId("@ + decimal(
            id.index(),
        ) + ")))"@,
    }
}

/// The message of a compile error. `value` is the printed binary64 that the error carries (its
/// `Display` for a dimension over the build volume, its `Debug` inside an invalid length);
/// `expected` and `found` are the printed binary32 of mismatched layer heights or tolerances.
pub open spec fn compile_message(e: CompileIssue, value: Seq<char>, expected: Seq<char>, found: Seq<char>) -> Seq<char> {
    match e {
        CompileIssue::Lowering(l) => "failed to lower design into IR: "@ + lowering_debug(l, value),
        CompileIssue::UnsupportedPrototypeContext { field, expected: ev, found: fv } =>
            "unsupported prototype context for "@ + field + ": expected "@ + context_debug(ev, expected)
            + ", found "@ + context_debug(fv, found),
        CompileIssue::UnsupportedNodeKind { kind } => "unsupported prototype node kind: "@
            + node_kind_text(kind),
        CompileIssue::UnsupportedEdgeKind { kind } => "unsupported prototype edge kind: "@
            + kind.name_text(),
        CompileIssue::UnsupportedInterfaceKind { interface, kind } => "unsupported interface kind for "@
            + interface + ": "@ + kind,
        CompileIssue::UnsupportedMaterial { material } => "unsupported prototype material: "@
            + material,
        CompileIssue::UnsupportedConnectionKind { connection, kind } =>
            "unsupported connection kind for "@ + connection + ": "@ + kind,
        CompileIssue::UnsupportedPrototypeShape { design, reason } => "unsupported prototype shape for "@
            + design + ": "@ + reason,
        CompileIssue::InvalidPartMaterialAssignments { part, count } => "part "@ + part
            + " must have exactly one prototype material assignment, found "@ + decimal(count),
        CompileIssue::InvalidGraphRelationship { edge, source, target } =>
            "invalid prototype graph relationship "@ + edge.name_text() + ": "@ + source + " -> "@
            + target,
        CompileIssue::ExceedsBuildVolume { name, value_mm, limit_mm } => "constraint "@ + name
            + " exceeds prototype build volume: "@ + value + "mm > "@ + decimal(limit_mm as nat)
            + "mm"@,
        CompileIssue::InvalidGraphAttribute { element, attribute, expected } =>
            "invalid graph attribute "@ + attribute + " on "@ + element + ": expected "@ + expected,
    }
}

fn push(out: &mut String, s: &str)
    ensures
        final(out)@ == old(out)@ + s@,
{
    out.append(s);
}

fn push_quoted(out: &mut String, s: &str)
    ensures
        final(out)@ == old(out)@ + debug_text(s@),
{
    let q = debug_quoted(s);
    out.append(q.as_str());
}

fn node_kind_name(k: NodeKind) -> (r: &'static str)
    ensures
        r@ == node_kind_text(k),
{
    match k {
        NodeKind::System => "System",
        NodeKind::Assembly => "Assembly",
        NodeKind::Part => "Part",
        NodeKind::Interface => "Interface",
        NodeKind::Constraint => "Constraint",
        NodeKind::Material => "Material",
        NodeKind::Process => "Process",
        NodeKind::Artifact => "Artifact",
    }
}

fn material_name(m: Material) -> (r: &'static str)
    ensures
        r@ == material_debug(m),
{
    match m {
        Material::Pla => "Pla",
    }
}

fn push_materials(out: &mut String, ms: &Vec<Material>)
    ensures
        final(out)@ == old(out)@ + material_items(ms@),
{
    let ghost start = out@;
    let n = ms.len();
    let mut i: usize = 0;
    while i < n
        invariant
            n == ms@.len(),
            i <= n,
            out@ == start + material_items(ms@.take(i as int)),
        decreases n - i,
    {
        let ghost before = out@;
        if i > 0 {
            push(out, ", ");
        }
        push(out, material_name(ms[i]));
        proof {
            let t = ms@.take(i + 1);
            assert(t.drop_last() =~= ms@.take(i as int));
            assert(t.last() == ms@[i as int]);
            if i == 0 {
                assert(material_items(ms@.take(0)) =~= Seq::<char>::empty());
            }
            assert(out@ =~= start + material_items(t));
        }
        i = i + 1;
    }
    assert(ms@.take(n as int) =~= ms@);
}

fn push_context(out: &mut String, v: &ContextValue, number: &str)
    ensures
        final(out)@ == old(out)@ + context_debug(v@, number@),
{
    let ghost start = out@;
    match v {
        ContextValue::Text(s) => {
            push_quoted(out, s.as_str());
        },
        ContextValue::Process(p) => {
            match p {
                ProcessType::FusedDepositionModeling => push(out, "FusedDepositionModeling"),
            }
        },
        ContextValue::BuildVolume(b) => {
            push(out, "BuildVolume { x_mm: ");
            push_decimal(out, b.x_mm as u64);
            push(out, ", y_mm: ");
            push_decimal(out, b.y_mm as u64);
            push(out, ", z_mm: ");
            push_decimal(out, b.z_mm as u64);
            push(out, " }");
        },
        ContextValue::Materials(ms) => {
            push(out, "[");
            push_materials(out, ms);
            push(out, "]");
        },
        ContextValue::LayerHeight(_) => {
            push(out, "LayerHeight { millimeters: ");
            push(out, number);
            push(out, " }");
        },
        ContextValue::Tolerance(_) => {
            push(out, "Tolerance { plus_minus_mm: ");
            push(out, number);
            push(out, " }");
        },
    }
    assert(out@ =~= start + context_debug(v@, number@));
}

fn push_validation(out: &mut String, e: &ValidationError, number: &str)
    ensures
        final(out)@ == old(out)@ + validation_debug(e@, number@),
{
    let ghost start = out@;
    match e {
        ValidationError::EmptyName(s) => {
            push(out, "EmptyName(");
            push_quoted(out, s);
            push(out, ")");
        },
        ValidationError::EmptyAssembly(s) => {
            push(out, "EmptyAssembly(");
            push_quoted(out, s.as_str());
            push(out, ")");
        },
        ValidationError::DuplicateComponentId(s) => {
            push(out, "DuplicateComponentId(");
            push_quoted(out, s.as_str());
            push(out, ")");
        },
        ValidationError::DuplicateInterfaceId { component, interface } => {
            push(out, "DuplicateInterfaceId { component: ");
            push_quoted(out, component.as_str());
            push(out, ", interface: ");
            push_quoted(out, interface.as_str());
            push(out, " }");
        },
        ValidationError::MissingConnectionComponent { connection, component } => {
            push(out, "MissingConnectionComponent { connection: ");
            push_quoted(out, connection.as_str());
            push(out, ", component: ");
            push_quoted(out, component.as_str());
            push(out, " }");
        },
        ValidationError::MissingConnectionInterface { connection, component, interface } => {
            push(out, "MissingConnectionInterface { connection: ");
            push_quoted(out, connection.as_str());
            push(out, ", component: ");
            push_quoted(out, component.as_str());
            push(out, ", interface: ");
            push_quoted(out, interface.as_str());
            push(out, " }");
        },
        ValidationError::UnsupportedMaterial { part, material } => {
            push(out, "UnsupportedMaterial { part: ");
            push_quoted(out, part.as_str());
            push(out, ", material: ");
            push(out, material_name(*material));
            push(out, " }");
        },
        ValidationError::InvalidLength { name, value_mm: _ } => {
            push(out, "InvalidLength { name: ");
            push_quoted(out, name.as_str());
            push(out, ", value_mm: ");
            push(out, number);
            push(out, " }");
        },
    }
    assert(out@ =~= start + validation_debug(e@, number@));
}

impl CompileError {
    /// The error's message. `value_text` is the printed binary64 that the error carries (its
    /// `Display` for a dimension over the build volume, its `Debug` inside an invalid length);
    /// `expected_text` and `found_text` are the printed binary32 of a mismatched layer height or
    /// tolerance. A text that the error has no use for is ignored.
    pub fn message(&self, value_text: &str, expected_text: &str, found_text: &str) -> (r: String)
        ensures
            r@ == compile_message(self@, value_text@, expected_text@, found_text@),
    {
        let mut out = String::new();
        match self {
            CompileError::Lowering(error) => {
                push(&mut out, "failed to lower design into IR: ");
                match error {
                    LoweringError::Validation(v) => {
                        push(&mut out, "Validation(");
                        push_validation(&mut out, v, value_text);
                        push(&mut out, ")");
                    },
                    LoweringError::Graph(GraphError::MissingNode(id)) => {
                        push(&mut out, "Graph(MissingNode(NodeId(");
                        push_decimal(&mut out, id.raw());
                        push(&mut out, ")))");
                    },
                }
            },
            CompileError::UnsupportedPrototypeContext { field, expected, found } => {
                push(&mut out, "unsupported prototype context for ");
                push(&mut out, field);
                push(&mut out, ": expected ");
                push_context(&mut out, expected, expected_text);
                push(&mut out, ", found ");
                push_context(&mut out, found, found_text);
            },
            CompileError::UnsupportedNodeKind { kind } => {
                push(&mut out, "unsupported prototype node kind: ");
                push(&mut out, node_kind_name(*kind));
            },
            CompileError::UnsupportedEdgeKind { kind } => {
                push(&mut out, "unsupported prototype edge kind: ");
                push(&mut out, kind.debug_name());
            },
            CompileError::UnsupportedInterfaceKind { interface, kind } => {
                push(&mut out, "unsupported interface kind for ");
                push(&mut out, interface.as_str());
                push(&mut out, ": ");
                push(&mut out, kind.as_str());
            },
            CompileError::UnsupportedMaterial { material } => {
                push(&mut out, "unsupported prototype material: ");
                push(&mut out, material.as_str());
            },
            CompileError::UnsupportedConnectionKind { connection, kind } => {
                push(&mut out, "unsupported connection kind for ");
                push(&mut out, connection.as_str());
                push(&mut out, ": ");
                push(&mut out, kind.as_str());
            },
            CompileError::UnsupportedPrototypeShape { design, reason } => {
                push(&mut out, "unsupported prototype shape for ");
                push(&mut out, design.as_str());
                push(&mut out, ": ");
                push(&mut out, reason.as_str());
            },
            CompileError::InvalidPartMaterialAssignments { part, count } => {
                push(&mut out, "part ");
                push(&mut out, part.as_str());
                push(&mut out, " must have exactly one prototype material assignment, found ");
                push_decimal(&mut out, *count as u64);
            },
            CompileError::InvalidGraphRelationship { edge, source, target } => {
                push(&mut out, "invalid prototype graph relationship ");
                push(&mut out, edge.debug_name());
                push(&mut out, ": ");
                push(&mut out, source.as_str());
                push(&mut out, " -> ");
                push(&mut out, target.as_str());
            },
            CompileError::ExceedsBuildVolume { name, value_mm: _, limit_mm } => {
                push(&mut out, "constraint ");
                push(&mut out, name.as_str());
                push(&mut out, " exceeds prototype build volume: ");
                push(&mut out, value_text);
                push(&mut out, "mm > ");
                push_decimal(&mut out, *limit_mm as u64);
                push(&mut out, "mm");
            },
            CompileError::InvalidGraphAttribute { element, attribute, expected } => {
                push(&mut out, "invalid graph attribute ");
                push(&mut out, attribute);
                push(&mut out, " on ");
                push(&mut out, element.as_str());
                push(&mut out, ": expected ");
                push(&mut out, expected);
            },
        }
        assert(out@ =~= compile_message(self@, value_text@, expected_text@, found_text@));
        out
    }
}

} // verus!
