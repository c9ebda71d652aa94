//! The prototype pipeline: context check, graph analysis, plan assembly, and the laws that an
//! accepted compilation keeps.

use super::{
    CompileError, CompileIssue, ContextValue, ContextValueView, PrototypeCompilation,
    PrototypeCompileReport, PrototypeConnectionKind, PrototypeConnectionPlan,
    PrototypeDimensionCheck, PrototypePartPlan, PrototypePass, PrototypePlan, PrototypeProfile,
};
use crate::attrs::{text_order, TextOrder};
use crate::context::{
    BuildVolume, LayerHeight, ManufacturingContext, Material, ProcessType, Tolerance,
    PROTOTYPE_TENTH_PAIR_BITS,
};
use crate::first::{first_issue, lemma_first_issue, lemma_first_issue_none, or_else};
use crate::ieee::{Binary32, Binary64};
use crate::context::MachineIdentity;
use crate::ir::{Edge, EdgeKind, IrGraph, Node, NodeId, NodeKind, Value};
use super::staging::{
    compiled_alike, lemma_compile_issue_agrees, lemma_lowerings_agree, lemma_plan_agrees_transfer,
    prototype_plan_outcome,
};
use crate::sdk::lower::lowering_outcome;
use crate::sdk::validate::design_issue;
use crate::sdk::{Design, LoweredDesign};
use super::artifact::{PrototypeArtifact, PrototypeArtifactFormat, PrototypeTriangleMesh};
use crate::text::{decimal, push_decimal};
use vstd::prelude::*;

verus! {

// ---------------------------------------------------------------------------------------
// The prototype context.
// ---------------------------------------------------------------------------------------

pub open spec fn mismatch(field: Seq<char>, expected: ContextValueView, found: ContextValueView) -> Option<
    CompileIssue,
> {
    Some(CompileIssue::UnsupportedPrototypeContext { field, expected, found })
}

pub open spec fn text_mismatch(field: Seq<char>, expected: Seq<char>, found: Seq<char>) -> Option<
    CompileIssue,
> {
    if expected == found {
        None
    } else {
        mismatch(field, ContextValueView::Text(expected), ContextValueView::Text(found))
    }
}

/// The fields of a context, compared in order with the prototype's.
pub open spec fn context_issues(m: ManufacturingContext) -> Seq<Option<CompileIssue>> {
    let tenth = Binary32 { bits: PROTOTYPE_TENTH_PAIR_BITS };
    let volume = BuildVolume { x_mm: 256, y_mm: 256, z_mm: 256 };
    seq![
        text_mismatch("target.environment.name"@, "Home workshop"@, m.target.environment.name@),
        if m.target.process == ProcessType::FusedDepositionModeling {
            None
        } else {
            mismatch(
                "target.process"@,
                ContextValueView::Process(ProcessType::FusedDepositionModeling),
                ContextValueView::Process(m.target.process),
            )
        },
        text_mismatch("target.machine.manufacturer"@, "Bambu Lab"@, m.target.machine.manufacturer@),
        text_mismatch("target.machine.model"@, "P1S"@, m.target.machine.model@),
        if m.constraints.build_volume == volume {
            None
        } else {
            mismatch(
                "constraints.build_volume"@,
                ContextValueView::BuildVolume(volume),
                ContextValueView::BuildVolume(m.constraints.build_volume),
            )
        },
        if m.constraints.supported_materials@ == seq![Material::Pla] {
            None
        } else {
            mismatch(
                "constraints.supported_materials"@,
                ContextValueView::Materials(seq![Material::Pla]),
                ContextValueView::Materials(m.constraints.supported_materials@),
            )
        },
        if tenth.ieee_equal(m.constraints.nominal_layer_height.millimeters) {
            None
        } else {
            mismatch(
                "constraints.nominal_layer_height"@,
                ContextValueView::LayerHeight(LayerHeight { millimeters: tenth }),
                ContextValueView::LayerHeight(m.constraints.nominal_layer_height),
            )
        },
        if tenth.ieee_equal(m.constraints.achievable_tolerance.plus_minus_mm) {
            None
        } else {
            mismatch(
                "constraints.achievable_tolerance"@,
                ContextValueView::Tolerance(Tolerance { plus_minus_mm: tenth }),
                ContextValueView::Tolerance(m.constraints.achievable_tolerance),
            )
        },
    ]
}

fn require_match(field: &'static str, matches: bool, expected: ContextValue, found: ContextValue) -> (r:
    Result<(), CompileError>)
    ensures
        matches ==> r is Ok,
        !matches ==> r is Err && r->Err_0@ == (CompileIssue::UnsupportedPrototypeContext {
            field: field@,
            expected: expected@,
            found: found@,
        }),
{
    if matches {
        return Ok(());
    }
    Err(CompileError::UnsupportedPrototypeContext { field, expected, found })
}

fn same_text(a: &String, b: &String) -> (r: bool)
    ensures
        r == (a@ == b@),
{
    *a == *b
}

fn same_materials(a: &Vec<Material>, b: &Vec<Material>) -> (r: bool)
    ensures
        r == (a@ == b@),
{
    if a.len() != b.len() {
        return false;
    }
    let n = a.len();
    let mut i: usize = 0;
    while i < n
        invariant
            n == a@.len(),
            n == b@.len(),
            i <= n,
            forall|j: int| 0 <= j < i ==> a@[j] == b@[j],
        decreases n - i,
    {
        if a[i] != b[i] {
            return false;
        }
        i = i + 1;
    }
    assert(a@ =~= b@);
    true
}

/// Checks that the context is the canonical prototype context, field by field.
#[verifier::loop_isolation(false)]
pub fn ensure_prototype_context(manufacturing: &ManufacturingContext) -> (r: Result<(), CompileError>)
    ensures
        r is Ok <==> first_issue(context_issues(*manufacturing)) is None,
        r matches Err(e) ==> Some(e@) == first_issue(context_issues(*manufacturing)),
{
    let prototype = ManufacturingContext::initial_prototype();
    let ghost issues = context_issues(*manufacturing);
    let m = manufacturing;
    let checked = require_match(
        "target.environment.name",
        same_text(&prototype.target.environment.name, &m.target.environment.name),
        ContextValue::Text(prototype.target.environment.name.clone()),
        ContextValue::Text(m.target.environment.name.clone()),
    );
    if checked.is_err() {
        proof {
            lemma_first_issue(issues, 0);
        }
        return checked;
    }
    let checked = require_match(
        "target.process",
        prototype.target.process == m.target.process,
        ContextValue::Process(prototype.target.process),
        ContextValue::Process(m.target.process),
    );
    if checked.is_err() {
        proof {
            lemma_first_issue(issues, 1);
        }
        return checked;
    }
    let checked = require_match(
        "target.machine.manufacturer",
        same_text(&prototype.target.machine.manufacturer, &m.target.machine.manufacturer),
        ContextValue::Text(prototype.target.machine.manufacturer.clone()),
        ContextValue::Text(m.target.machine.manufacturer.clone()),
    );
    if checked.is_err() {
        proof {
            lemma_first_issue(issues, 2);
        }
        return checked;
    }
    let checked = require_match(
        "target.machine.model",
        same_text(&prototype.target.machine.model, &m.target.machine.model),
        ContextValue::Text(prototype.target.machine.model.clone()),
        ContextValue::Text(m.target.machine.model.clone()),
    );
    if checked.is_err() {
        proof {
            lemma_first_issue(issues, 3);
        }
        return checked;
    }
    let checked = require_match(
        "constraints.build_volume",
        prototype.constraints.build_volume == m.constraints.build_volume,
        ContextValue::BuildVolume(prototype.constraints.build_volume),
        ContextValue::BuildVolume(m.constraints.build_volume),
    );
    if checked.is_err() {
        proof {
            lemma_first_issue(issues, 4);
        }
        return checked;
    }
    let checked = require_match(
        "constraints.supported_materials",
        same_materials(
            &prototype.constraints.supported_materials,
            &m.constraints.supported_materials,
        ),
        ContextValue::Materials(prototype.constraints.supported_materials.clone()),
        ContextValue::Materials(m.constraints.supported_materials.clone()),
    );
    if checked.is_err() {
        proof {
            lemma_first_issue(issues, 5);
        }
        return checked;
    }
    let checked = require_match(
        "constraints.nominal_layer_height",
        prototype.constraints.nominal_layer_height.millimeters.equals(
            m.constraints.nominal_layer_height.millimeters,
        ),
        ContextValue::LayerHeight(prototype.constraints.nominal_layer_height),
        ContextValue::LayerHeight(m.constraints.nominal_layer_height),
    );
    if checked.is_err() {
        proof {
            lemma_first_issue(issues, 6);
        }
        return checked;
    }
    let checked = require_match(
        "constraints.achievable_tolerance",
        prototype.constraints.achievable_tolerance.plus_minus_mm.equals(
            m.constraints.achievable_tolerance.plus_minus_mm,
        ),
        ContextValue::Tolerance(prototype.constraints.achievable_tolerance),
        ContextValue::Tolerance(m.constraints.achievable_tolerance),
    );
    if checked.is_err() {
        proof {
            lemma_first_issue(issues, 7);
        }
        return checked;
    }
    proof {
        lemma_first_issue(issues, 8);
    }
    Ok(())
}

// ---------------------------------------------------------------------------------------
// The graph.
// ---------------------------------------------------------------------------------------

/// The largest edge of the build volume, the limit of every dimension.
pub fn max_build_dimension(build_volume: BuildVolume) -> (r: u16)
    ensures
        r == build_volume.max_edge(),
        r >= build_volume.x_mm && r >= build_volume.y_mm && r >= build_volume.z_mm,
        r == build_volume.x_mm || r == build_volume.y_mm || r == build_volume.z_mm,
{
    let xy = if build_volume.x_mm >= build_volume.y_mm {
        build_volume.x_mm
    } else {
        build_volume.y_mm
    };
    if xy >= build_volume.z_mm {
        if build_volume.x_mm >= build_volume.y_mm {
            build_volume.x_mm
        } else {
            build_volume.y_mm
        }
    } else {
        build_volume.z_mm
    }
}

/// A node's name, or `node-<id>` for an identifier that the graph does not hold.
pub open spec fn node_label(g: IrGraph, id: NodeId) -> Seq<char> {
    if id.index() < g.node_seq().len() {
        g.node_seq()[id.index() as int].name@
    } else {
        "node-"@ + decimal(id.index())
    }
}

pub open spec fn node_kind_is(g: IrGraph, id: NodeId, kind: NodeKind) -> bool {
    id.index() < g.node_seq().len() && g.node_seq()[id.index() as int].kind == kind
}

/// How an edge is named in messages: its kind, its source and its target.
pub open spec fn edge_label(g: IrGraph, e: Edge) -> Seq<char> {
    e.kind.name_text() + " "@ + node_label(g, e.source) + " -> "@ + node_label(g, e.target)
}

pub open spec fn enum_attr(attrs: Map<Seq<char>, Value>, key: Seq<char>) -> Option<Seq<char>> {
    if attrs.contains_key(key) {
        match attrs[key] {
            Value::Enum(v) => Some(v@),
            _ => None,
        }
    } else {
        None
    }
}

pub open spec fn string_attr(attrs: Map<Seq<char>, Value>, key: Seq<char>) -> Option<Seq<char>> {
    if attrs.contains_key(key) {
        match attrs[key] {
            Value::String(v) => Some(v@),
            _ => None,
        }
    } else {
        None
    }
}

/// The `value` attribute, when it is a quantity in millimetres.
pub open spec fn mm_quantity(attrs: Map<Seq<char>, Value>) -> Option<Binary64> {
    if attrs.contains_key("value"@) {
        match attrs["value"@] {
            Value::Quantity(q) => if q.unit@ == "mm"@ {
                Some(q.value)
            } else {
                None
            },
            _ => None,
        }
    } else {
        None
    }
}

pub open spec fn allowed_node_kind(k: NodeKind) -> bool {
    ||| k == NodeKind::System
    ||| k == NodeKind::Assembly
    ||| k == NodeKind::Part
    ||| k == NodeKind::Interface
    ||| k == NodeKind::Constraint
    ||| k == NodeKind::Material
}

/// The checks of one node: its kind, an interface's kind, a material's name, a dimension.
#[verifier::opaque]
pub open spec fn node_issue(n: Node, limit: u16) -> Option<CompileIssue> {
    if !allowed_node_kind(n.kind) {
        Some(CompileIssue::UnsupportedNodeKind { kind: n.kind })
    } else if n.kind == NodeKind::Interface {
        match enum_attr(n.attrs@, "interface_kind"@) {
            None => Some(
                CompileIssue::InvalidGraphAttribute {
                    element: n.name@,
                    attribute: "interface_kind"@,
                    expected: "enum"@,
                },
            ),
            Some(k) => if k == "mechanical"@ {
                None
            } else {
                Some(CompileIssue::UnsupportedInterfaceKind { interface: n.name@, kind: k })
            },
        }
    } else if n.kind == NodeKind::Material {
        if n.name@ == "PLA"@ {
            None
        } else {
            Some(CompileIssue::UnsupportedMaterial { material: n.name@ })
        }
    } else if n.kind == NodeKind::Constraint {
        match mm_quantity(n.attrs@) {
            Some(v) => if v.greater_than_int(limit as int) {
                Some(CompileIssue::ExceedsBuildVolume { name: n.name@, value_mm: v, limit_mm: limit })
            } else {
                None
            },
            None => None,
        }
    } else {
        None
    }
}

pub open spec fn node_issues(g: IrGraph, limit: u16) -> Seq<Option<CompileIssue>> {
    Seq::new(g.node_seq().len(), |i: int| node_issue(g.node_seq()[i], limit))
}

/// The checks of one edge: its kind and, for materials and connections, its ends and attributes.
#[verifier::opaque]
pub open spec fn edge_issue(g: IrGraph, e: Edge) -> Option<CompileIssue> {
    let relationship = Some(
        CompileIssue::InvalidGraphRelationship {
            edge: e.kind,
            source: node_label(g, e.source),
            target: node_label(g, e.target),
        },
    );
    if e.kind == EdgeKind::Contains || e.kind == EdgeKind::Constrains {
        None
    } else if e.kind == EdgeKind::UsesMaterial {
        if !node_kind_is(g, e.source, NodeKind::Part) || !node_kind_is(g, e.target, NodeKind::Material) {
            relationship
        } else {
            None
        }
    } else if e.kind == EdgeKind::Connects {
        if !node_kind_is(g, e.source, NodeKind::Interface) || !node_kind_is(
            g,
            e.target,
            NodeKind::Interface,
        ) {
            relationship
        } else {
            match string_attr(e.attrs@, "name"@) {
                None => Some(
                    CompileIssue::InvalidGraphAttribute {
                        element: edge_label(g, e),
                        attribute: "name"@,
                        expected: "string"@,
                    },
                ),
                Some(name) => match enum_attr(e.attrs@, "connection_kind"@) {
                    None => Some(
                        CompileIssue::InvalidGraphAttribute {
                            element: edge_label(g, e),
                            attribute: "connection_kind"@,
                            expected: "enum"@,
                        },
                    ),
                    Some(k) => if k == "fixed"@ {
                        None
                    } else {
                        Some(CompileIssue::UnsupportedConnectionKind { connection: name, kind: k })
                    },
                },
            }
        }
    } else {
        Some(CompileIssue::UnsupportedEdgeKind { kind: e.kind })
    }
}

pub open spec fn edge_issues(g: IrGraph) -> Seq<Option<CompileIssue>> {
    Seq::new(g.edge_seq().len(), |i: int| edge_issue(g, g.edge_seq()[i]))
}

/// Positions of the part nodes, in order.
pub open spec fn part_positions(nodes: Seq<Node>) -> Seq<int>
    decreases nodes.len(),
{
    if nodes.len() == 0 {
        Seq::empty()
    } else {
        let prev = part_positions(nodes.drop_last());
        if nodes.last().kind == NodeKind::Part {
            prev.push(nodes.len() - 1)
        } else {
            prev
        }
    }
}

/// The (part position, material name) pairs of the material edges among the first `k` edges.
pub open spec fn material_pairs(g: IrGraph, k: int) -> Seq<(int, Seq<char>)>
    decreases k,
{
    if k <= 0 {
        Seq::empty()
    } else {
        let prev = material_pairs(g, k - 1);
        let e = g.edge_seq()[k - 1];
        if e.kind == EdgeKind::UsesMaterial {
            prev.push((e.source.index() as int, node_label(g, e.target)))
        } else {
            prev
        }
    }
}

/// The material names assigned to the part at position `p`.
pub open spec fn materials_of(pairs: Seq<(int, Seq<char>)>, p: int) -> Seq<Seq<char>>
    decreases pairs.len(),
{
    if pairs.len() == 0 {
        Seq::empty()
    } else {
        let prev = materials_of(pairs.drop_last(), p);
        if pairs.last().0 == p {
            prev.push(pairs.last().1)
        } else {
            prev
        }
    }
}

/// Each part must have exactly one material assignment, and that material must be PLA.
pub open spec fn part_issue(g: IrGraph, p: int) -> Option<CompileIssue> {
    let ms = materials_of(material_pairs(g, g.edge_seq().len() as int), p);
    if ms.len() != 1 {
        Some(
            CompileIssue::InvalidPartMaterialAssignments {
                part: g.node_seq()[p].name@,
                count: ms.len(),
            },
        )
    } else if ms[0] != "PLA"@ {
        Some(CompileIssue::UnsupportedMaterial { material: ms[0] })
    } else {
        None
    }
}

pub open spec fn part_issues(g: IrGraph) -> Seq<Option<CompileIssue>> {
    let ps = part_positions(g.node_seq());
    Seq::new(ps.len(), |q: int| part_issue(g, ps[q]))
}

/// Nodes first, then edges, then each part's material assignment.
pub open spec fn analysis_issue(g: IrGraph, limit: u16) -> Option<CompileIssue> {
    or_else(
        first_issue(node_issues(g, limit)),
        or_else(first_issue(edge_issues(g)), first_issue(part_issues(g))),
    )
}

/// Names of the connection edges, in order.
pub open spec fn connection_names(edges: Seq<Edge>) -> Seq<Seq<char>>
    decreases edges.len(),
{
    if edges.len() == 0 {
        Seq::empty()
    } else {
        let prev = connection_names(edges.drop_last());
        if edges.last().kind == EdgeKind::Connects {
            prev.push(string_attr(edges.last().attrs@, "name"@).unwrap())
        } else {
            prev
        }
    }
}

/// The millimetre dimensions of the constraint nodes, in order.
pub open spec fn dimension_checks(nodes: Seq<Node>) -> Seq<(Seq<char>, Binary64)>
    decreases nodes.len(),
{
    if nodes.len() == 0 {
        Seq::empty()
    } else {
        let prev = dimension_checks(nodes.drop_last());
        let n = nodes.last();
        if n.kind == NodeKind::Constraint && mm_quantity(n.attrs@) is Some {
            prev.push((n.name@, mm_quantity(n.attrs@).unwrap()))
        } else {
            prev
        }
    }
}

/// The node's name, or `node-<id>` when the graph holds no such node.
pub fn node_name(graph: &IrGraph, node_id: NodeId) -> (r: String)
    ensures
        r@ == node_label(*graph, node_id),
{
    match graph.node(node_id) {
        Some(node) => node.name.clone(),
        None => {
            let mut s = "node-".to_owned();
            push_decimal(&mut s, node_id.raw());
            s
        },
    }
}

fn edge_label_text(graph: &IrGraph, edge: &Edge) -> (r: String)
    ensures
        r@ == edge_label(*graph, *edge),
{
    let mut s = edge.kind.debug_name().to_owned();
    s.append(" ");
    s.append(node_name(graph, edge.source).as_str());
    s.append(" -> ");
    s.append(node_name(graph, edge.target).as_str());
    s
}

fn node_enum_attr(node: &Node, attribute: &'static str) -> (r: Result<String, CompileError>)
    ensures
        enum_attr(node.attrs@, attribute@) matches Some(v) ==> r is Ok && r->Ok_0@ == v,
        enum_attr(node.attrs@, attribute@) is None ==> r is Err && r->Err_0@ == (
        CompileIssue::InvalidGraphAttribute {
            element: node.name@,
            attribute: attribute@,
            expected: "enum"@,
        }),
{
    match node.attrs.get(attribute) {
        Some(Value::Enum(value)) => Ok(value.clone()),
        _ => Err(
            CompileError::InvalidGraphAttribute {
                element: node.name.clone(),
                attribute,
                expected: "enum",
            },
        ),
    }
}

fn edge_string_attr(graph: &IrGraph, edge: &Edge, attribute: &'static str) -> (r: Result<
    String,
    CompileError,
>)
    ensures
        string_attr(edge.attrs@, attribute@) matches Some(v) ==> r is Ok && r->Ok_0@ == v,
        string_attr(edge.attrs@, attribute@) is None ==> r is Err && r->Err_0@ == (
        CompileIssue::InvalidGraphAttribute {
            element: edge_label(*graph, *edge),
            attribute: attribute@,
            expected: "string"@,
        }),
{
    match edge.attrs.get(attribute) {
        Some(Value::String(value)) => Ok(value.clone()),
        _ => Err(
            CompileError::InvalidGraphAttribute {
                element: edge_label_text(graph, edge),
                attribute,
                expected: "string",
            },
        ),
    }
}

fn edge_enum_attr(graph: &IrGraph, edge: &Edge, attribute: &'static str) -> (r: Result<
    String,
    CompileError,
>)
    ensures
        enum_attr(edge.attrs@, attribute@) matches Some(v) ==> r is Ok && r->Ok_0@ == v,
        enum_attr(edge.attrs@, attribute@) is None ==> r is Err && r->Err_0@ == (
        CompileIssue::InvalidGraphAttribute {
            element: edge_label(*graph, *edge),
            attribute: attribute@,
            expected: "enum"@,
        }),
{
    match edge.attrs.get(attribute) {
        Some(Value::Enum(value)) => Ok(value.clone()),
        _ => Err(
            CompileError::InvalidGraphAttribute {
                element: edge_label_text(graph, edge),
                attribute,
                expected: "enum",
            },
        ),
    }
}

fn text_is(s: &str, expected: &str) -> (r: bool)
    ensures
        r == (s@ == expected@),
{
    if let TextOrder::Equal = text_order(s, expected) {
        true
    } else {
        false
    }
}

/// An interface node must declare the mechanical interface kind.
fn ensure_mechanical_interface(node: &Node) -> (r: Result<(), CompileError>)
    requires
        node.kind == NodeKind::Interface,
    ensures
        r is Ok <==> node_issue(*node, 0) is None,
        r matches Err(e) ==> Some(e@) == node_issue(*node, 0),
{
    reveal(node_issue);
    let interface_kind = node_enum_attr(node, "interface_kind")?;
    if text_is(interface_kind.as_str(), "mechanical") {
        return Ok(());
    }
    Err(CompileError::UnsupportedInterfaceKind { interface: node.name.clone(), kind: interface_kind })
}

/// A material node must be PLA.
fn ensure_pla_material(node: &Node) -> (r: Result<(), CompileError>)
    requires
        node.kind == NodeKind::Material,
    ensures
        r is Ok <==> node_issue(*node, 0) is None,
        r matches Err(e) ==> Some(e@) == node_issue(*node, 0),
{
    reveal(node_issue);
    if text_is(node.name.as_str(), "PLA") {
        return Ok(());
    }
    Err(CompileError::UnsupportedMaterial { material: node.name.clone() })
}

/// A constraint whose value is a quantity in millimetres must fit the build volume; it is then
/// recorded as a validated dimension.
fn validate_dimension(node: &Node, build_limit: u16) -> (r: Result<
    Option<PrototypeDimensionCheck>,
    CompileError,
>)
    requires
        node.kind == NodeKind::Constraint,
    ensures
        r is Ok <==> node_issue(*node, build_limit) is None,
        r matches Err(e) ==> Some(e@) == node_issue(*node, build_limit),
        r matches Ok(c) ==> (c is None <==> mm_quantity(node.attrs@) is None),
        r matches Ok(Some(c)) ==> c.name@ == node.name@ && c.value_mm == mm_quantity(
            node.attrs@,
        ).unwrap() && c.build_volume_limit_mm == build_limit,
{
    reveal(node_issue);
    let value = match node.attrs.get("value") {
        Some(v) => v,
        None => {
            return Ok(None);
        },
    };
    match value {
        Value::Quantity(quantity) => {
            if !text_is(quantity.unit.as_str(), "mm") {
                return Ok(None);
            }
            if quantity.value.exceeds_u16(build_limit) {
                return Err(
                    CompileError::ExceedsBuildVolume {
                        name: node.name.clone(),
                        value_mm: quantity.value,
                        limit_mm: build_limit,
                    },
                );
            }
            Ok(
                Some(
                    PrototypeDimensionCheck {
                        name: node.name.clone(),
                        value_mm: quantity.value,
                        build_volume_limit_mm: build_limit,
                    },
                ),
            )
        },
        _ => Ok(None),
    }
}

/// What the graph analysis keeps for the plan and the report.
pub struct GraphAnalysis {
    pub parts: Vec<PrototypePartPlan>,
    pub connections: Vec<PrototypeConnectionPlan>,
    pub validated_dimensions: Vec<PrototypeDimensionCheck>,
    pub part_count: usize,
    pub connection_count: usize,
}

/// The analysis result matches the graph: the parts, the connections and the dimensions, in
/// graph order.
pub open spec fn analysis_matches(a: GraphAnalysis, g: IrGraph, limit: u16) -> bool {
    let ps = part_positions(g.node_seq());
    let cs = connection_names(g.edge_seq());
    let ds = dimension_checks(g.node_seq());
    &&& a.parts@.len() == ps.len()
    &&& forall|q: int|
        0 <= q < ps.len() ==> (#[trigger] a.parts@[q]).part@ == g.node_seq()[ps[q]].name@
            && a.parts@[q].material == Material::Pla
    &&& a.connections@.len() == cs.len()
    &&& forall|q: int|
        0 <= q < cs.len() ==> (#[trigger] a.connections@[q]).name@ == cs[q]
            && a.connections@[q].kind == PrototypeConnectionKind::Fixed
    &&& a.validated_dimensions@.len() == ds.len()
    &&& forall|q: int|
        0 <= q < ds.len() ==> (#[trigger] a.validated_dimensions@[q]).name@ == ds[q].0
            && a.validated_dimensions@[q].value_mm == ds[q].1
            && a.validated_dimensions@[q].build_volume_limit_mm == limit
    &&& a.part_count == a.parts@.len()
    &&& a.connection_count == a.connections@.len()
}

pub(crate) proof fn lemma_part_positions_bound(nodes: Seq<Node>)
    ensures
        forall|q: int| 0 <= q < part_positions(nodes).len() ==> 0 <= #[trigger] part_positions(nodes)[q] < nodes.len()
            && nodes[part_positions(nodes)[q]].kind == NodeKind::Part,
    decreases nodes.len(),
{
    if nodes.len() > 0 {
        lemma_part_positions_bound(nodes.drop_last());
        let prev = part_positions(nodes.drop_last());
        assert forall|q: int| 0 <= q < prev.len() implies nodes[#[trigger] prev[q]] == nodes.drop_last()[prev[q]] by {}
    }
}

/// The part nodes, in order, each with its position and its name.
pub open spec fn lists_parts(ps: Seq<(usize, String)>, nodes: Seq<Node>) -> bool {
    &&& ps.len() == part_positions(nodes).len()
    &&& forall|q: int|
        0 <= q < ps.len() ==> (#[trigger] ps[q]).0 as int == part_positions(nodes)[q] && ps[q].1@
            == nodes[ps[q].0 as int].name@
}

/// The material assignments of the graph's material edges, in order.
pub open spec fn lists_materials(ms: Seq<(usize, String)>, g: IrGraph) -> bool {
    let pairs = material_pairs(g, g.edge_seq().len() as int);
    &&& ms.len() == pairs.len()
    &&& forall|q: int|
        0 <= q < ms.len() ==> (#[trigger] ms[q]).0 as int == pairs[q].0 && ms[q].1@ == pairs[q].1
}

/// The node stage: each node's checks in order; on success, the part nodes and the dimension
/// checks.
#[verifier::loop_isolation(false)]
fn check_nodes(graph: &IrGraph, build_limit: u16) -> (r: Result<
    (Vec<(usize, String)>, Vec<PrototypeDimensionCheck>),
    CompileError,
>)
    ensures
        r is Ok <==> first_issue(node_issues(*graph, build_limit)) is None,
        r matches Err(e) ==> Some(e@) == first_issue(node_issues(*graph, build_limit)),
        r matches Ok(p) ==> {
            let ds = dimension_checks(graph.node_seq());
            &&& lists_parts(p.0@, graph.node_seq())
            &&& p.1@.len() == ds.len()
            &&& forall|q: int|
                0 <= q < ds.len() ==> (#[trigger] p.1@[q]).name@ == ds[q].0 && p.1@[q].value_mm
                    == ds[q].1 && p.1@[q].build_volume_limit_mm == build_limit
        },
{
    proof {
        use_type_invariant(graph);
    }
    let nodes = graph.nodes();
    let ghost ni = node_issues(*graph, build_limit);
    let mut part_nodes: Vec<(usize, String)> = Vec::new();
    let mut validated_dimensions: Vec<PrototypeDimensionCheck> = Vec::new();
    let n = nodes.len();
    assert(ni.len() == n);
    let mut i: usize = 0;
    while i < n
        invariant
            n == nodes@.len(),
            nodes@ == graph.node_seq(),
            ni == node_issues(*graph, build_limit),
            ni.len() == n,
            i <= n,
            forall|j: int| 0 <= j < i ==> (#[trigger] ni[j]) is None,
            part_nodes@.len() == part_positions(nodes@.take(i as int)).len(),
            forall|q: int| 0 <= q < part_nodes@.len() ==> (#[trigger] part_nodes@[q]).0 as int
                == part_positions(nodes@.take(i as int))[q] && part_nodes@[q].1@ == nodes@[part_nodes@[q].0 as int].name@,
            validated_dimensions@.len() == dimension_checks(nodes@.take(i as int)).len(),
            forall|q: int| 0 <= q < validated_dimensions@.len() ==> (#[trigger] validated_dimensions@[q]).name@
                == dimension_checks(nodes@.take(i as int))[q].0 && validated_dimensions@[q].value_mm
                == dimension_checks(nodes@.take(i as int))[q].1
                && validated_dimensions@[q].build_volume_limit_mm == build_limit,
        decreases n - i,
    {
        let node = &nodes[i];
        proof {
            reveal(node_issue);
            assert(nodes@.take(i + 1).drop_last() =~= nodes@.take(i as int));
            assert(nodes@.take(i + 1).last() == nodes@[i as int]);
            assert(ni[i as int] == node_issue(nodes@[i as int], build_limit));
        }
        match node.kind {
            NodeKind::System | NodeKind::Assembly | NodeKind::Part | NodeKind::Interface
            | NodeKind::Constraint | NodeKind::Material => {},
            _ => {
                proof {
                    lemma_first_issue(ni, i as int);
                }
                return Err(CompileError::UnsupportedNodeKind { kind: node.kind });
            },
        }
        match node.kind {
            NodeKind::Part => {
                part_nodes.push((i, node.name.clone()));
            },
            NodeKind::Interface => {
                let checked = ensure_mechanical_interface(node);
                if checked.is_err() {
                    proof {
                        lemma_first_issue(ni, i as int);
                    }
                    return Err(checked.unwrap_err());
                }
            },
            NodeKind::Material => {
                let checked = ensure_pla_material(node);
                if checked.is_err() {
                    proof {
                        lemma_first_issue(ni, i as int);
                    }
                    return Err(checked.unwrap_err());
                }
            },
            NodeKind::Constraint => {
                let checked = validate_dimension(node, build_limit);
                match checked {
                    Err(e) => {
                        proof {
                            lemma_first_issue(ni, i as int);
                        }
                        return Err(e);
                    },
                    Ok(Some(check)) => {
                        validated_dimensions.push(check);
                    },
                    Ok(None) => {},
                }
            },
            _ => {},
        }
        i = i + 1;
    }
    proof {
        lemma_first_issue(ni, n as int);
        assert(nodes@.take(n as int) =~= nodes@);
    }
    Ok((part_nodes, validated_dimensions))
}

/// The edge stage: each edge's checks in order; on success, the material assignments and the
/// connections.
#[verifier::loop_isolation(false)]
fn check_edges(graph: &IrGraph) -> (r: Result<
    (Vec<(usize, String)>, Vec<PrototypeConnectionPlan>),
    CompileError,
>)
    ensures
        r is Ok <==> first_issue(edge_issues(*graph)) is None,
        r matches Err(e) ==> Some(e@) == first_issue(edge_issues(*graph)),
        r matches Ok(p) ==> {
            let cs = connection_names(graph.edge_seq());
            &&& lists_materials(p.0@, *graph)
            &&& p.1@.len() == cs.len()
            &&& forall|q: int|
                0 <= q < cs.len() ==> (#[trigger] p.1@[q]).name@ == cs[q] && p.1@[q].kind
                    == PrototypeConnectionKind::Fixed
        },
{
    proof {
        use_type_invariant(graph);
    }
    let nodes = graph.nodes();
    let edges = graph.edges();
    let ghost ei = edge_issues(*graph);
    let node_count = nodes.len();
    assert(node_count == graph.node_seq().len());
    let mut part_materials: Vec<(usize, String)> = Vec::new();
    let mut connections: Vec<PrototypeConnectionPlan> = Vec::new();
    let m = edges.len();
    assert(ei.len() == m);
    let mut i: usize = 0;
    while i < m
        invariant
            m == edges@.len(),
            edges@ == graph.edge_seq(),
            ei == edge_issues(*graph),
            ei.len() == m,
            i <= m,
            forall|j: int| 0 <= j < i ==> (#[trigger] ei[j]) is None,
            part_materials@.len() == material_pairs(*graph, i as int).len(),
            forall|q: int| 0 <= q < part_materials@.len() ==> (#[trigger] part_materials@[q]).0 as int
                == material_pairs(*graph, i as int)[q].0 && part_materials@[q].1@ == material_pairs(*graph, i as int)[q].1,
            connections@.len() == connection_names(edges@.take(i as int)).len(),
            forall|q: int| 0 <= q < connections@.len() ==> (#[trigger] connections@[q]).name@
                == connection_names(edges@.take(i as int))[q] && connections@[q].kind
                == PrototypeConnectionKind::Fixed,
        decreases m - i,
    {
        let edge = &edges[i];
        proof {
            reveal(edge_issue);
            assert(edges@.take(i + 1).drop_last() =~= edges@.take(i as int));
            assert(edges@.take(i + 1).last() == edges@[i as int]);
            assert(ei[i as int] == edge_issue(*graph, edges@[i as int]));
        }
        match edge.kind {
            EdgeKind::Contains | EdgeKind::Constrains => {},
            EdgeKind::UsesMaterial => {
                let source = node_name(graph, edge.source);
                let target = node_name(graph, edge.target);
                let source_ok = match graph.node(edge.source) {
                    Some(node) => node.kind == NodeKind::Part,
                    None => false,
                };
                let target_ok = match graph.node(edge.target) {
                    Some(node) => node.kind == NodeKind::Material,
                    None => false,
                };
                if !source_ok || !target_ok {
                    proof {
                        lemma_first_issue(ei, i as int);
                    }
                    return Err(
                        CompileError::InvalidGraphRelationship { edge: edge.kind, source, target },
                    );
                }
                part_materials.push((edge.source.raw() as usize, target));
            },
            EdgeKind::Connects => {
                let source = node_name(graph, edge.source);
                let target = node_name(graph, edge.target);
                let source_ok = match graph.node(edge.source) {
                    Some(node) => node.kind == NodeKind::Interface,
                    None => false,
                };
                let target_ok = match graph.node(edge.target) {
                    Some(node) => node.kind == NodeKind::Interface,
                    None => false,
                };
                if !source_ok || !target_ok {
                    proof {
                        lemma_first_issue(ei, i as int);
                    }
                    return Err(
                        CompileError::InvalidGraphRelationship { edge: edge.kind, source, target },
                    );
                }
                let name = match edge_string_attr(graph, edge, "name") {
                    Ok(name) => name,
                    Err(e) => {
                        proof {
                            lemma_first_issue(ei, i as int);
                        }
                        return Err(e);
                    },
                };
                let kind = match edge_enum_attr(graph, edge, "connection_kind") {
                    Ok(kind) => kind,
                    Err(e) => {
                        proof {
                            lemma_first_issue(ei, i as int);
                        }
                        return Err(e);
                    },
                };
                if !text_is(kind.as_str(), "fixed") {
                    proof {
                        lemma_first_issue(ei, i as int);
                    }
                    return Err(CompileError::UnsupportedConnectionKind { connection: name, kind });
                }
                connections.push(
                    PrototypeConnectionPlan { name, kind: PrototypeConnectionKind::Fixed },
                );
            },
            _ => {
                proof {
                    lemma_first_issue(ei, i as int);
                }
                return Err(CompileError::UnsupportedEdgeKind { kind: edge.kind });
            },
        }
        i = i + 1;
    }
    proof {
        lemma_first_issue(ei, m as int);
        assert(edges@.take(m as int) =~= edges@);
    }
    Ok((part_materials, connections))
}

/// The part stage: each part needs exactly one material assignment, to PLA.
#[verifier::loop_isolation(false)]
fn plan_parts(graph: &IrGraph, part_nodes: &Vec<(usize, String)>, part_materials: &Vec<(usize, String)>) -> (r: Result<
    Vec<PrototypePartPlan>,
    CompileError,
>)
    requires
        lists_parts(part_nodes@, graph.node_seq()),
        lists_materials(part_materials@, *graph),
    ensures
        r is Ok <==> first_issue(part_issues(*graph)) is None,
        r matches Err(e) ==> Some(e@) == first_issue(part_issues(*graph)),
        r matches Ok(parts) ==> {
            let ps = part_positions(graph.node_seq());
            &&& parts@.len() == ps.len()
            &&& forall|q: int|
                0 <= q < ps.len() ==> (#[trigger] parts@[q]).part@ == graph.node_seq()[ps[q]].name@
                    && parts@[q].material == Material::Pla
        },
{
    proof {
        use_type_invariant(graph);
    }
    let nodes = graph.nodes();
    let edges = graph.edges();
    let m = edges.len();
    proof {
        lemma_part_positions_bound(nodes@);
    }
    let ghost pairs = material_pairs(*graph, m as int);
    let ghost pi = part_issues(*graph);
    let ghost ps = part_positions(nodes@);
    let mut parts: Vec<PrototypePartPlan> = Vec::new();
    let np = part_nodes.len();
    assert(pi.len() == np);
    let mut q: usize = 0;
    while q < np
        invariant
            np == part_nodes@.len(),
            np == ps.len(),
            pi == part_issues(*graph),
            pi.len() == np,
            q <= np,
            forall|j: int| 0 <= j < q ==> (#[trigger] pi[j]) is None,
            parts@.len() == q,
            forall|j: int| 0 <= j < q ==> (#[trigger] parts@[j]).part@ == nodes@[ps[j]].name@
                && parts@[j].material == Material::Pla,
        decreases np - q,
    {
        let part_id = part_nodes[q].0;
        let ghost p = part_id as int;
        assert(p == ps[q as int]);
        let mut count: usize = 0;
        let mut first: Option<usize> = None;
        let k_len = part_materials.len();
        let mut k: usize = 0;
        while k < k_len
            invariant
                k_len == part_materials@.len(),
                k <= k_len,
                count == materials_of(pairs.take(k as int), p).len(),
                count <= k,
                count > 0 ==> first is Some && first->0 < k_len && part_materials@[first->0 as int].1@
                    == materials_of(pairs.take(k as int), p)[0],
                count == 0 ==> first is None,
            decreases k_len - k,
        {
            proof {
                assert(pairs.take(k + 1).drop_last() =~= pairs.take(k as int));
                assert(pairs.take(k + 1).last() == pairs[k as int]);
                if materials_of(pairs.take(k as int), p).len() > 0 {
                    assert(materials_of(pairs.take(k + 1), p)[0] == materials_of(pairs.take(k as int), p)[0]);
                }
            }
            if part_materials[k].0 == part_id {
                if count == 0 {
                    first = Some(k);
                }
                count = count + 1;
            }
            k = k + 1;
        }
        proof {
            assert(pairs.take(k_len as int) =~= pairs);
            assert(pi[q as int] == part_issue(*graph, p));
        }
        if count != 1 {
            proof {
                lemma_first_issue(pi, q as int);
            }
            return Err(
                CompileError::InvalidPartMaterialAssignments {
                    part: part_nodes[q].1.clone(),
                    count,
                },
            );
        }
        let f = first.unwrap();
        if !text_is(part_materials[f].1.as_str(), "PLA") {
            proof {
                lemma_first_issue(pi, q as int);
            }
            return Err(CompileError::UnsupportedMaterial { material: part_materials[f].1.clone() });
        }
        parts.push(PrototypePartPlan { part: part_nodes[q].1.clone(), material: Material::Pla });
        q = q + 1;
    }
    proof {
        lemma_first_issue(pi, np as int);
    }
    Ok(parts)
}

/// Checks the nodes, then the edges, then each part's material, and gathers the plan's parts,
/// connections and dimensions.
pub fn analyse_graph(graph: &IrGraph, manufacturing: &ManufacturingContext) -> (r: Result<
    GraphAnalysis,
    CompileError,
>)
    ensures
        r is Ok <==> analysis_issue(*graph, manufacturing.constraints.build_volume.max_edge())
            is None,
        r matches Err(e) ==> Some(e@) == analysis_issue(
            *graph,
            manufacturing.constraints.build_volume.max_edge(),
        ),
        r matches Ok(a) ==> analysis_matches(a, *graph, manufacturing.constraints.build_volume.max_edge()),
{
    let build_limit = max_build_dimension(manufacturing.constraints.build_volume);
    let (part_nodes, validated_dimensions) = check_nodes(graph, build_limit)?;
    let (part_materials, connections) = check_edges(graph)?;
    let parts = plan_parts(graph, &part_nodes, &part_materials)?;
    let part_count = parts.len();
    let connection_count = connections.len();
    Ok(GraphAnalysis { parts, connections, validated_dimensions, part_count, connection_count })
}


// ---------------------------------------------------------------------------------------
// The compilation.
// ---------------------------------------------------------------------------------------

/// Why a lowered design is refused: the context first, then the graph.
pub open spec fn compile_issue(lowered: LoweredDesign) -> Option<CompileIssue> {
    or_else(
        first_issue(context_issues(lowered.manufacturing)),
        analysis_issue(lowered.graph, lowered.manufacturing.constraints.build_volume.max_edge()),
    )
}

/// The passes that every accepted compilation runs before artefact synthesis.
pub open spec fn planning_passes() -> Seq<PrototypePass> {
    seq![
        PrototypePass::ValidatePrototypeContext,
        PrototypePass::ValidateLoweredGraph,
        PrototypePass::ValidateBuildEnvelope,
        PrototypePass::AssembleSingleProcessPlan,
    ]
}

/// What an accepted compilation holds: the design's name, the graph and the context it was
/// given, a plan on the context's machine, process and limits with every part in PLA, the
/// parts, connections and dimensions of the graph in order, the planning passes, and no
/// artefact yet.
pub open spec fn plan_matches(c: PrototypeCompilation, lowered: LoweredDesign) -> bool {
    let g = lowered.graph;
    let m = lowered.manufacturing;
    &&& c.design_name@ == node_label(g, g.root_id())
    &&& c.profile == PrototypeProfile::PlaOnP1sSingleProcess
    &&& c.graph == g
    &&& c.manufacturing == m
    &&& c.plan.machine.manufacturer@ == m.target.machine.manufacturer@
    &&& c.plan.machine.model@ == m.target.machine.model@
    &&& c.plan.process == m.target.process
    &&& c.plan.material == Material::Pla
    &&& c.plan.build_volume == m.constraints.build_volume
    &&& c.plan.nominal_layer_height == m.constraints.nominal_layer_height
    &&& c.plan.achievable_tolerance == m.constraints.achievable_tolerance
    &&& analysis_matches(
        GraphAnalysis {
            parts: c.plan.parts,
            connections: c.plan.connections,
            validated_dimensions: c.report.validated_dimensions,
            part_count: c.report.validated_part_count,
            connection_count: c.report.validated_connection_count,
        },
        g,
        m.constraints.build_volume.max_edge(),
    )
    &&& c.report.executed_passes@ == planning_passes()
    &&& c.artifacts@.len() == 0
}

/// Compiles a lowered design up to its manufacturing plan and report: the context must be the
/// prototype's and the graph must stay within the prototype flow.
pub fn compile_lowered_plan(lowered: LoweredDesign) -> (r: Result<PrototypeCompilation, CompileError>)
    ensures
        r is Ok <==> compile_issue(lowered) is None,
        r matches Err(e) ==> Some(e@) == compile_issue(lowered),
        r matches Ok(c) ==> plan_matches(c, lowered),
{
    let ghost whole = lowered;
    let LoweredDesign { graph, manufacturing } = lowered;
    ensure_prototype_context(&manufacturing)?;
    let analysis = analyse_graph(&graph, &manufacturing)?;
    let design_name = node_name(&graph, graph.root());
    let machine = MachineIdentity::new(
        manufacturing.target.machine.manufacturer.as_str(),
        manufacturing.target.machine.model.as_str(),
    );
    let mut executed_passes: Vec<PrototypePass> = Vec::new();
    executed_passes.push(PrototypePass::ValidatePrototypeContext);
    executed_passes.push(PrototypePass::ValidateLoweredGraph);
    executed_passes.push(PrototypePass::ValidateBuildEnvelope);
    executed_passes.push(PrototypePass::AssembleSingleProcessPlan);
    assert(executed_passes@ =~= planning_passes());
    let GraphAnalysis { parts, connections, validated_dimensions, part_count, connection_count } =
        analysis;
    let plan = PrototypePlan {
        machine,
        process: manufacturing.target.process,
        material: Material::Pla,
        build_volume: manufacturing.constraints.build_volume,
        nominal_layer_height: manufacturing.constraints.nominal_layer_height,
        achievable_tolerance: manufacturing.constraints.achievable_tolerance,
        parts,
        connections,
    };
    let report = PrototypeCompileReport {
        executed_passes,
        validated_part_count: part_count,
        validated_connection_count: connection_count,
        validated_dimensions,
    };
    Ok(
        PrototypeCompilation {
            design_name,
            profile: PrototypeProfile::PlaOnP1sSingleProcess,
            graph,
            manufacturing,
            plan,
            artifacts: Vec::new(),
            report,
        },
    )
}

/// The spinner's printable artefacts: the body's mesh, then the cap's, both for STL export.
pub fn spinner_artifacts(body_mesh: PrototypeTriangleMesh, cap_mesh: PrototypeTriangleMesh) -> (r: Vec<
    PrototypeArtifact,
>)
    ensures
        r@.len() == 2,
        r@[0].name@ == "body"@,
        r@[0].format == PrototypeArtifactFormat::Stl,
        r@[0].mesh == body_mesh,
        r@[1].name@ == "cap"@,
        r@[1].format == PrototypeArtifactFormat::Stl,
        r@[1].mesh == cap_mesh,
{
    let mut artifacts: Vec<PrototypeArtifact> = Vec::new();
    artifacts.push(PrototypeArtifact::stl("body", body_mesh));
    artifacts.push(PrototypeArtifact::stl("cap", cap_mesh));
    artifacts
}

impl PrototypeCompilation {
    /// Completes a planned compilation with its synthesized artefacts, recording the
    /// synthesis pass.
    pub fn with_artifacts(self, artifacts: Vec<PrototypeArtifact>) -> (r: Self)
        ensures
            r.design_name == self.design_name,
            r.profile == self.profile,
            r.graph == self.graph,
            r.manufacturing == self.manufacturing,
            r.plan == self.plan,
            r.artifacts == artifacts,
            r.report.executed_passes@ == self.report.executed_passes@.push(
                PrototypePass::SynthesizeArtifacts,
            ),
            r.report.validated_part_count == self.report.validated_part_count,
            r.report.validated_connection_count == self.report.validated_connection_count,
            r.report.validated_dimensions == self.report.validated_dimensions,
    {
        let mut compilation = self;
        compilation.artifacts = artifacts;
        compilation.report.executed_passes.push(PrototypePass::SynthesizeArtifacts);
        compilation
    }
}


/// The compilation result agrees with the lowered design: refused exactly on its first issue,
/// and otherwise planned from it.
pub open spec fn compiled_from(r: Result<PrototypeCompilation, CompileError>, lowered: LoweredDesign) -> bool {
    &&& (r is Ok <==> compile_issue(lowered) is None)
    &&& (r is Err ==> Some(r->Err_0@) == compile_issue(lowered))
    &&& (r is Ok ==> plan_matches(r->Ok_0, lowered))
}

/// Compiles an authored design up to its manufacturing plan: the design is lowered, and a
/// lowering failure is reported as such; the lowered design is then compiled as
/// `compile_lowered_plan` does.
pub fn compile_prototype_plan(design: &Design) -> (r: Result<PrototypeCompilation, CompileError>)
    ensures
        prototype_plan_outcome(r, *design),
        design_issue(*design) is None && first_issue(context_issues(design.manufacturing)) is Some
            ==> r is Err && Some(r->Err_0@) == first_issue(context_issues(design.manufacturing)),
{
    let lowered = match design.lower_to_ir() {
        Ok(lowered) => lowered,
        Err(e) => {
            return Err(CompileError::Lowering(e));
        },
    };
    let ghost l = lowered;
    let r = compile_lowered_plan(lowered);
    proof {
        assert forall|other: LoweredDesign| #[trigger] lowering_outcome(Ok(other), *design) implies compiled_alike(
            r,
            other,
        ) by {
            lemma_lowerings_agree(*design, l, other);
            lemma_compile_issue_agrees(l, other);
            if r is Ok {
                lemma_plan_agrees_transfer(r->Ok_0, l, other);
            }
        }
        assert(context_issues(l.manufacturing) =~= context_issues(design.manufacturing));
    }
    r
}


/// The canonical prototype context passes every context check.
pub proof fn law_prototype_context_is_accepted(m: ManufacturingContext)
    requires
        m.is_initial_prototype(),
    ensures
        first_issue(context_issues(m)) is None,
{
    let tenth = Binary32 { bits: PROTOTYPE_TENTH_PAIR_BITS };
    assert(tenth.exponent_field() == 124);
    assert(m.constraints.supported_materials@ =~= seq![Material::Pla]);
    let issues = context_issues(m);
    lemma_first_issue_none(issues);
    assert forall|j: int| 0 <= j < issues.len() implies (#[trigger] issues[j]) is None by {
        assert(issues.len() == 8);
    }
}


/// A context that passes the context checks is the prototype's in every field that they
/// compare: workshop, process, machine, build volume, materials, layer height and tolerance.
pub proof fn law_accepted_context_is_prototype(m: ManufacturingContext)
    requires
        first_issue(context_issues(m)) is None,
    ensures
        m.target.environment.name@ == "Home workshop"@,
        m.target.process == ProcessType::FusedDepositionModeling,
        m.target.machine.manufacturer@ == "Bambu Lab"@,
        m.target.machine.model@ == "P1S"@,
        m.constraints.build_volume == (BuildVolume { x_mm: 256, y_mm: 256, z_mm: 256 }),
        m.constraints.supported_materials@ == seq![Material::Pla],
        (Binary32 { bits: PROTOTYPE_TENTH_PAIR_BITS }).ieee_equal(
            m.constraints.nominal_layer_height.millimeters,
        ),
        (Binary32 { bits: PROTOTYPE_TENTH_PAIR_BITS }).ieee_equal(
            m.constraints.achievable_tolerance.plus_minus_mm,
        ),
{
    let issues = context_issues(m);
    lemma_first_issue_none(issues);
    assert(issues[0] is None);
    assert(issues[1] is None);
    assert(issues[2] is None);
    assert(issues[3] is None);
    assert(issues[4] is None);
    assert(issues[5] is None);
    assert(issues[6] is None);
    assert(issues[7] is None);
}

/// Each reported dimension comes from a constraint node with that name and millimetre value.
proof fn lemma_dimension_source(nodes: Seq<Node>, q: int)
    requires
        0 <= q < dimension_checks(nodes).len(),
    ensures
        exists|i: int|
            0 <= i < nodes.len() && (#[trigger] nodes[i]).kind == NodeKind::Constraint && mm_quantity(
                nodes[i].attrs@,
            ) == Some(dimension_checks(nodes)[q].1),
    decreases nodes.len(),
{
    let prev = dimension_checks(nodes.drop_last());
    if q < prev.len() {
        lemma_dimension_source(nodes.drop_last(), q);
        let i = choose|i: int|
            0 <= i < nodes.drop_last().len() && (#[trigger] nodes.drop_last()[i]).kind
                == NodeKind::Constraint && mm_quantity(nodes.drop_last()[i].attrs@) == Some(prev[q].1);
        assert(nodes[i] == nodes.drop_last()[i]);
    } else {
        assert(nodes[nodes.len() - 1] == nodes.last());
    }
}

/// Every dimension that an accepted compilation reports fits within the build envelope: it
/// is not greater than the largest edge of the build volume, which the report records.
pub proof fn law_accepted_dimensions_fit(c: PrototypeCompilation, lowered: LoweredDesign)
    requires
        compile_issue(lowered) is None,
        plan_matches(c, lowered),
    ensures
        forall|q: int|
            0 <= q < c.report.validated_dimensions@.len() ==> {
                &&& !(#[trigger] c.report.validated_dimensions@[q]).value_mm.greater_than_int(
                    lowered.manufacturing.constraints.build_volume.max_edge() as int,
                )
                &&& c.report.validated_dimensions@[q].build_volume_limit_mm
                    == lowered.manufacturing.constraints.build_volume.max_edge()
            },
{
    let g = lowered.graph;
    let limit = lowered.manufacturing.constraints.build_volume.max_edge();
    let ni = node_issues(g, limit);
    lemma_first_issue_none(ni);
    let ds = dimension_checks(g.node_seq());
    assert forall|q: int| 0 <= q < c.report.validated_dimensions@.len() implies {
        &&& !(#[trigger] c.report.validated_dimensions@[q]).value_mm.greater_than_int(limit as int)
        &&& c.report.validated_dimensions@[q].build_volume_limit_mm == limit
    } by {
        assert(c.report.validated_dimensions@[q].value_mm == ds[q].1);
        lemma_dimension_source(g.node_seq(), q);
        let i = choose|i: int|
            0 <= i < g.node_seq().len() && (#[trigger] g.node_seq()[i]).kind == NodeKind::Constraint
                && mm_quantity(g.node_seq()[i].attrs@) == Some(ds[q].1);
        assert(ni[i] is None);
        reveal(node_issue);
    }
}


/// The four edge kinds of the prototype flow: containment, constraint, material and connection.
pub open spec fn prototype_edge_kind(k: EdgeKind) -> bool {
    ||| k == EdgeKind::Contains
    ||| k == EdgeKind::Constrains
    ||| k == EdgeKind::UsesMaterial
    ||| k == EdgeKind::Connects
}

/// A lowered design that compiles holds only edges of the prototype flow's four kinds.
pub proof fn law_accepted_edge_kinds(lowered: LoweredDesign)
    requires
        compile_issue(lowered) is None,
    ensures
        forall|i: int|
            0 <= i < lowered.graph.edge_seq().len() ==> prototype_edge_kind(
                (#[trigger] lowered.graph.edge_seq()[i]).kind,
            ),
{
    let g = lowered.graph;
    let ei = edge_issues(g);
    assert(first_issue(ei) is None);
    lemma_first_issue_none(ei);
    assert forall|i: int| 0 <= i < g.edge_seq().len() implies prototype_edge_kind(
        (#[trigger] g.edge_seq()[i]).kind,
    ) by {
        assert(ei[i] is None);
        reveal(edge_issue);
    }
}

/// An edge of any other kind is refused as such: when the context and every node pass and every
/// edge before it passes, compiling reports that edge's kind as unsupported.
pub proof fn law_other_edge_kinds_refused(lowered: LoweredDesign, j: int)
    requires
        first_issue(context_issues(lowered.manufacturing)) is None,
        first_issue(
            node_issues(lowered.graph, lowered.manufacturing.constraints.build_volume.max_edge()),
        ) is None,
        0 <= j < lowered.graph.edge_seq().len(),
        forall|i: int| 0 <= i < j ==> edge_issue(lowered.graph, #[trigger] lowered.graph.edge_seq()[i]) is None,
        !prototype_edge_kind(lowered.graph.edge_seq()[j].kind),
    ensures
        compile_issue(lowered) == Some(
            CompileIssue::UnsupportedEdgeKind { kind: lowered.graph.edge_seq()[j].kind },
        ),
{
    let g = lowered.graph;
    let ei = edge_issues(g);
    reveal(edge_issue);
    assert forall|i: int| 0 <= i < j implies (#[trigger] ei[i]) is None by {
        assert(edge_issue(g, g.edge_seq()[i]) is None);
    }
    lemma_first_issue(ei, j);
}


/// What a graph that compiles looks like: its nodes are of the prototype's kinds, its
/// interfaces mechanical, its materials PLA and its lengths within the build volume's largest
/// edge; a material edge runs from a part to a material, a connection joins two interfaces,
/// is named and is fixed; and every part is assigned exactly one material, PLA.
pub proof fn law_accepted_graph_shape(lowered: LoweredDesign)
    requires
        compile_issue(lowered) is None,
    ensures
        ({
            let g = lowered.graph;
            let limit = lowered.manufacturing.constraints.build_volume.max_edge();
            &&& forall|i: int|
                0 <= i < g.node_seq().len() ==> {
                    let n = #[trigger] g.node_seq()[i];
                    &&& allowed_node_kind(n.kind)
                    &&& n.kind == NodeKind::Interface ==> enum_attr(n.attrs@, "interface_kind"@)
                        == Some("mechanical"@)
                    &&& n.kind == NodeKind::Material ==> n.name@ == "PLA"@
                    &&& (n.kind == NodeKind::Constraint && mm_quantity(n.attrs@) is Some)
                        ==> !mm_quantity(n.attrs@)->Some_0.greater_than_int(limit as int)
                }
            &&& forall|i: int|
                0 <= i < g.edge_seq().len() ==> {
                    let e = #[trigger] g.edge_seq()[i];
                    &&& e.kind == EdgeKind::UsesMaterial ==> node_kind_is(g, e.source, NodeKind::Part)
                        && node_kind_is(g, e.target, NodeKind::Material)
                    &&& e.kind == EdgeKind::Connects ==> {
                        &&& node_kind_is(g, e.source, NodeKind::Interface)
                        &&& node_kind_is(g, e.target, NodeKind::Interface)
                        &&& string_attr(e.attrs@, "name"@) is Some
                        &&& enum_attr(e.attrs@, "connection_kind"@) == Some("fixed"@)
                    }
                }
            &&& forall|q: int|
                0 <= q < part_positions(g.node_seq()).len() ==> materials_of(
                    material_pairs(g, g.edge_seq().len() as int),
                    #[trigger] part_positions(g.node_seq())[q],
                ) == seq!["PLA"@]
        }),
{
    let g = lowered.graph;
    let limit = lowered.manufacturing.constraints.build_volume.max_edge();
    let ni = node_issues(g, limit);
    let ei = edge_issues(g);
    let pi = part_issues(g);
    lemma_first_issue_none(ni);
    lemma_first_issue_none(ei);
    lemma_first_issue_none(pi);
    reveal(node_issue);
    reveal(edge_issue);
    assert forall|i: int| 0 <= i < g.node_seq().len() implies {
        let n = #[trigger] g.node_seq()[i];
        &&& allowed_node_kind(n.kind)
        &&& n.kind == NodeKind::Interface ==> enum_attr(n.attrs@, "interface_kind"@) == Some("mechanical"@)
        &&& n.kind == NodeKind::Material ==> n.name@ == "PLA"@
        &&& (n.kind == NodeKind::Constraint && mm_quantity(n.attrs@) is Some)
            ==> !mm_quantity(n.attrs@)->Some_0.greater_than_int(limit as int)
    } by {
        assert(ni[i] is None);
    }
    assert forall|i: int| 0 <= i < g.edge_seq().len() implies {
        let e = #[trigger] g.edge_seq()[i];
        &&& e.kind == EdgeKind::UsesMaterial ==> node_kind_is(g, e.source, NodeKind::Part)
            && node_kind_is(g, e.target, NodeKind::Material)
        &&& e.kind == EdgeKind::Connects ==> {
            &&& node_kind_is(g, e.source, NodeKind::Interface)
            &&& node_kind_is(g, e.target, NodeKind::Interface)
            &&& string_attr(e.attrs@, "name"@) is Some
            &&& enum_attr(e.attrs@, "connection_kind"@) == Some("fixed"@)
        }
    } by {
        assert(ei[i] is None);
    }
    assert forall|q: int| 0 <= q < part_positions(g.node_seq()).len() implies materials_of(
        material_pairs(g, g.edge_seq().len() as int),
        #[trigger] part_positions(g.node_seq())[q],
    ) == seq!["PLA"@] by {
        assert(pi[q] is None);
        let ms = materials_of(material_pairs(g, g.edge_seq().len() as int), part_positions(g.node_seq())[q]);
        assert(ms =~= seq!["PLA"@]);
    }
}


/// Every part node's position is listed, and only part nodes' positions are.
proof fn lemma_part_positions_complete(nodes: Seq<Node>, i: int)
    requires
        0 <= i < nodes.len(),
        nodes[i].kind == NodeKind::Part,
    ensures
        exists|q: int| 0 <= q < part_positions(nodes).len() && #[trigger] part_positions(nodes)[q] == i,
    decreases nodes.len(),
{
    let prev = part_positions(nodes.drop_last());
    if i < nodes.len() - 1 {
        assert(nodes.drop_last()[i] == nodes[i]);
        lemma_part_positions_complete(nodes.drop_last(), i);
        let q = choose|q: int| 0 <= q < prev.len() && #[trigger] prev[q] == i;
        assert(part_positions(nodes)[q] == prev[q]);
    } else {
        assert(nodes.last() == nodes[i]);
        assert(part_positions(nodes)[prev.len() as int] == i);
    }
}

/// Some connection edge carries the name.
pub open spec fn names_connection(edges: Seq<Edge>, name: Seq<char>) -> bool {
    exists|i: int|
        0 <= i < edges.len() && (#[trigger] edges[i]).kind == EdgeKind::Connects && string_attr(
            edges[i].attrs@,
            "name"@,
        ) == Some(name)
}

/// Every named connection edge's name is listed, and each listed name is a connection edge's
/// when every connection edge is named.
proof fn lemma_connection_names(edges: Seq<Edge>)
    requires
        forall|i: int|
            0 <= i < edges.len() && (#[trigger] edges[i]).kind == EdgeKind::Connects ==> string_attr(
                edges[i].attrs@,
                "name"@,
            ) is Some,
    ensures
        forall|i: int|
            0 <= i < edges.len() && (#[trigger] edges[i]).kind == EdgeKind::Connects ==> connection_names(
                edges,
            ).contains(string_attr(edges[i].attrs@, "name"@).unwrap()),
        forall|q: int|
            0 <= q < connection_names(edges).len() ==> #[trigger] names_connection(
                edges,
                connection_names(edges)[q],
            ),
    decreases edges.len(),
{
    if edges.len() > 0 {
        let init = edges.drop_last();
        assert forall|i: int| 0 <= i < init.len() && (#[trigger] init[i]).kind == EdgeKind::Connects implies string_attr(
            init[i].attrs@,
            "name"@,
        ) is Some by {
            assert(init[i] == edges[i]);
        }
        lemma_connection_names(init);
        let prev = connection_names(init);
        let all = connection_names(edges);
        let last = edges.len() - 1;
        assert(edges[last] == edges.last());
        if edges.last().kind == EdgeKind::Connects {
            assert(all == prev.push(string_attr(edges.last().attrs@, "name"@).unwrap()));
        } else {
            assert(all == prev);
        }
        assert forall|i: int|
            0 <= i < edges.len() && (#[trigger] edges[i]).kind == EdgeKind::Connects implies all.contains(
                string_attr(edges[i].attrs@, "name"@).unwrap(),
            ) by {
            if i < last {
                assert(init[i] == edges[i]);
                assert(prev.contains(string_attr(init[i].attrs@, "name"@).unwrap()));
                let q = choose|q: int| 0 <= q < prev.len() && prev[q] == string_attr(init[i].attrs@, "name"@).unwrap();
                assert(all[q] == prev[q]);
            } else {
                assert(all[prev.len() as int] == string_attr(edges[i].attrs@, "name"@).unwrap());
            }
        }
        assert forall|q: int| 0 <= q < all.len() implies #[trigger] names_connection(edges, all[q]) by {
            if q < prev.len() {
                assert(all[q] == prev[q]);
                assert(names_connection(init, prev[q]));
                let i = choose|i: int|
                    0 <= i < init.len() && (#[trigger] init[i]).kind == EdgeKind::Connects && string_attr(
                        init[i].attrs@,
                        "name"@,
                    ) == Some(prev[q]);
                assert(edges[i] == init[i]);
            } else {
                assert(edges[last].kind == EdgeKind::Connects);
                assert(all[q] == string_attr(edges[last].attrs@, "name"@).unwrap());
            }
        }
    } else {
        assert(connection_names(edges).len() == 0);
    }
}

/// Every millimetre constraint node is listed with its name and value.
proof fn lemma_dimension_checks_complete(nodes: Seq<Node>, i: int)
    requires
        0 <= i < nodes.len(),
        nodes[i].kind == NodeKind::Constraint,
        mm_quantity(nodes[i].attrs@) is Some,
    ensures
        exists|q: int|
            0 <= q < dimension_checks(nodes).len() && #[trigger] dimension_checks(nodes)[q] == (
                nodes[i].name@,
                mm_quantity(nodes[i].attrs@).unwrap(),
            ),
    decreases nodes.len(),
{
    let prev = dimension_checks(nodes.drop_last());
    if i < nodes.len() - 1 {
        assert(nodes.drop_last()[i] == nodes[i]);
        lemma_dimension_checks_complete(nodes.drop_last(), i);
        let q = choose|q: int|
            0 <= q < prev.len() && #[trigger] prev[q] == (nodes[i].name@, mm_quantity(nodes[i].attrs@).unwrap());
        assert(dimension_checks(nodes)[q] == prev[q]);
    } else {
        assert(nodes.last() == nodes[i]);
        assert(dimension_checks(nodes)[prev.len() as int] == (nodes[i].name@, mm_quantity(nodes[i].attrs@).unwrap()));
    }
}

/// The plan of an accepted compilation covers its graph: it lists one part per part node, each
/// named after a part node and in PLA, with every part node among them; one fixed connection
/// per connection edge, named as the edges are; and a dimension check for every millimetre
/// constraint, against the build volume's largest edge. The report counts the parts and
/// connections of the plan.
pub proof fn law_plan_covers_the_graph(c: PrototypeCompilation, lowered: LoweredDesign)
    requires
        compile_issue(lowered) is None,
        plan_matches(c, lowered),
    ensures
        ({
            let g = lowered.graph;
            let nodes = g.node_seq();
            let edges = g.edge_seq();
            let limit = lowered.manufacturing.constraints.build_volume.max_edge();
            &&& forall|q: int|
                0 <= q < c.plan.parts@.len() ==> #[trigger] names_part(nodes, c.plan.parts@[q].part@)
                    && c.plan.parts@[q].material == Material::Pla
            &&& forall|i: int|
                0 <= i < nodes.len() && (#[trigger] nodes[i]).kind == NodeKind::Part ==> exists|q: int|
                    0 <= q < c.plan.parts@.len() && (#[trigger] c.plan.parts@[q]).part@ == nodes[i].name@
            &&& forall|q: int|
                0 <= q < c.plan.connections@.len() ==> (#[trigger] c.plan.connections@[q]).kind
                    == PrototypeConnectionKind::Fixed && names_connection(edges, c.plan.connections@[q].name@)
            &&& forall|i: int|
                0 <= i < edges.len() && (#[trigger] edges[i]).kind == EdgeKind::Connects ==> exists|q: int|
                    0 <= q < c.plan.connections@.len() && string_attr(edges[i].attrs@, "name"@) == Some(
                        (#[trigger] c.plan.connections@[q]).name@,
                    )
            &&& forall|i: int|
                0 <= i < nodes.len() && (#[trigger] nodes[i]).kind == NodeKind::Constraint && mm_quantity(
                    nodes[i].attrs@,
                ) is Some ==> exists|q: int|
                    0 <= q < c.report.validated_dimensions@.len() && (#[trigger] c.report.validated_dimensions@[q]).name@
                        == nodes[i].name@ && c.report.validated_dimensions@[q].value_mm == mm_quantity(
                        nodes[i].attrs@,
                    ).unwrap() && c.report.validated_dimensions@[q].build_volume_limit_mm == limit
            &&& c.report.validated_part_count == c.plan.parts@.len()
            &&& c.report.validated_connection_count == c.plan.connections@.len()
        }),
{
    let g = lowered.graph;
    let limit = lowered.manufacturing.constraints.build_volume.max_edge();
    let a = GraphAnalysis {
        parts: c.plan.parts,
        connections: c.plan.connections,
        validated_dimensions: c.report.validated_dimensions,
        part_count: c.report.validated_part_count,
        connection_count: c.report.validated_connection_count,
    };
    assert(analysis_matches(a, g, limit));
    lemma_plan_parts_cover(c.plan.parts@, g.node_seq());
    lemma_plan_connections_cover(c.plan.connections@, g);
    lemma_plan_dimensions_cover(c.report.validated_dimensions@, g.node_seq(), limit);
}

/// Some part node carries the name.
pub open spec fn names_part(nodes: Seq<Node>, name: Seq<char>) -> bool {
    exists|i: int| 0 <= i < nodes.len() && (#[trigger] nodes[i]).kind == NodeKind::Part && nodes[i].name@ == name
}

proof fn lemma_plan_parts_cover(parts: Seq<PrototypePartPlan>, nodes: Seq<Node>)
    requires
        parts.len() == part_positions(nodes).len(),
        forall|q: int|
            0 <= q < part_positions(nodes).len() ==> (#[trigger] parts[q]).part@ == nodes[part_positions(
                nodes,
            )[q]].name@ && parts[q].material == Material::Pla,
    ensures
        forall|q: int|
            0 <= q < parts.len() ==> #[trigger] names_part(nodes, parts[q].part@) && parts[q].material
                == Material::Pla,
        forall|i: int|
            0 <= i < nodes.len() && (#[trigger] nodes[i]).kind == NodeKind::Part ==> exists|q: int|
                0 <= q < parts.len() && (#[trigger] parts[q]).part@ == nodes[i].name@,
{
    let ps = part_positions(nodes);
    lemma_part_positions_bound(nodes);
    assert forall|q: int| 0 <= q < parts.len() implies #[trigger] names_part(nodes, parts[q].part@)
        && parts[q].material == Material::Pla by {
        let i = ps[q];
        assert(nodes[i].kind == NodeKind::Part);
        assert(parts[q].part@ == nodes[i].name@);
    }
    assert forall|i: int| 0 <= i < nodes.len() && (#[trigger] nodes[i]).kind == NodeKind::Part implies exists|q: int|
        0 <= q < parts.len() && (#[trigger] parts[q]).part@ == nodes[i].name@ by {
        lemma_part_positions_complete(nodes, i);
        let q = choose|q: int| 0 <= q < ps.len() && #[trigger] ps[q] == i;
        assert(parts[q].part@ == nodes[ps[q]].name@);
    }
}

proof fn lemma_plan_connections_cover(conns: Seq<PrototypeConnectionPlan>, g: IrGraph)
    requires
        first_issue(edge_issues(g)) is None,
        conns.len() == connection_names(g.edge_seq()).len(),
        forall|q: int|
            0 <= q < connection_names(g.edge_seq()).len() ==> (#[trigger] conns[q]).name@ == connection_names(
                g.edge_seq(),
            )[q] && conns[q].kind == PrototypeConnectionKind::Fixed,
    ensures
        forall|q: int|
            0 <= q < conns.len() ==> (#[trigger] conns[q]).kind == PrototypeConnectionKind::Fixed
                && names_connection(g.edge_seq(), conns[q].name@),
        forall|i: int|
            0 <= i < g.edge_seq().len() && (#[trigger] g.edge_seq()[i]).kind == EdgeKind::Connects ==> exists|q: int|
                0 <= q < conns.len() && string_attr(g.edge_seq()[i].attrs@, "name"@) == Some(
                    (#[trigger] conns[q]).name@,
                ),
{
    let edges = g.edge_seq();
    let ei = edge_issues(g);
    lemma_first_issue_none(ei);
    assert forall|i: int| 0 <= i < edges.len() && (#[trigger] edges[i]).kind == EdgeKind::Connects implies string_attr(
        edges[i].attrs@,
        "name"@,
    ) is Some by {
        assert(ei[i] is None);
        reveal(edge_issue);
    }
    lemma_connection_names(edges);
    let cs = connection_names(edges);
    assert forall|q: int| 0 <= q < conns.len() implies (#[trigger] conns[q]).kind == PrototypeConnectionKind::Fixed
        && names_connection(edges, conns[q].name@) by {
        assert(names_connection(edges, cs[q]));
    }
    assert forall|i: int| 0 <= i < edges.len() && (#[trigger] edges[i]).kind == EdgeKind::Connects implies exists|q: int|
        0 <= q < conns.len() && string_attr(edges[i].attrs@, "name"@) == Some((#[trigger] conns[q]).name@) by {
        assert(cs.contains(string_attr(edges[i].attrs@, "name"@).unwrap()));
        let q = choose|q: int| 0 <= q < cs.len() && cs[q] == string_attr(edges[i].attrs@, "name"@).unwrap();
        assert(conns[q].name@ == cs[q]);
    }
}

proof fn lemma_plan_dimensions_cover(dims: Seq<PrototypeDimensionCheck>, nodes: Seq<Node>, limit: u16)
    requires
        dims.len() == dimension_checks(nodes).len(),
        forall|q: int|
            0 <= q < dimension_checks(nodes).len() ==> (#[trigger] dims[q]).name@ == dimension_checks(nodes)[q].0
                && dims[q].value_mm == dimension_checks(nodes)[q].1 && dims[q].build_volume_limit_mm == limit,
    ensures
        forall|i: int|
            0 <= i < nodes.len() && (#[trigger] nodes[i]).kind == NodeKind::Constraint && mm_quantity(
                nodes[i].attrs@,
            ) is Some ==> exists|q: int|
                0 <= q < dims.len() && (#[trigger] dims[q]).name@ == nodes[i].name@ && dims[q].value_mm
                    == mm_quantity(nodes[i].attrs@).unwrap() && dims[q].build_volume_limit_mm == limit,
{
    let ds = dimension_checks(nodes);
    assert forall|i: int|
        0 <= i < nodes.len() && (#[trigger] nodes[i]).kind == NodeKind::Constraint && mm_quantity(
            nodes[i].attrs@,
        ) is Some implies exists|q: int|
        0 <= q < dims.len() && (#[trigger] dims[q]).name@ == nodes[i].name@ && dims[q].value_mm == mm_quantity(
            nodes[i].attrs@,
        ).unwrap() && dims[q].build_volume_limit_mm == limit by {
        lemma_dimension_checks_complete(nodes, i);
        let q = choose|q: int|
            0 <= q < ds.len() && #[trigger] ds[q] == (nodes[i].name@, mm_quantity(nodes[i].attrs@).unwrap());
        assert(dims[q].name@ == ds[q].0);
    }
}

} // verus!
