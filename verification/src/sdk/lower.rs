//! Lowering of a validated design into the IR graph that the compiler consumes.
//!
//! Lowering walks the design depth first: each assembly or part becomes a node contained by its
//! parent, followed by its interfaces, its constraints and, for an assembly, its components; a
//! part then uses the material node, made once per material. The design's requirements hang
//! off the root, and the connections, gathered on the way, become the last edges.

use super::model::{
    Assembly, AuthorKind, Component, Connection, ConnectionKind, Constraint, Design, Interface,
    InterfaceKind, InterfaceRef, LoweredDesign, LoweringError, Part, Requirement, TypedValue,
    ValidationError, ValidationIssue,
};
use super::resolution::law_validated_designs_lower;
use super::validate::design_issue;
use crate::compiler::LoweringIssue;
use crate::context::Material;
use crate::ir::{
    Edge, EdgeKind, EdgeView, IrGraph, Node, NodeId, NodeKind, NodeView, Origin, OriginView,
    Quantity, RefinementState, Value, ValueView,
};
use crate::text::{decimal, push_decimal};
use vstd::prelude::*;

verus! {

// ---------------------------------------------------------------------------------------
// Labels.
// ---------------------------------------------------------------------------------------

pub open spec fn author_kind_text(k: AuthorKind) -> Seq<char> {
    match k {
        AuthorKind::Human => "human"@,
        AuthorKind::Ai => "ai"@,
    }
}

pub open spec fn connection_kind_text(k: ConnectionKind) -> Seq<char> {
    match k {
        ConnectionKind::Fixed => "fixed"@,
        ConnectionKind::Rotational => "rotational"@,
    }
}

pub open spec fn interface_kind_text(k: InterfaceKind) -> Seq<char> {
    match k {
        InterfaceKind::Mechanical => "mechanical"@,
        InterfaceKind::ElectricalPlaceholder => "electrical_placeholder"@,
    }
}

pub open spec fn material_text(m: Material) -> Seq<char> {
    match m {
        Material::Pla => "PLA"@,
    }
}

/// The label that the graph records for an author kind.
pub fn author_kind_label(author_kind: &AuthorKind) -> (r: &'static str)
    ensures
        r@ == author_kind_text(*author_kind),
{
    match author_kind {
        AuthorKind::Human => "human",
        AuthorKind::Ai => "ai",
    }
}

/// The label that the graph records for a connection kind.
pub fn connection_kind_label(connection_kind: &ConnectionKind) -> (r: &'static str)
    ensures
        r@ == connection_kind_text(*connection_kind),
{
    match connection_kind {
        ConnectionKind::Fixed => "fixed",
        ConnectionKind::Rotational => "rotational",
    }
}

/// The label that the graph records for an interface kind.
pub fn interface_kind_label(interface_kind: &InterfaceKind) -> (r: &'static str)
    ensures
        r@ == interface_kind_text(*interface_kind),
{
    match interface_kind {
        InterfaceKind::Mechanical => "mechanical",
        InterfaceKind::ElectricalPlaceholder => "electrical_placeholder",
    }
}

/// The name of a material's node.
pub fn material_label(material: Material) -> (r: &'static str)
    ensures
        r@ == material_text(material),
{
    match material {
        Material::Pla => "PLA",
    }
}

/// The graph value of an authored value: lengths become millimetre quantities.
pub open spec fn typed_value_view(v: TypedValue) -> ValueView {
    match v {
        TypedValue::Boolean(b) => ValueView::Bool(b),
        TypedValue::Count(c) => ValueView::Int(c as i64),
        TypedValue::LengthMm(x) => ValueView::Quantity { value: x, unit: "mm"@ },
        TypedValue::Text(t) => ValueView::String(t@),
    }
}

/// Converts an authored value into a graph value.
pub fn lower_typed_value(value: &TypedValue) -> (r: Value)
    ensures
        r@ == typed_value_view(*value),
{
    match value {
        TypedValue::Boolean(b) => Value::Bool(*b),
        TypedValue::Count(c) => Value::Int(*c as i64),
        TypedValue::LengthMm(x) => Value::Quantity(Quantity { value: *x, unit: "mm".to_owned() }),
        TypedValue::Text(t) => Value::String(t.clone()),
    }
}

// ---------------------------------------------------------------------------------------
// What lowering builds.
// ---------------------------------------------------------------------------------------

/// The state of a lowering: the graph built so far, the interface nodes and material nodes
/// made so far, and the connections met so far with their authoring paths.
pub struct LowerState {
    pub nodes: Seq<NodeView>,
    pub edges: Seq<EdgeView>,
    /// (component, interface, node position), in order; a later entry for a pair replaces an
    /// earlier one.
    pub interfaces: Seq<(Seq<char>, Seq<char>, nat)>,
    /// (material name, node position), in order.
    pub materials: Seq<(Seq<char>, nat)>,
    pub pending: Seq<(Seq<char>, Connection)>,
}

pub open spec fn path_attrs(path: Seq<char>) -> Map<Seq<char>, ValueView> {
    map!["sdk.authoring_path"@ => ValueView::String(path)]
}

pub open spec fn sdk_node(kind: NodeKind, name: Seq<char>, attrs: Map<Seq<char>, ValueView>) -> NodeView {
    NodeView { kind, name, state: RefinementState::Abstract, attrs, origin: OriginView::Sdk }
}

pub open spec fn sdk_edge(kind: EdgeKind, source: nat, target: nat, attrs: Map<Seq<char>, ValueView>) -> EdgeView {
    EdgeView { kind, source, target, attrs, origin: OriginView::Sdk }
}

/// The authoring path of the `i`-th item of a list field: `path.field[i]`.
pub open spec fn item_path(path: Seq<char>, field: Seq<char>, i: int) -> Seq<char> {
    path + "."@ + field + "["@ + decimal(i as nat) + "]"@
}

/// A node and the edge that attaches it, both with the same authoring path.
pub open spec fn attach(s: LowerState, node: NodeView, kind: EdgeKind, owner: nat, path: Seq<char>) -> LowerState {
    LowerState {
        nodes: s.nodes.push(node),
        edges: s.edges.push(sdk_edge(kind, owner, s.nodes.len(), path_attrs(path))),
        ..s
    }
}

/// An interface: a node named `component.interface`, contained by its owner and recorded for
/// the connections.
pub open spec fn interface_step(s: LowerState, component: Seq<char>, owner: nat, itf: Interface, path: Seq<char>) -> LowerState {
    let node = sdk_node(
        NodeKind::Interface,
        component + "."@ + itf.name@,
        map![
            "component"@ => ValueView::String(component),
            "interface_kind"@ => ValueView::Enum(interface_kind_text(itf.kind)),
            "sdk.authoring_path"@ => ValueView::String(path),
        ],
    );
    let t = attach(s, node, EdgeKind::Contains, owner, path);
    LowerState { interfaces: s.interfaces.push((component, itf.name@, s.nodes.len())), ..t }
}

pub open spec fn lower_interfaces(s: LowerState, component: Seq<char>, owner: nat, ifs: Seq<Interface>, path: Seq<char>) -> LowerState
    decreases ifs.len(),
{
    if ifs.len() == 0 {
        s
    } else {
        interface_step(
            lower_interfaces(s, component, owner, ifs.drop_last(), path),
            component,
            owner,
            ifs.last(),
            item_path(path, "interfaces"@, ifs.len() - 1),
        )
    }
}

/// A named value: a constraint node carrying the value, constrained by its owner.
pub open spec fn value_step(s: LowerState, owner: nat, name: Seq<char>, value: TypedValue, path: Seq<char>) -> LowerState {
    let node = sdk_node(
        NodeKind::Constraint,
        name,
        map![
            "value"@ => typed_value_view(value),
            "sdk.authoring_path"@ => ValueView::String(path),
        ],
    );
    attach(s, node, EdgeKind::Constrains, owner, path)
}

pub open spec fn lower_constraints(s: LowerState, owner: nat, cs: Seq<Constraint>, path: Seq<char>) -> LowerState
    decreases cs.len(),
{
    if cs.len() == 0 {
        s
    } else {
        let c = cs.last();
        value_step(
            lower_constraints(s, owner, cs.drop_last(), path),
            owner,
            c.name@,
            c.value,
            item_path(path, "constraints"@, cs.len() - 1),
        )
    }
}

pub open spec fn lower_requirements(s: LowerState, owner: nat, rs: Seq<Requirement>) -> LowerState
    decreases rs.len(),
{
    if rs.len() == 0 {
        s
    } else {
        let r = rs.last();
        value_step(
            lower_requirements(s, owner, rs.drop_last()),
            owner,
            r.name@,
            r.value,
            item_path("design"@, "requirements"@, rs.len() - 1),
        )
    }
}

/// The node made for a material, if any.
pub open spec fn material_position(entries: Seq<(Seq<char>, nat)>, name: Seq<char>) -> Option<nat>
    decreases entries.len(),
{
    if entries.len() == 0 {
        None
    } else if entries.last().0 == name {
        Some(entries.last().1)
    } else {
        material_position(entries.drop_last(), name)
    }
}

/// The state once the material has a node: unchanged, or with a new selected material node.
pub open spec fn with_material(s: LowerState, name: Seq<char>) -> LowerState {
    if material_position(s.materials, name) is Some {
        s
    } else {
        LowerState {
            nodes: s.nodes.push(
                NodeView {
                    kind: NodeKind::Material,
                    name,
                    state: RefinementState::Selected,
                    attrs: Map::empty(),
                    origin: OriginView::Sdk,
                },
            ),
            materials: s.materials.push((name, s.nodes.len())),
            ..s
        }
    }
}

/// The position of the material's node once it has one.
pub open spec fn material_node(s: LowerState, name: Seq<char>) -> nat {
    match material_position(s.materials, name) {
        Some(p) => p,
        None => s.nodes.len(),
    }
}

/// A part: its node, its interfaces, its constraints, then its material.
pub open spec fn lower_part(s: LowerState, parent: nat, p: Part, path: Seq<char>) -> LowerState {
    let id = s.nodes.len();
    let s1 = attach(s, sdk_node(NodeKind::Part, p.id@, path_attrs(path)), EdgeKind::Contains, parent, path);
    let s2 = lower_interfaces(s1, p.id@, id, p.interfaces@, path);
    let s3 = lower_constraints(s2, id, p.constraints@, path);
    let label = material_text(p.material);
    let s4 = with_material(s3, label);
    LowerState {
        edges: s4.edges.push(
            sdk_edge(
                EdgeKind::UsesMaterial,
                id,
                material_node(s3, label),
                path_attrs(path + ".material"@),
            ),
        ),
        ..s4
    }
}

/// The connections of an assembly with their authoring paths.
pub open spec fn connection_items(cs: Seq<Connection>, path: Seq<char>) -> Seq<(Seq<char>, Connection)> {
    Seq::new(cs.len(), |j: int| (item_path(path, "connections"@, j), cs[j]))
}

/// An assembly: its node, its interfaces, its constraints, its components in order; its
/// connections wait until the whole tree is lowered.
pub open spec fn lower_assembly(s: LowerState, parent: nat, a: Assembly, path: Seq<char>) -> LowerState
    decreases a,
{
    let id = s.nodes.len();
    let s1 = attach(s, sdk_node(NodeKind::Assembly, a.id@, path_attrs(path)), EdgeKind::Contains, parent, path);
    let s2 = lower_interfaces(s1, a.id@, id, a.interfaces@, path);
    let s3 = lower_constraints(s2, id, a.constraints@, path);
    let s4 = lower_components(s3, id, a.components@, path);
    LowerState { pending: s4.pending + connection_items(a.connections@, path), ..s4 }
}

pub open spec fn lower_components(s: LowerState, parent: nat, cs: Seq<Component>, path: Seq<char>) -> LowerState
    decreases cs,
{
    if cs.len() == 0 {
        s
    } else {
        lower_component(
            lower_components(s, parent, cs.drop_last(), path),
            parent,
            cs.last(),
            item_path(path, "components"@, cs.len() - 1),
        )
    }
}

pub open spec fn lower_component(s: LowerState, parent: nat, c: Component, path: Seq<char>) -> LowerState
    decreases c,
{
    match c {
        Component::Assembly(a) => lower_assembly(s, parent, a, path),
        Component::Part(p) => lower_part(s, parent, p, path),
    }
}

/// The interface node recorded last for a component and an interface name.
pub open spec fn interface_position(entries: Seq<(Seq<char>, Seq<char>, nat)>, component: Seq<char>, interface: Seq<char>) -> Option<nat>
    decreases entries.len(),
{
    if entries.len() == 0 {
        None
    } else if entries.last().0 == component && entries.last().1 == interface {
        Some(entries.last().2)
    } else {
        interface_position(entries.drop_last(), component, interface)
    }
}

pub open spec fn missing_interface(r: InterfaceRef) -> ValidationIssue {
    ValidationIssue::MissingConnectionInterface {
        connection: "lowering"@,
        component: r.component@,
        interface: r.interface@,
    }
}

/// The edge of a connection between the interface nodes that it names.
pub open spec fn connection_edge(entries: Seq<(Seq<char>, Seq<char>, nat)>, item: (Seq<char>, Connection)) -> Result<EdgeView, ValidationIssue> {
    let c = item.1;
    match interface_position(entries, c.from.component@, c.from.interface@) {
        None => Err(missing_interface(c.from)),
        Some(from) => match interface_position(entries, c.to.component@, c.to.interface@) {
            None => Err(missing_interface(c.to)),
            Some(to) => Ok(
                sdk_edge(
                    EdgeKind::Connects,
                    from,
                    to,
                    map![
                        "name"@ => ValueView::String(c.name@),
                        "connection_kind"@ => ValueView::Enum(connection_kind_text(c.kind)),
                        "sdk.authoring_path"@ => ValueView::String(item.0),
                    ],
                ),
            ),
        },
    }
}

/// The edges of the connections in order, or the first one that names no interface node.
pub open spec fn connection_edges(entries: Seq<(Seq<char>, Seq<char>, nat)>, items: Seq<(Seq<char>, Connection)>) -> Result<Seq<EdgeView>, ValidationIssue>
    decreases items.len(),
{
    if items.len() == 0 {
        Ok(Seq::empty())
    } else {
        match connection_edges(entries, items.drop_last()) {
            Err(e) => Err(e),
            Ok(es) => match connection_edge(entries, items.last()) {
                Err(e) => Err(e),
                Ok(e) => Ok(es.push(e)),
            },
        }
    }
}

/// The root system node alone.
pub open spec fn initial_state(d: Design) -> LowerState {
    LowerState {
        nodes: seq![
            NodeView {
                kind: NodeKind::System,
                name: d.name@,
                state: RefinementState::Abstract,
                attrs: Map::empty(),
                origin: OriginView::Sdk,
            },
        ],
        edges: Seq::empty(),
        interfaces: Seq::empty(),
        materials: Seq::empty(),
        pending: Seq::empty(),
    }
}

/// The design's tree, then its requirements.
pub open spec fn lowered_state(d: Design) -> LowerState {
    lower_requirements(lower_assembly(initial_state(d), 0, d.root, "design.root"@), 0, d.requirements@)
}

/// The lowering contract and the design's provenance.
pub open spec fn lowering_metadata(d: Design) -> Map<Seq<char>, ValueView> {
    map![
        "sdk.lowering_contract"@ => ValueView::String("design-sdk:minimal-v1"@),
        "sdk.author_kind"@ => ValueView::Enum(author_kind_text(d.provenance.author_kind)),
        "sdk.author"@ => ValueView::String(d.provenance.author@),
        "sdk.source"@ => ValueView::String(d.provenance.source@),
    ]
}

/// What lowering a validated design gives: the nodes and edges of its graph, or the connection
/// that names no interface node.
pub open spec fn lowered_graph(d: Design) -> Result<(Seq<NodeView>, Seq<EdgeView>), ValidationIssue> {
    let s = lowered_state(d);
    match connection_edges(s.interfaces, s.pending) {
        Err(e) => Err(e),
        Ok(es) => Ok((s.nodes, s.edges + es)),
    }
}


// ---------------------------------------------------------------------------------------
// The lowering itself.
// ---------------------------------------------------------------------------------------

/// Builds `path.field[index]`.
fn item_path_text(path: &str, field: &str, index: usize) -> (r: String)
    ensures
        r@ == item_path(path@, field@, index as int),
{
    let mut r = path.to_owned();
    r.append(".");
    r.append(field);
    r.append("[");
    push_decimal(&mut r, index as u64);
    r.append("]");
    assert(r@ =~= item_path(path@, field@, index as int));
    r
}

/// A connection waiting for its interface nodes, with its authoring path.
struct PendingConnection<'a> {
    path: String,
    connection: &'a Connection,
}

/// The graph being built, with what lowering has recorded on the way.
struct GraphLowerer<'a> {
    design: &'a Design,
    graph: IrGraph,
    interface_nodes: Vec<(String, String, NodeId)>,
    material_nodes: Vec<(String, NodeId)>,
    pending_connections: Vec<PendingConnection<'a>>,
}

impl<'a> GraphLowerer<'a> {
    spec fn state(self) -> LowerState {
        LowerState {
            nodes: self.graph.node_views(),
            edges: self.graph.edge_views(),
            interfaces: self.interface_nodes@.map_values(
                |t: (String, String, NodeId)| (t.0@, t.1@, t.2.index()),
            ),
            materials: self.material_nodes@.map_values(|t: (String, NodeId)| (t.0@, t.1.index())),
            pending: self.pending_connections@.map_values(
                |p: PendingConnection<'a>| (p.path@, *p.connection),
            ),
        }
    }

    /// The graph is well formed and every recorded node is one of its nodes.
    spec fn wf(self) -> bool {
        &&& self.graph.well_formed()
        &&& forall|i: int|
            0 <= i < self.interface_nodes@.len() ==> (#[trigger] self.interface_nodes@[i]).2.index()
                < self.graph.node_seq().len()
        &&& forall|i: int|
            0 <= i < self.material_nodes@.len() ==> (#[trigger] self.material_nodes@[i]).1.index()
                < self.graph.node_seq().len()
    }

    /// What no step of the tree's lowering changes.
    spec fn frame(self, other: Self) -> bool {
        &&& self.design == other.design
        &&& self.graph.metadata_map() == other.graph.metadata_map()
        &&& self.graph.root_id() == other.graph.root_id()
    }

    fn new(design: &'a Design) -> (r: Self)
        ensures
            r.wf(),
            r.design == design,
            r.state() == initial_state(*design),
            r.graph.metadata_view() == lowering_metadata(*design),
            r.graph.root_id().index() == 0,
    {
        let mut graph = IrGraph::new(NodeKind::System, design.name.as_str(), Origin::Sdk);
        graph.insert_metadata(
            "sdk.lowering_contract",
            Value::String("design-sdk:minimal-v1".to_owned()),
        );
        graph.insert_metadata(
            "sdk.author_kind",
            Value::Enum(author_kind_label(&design.provenance.author_kind).to_owned()),
        );
        graph.insert_metadata("sdk.author", Value::String(design.provenance.author.clone()));
        graph.insert_metadata("sdk.source", Value::String(design.provenance.source.clone()));
        let r = GraphLowerer {
            design,
            graph,
            interface_nodes: Vec::new(),
            material_nodes: Vec::new(),
            pending_connections: Vec::new(),
        };
        proof {
            assert(crate::ir::attrs_view(Map::<Seq<char>, Value>::empty()) =~= Map::<
                Seq<char>,
                ValueView,
            >::empty());
            assert(r.graph.node_views() =~= initial_state(*design).nodes);
            assert(r.graph.edge_views() =~= Seq::<EdgeView>::empty());
            assert(r.state().interfaces =~= Seq::<(Seq<char>, Seq<char>, nat)>::empty());
            assert(r.state().materials =~= Seq::<(Seq<char>, nat)>::empty());
            assert(r.state().pending =~= Seq::<(Seq<char>, Connection)>::empty());
            assert(r.graph.metadata_view() =~= lowering_metadata(*design));
        }
        r
    }

    /// Adds an edge with an authoring path between two nodes of the graph.
    fn link(&mut self, kind: EdgeKind, source: NodeId, target: NodeId, path: &str)
        requires
            old(self).wf(),
            source.index() < old(self).graph.node_seq().len(),
            target.index() < old(self).graph.node_seq().len(),
        ensures
            final(self).wf(),
            final(self).frame(*old(self)),
            final(self).graph.node_seq() == old(self).graph.node_seq(),
            final(self).interface_nodes == old(self).interface_nodes,
            final(self).material_nodes == old(self).material_nodes,
            final(self).pending_connections == old(self).pending_connections,
            final(self).state() == (LowerState {
                edges: old(self).state().edges.push(
                    sdk_edge(kind, source.index(), target.index(), path_attrs(path@)),
                ),
                ..old(self).state()
            }),
    {
        let edge = Edge::new(kind, source, target, Origin::Sdk).with_attr(
            "sdk.authoring_path",
            Value::String(path.to_owned()),
        );
        let ghost e = edge;
        let _ = self.graph.add_edge(edge);
        proof {
            assert(self.graph.edge_views() =~= old(self).graph.edge_views().push(e@));
            assert(e@ == sdk_edge(kind, source.index(), target.index(), path_attrs(path@)));
        }
    }

    /// Adds a node attached to `owner` by an edge of `kind`, both with an authoring path.
    fn attach(&mut self, node: Node, kind: EdgeKind, owner: NodeId, path: &str) -> (r: NodeId)
        requires
            old(self).wf(),
            owner.index() < old(self).graph.node_seq().len(),
        ensures
            final(self).wf(),
            final(self).frame(*old(self)),
            r.index() == old(self).graph.node_seq().len(),
            final(self).graph.node_seq().len() == old(self).graph.node_seq().len() + 1,
            final(self).interface_nodes == old(self).interface_nodes,
            final(self).material_nodes == old(self).material_nodes,
            final(self).pending_connections == old(self).pending_connections,
            final(self).state() == attach(old(self).state(), node@, kind, owner.index(), path@),
    {
        let ghost n = node;
        let id = self.graph.add_node(node);
        proof {
            assert(self.graph.node_views() =~= old(self).graph.node_views().push(n@));
            assert forall|i: int| 0 <= i < self.interface_nodes@.len() implies (#[trigger] self.interface_nodes@[i]).2.index()
                < self.graph.node_seq().len() by {
                assert(old(self).interface_nodes@[i].2.index() < old(self).graph.node_seq().len());
            }
            assert forall|i: int| 0 <= i < self.material_nodes@.len() implies (#[trigger] self.material_nodes@[i]).1.index()
                < self.graph.node_seq().len() by {
                assert(old(self).material_nodes@[i].1.index() < old(self).graph.node_seq().len());
            }
        }
        self.link(kind, owner, id, path);
        id
    }

    fn lower_interface(&mut self, component_id: &str, owner: NodeId, interface: &Interface, path: &str) -> (r: NodeId)
        requires
            old(self).wf(),
            owner.index() < old(self).graph.node_seq().len(),
        ensures
            final(self).wf(),
            final(self).frame(*old(self)),
            r.index() == old(self).graph.node_seq().len(),
            final(self).graph.node_seq().len() == old(self).graph.node_seq().len() + 1,
            final(self).material_nodes == old(self).material_nodes,
            final(self).pending_connections == old(self).pending_connections,
            final(self).state() == interface_step(
                old(self).state(),
                component_id@,
                owner.index(),
                *interface,
                path@,
            ),
    {
        let mut name = component_id.to_owned();
        name.append(".");
        name.append(interface.name.as_str());
        let node = Node::new(NodeKind::Interface, name.as_str(), Origin::Sdk).with_attr(
            "component",
            Value::String(component_id.to_owned()),
        ).with_attr(
            "interface_kind",
            Value::Enum(interface_kind_label(&interface.kind).to_owned()),
        ).with_attr("sdk.authoring_path", Value::String(path.to_owned()));
        let id = self.attach(node, EdgeKind::Contains, owner, path);
        self.interface_nodes.push((component_id.to_owned(), interface.name.clone(), id));
        proof {
            assert(self.state().interfaces =~= old(self).state().interfaces.push(
                (component_id@, interface.name@, id.index()),
            ));
            assert forall|i: int| 0 <= i < self.interface_nodes@.len() implies (#[trigger] self.interface_nodes@[i]).2.index()
                < self.graph.node_seq().len() by {
                if i < self.interface_nodes@.len() - 1 {
                    assert(self.interface_nodes@[i] == old(self).interface_nodes@[i]);
                }
            }
        }
        id
    }

    fn lower_named_value(&mut self, owner: NodeId, name: &str, value: &TypedValue, path: &str)
        requires
            old(self).wf(),
            owner.index() < old(self).graph.node_seq().len(),
        ensures
            final(self).wf(),
            final(self).frame(*old(self)),
            final(self).graph.node_seq().len() == old(self).graph.node_seq().len() + 1,
            final(self).interface_nodes == old(self).interface_nodes,
            final(self).material_nodes == old(self).material_nodes,
            final(self).pending_connections == old(self).pending_connections,
            final(self).state() == value_step(old(self).state(), owner.index(), name@, *value, path@),
    {
        let node = Node::new(NodeKind::Constraint, name, Origin::Sdk).with_attr(
            "value",
            lower_typed_value(value),
        ).with_attr("sdk.authoring_path", Value::String(path.to_owned()));
        let _ = self.attach(node, EdgeKind::Constrains, owner, path);
    }

    /// Lowers each interface of a component in order.
    fn lower_interfaces(&mut self, component_id: &str, owner: NodeId, interfaces: &Vec<Interface>, path: &str)
        requires
            old(self).wf(),
            owner.index() < old(self).graph.node_seq().len(),
        ensures
            final(self).wf(),
            final(self).frame(*old(self)),
            final(self).graph.node_seq().len() >= old(self).graph.node_seq().len(),
            final(self).state() == lower_interfaces(
                old(self).state(),
                component_id@,
                owner.index(),
                interfaces@,
                path@,
            ),
    {
        let ghost s0 = self.state();
        let n = interfaces.len();
        let mut i: usize = 0;
        while i < n
            invariant
                n == interfaces@.len(),
                i <= n,
                self.wf(),
                self.frame(*old(self)),
                owner.index() < self.graph.node_seq().len(),
                self.graph.node_seq().len() >= old(self).graph.node_seq().len(),
                s0 == old(self).state(),
                self.state() == lower_interfaces(
                    s0,
                    component_id@,
                    owner.index(),
                    interfaces@.take(i as int),
                    path@,
                ),
            decreases n - i,
        {
            let item = item_path_text(path, "interfaces", i);
            self.lower_interface(component_id, owner, &interfaces[i], item.as_str());
            proof {
                assert(interfaces@.take(i + 1).drop_last() =~= interfaces@.take(i as int));
                assert(interfaces@.take(i + 1).last() == interfaces@[i as int]);
            }
            i = i + 1;
        }
        assert(interfaces@.take(n as int) =~= interfaces@);
    }

    /// Lowers each constraint of a component in order.
    fn lower_constraints(&mut self, owner: NodeId, constraints: &Vec<Constraint>, path: &str)
        requires
            old(self).wf(),
            owner.index() < old(self).graph.node_seq().len(),
        ensures
            final(self).wf(),
            final(self).frame(*old(self)),
            final(self).graph.node_seq().len() >= old(self).graph.node_seq().len(),
            final(self).state() == lower_constraints(old(self).state(), owner.index(), constraints@, path@),
    {
        let ghost s0 = self.state();
        let n = constraints.len();
        let mut i: usize = 0;
        while i < n
            invariant
                n == constraints@.len(),
                i <= n,
                self.wf(),
                self.frame(*old(self)),
                owner.index() < self.graph.node_seq().len(),
                self.graph.node_seq().len() >= old(self).graph.node_seq().len(),
                s0 == old(self).state(),
                self.state() == lower_constraints(s0, owner.index(), constraints@.take(i as int), path@),
            decreases n - i,
        {
            let item = item_path_text(path, "constraints", i);
            let c = &constraints[i];
            self.lower_named_value(owner, c.name.as_str(), &c.value, item.as_str());
            proof {
                assert(constraints@.take(i + 1).drop_last() =~= constraints@.take(i as int));
                assert(constraints@.take(i + 1).last() == constraints@[i as int]);
            }
            i = i + 1;
        }
        assert(constraints@.take(n as int) =~= constraints@);
    }

    /// The node of a material, made on first use.
    fn material_node_id(&mut self, material: Material) -> (r: NodeId)
        requires
            old(self).wf(),
        ensures
            final(self).wf(),
            final(self).frame(*old(self)),
            final(self).graph.node_seq().len() >= old(self).graph.node_seq().len(),
            r.index() == material_node(old(self).state(), material_text(material)),
            r.index() < final(self).graph.node_seq().len(),
            final(self).state() == with_material(old(self).state(), material_text(material)),
    {
        let label = material_label(material);
        let ghost entries = self.state().materials;
        let mut found: Option<NodeId> = None;
        let n = self.material_nodes.len();
        let mut i: usize = 0;
        while i < n
            invariant
                n == self.material_nodes@.len(),
                i <= n,
                entries == self.state().materials,
                self.wf(),
                match found {
                    Some(id) => material_position(entries.take(i as int), label@) == Some(id.index())
                        && id.index() < self.graph.node_seq().len(),
                    None => material_position(entries.take(i as int), label@) is None,
                },
            decreases n - i,
        {
            proof {
                assert(entries.take(i + 1).drop_last() =~= entries.take(i as int));
                assert(entries.take(i + 1).last() == entries[i as int]);
            }
            if self.material_nodes[i].0 == label.to_owned() {
                found = Some(self.material_nodes[i].1);
            }
            i = i + 1;
        }
        assert(entries.take(n as int) =~= entries);
        match found {
            Some(id) => id,
            None => {
                let mut node = Node::new(NodeKind::Material, label, Origin::Sdk);
                node.state = RefinementState::Selected;
                let ghost nd = node;
                let id = self.graph.add_node(node);
                self.material_nodes.push((label.to_owned(), id));
                proof {
                    assert(self.graph.node_views() =~= old(self).graph.node_views().push(nd@));
                    assert(self.state().materials =~= entries.push((label@, id.index())));
                    assert forall|i: int| 0 <= i < self.interface_nodes@.len() implies (#[trigger] self.interface_nodes@[i]).2.index()
                        < self.graph.node_seq().len() by {
                        assert(old(self).interface_nodes@[i].2.index() < old(self).graph.node_seq().len());
                    }
                    assert forall|i: int| 0 <= i < self.material_nodes@.len() implies (#[trigger] self.material_nodes@[i]).1.index()
                        < self.graph.node_seq().len() by {
                        if i < n {
                            assert(self.material_nodes@[i] == old(self).material_nodes@[i]);
                            assert(old(self).material_nodes@[i].1.index() < old(self).graph.node_seq().len());
                        }
                    }
                }
                id
            },
        }
    }

    fn lower_part(&mut self, parent: NodeId, part: &Part, path: &str) -> (r: NodeId)
        requires
            old(self).wf(),
            parent.index() < old(self).graph.node_seq().len(),
        ensures
            final(self).wf(),
            final(self).frame(*old(self)),
            final(self).graph.node_seq().len() > old(self).graph.node_seq().len(),
            r.index() == old(self).graph.node_seq().len(),
            final(self).state() == lower_part(old(self).state(), parent.index(), *part, path@),
    {
        let part_node = self.attach(
            Node::new(NodeKind::Part, part.id.as_str(), Origin::Sdk).with_attr(
                "sdk.authoring_path",
                Value::String(path.to_owned()),
            ),
            EdgeKind::Contains,
            parent,
            path,
        );
        self.lower_interfaces(part.id.as_str(), part_node, &part.interfaces, path);
        self.lower_constraints(part_node, &part.constraints, path);
        let material_node = self.material_node_id(part.material);
        let mut material_path = path.to_owned();
        material_path.append(".material");
        self.link(EdgeKind::UsesMaterial, part_node, material_node, material_path.as_str());
        part_node
    }

    fn lower_assembly(&mut self, parent: NodeId, assembly: &'a Assembly, path: &str) -> (r: NodeId)
        requires
            old(self).wf(),
            parent.index() < old(self).graph.node_seq().len(),
        ensures
            final(self).wf(),
            final(self).frame(*old(self)),
            final(self).graph.node_seq().len() > old(self).graph.node_seq().len(),
            r.index() == old(self).graph.node_seq().len(),
            final(self).state() == lower_assembly(old(self).state(), parent.index(), *assembly, path@),
        decreases assembly,
    {
        let assembly_node = self.attach(
            Node::new(NodeKind::Assembly, assembly.id.as_str(), Origin::Sdk).with_attr(
                "sdk.authoring_path",
                Value::String(path.to_owned()),
            ),
            EdgeKind::Contains,
            parent,
            path,
        );
        self.lower_interfaces(assembly.id.as_str(), assembly_node, &assembly.interfaces, path);
        self.lower_constraints(assembly_node, &assembly.constraints, path);
        let ghost s3 = self.state();
        let ghost start = *old(self);
        let n = assembly.components.len();
        let mut i: usize = 0;
        while i < n
            invariant
                n == assembly.components@.len(),
                i <= n,
                self.wf(),
                self.frame(start),
                start == *old(self),
                assembly_node.index() == old(self).graph.node_seq().len(),
                assembly_node.index() < self.graph.node_seq().len(),
                self.state() == lower_components(
                    s3,
                    assembly_node.index(),
                    assembly.components@.take(i as int),
                    path@,
                ),
            decreases n - i,
        {
            let item = item_path_text(path, "components", i);
            let ghost before = self.state();
            match &assembly.components[i] {
                Component::Assembly(child) => {
                    assert(decreases_to!(assembly => assembly.components));
                    self.lower_assembly(assembly_node, child, item.as_str());
                    assert(self.state() == lower_component(
                        before,
                        assembly_node.index(),
                        Component::Assembly(*child),
                        item@,
                    ));
                },
                Component::Part(part) => {
                    self.lower_part(assembly_node, part, item.as_str());
                    assert(self.state() == lower_component(
                        before,
                        assembly_node.index(),
                        Component::Part(*part),
                        item@,
                    ));
                },
            }
            assert(self.state() == lower_component(
                before,
                assembly_node.index(),
                assembly.components@[i as int],
                item@,
            ));
            proof {
                let cs = assembly.components@.take(i + 1);
                assert(cs.drop_last() =~= assembly.components@.take(i as int));
                assert(cs.last() == assembly.components@[i as int]);
                assert(lower_components(s3, assembly_node.index(), cs, path@) == lower_component(
                    lower_components(s3, assembly_node.index(), cs.drop_last(), path@),
                    assembly_node.index(),
                    cs.last(),
                    item_path(path@, "components"@, i as int),
                ));
            }
            i = i + 1;
        }
        assert(assembly.components@.take(n as int) =~= assembly.components@);
        let ghost s4 = self.state();
        let m = assembly.connections.len();
        let mut j: usize = 0;
        while j < m
            invariant
                m == assembly.connections@.len(),
                j <= m,
                self.wf(),
                self.frame(start),
                start == *old(self),
                assembly_node.index() == old(self).graph.node_seq().len(),
                assembly_node.index() < self.graph.node_seq().len(),
                self.state() == (LowerState {
                    pending: s4.pending + connection_items(
                        assembly.connections@.take(j as int),
                        path@,
                    ),
                    ..s4
                }),
            decreases m - j,
        {
            let item = item_path_text(path, "connections", j);
            let ghost before = self.state();
            self.pending_connections.push(
                PendingConnection { path: item, connection: &assembly.connections[j] },
            );
            proof {
                assert(self.state().pending =~= before.pending.push(
                    (item_path(path@, "connections"@, j as int), assembly.connections@[j as int]),
                ));
                assert(connection_items(assembly.connections@.take(j + 1), path@) =~= connection_items(
                    assembly.connections@.take(j as int),
                    path@,
                ).push((item_path(path@, "connections"@, j as int), assembly.connections@[j as int])));
                assert(self.state().pending =~= s4.pending + connection_items(
                    assembly.connections@.take(j + 1),
                    path@,
                ));
            }
            j = j + 1;
        }
        assert(assembly.connections@.take(m as int) =~= assembly.connections@);
        assembly_node
    }

    /// The node of a connection's interface, as lowering recorded it.
    fn interface_node_id(&self, interface: &InterfaceRef) -> (r: Result<NodeId, LoweringError>)
        requires
            self.wf(),
        ensures
            match interface_position(
                self.state().interfaces,
                interface.component@,
                interface.interface@,
            ) {
                Some(p) => r is Ok && r->Ok_0.index() == p && p < self.graph.node_seq().len(),
                None => r is Err && r->Err_0@ == LoweringIssue::Validation(
                    missing_interface(*interface),
                ),
            },
    {
        let ghost entries = self.state().interfaces;
        let mut found: Option<NodeId> = None;
        let n = self.interface_nodes.len();
        let mut i: usize = 0;
        while i < n
            invariant
                n == self.interface_nodes@.len(),
                i <= n,
                entries == self.state().interfaces,
                self.wf(),
                match found {
                    Some(id) => interface_position(
                        entries.take(i as int),
                        interface.component@,
                        interface.interface@,
                    ) == Some(id.index()) && id.index() < self.graph.node_seq().len(),
                    None => interface_position(
                        entries.take(i as int),
                        interface.component@,
                        interface.interface@,
                    ) is None,
                },
            decreases n - i,
        {
            proof {
                assert(entries.take(i + 1).drop_last() =~= entries.take(i as int));
                assert(entries.take(i + 1).last() == entries[i as int]);
            }
            if self.interface_nodes[i].0 == interface.component && self.interface_nodes[i].1
                == interface.interface {
                found = Some(self.interface_nodes[i].2);
            }
            i = i + 1;
        }
        assert(entries.take(n as int) =~= entries);
        match found {
            Some(id) => Ok(id),
            None => Err(
                LoweringError::Validation(
                    ValidationError::MissingConnectionInterface {
                        connection: "lowering".to_owned(),
                        component: interface.component.clone(),
                        interface: interface.interface.clone(),
                    },
                ),
            ),
        }
    }

    #[verifier::loop_isolation(false)]
    fn lower(self) -> (r: Result<LoweredDesign, LoweringError>)
        requires
            self.wf(),
            self.state() == initial_state(*self.design),
            self.graph.metadata_view() == lowering_metadata(*self.design),
            self.graph.root_id().index() == 0,
        ensures
            lowering_outcome(r, *self.design),
    {
        let mut this = self;
        let design = this.design;
        let root = this.graph.root();
        this.lower_assembly(root, &design.root, "design.root");
        let ghost s1 = this.state();
        let nr = design.requirements.len();
        let mut i: usize = 0;
        while i < nr
            invariant
                nr == design.requirements@.len(),
                i <= nr,
                this.wf(),
                this.design == design,
                this.graph.metadata_view() == lowering_metadata(*design),
                this.graph.root_id().index() == 0,
                root.index() == 0,
                root.index() < this.graph.node_seq().len(),
                s1 == lower_assembly(initial_state(*design), 0, design.root, "design.root"@),
                this.state() == lower_requirements(s1, 0, design.requirements@.take(i as int)),
            decreases nr - i,
        {
            let item = item_path_text("design", "requirements", i);
            let requirement = &design.requirements[i];
            this.lower_named_value(root, requirement.name.as_str(), &requirement.value, item.as_str());
            proof {
                assert(design.requirements@.take(i + 1).drop_last() =~= design.requirements@.take(
                    i as int,
                ));
                assert(design.requirements@.take(i + 1).last() == design.requirements@[i as int]);
            }
            i = i + 1;
        }
        assert(design.requirements@.take(nr as int) =~= design.requirements@);
        let ghost s = this.state();
        assert(s == lowered_state(*design));
        let ghost entries = s.interfaces;
        let ghost items = s.pending;
        let mut pending: Vec<PendingConnection<'a>> = Vec::new();
        std::mem::swap(&mut pending, &mut this.pending_connections);
        assert(this.state().interfaces == entries);
        assert(this.graph.node_views() == s.nodes);
        assert(connection_edges(entries, items.take(0)) =~= Ok::<Seq<EdgeView>, ValidationIssue>(
            Seq::empty(),
        )) by {
            assert(items.take(0) =~= Seq::<(Seq<char>, Connection)>::empty());
        }
        let np = pending.len();
        let mut j: usize = 0;
        while j < np
            invariant
                np == pending@.len(),
                j <= np,
                this.wf(),
                this.design == design,
                this.graph.metadata_view() == lowering_metadata(*design),
                this.graph.node_views() == s.nodes,
                this.graph.root_id().index() == 0,
                s == lowered_state(*design),
                entries == s.interfaces,
                items == s.pending,
                this.state().interfaces == entries,
                items == pending@.map_values(|p: PendingConnection<'a>| (p.path@, *p.connection)),
                connection_edges(entries, items.take(j as int)) is Ok,
                this.graph.edge_views() == s.edges + connection_edges(
                    entries,
                    items.take(j as int),
                )->Ok_0,
            decreases np - j,
        {
            let p = &pending[j];
            proof {
                assert(items.take(j + 1).drop_last() =~= items.take(j as int));
                assert(items.take(j + 1).last() == items[j as int]);
                assert(items[j as int] == (p.path@, *p.connection));
            }
            let from = match this.interface_node_id(&p.connection.from) {
                Ok(id) => id,
                Err(e) => {
                    proof {
                        lemma_connection_error_persists(entries, items, j + 1);
                    }
                    return Err(e);
                },
            };
            let to = match this.interface_node_id(&p.connection.to) {
                Ok(id) => id,
                Err(e) => {
                    proof {
                        lemma_connection_error_persists(entries, items, j + 1);
                    }
                    return Err(e);
                },
            };
            let edge = Edge::new(EdgeKind::Connects, from, to, Origin::Sdk).with_attr(
                "name",
                Value::String(p.connection.name.clone()),
            ).with_attr(
                "connection_kind",
                Value::Enum(connection_kind_label(&p.connection.kind).to_owned()),
            ).with_attr("sdk.authoring_path", Value::String(p.path.clone()));
            let ghost e = edge;
            let ghost before = this.graph.edge_views();
            let _ = this.graph.add_edge(edge);
            proof {
                assert(this.graph.edge_views() =~= before.push(e@));
                assert(this.graph.node_views() =~= s.nodes);
                assert(e@ == connection_edge(entries, items[j as int])->Ok_0);
                assert(this.graph.edge_views() =~= s.edges + connection_edges(
                    entries,
                    items.take(j + 1),
                )->Ok_0);
            }
            j = j + 1;
        }
        assert(items.take(np as int) =~= items);
        assert(items.len() == np);
        let manufacturing = design.manufacturing.clone();
        Ok(LoweredDesign { graph: this.graph, manufacturing })
    }
}

/// Once a prefix of the connections fails, the whole list fails the same way.
proof fn lemma_connection_error_persists(
    entries: Seq<(Seq<char>, Seq<char>, nat)>,
    items: Seq<(Seq<char>, Connection)>,
    k: int,
)
    requires
        0 <= k <= items.len(),
        connection_edges(entries, items.take(k)) is Err,
    ensures
        connection_edges(entries, items) == connection_edges(entries, items.take(k)),
    decreases items.len() - k,
{
    if k < items.len() {
        assert(items.take(k + 1).drop_last() =~= items.take(k));
        lemma_connection_error_persists(entries, items, k + 1);
    } else {
        assert(items.take(k) =~= items);
    }
}

/// What lowering a design gives: success exactly on a valid design; the first validation
/// problem on an invalid one; and on a valid one, what `lowering_outcome` says.
pub open spec fn lowering_result(r: Result<LoweredDesign, LoweringError>, d: Design) -> bool {
    &&& (r is Ok <==> design_issue(d) is None)
    &&& (design_issue(d) is Some ==> r is Err && r->Err_0@ == LoweringIssue::Validation(
        design_issue(d)->Some_0,
    ))
    &&& (design_issue(d) is None ==> lowering_outcome(r, d))
}

/// What lowering gives for a design: the validation failure, the connection that names no
/// interface node, or the graph of `lowered_graph` with the lowering metadata and the design's
/// manufacturing context.
pub open spec fn lowering_outcome(r: Result<LoweredDesign, LoweringError>, d: Design) -> bool {
    match lowered_graph(d) {
        Err(e) => r is Err && r->Err_0@ == LoweringIssue::Validation(e),
        Ok(g) => {
            &&& r is Ok
            &&& r->Ok_0.graph.well_formed()
            &&& r->Ok_0.graph.node_views() == g.0
            &&& r->Ok_0.graph.edge_views() == g.1
            &&& r->Ok_0.graph.metadata_view() == lowering_metadata(d)
            &&& r->Ok_0.graph.root_id().index() == 0
            &&& r->Ok_0.manufacturing.same_as(d.manufacturing)
        },
    }
}

impl Design {
    /// Lowers the validated design into the compiler's inputs: its IR graph and its
    /// manufacturing context. A design that fails validation is refused with that failure.
    pub fn lower_to_ir(&self) -> (r: Result<LoweredDesign, LoweringError>)
        ensures
            lowering_result(r, *self),
    {
        match self.validate() {
            Err(e) => {
                return Err(LoweringError::Validation(e));
            },
            Ok(()) => {},
        }
        proof {
            law_validated_designs_lower(*self);
        }
        GraphLowerer::new(self).lower()
    }
}

/// Lowering the same design twice gives the same outcome and the same graph.
pub proof fn law_lowering_is_deterministic(
    d: Design,
    first: Result<LoweredDesign, LoweringError>,
    second: Result<LoweredDesign, LoweringError>,
)
    requires
        lowering_outcome(first, d),
        lowering_outcome(second, d),
    ensures
        first is Ok <==> second is Ok,
        first is Err ==> first->Err_0@ == second->Err_0@,
        first is Ok ==> {
            &&& first->Ok_0.graph.node_views() == second->Ok_0.graph.node_views()
            &&& first->Ok_0.graph.edge_views() == second->Ok_0.graph.edge_views()
            &&& first->Ok_0.graph.metadata_view() == second->Ok_0.graph.metadata_view()
        },
{
}

} // verus!
