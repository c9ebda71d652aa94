//! Whose nodes a lowered graph hangs things on: every constraint and every interface of an
//! assembly or a part hangs off the unit's own node, every part uses its material's node, and
//! every assembly contains the nodes of its components; the design's requirements hang off the
//! system node.

use super::lower::{
    attach, interface_kind_text, lower_assembly, lower_component, lower_components,
    lower_constraints, lower_interfaces, lower_part, lower_requirements, lowered_graph,
    lowered_state, initial_state, material_node, material_position, material_text, path_attrs,
    sdk_node, typed_value_view, with_material, LowerState,
};
use super::model::{Assembly, Component, Constraint, Design, Interface, Part, Requirement};
use super::resolution::{extends, unit_constraints};
use super::validate::{
    assembly_units, component_list_units, component_units, lemma_component_list_units_push,
    unit_id, unit_interfaces,
};
use crate::ir::{EdgeKind, EdgeView, NodeKind, NodeView, ValueView};
use vstd::prelude::*;

verus! {

/// The node kind of a unit.
pub open spec fn unit_kind(u: Component) -> NodeKind {
    match u {
        Component::Assembly(_) => NodeKind::Assembly,
        Component::Part(_) => NodeKind::Part,
    }
}

/// The node stands for the unit: it has the unit's kind and is named by its identifier.
pub open spec fn is_unit_node(n: NodeView, u: Component) -> bool {
    n.kind == unit_kind(u) && n.name == unit_id(u)
}

/// The edge runs from the unit's node to a constraint node that carries the constraint's name
/// and value.
pub open spec fn constrains_with(nodes: Seq<NodeView>, e: EdgeView, u: Component, c: Constraint) -> bool {
    &&& e.kind == EdgeKind::Constrains
    &&& e.source < nodes.len()
    &&& e.target < nodes.len()
    &&& is_unit_node(nodes[e.source as int], u)
    &&& nodes[e.target as int].kind == NodeKind::Constraint
    &&& nodes[e.target as int].name == c.name@
    &&& nodes[e.target as int].attrs.contains_key("value"@)
    &&& nodes[e.target as int].attrs["value"@] == typed_value_view(c.value)
}

/// Some edge constrains the unit's node by the constraint.
pub open spec fn constrained(nodes: Seq<NodeView>, edges: Seq<EdgeView>, u: Component, c: Constraint) -> bool {
    exists|k: int| 0 <= k < edges.len() && constrains_with(nodes, #[trigger] edges[k], u, c)
}

/// The edge runs from the unit's node to an interface node named `<unit>.<interface>` that
/// records the interface's kind: the unit contains the interface.
pub open spec fn interface_edge(nodes: Seq<NodeView>, e: EdgeView, u: Component, itf: Interface) -> bool {
    &&& e.kind == EdgeKind::Contains
    &&& e.source < nodes.len()
    &&& e.target < nodes.len()
    &&& is_unit_node(nodes[e.source as int], u)
    &&& nodes[e.target as int].kind == NodeKind::Interface
    &&& nodes[e.target as int].name == unit_id(u) + "."@ + itf.name@
    &&& nodes[e.target as int].attrs.contains_key("interface_kind"@)
    &&& nodes[e.target as int].attrs["interface_kind"@] == ValueView::Enum(interface_kind_text(itf.kind))
}

/// Some edge makes the unit contain the interface.
pub open spec fn interface_hung(nodes: Seq<NodeView>, edges: Seq<EdgeView>, u: Component, itf: Interface) -> bool {
    exists|k: int| 0 <= k < edges.len() && interface_edge(nodes, #[trigger] edges[k], u, itf)
}

/// The edge runs from the part's node to the node of the part's material.
pub open spec fn material_edge(nodes: Seq<NodeView>, e: EdgeView, p: Part) -> bool {
    &&& e.kind == EdgeKind::UsesMaterial
    &&& e.source < nodes.len()
    &&& e.target < nodes.len()
    &&& is_unit_node(nodes[e.source as int], Component::Part(p))
    &&& nodes[e.target as int].kind == NodeKind::Material
    &&& nodes[e.target as int].name == material_text(p.material)
}

/// The edge runs from the node at `parent` to the component's node: the parent contains it.
pub open spec fn child_edge(nodes: Seq<NodeView>, e: EdgeView, parent: nat, c: Component) -> bool {
    &&& e.kind == EdgeKind::Contains
    &&& e.source == parent
    &&& e.target < nodes.len()
    &&& is_unit_node(nodes[e.target as int], c)
}

/// Some edge makes the node at `parent` contain the component's node.
pub open spec fn contained(nodes: Seq<NodeView>, edges: Seq<EdgeView>, parent: nat, c: Component) -> bool {
    exists|k: int| 0 <= k < edges.len() && child_edge(nodes, #[trigger] edges[k], parent, c)
}

/// Some edge makes the part's node use the node of its material.
pub open spec fn material_used(nodes: Seq<NodeView>, edges: Seq<EdgeView>, p: Part) -> bool {
    exists|k: int| 0 <= k < edges.len() && material_edge(nodes, #[trigger] edges[k], p)
}

/// Some edge makes the unit's node contain the component's node.
pub open spec fn component_contained(nodes: Seq<NodeView>, edges: Seq<EdgeView>, u: Component, c: Component) -> bool {
    exists|k: int|
        0 <= k < edges.len() && edges[k].source < nodes.len() && is_unit_node(nodes[edges[k].source as int], u)
            && child_edge(nodes, #[trigger] edges[k], edges[k].source, c)
}

/// What hangs off the unit's node: each of its constraints and interfaces; for a part, its
/// material; for an assembly, each of its components.
pub open spec fn unit_hung(nodes: Seq<NodeView>, edges: Seq<EdgeView>, u: Component) -> bool {
    &&& forall|j: int|
        0 <= j < unit_constraints(u).len() ==> constrained(
            nodes,
            edges,
            u,
            #[trigger] unit_constraints(u)[j],
        )
    &&& forall|j: int|
        0 <= j < unit_interfaces(u).len() ==> interface_hung(
            nodes,
            edges,
            u,
            #[trigger] unit_interfaces(u)[j],
        )
    &&& u matches Component::Part(p) ==> material_used(nodes, edges, p)
    &&& u matches Component::Assembly(a) ==> forall|j: int|
        0 <= j < a.components@.len() ==> component_contained(nodes, edges, u, #[trigger] a.components@[j])
}

pub open spec fn units_hung(nodes: Seq<NodeView>, edges: Seq<EdgeView>, us: Seq<Component>) -> bool {
    forall|i: int| 0 <= i < us.len() ==> unit_hung(nodes, edges, #[trigger] us[i])
}

/// Each material entry names a material node of the graph.
pub open spec fn materials_sound(s: LowerState) -> bool {
    forall|q: int|
        0 <= q < s.materials.len() ==> {
            let (name, at) = #[trigger] s.materials[q];
            &&& at < s.nodes.len()
            &&& s.nodes[at as int].kind == NodeKind::Material
            &&& s.nodes[at as int].name == name
        }
}

/// The edge runs from the system node to a constraint node that carries the requirement's
/// name and value.
pub open spec fn requirement_edge(nodes: Seq<NodeView>, e: EdgeView, r: Requirement) -> bool {
    &&& e.kind == EdgeKind::Constrains
    &&& e.source == 0
    &&& e.target < nodes.len()
    &&& nodes[e.target as int].kind == NodeKind::Constraint
    &&& nodes[e.target as int].name == r.name@
    &&& nodes[e.target as int].attrs.contains_key("value"@)
    &&& nodes[e.target as int].attrs["value"@] == typed_value_view(r.value)
}

/// Some edge makes the system node carry the requirement.
pub open spec fn required(nodes: Seq<NodeView>, edges: Seq<EdgeView>, r: Requirement) -> bool {
    exists|k: int| 0 <= k < edges.len() && requirement_edge(nodes, #[trigger] edges[k], r)
}

/// The later state keeps the earlier one's nodes and edges, at their positions.
pub open spec fn keeps(s: LowerState, t: LowerState) -> bool {
    extends(s.nodes, t.nodes) && extends(s.edges, t.edges)
}

proof fn lemma_keeps_trans(s: LowerState, t: LowerState, u: LowerState)
    requires
        keeps(s, t),
        keeps(t, u),
    ensures
        keeps(s, u),
{
    assert forall|k: int| 0 <= k < s.nodes.len() implies #[trigger] u.nodes[k] == s.nodes[k] by {
        assert(t.nodes[k] == s.nodes[k]);
    }
    assert forall|k: int| 0 <= k < s.edges.len() implies #[trigger] u.edges[k] == s.edges[k] by {
        assert(t.edges[k] == s.edges[k]);
    }
}

/// Material entries stay sound while nodes are only added.
proof fn lemma_materials_kept(s: LowerState, t: LowerState)
    requires
        materials_sound(s),
        extends(s.nodes, t.nodes),
        t.materials == s.materials,
    ensures
        materials_sound(t),
{
    assert forall|q: int| 0 <= q < t.materials.len() implies {
        let (name, at) = #[trigger] t.materials[q];
        &&& at < t.nodes.len()
        &&& t.nodes[at as int].kind == NodeKind::Material
        &&& t.nodes[at as int].name == name
    } by {
        assert(s.materials[q] == t.materials[q]);
        assert(t.nodes[s.materials[q].1 as int] == s.nodes[s.materials[q].1 as int]);
    }
}

/// What hangs off units stays when nodes and edges are only added.
proof fn lemma_hung_kept(
    nodes: Seq<NodeView>,
    edges: Seq<EdgeView>,
    more_nodes: Seq<NodeView>,
    more_edges: Seq<EdgeView>,
    us: Seq<Component>,
)
    requires
        extends(nodes, more_nodes),
        extends(edges, more_edges),
        units_hung(nodes, edges, us),
    ensures
        units_hung(more_nodes, more_edges, us),
{
    assert forall|i: int| 0 <= i < us.len() implies unit_hung(more_nodes, more_edges, #[trigger] us[i]) by {
        let u = us[i];
        assert(unit_hung(nodes, edges, u));
        assert forall|j: int| 0 <= j < unit_constraints(u).len() implies constrained(
            more_nodes,
            more_edges,
            u,
            #[trigger] unit_constraints(u)[j],
        ) by {
            let c = unit_constraints(u)[j];
            assert(constrained(nodes, edges, u, c));
            let k = choose|k: int| 0 <= k < edges.len() && constrains_with(nodes, #[trigger] edges[k], u, c);
            assert(more_edges[k] == edges[k]);
            assert(more_nodes[edges[k].source as int] == nodes[edges[k].source as int]);
            assert(more_nodes[edges[k].target as int] == nodes[edges[k].target as int]);
            assert(constrains_with(more_nodes, more_edges[k], u, c));
        }
        assert forall|j: int| 0 <= j < unit_interfaces(u).len() implies interface_hung(
            more_nodes,
            more_edges,
            u,
            #[trigger] unit_interfaces(u)[j],
        ) by {
            let itf = unit_interfaces(u)[j];
            assert(interface_hung(nodes, edges, u, itf));
            let k = choose|k: int| 0 <= k < edges.len() && interface_edge(nodes, #[trigger] edges[k], u, itf);
            assert(more_edges[k] == edges[k]);
            assert(more_nodes[edges[k].source as int] == nodes[edges[k].source as int]);
            assert(more_nodes[edges[k].target as int] == nodes[edges[k].target as int]);
            assert(interface_edge(more_nodes, more_edges[k], u, itf));
        }
        if let Component::Part(p) = u {
            assert(material_used(nodes, edges, p));
            let k = choose|k: int| 0 <= k < edges.len() && material_edge(nodes, #[trigger] edges[k], p);
            assert(more_edges[k] == edges[k]);
            assert(more_nodes[edges[k].source as int] == nodes[edges[k].source as int]);
            assert(more_nodes[edges[k].target as int] == nodes[edges[k].target as int]);
            assert(material_edge(more_nodes, more_edges[k], p));
            assert(material_used(more_nodes, more_edges, p));
        }
        if let Component::Assembly(a) = u {
            assert forall|j: int| 0 <= j < a.components@.len() implies component_contained(
                more_nodes,
                more_edges,
                u,
                #[trigger] a.components@[j],
            ) by {
                assert(component_contained(nodes, edges, u, a.components@[j]));
                let k = choose|k: int|
                    0 <= k < edges.len() && edges[k].source < nodes.len() && is_unit_node(
                        nodes[edges[k].source as int],
                        u,
                    ) && child_edge(nodes, #[trigger] edges[k], edges[k].source, a.components@[j]);
                assert(more_edges[k] == edges[k]);
                assert(more_nodes[edges[k].source as int] == nodes[edges[k].source as int]);
                assert(more_nodes[edges[k].target as int] == nodes[edges[k].target as int]);
                assert(child_edge(more_nodes, more_edges[k], more_edges[k].source, a.components@[j]));
            }
        }
    }
}

/// A unit's interfaces, lowered with the unit's node as their owner, each hang off that node.
proof fn lemma_interfaces_hang_off(s: LowerState, owner: nat, ifs: Seq<Interface>, path: Seq<char>, u: Component)
    requires
        owner < s.nodes.len(),
        is_unit_node(s.nodes[owner as int], u),
        materials_sound(s),
    ensures
        keeps(s, lower_interfaces(s, unit_id(u), owner, ifs, path)),
        lower_interfaces(s, unit_id(u), owner, ifs, path).materials == s.materials,
        materials_sound(lower_interfaces(s, unit_id(u), owner, ifs, path)),
        forall|j: int|
            0 <= j < ifs.len() ==> interface_hung(
                lower_interfaces(s, unit_id(u), owner, ifs, path).nodes,
                lower_interfaces(s, unit_id(u), owner, ifs, path).edges,
                u,
                #[trigger] ifs[j],
            ),
    decreases ifs.len(),
{
    let component = unit_id(u);
    if ifs.len() > 0 {
        let prev = lower_interfaces(s, component, owner, ifs.drop_last(), path);
        lemma_interfaces_hang_off(s, owner, ifs.drop_last(), path, u);
        let t = lower_interfaces(s, component, owner, ifs, path);
        assert(keeps(prev, t));
        lemma_keeps_trans(s, prev, t);
        lemma_materials_kept(prev, t);
        assert forall|j: int| 0 <= j < ifs.len() implies interface_hung(t.nodes, t.edges, u, #[trigger] ifs[j]) by {
            if j < ifs.len() - 1 {
                assert(ifs.drop_last()[j] == ifs[j]);
                let k = choose|k: int|
                    0 <= k < prev.edges.len() && interface_edge(prev.nodes, #[trigger] prev.edges[k], u, ifs[j]);
                assert(t.edges[k] == prev.edges[k]);
                assert(t.nodes[prev.edges[k].source as int] == prev.nodes[prev.edges[k].source as int]);
                assert(t.nodes[prev.edges[k].target as int] == prev.nodes[prev.edges[k].target as int]);
                assert(interface_edge(t.nodes, t.edges[k], u, ifs[j]));
            } else {
                let k = prev.edges.len() as int;
                reveal_strlit("interface_kind");
                reveal_strlit("sdk.authoring_path");
                assert("interface_kind"@ != "sdk.authoring_path"@) by {
                    assert("interface_kind"@.len() != "sdk.authoring_path"@.len());
                }
                assert(ifs[j] == ifs.last());
                assert(t.nodes[owner as int] == s.nodes[owner as int]);
                assert(t.edges[k].target == prev.nodes.len());
                assert(interface_edge(t.nodes, t.edges[k], u, ifs[j]));
            }
        }
    }
}

/// A unit's constraints, lowered with the unit's node as their owner, each constrain that node.
proof fn lemma_constraints_hang_off(s: LowerState, owner: nat, cs: Seq<Constraint>, path: Seq<char>, u: Component)
    requires
        owner < s.nodes.len(),
        is_unit_node(s.nodes[owner as int], u),
        materials_sound(s),
    ensures
        keeps(s, lower_constraints(s, owner, cs, path)),
        lower_constraints(s, owner, cs, path).materials == s.materials,
        materials_sound(lower_constraints(s, owner, cs, path)),
        forall|j: int|
            0 <= j < cs.len() ==> constrained(
                lower_constraints(s, owner, cs, path).nodes,
                lower_constraints(s, owner, cs, path).edges,
                u,
                #[trigger] cs[j],
            ),
    decreases cs.len(),
{
    if cs.len() > 0 {
        let prev = lower_constraints(s, owner, cs.drop_last(), path);
        lemma_constraints_hang_off(s, owner, cs.drop_last(), path, u);
        let t = lower_constraints(s, owner, cs, path);
        assert(keeps(prev, t));
        lemma_keeps_trans(s, prev, t);
        lemma_materials_kept(prev, t);
        assert forall|j: int| 0 <= j < cs.len() implies constrained(t.nodes, t.edges, u, #[trigger] cs[j]) by {
            if j < cs.len() - 1 {
                assert(cs.drop_last()[j] == cs[j]);
                let k = choose|k: int|
                    0 <= k < prev.edges.len() && constrains_with(prev.nodes, #[trigger] prev.edges[k], u, cs[j]);
                assert(t.edges[k] == prev.edges[k]);
                assert(t.nodes[prev.edges[k].source as int] == prev.nodes[prev.edges[k].source as int]);
                assert(t.nodes[prev.edges[k].target as int] == prev.nodes[prev.edges[k].target as int]);
                assert(constrains_with(t.nodes, t.edges[k], u, cs[j]));
            } else {
                let k = prev.edges.len() as int;
                reveal_strlit("value");
                reveal_strlit("sdk.authoring_path");
                assert("value"@ != "sdk.authoring_path"@) by {
                    assert("value"@.len() != "sdk.authoring_path"@.len());
                }
                assert(cs[j] == cs.last());
                assert(t.nodes[owner as int] == s.nodes[owner as int]);
                assert(t.edges[k].target == prev.nodes.len());
                assert(constrains_with(t.nodes, t.edges[k], u, cs[j]));
            }
        }
    }
}

proof fn lemma_requirements_keep_graph(s: LowerState, owner: nat, rs: Seq<Requirement>)
    ensures
        keeps(s, lower_requirements(s, owner, rs)),
    decreases rs.len(),
{
    if rs.len() > 0 {
        let prev = lower_requirements(s, owner, rs.drop_last());
        lemma_requirements_keep_graph(s, owner, rs.drop_last());
        let t = lower_requirements(s, owner, rs);
        assert(keeps(prev, t));
        lemma_keeps_trans(s, prev, t);
    }
}

/// A material found among the entries is one of them.
proof fn lemma_material_entry(entries: Seq<(Seq<char>, nat)>, name: Seq<char>)
    requires
        material_position(entries, name) is Some,
    ensures
        exists|q: int|
            0 <= q < entries.len() && (#[trigger] entries[q]).0 == name && entries[q].1
                == material_position(entries, name)->Some_0,
    decreases entries.len(),
{
    if entries.last().0 != name {
        lemma_material_entry(entries.drop_last(), name);
        let q = choose|q: int|
            0 <= q < entries.drop_last().len() && (#[trigger] entries.drop_last()[q]).0 == name
                && entries.drop_last()[q].1 == material_position(entries.drop_last(), name)->Some_0;
        assert(entries[q] == entries.drop_last()[q]);
    } else {
        assert(entries[entries.len() - 1] == entries.last());
    }
}

/// Once the material has a node, that node is a material node with the material's name.
proof fn lemma_material_placed(s: LowerState, name: Seq<char>)
    requires
        materials_sound(s),
    ensures
        keeps(s, with_material(s, name)),
        with_material(s, name).edges == s.edges,
        materials_sound(with_material(s, name)),
        material_node(s, name) < with_material(s, name).nodes.len(),
        with_material(s, name).nodes[material_node(s, name) as int].kind == NodeKind::Material,
        with_material(s, name).nodes[material_node(s, name) as int].name == name,
{
    let t = with_material(s, name);
    if material_position(s.materials, name) is Some {
        lemma_material_entry(s.materials, name);
        let q = choose|q: int|
            0 <= q < s.materials.len() && (#[trigger] s.materials[q]).0 == name && s.materials[q].1
                == material_position(s.materials, name)->Some_0;
        assert(s.materials[q].1 == material_node(s, name));
    } else {
        assert forall|q: int| 0 <= q < t.materials.len() implies {
            let (n, at) = #[trigger] t.materials[q];
            &&& at < t.nodes.len()
            &&& t.nodes[at as int].kind == NodeKind::Material
            &&& t.nodes[at as int].name == n
        } by {
            if q < s.materials.len() {
                assert(t.materials[q] == s.materials[q]);
                assert(t.nodes[s.materials[q].1 as int] == s.nodes[s.materials[q].1 as int]);
            }
        }
    }
}

proof fn lemma_part_hangs(s: LowerState, parent: nat, p: Part, path: Seq<char>)
    requires
        materials_sound(s),
    ensures
        keeps(s, lower_part(s, parent, p, path)),
        materials_sound(lower_part(s, parent, p, path)),
        units_hung(
            lower_part(s, parent, p, path).nodes,
            lower_part(s, parent, p, path).edges,
            seq![Component::Part(p)],
        ),
        contained(
            lower_part(s, parent, p, path).nodes,
            lower_part(s, parent, p, path).edges,
            parent,
            Component::Part(p),
        ),
{
    let id = s.nodes.len();
    let u = Component::Part(p);
    let s1 = attach(s, sdk_node(NodeKind::Part, p.id@, path_attrs(path)), EdgeKind::Contains, parent, path);
    lemma_materials_kept(s, s1);
    assert(unit_id(u) == p.id@);
    assert(is_unit_node(s1.nodes[id as int], u));
    lemma_interfaces_hang_off(s1, id, p.interfaces@, path, u);
    let s2 = lower_interfaces(s1, p.id@, id, p.interfaces@, path);
    assert(s2.nodes[id as int] == s1.nodes[id as int]);
    lemma_constraints_hang_off(s2, id, p.constraints@, path, u);
    let s3 = lower_constraints(s2, id, p.constraints@, path);
    let label = material_text(p.material);
    lemma_material_placed(s3, label);
    let s4 = with_material(s3, label);
    let t = lower_part(s, parent, p, path);
    assert(keeps(s4, t));
    lemma_keeps_trans(s, s1, s2);
    lemma_keeps_trans(s, s2, s3);
    lemma_keeps_trans(s, s3, s4);
    lemma_keeps_trans(s, s4, t);
    lemma_keeps_trans(s1, s2, s3);
    lemma_keeps_trans(s1, s3, s4);
    lemma_keeps_trans(s1, s4, t);
    lemma_keeps_trans(s2, s3, s4);
    lemma_keeps_trans(s2, s4, t);
    lemma_keeps_trans(s3, s4, t);
    lemma_materials_kept(s4, t);
    assert(unit_constraints(u) == p.constraints@);
    assert(unit_interfaces(u) == p.interfaces@);
    // The part's node and the edge that contains it.
    assert(t.nodes[id as int] == s1.nodes[id as int]);
    assert(t.edges[s.edges.len() as int] == s1.edges[s.edges.len() as int]);
    assert(child_edge(t.nodes, t.edges[s.edges.len() as int], parent, u));
    // Its interfaces and constraints.
    assert forall|j: int| 0 <= j < unit_interfaces(u).len() implies interface_hung(
        t.nodes,
        t.edges,
        u,
        #[trigger] unit_interfaces(u)[j],
    ) by {
        let itf = unit_interfaces(u)[j];
        let k = choose|k: int| 0 <= k < s2.edges.len() && interface_edge(s2.nodes, #[trigger] s2.edges[k], u, itf);
        assert(t.edges[k] == s2.edges[k]);
        assert(t.nodes[s2.edges[k].source as int] == s2.nodes[s2.edges[k].source as int]);
        assert(t.nodes[s2.edges[k].target as int] == s2.nodes[s2.edges[k].target as int]);
        assert(interface_edge(t.nodes, t.edges[k], u, itf));
    }
    assert forall|j: int| 0 <= j < unit_constraints(u).len() implies constrained(
        t.nodes,
        t.edges,
        u,
        #[trigger] unit_constraints(u)[j],
    ) by {
        let c = unit_constraints(u)[j];
        let k = choose|k: int| 0 <= k < s3.edges.len() && constrains_with(s3.nodes, #[trigger] s3.edges[k], u, c);
        assert(t.edges[k] == s3.edges[k]);
        assert(t.nodes[s3.edges[k].source as int] == s3.nodes[s3.edges[k].source as int]);
        assert(t.nodes[s3.edges[k].target as int] == s3.nodes[s3.edges[k].target as int]);
        assert(constrains_with(t.nodes, t.edges[k], u, c));
    }
    // Its material.
    let m = s4.edges.len() as int;
    assert(material_edge(t.nodes, t.edges[m], p));
    assert(material_used(t.nodes, t.edges, p));
    assert(unit_hung(t.nodes, t.edges, u));
    assert(units_hung(t.nodes, t.edges, seq![u])) by {
        assert(seq![u][0] == u);
    }
}

proof fn lemma_assembly_hangs(s: LowerState, parent: nat, a: Assembly, path: Seq<char>)
    requires
        materials_sound(s),
    ensures
        keeps(s, lower_assembly(s, parent, a, path)),
        materials_sound(lower_assembly(s, parent, a, path)),
        units_hung(
            lower_assembly(s, parent, a, path).nodes,
            lower_assembly(s, parent, a, path).edges,
            assembly_units(a),
        ),
        contained(
            lower_assembly(s, parent, a, path).nodes,
            lower_assembly(s, parent, a, path).edges,
            parent,
            Component::Assembly(a),
        ),
    decreases a,
{
    let id = s.nodes.len();
    let u = Component::Assembly(a);
    let s1 = attach(s, sdk_node(NodeKind::Assembly, a.id@, path_attrs(path)), EdgeKind::Contains, parent, path);
    lemma_materials_kept(s, s1);
    assert(unit_id(u) == a.id@);
    assert(is_unit_node(s1.nodes[id as int], u));
    lemma_interfaces_hang_off(s1, id, a.interfaces@, path, u);
    let s2 = lower_interfaces(s1, a.id@, id, a.interfaces@, path);
    assert(s2.nodes[id as int] == s1.nodes[id as int]);
    lemma_constraints_hang_off(s2, id, a.constraints@, path, u);
    let s3 = lower_constraints(s2, id, a.constraints@, path);
    lemma_components_hang(s3, id, a.components@, path);
    let s4 = lower_components(s3, id, a.components@, path);
    let t = lower_assembly(s, parent, a, path);
    assert(keeps(s4, t));
    lemma_keeps_trans(s, s1, s2);
    lemma_keeps_trans(s, s2, s3);
    lemma_keeps_trans(s, s3, s4);
    lemma_keeps_trans(s, s4, t);
    lemma_keeps_trans(s1, s2, s3);
    lemma_keeps_trans(s1, s3, s4);
    lemma_keeps_trans(s1, s4, t);
    lemma_keeps_trans(s2, s3, s4);
    lemma_keeps_trans(s2, s4, t);
    lemma_keeps_trans(s3, s4, t);
    lemma_materials_kept(s4, t);
    assert(unit_constraints(u) == a.constraints@);
    assert(unit_interfaces(u) == a.interfaces@);
    // The assembly's node and the edge that contains it.
    assert(t.nodes[id as int] == s1.nodes[id as int]);
    assert(t.edges[s.edges.len() as int] == s1.edges[s.edges.len() as int]);
    assert(child_edge(t.nodes, t.edges[s.edges.len() as int], parent, u));
    assert forall|j: int| 0 <= j < unit_interfaces(u).len() implies interface_hung(
        t.nodes,
        t.edges,
        u,
        #[trigger] unit_interfaces(u)[j],
    ) by {
        let itf = unit_interfaces(u)[j];
        let k = choose|k: int| 0 <= k < s2.edges.len() && interface_edge(s2.nodes, #[trigger] s2.edges[k], u, itf);
        assert(t.edges[k] == s2.edges[k]);
        assert(t.nodes[s2.edges[k].source as int] == s2.nodes[s2.edges[k].source as int]);
        assert(t.nodes[s2.edges[k].target as int] == s2.nodes[s2.edges[k].target as int]);
        assert(interface_edge(t.nodes, t.edges[k], u, itf));
    }
    assert forall|j: int| 0 <= j < unit_constraints(u).len() implies constrained(
        t.nodes,
        t.edges,
        u,
        #[trigger] unit_constraints(u)[j],
    ) by {
        let c = unit_constraints(u)[j];
        let k = choose|k: int| 0 <= k < s3.edges.len() && constrains_with(s3.nodes, #[trigger] s3.edges[k], u, c);
        assert(t.edges[k] == s3.edges[k]);
        assert(t.nodes[s3.edges[k].source as int] == s3.nodes[s3.edges[k].source as int]);
        assert(t.nodes[s3.edges[k].target as int] == s3.nodes[s3.edges[k].target as int]);
        assert(constrains_with(t.nodes, t.edges[k], u, c));
    }
    // Its components.
    assert forall|j: int| 0 <= j < a.components@.len() implies component_contained(
        t.nodes,
        t.edges,
        u,
        #[trigger] a.components@[j],
    ) by {
        let c = a.components@[j];
        let k = choose|k: int| 0 <= k < s4.edges.len() && child_edge(s4.nodes, #[trigger] s4.edges[k], id, c);
        assert(t.edges[k] == s4.edges[k]);
        assert(t.nodes[s4.edges[k].target as int] == s4.nodes[s4.edges[k].target as int]);
        assert(child_edge(t.nodes, t.edges[k], t.edges[k].source, c));
    }
    assert(unit_hung(t.nodes, t.edges, u));
    let head = seq![u];
    let rest = component_list_units(a.components@);
    assert(assembly_units(a) == head + rest);
    lemma_hung_kept(s4.nodes, s4.edges, t.nodes, t.edges, rest);
    assert forall|i: int| 0 <= i < (head + rest).len() implies unit_hung(
        t.nodes,
        t.edges,
        #[trigger] (head + rest)[i],
    ) by {
        if i == 0 {
            assert((head + rest)[i] == u);
        } else {
            assert((head + rest)[i] == rest[i - 1]);
        }
    }
}

proof fn lemma_components_hang(s: LowerState, parent: nat, cs: Seq<Component>, path: Seq<char>)
    requires
        materials_sound(s),
    ensures
        keeps(s, lower_components(s, parent, cs, path)),
        materials_sound(lower_components(s, parent, cs, path)),
        units_hung(
            lower_components(s, parent, cs, path).nodes,
            lower_components(s, parent, cs, path).edges,
            component_list_units(cs),
        ),
        forall|j: int|
            0 <= j < cs.len() ==> contained(
                lower_components(s, parent, cs, path).nodes,
                lower_components(s, parent, cs, path).edges,
                parent,
                #[trigger] cs[j],
            ),
    decreases cs,
{
    if cs.len() == 0 {
        assert(component_list_units(cs) =~= Seq::<Component>::empty());
    } else {
        let prev = lower_components(s, parent, cs.drop_last(), path);
        lemma_components_hang(s, parent, cs.drop_last(), path);
        let item = super::lower::item_path(path, "components"@, cs.len() - 1);
        lemma_component_hangs(prev, parent, cs.last(), item);
        let t = lower_components(s, parent, cs, path);
        lemma_keeps_trans(s, prev, t);
        let left = component_list_units(cs.drop_last());
        let right = component_units(cs.last());
        lemma_hung_kept(prev.nodes, prev.edges, t.nodes, t.edges, left);
        assert(cs =~= cs.drop_last().push(cs.last()));
        lemma_component_list_units_push(cs.drop_last(), cs.last());
        assert forall|i: int| 0 <= i < (left + right).len() implies unit_hung(
            t.nodes,
            t.edges,
            #[trigger] (left + right)[i],
        ) by {
            if i < left.len() {
                assert((left + right)[i] == left[i]);
            } else {
                assert((left + right)[i] == right[i - left.len()]);
            }
        }
        assert forall|j: int| 0 <= j < cs.len() implies contained(t.nodes, t.edges, parent, #[trigger] cs[j]) by {
            if j < cs.len() - 1 {
                assert(cs.drop_last()[j] == cs[j]);
                let k = choose|k: int| 0 <= k < prev.edges.len() && child_edge(prev.nodes, #[trigger] prev.edges[k], parent, cs[j]);
                assert(t.edges[k] == prev.edges[k]);
                assert(t.nodes[prev.edges[k].target as int] == prev.nodes[prev.edges[k].target as int]);
                assert(child_edge(t.nodes, t.edges[k], parent, cs[j]));
            } else {
                assert(cs[j] == cs.last());
            }
        }
    }
}

proof fn lemma_component_hangs(s: LowerState, parent: nat, c: Component, path: Seq<char>)
    requires
        materials_sound(s),
    ensures
        keeps(s, lower_component(s, parent, c, path)),
        materials_sound(lower_component(s, parent, c, path)),
        units_hung(
            lower_component(s, parent, c, path).nodes,
            lower_component(s, parent, c, path).edges,
            component_units(c),
        ),
        contained(
            lower_component(s, parent, c, path).nodes,
            lower_component(s, parent, c, path).edges,
            parent,
            c,
        ),
    decreases c,
{
    match c {
        Component::Assembly(a) => {
            lemma_assembly_hangs(s, parent, a, path);
        },
        Component::Part(p) => {
            lemma_part_hangs(s, parent, p, path);
            assert(component_units(c) == seq![c]);
        },
    }
}

/// The nodes and edges of a lowered design once its tree is lowered, and what hangs off its
/// units there.
proof fn lemma_design_hangs(d: Design)
    requires
        lowered_graph(d) is Ok,
    ensures
        units_hung(lowered_graph(d)->Ok_0.0, lowered_graph(d)->Ok_0.1, assembly_units(d.root)),
        contained(lowered_graph(d)->Ok_0.0, lowered_graph(d)->Ok_0.1, 0, Component::Assembly(d.root)),
        lowered_graph(d)->Ok_0.0[0].kind == NodeKind::System,
        lowered_graph(d)->Ok_0.0[0].name == d.name@,
{
    let s0 = initial_state(d);
    lemma_assembly_hangs(s0, 0, d.root, "design.root"@);
    let sa = lower_assembly(s0, 0, d.root, "design.root"@);
    lemma_requirements_keep_graph(sa, 0, d.requirements@);
    let s = lowered_state(d);
    let nodes = lowered_graph(d)->Ok_0.0;
    let edges = lowered_graph(d)->Ok_0.1;
    assert(nodes == s.nodes);
    assert(extends(s.edges, edges));
    lemma_keeps_trans(s0, sa, s);
    assert(nodes[0] == s0.nodes[0]);
    lemma_hung_kept(sa.nodes, sa.edges, nodes, edges, assembly_units(d.root));
    let k = choose|k: int| 0 <= k < sa.edges.len() && child_edge(sa.nodes, #[trigger] sa.edges[k], 0, Component::Assembly(d.root));
    assert(edges[k] == sa.edges[k]);
    assert(nodes[sa.edges[k].target as int] == sa.nodes[sa.edges[k].target as int]);
    assert(child_edge(nodes, edges[k], 0, Component::Assembly(d.root)));
}

/// Every constraint of an assembly or a part, at any depth of the design, is lowered to a
/// constraint node that carries its name and value and that the unit's own node constrains:
/// a nested assembly's constraints hang off that assembly, not off its parent, and the root
/// assembly's off the root assembly, not off the system.
pub proof fn law_constraints_hang_off_their_unit(d: Design)
    requires
        lowered_graph(d) is Ok,
    ensures
        ({
            let units = assembly_units(d.root);
            let nodes = lowered_graph(d)->Ok_0.0;
            let edges = lowered_graph(d)->Ok_0.1;
            forall|i: int, j: int|
                0 <= i < units.len() && 0 <= j < unit_constraints(units[i]).len() ==> #[trigger] constrained(
                    nodes,
                    edges,
                    units[i],
                    unit_constraints(units[i])[j],
                )
        }),
{
    lemma_design_hangs(d);
    let units = assembly_units(d.root);
    let nodes = lowered_graph(d)->Ok_0.0;
    let edges = lowered_graph(d)->Ok_0.1;
    assert forall|i: int, j: int| 0 <= i < units.len() && 0 <= j < unit_constraints(units[i]).len() implies #[trigger] constrained(
        nodes,
        edges,
        units[i],
        unit_constraints(units[i])[j],
    ) by {
        assert(unit_hung(nodes, edges, units[i]));
    }
}

/// The lowered tree keeps the design's structure: the system node contains the root
/// assembly's node, every assembly's node contains the nodes of its components, every unit's
/// node contains a `<unit>.<interface>` node of the right kind for each of its interfaces, and
/// every part's node uses the node of its own material.
pub proof fn law_lowered_tree_keeps_its_structure(d: Design)
    requires
        lowered_graph(d) is Ok,
    ensures
        ({
            let units = assembly_units(d.root);
            let nodes = lowered_graph(d)->Ok_0.0;
            let edges = lowered_graph(d)->Ok_0.1;
            &&& nodes[0].kind == NodeKind::System
            &&& nodes[0].name == d.name@
            &&& contained(nodes, edges, 0, Component::Assembly(d.root))
            &&& forall|i: int, j: int|
                0 <= i < units.len() && 0 <= j < unit_interfaces(units[i]).len() ==> #[trigger] interface_hung(
                    nodes,
                    edges,
                    units[i],
                    unit_interfaces(units[i])[j],
                )
            &&& forall|i: int|
                0 <= i < units.len() ==> ((#[trigger] units[i]) matches Component::Part(p) ==> material_used(
                    nodes,
                    edges,
                    p,
                ))
            &&& forall|i: int, j: int|
                0 <= i < units.len() && units[i] is Assembly && 0 <= j < units[i]->Assembly_0.components@.len()
                    ==> #[trigger] component_contained(
                    nodes,
                    edges,
                    units[i],
                    units[i]->Assembly_0.components@[j],
                )
        }),
{
    lemma_design_hangs(d);
    let units = assembly_units(d.root);
    let nodes = lowered_graph(d)->Ok_0.0;
    let edges = lowered_graph(d)->Ok_0.1;
    assert forall|i: int, j: int| 0 <= i < units.len() && 0 <= j < unit_interfaces(units[i]).len() implies #[trigger] interface_hung(
        nodes,
        edges,
        units[i],
        unit_interfaces(units[i])[j],
    ) by {
        assert(unit_hung(nodes, edges, units[i]));
    }
    assert forall|i: int| 0 <= i < units.len() implies ((#[trigger] units[i]) matches Component::Part(p) ==> material_used(
        nodes,
        edges,
        p,
    )) by {
        assert(unit_hung(nodes, edges, units[i]));
    }
    assert forall|i: int, j: int|
        0 <= i < units.len() && units[i] is Assembly && 0 <= j < units[i]->Assembly_0.components@.len() implies #[trigger] component_contained(
        nodes,
        edges,
        units[i],
        units[i]->Assembly_0.components@[j],
    ) by {
        assert(unit_hung(nodes, edges, units[i]));
    }
}


/// The design's requirements, lowered with the system node as their owner, each hang off it.
proof fn lemma_requirements_hang_off(s: LowerState, rs: Seq<Requirement>)
    ensures
        keeps(s, lower_requirements(s, 0, rs)),
        forall|j: int|
            0 <= j < rs.len() ==> required(
                lower_requirements(s, 0, rs).nodes,
                lower_requirements(s, 0, rs).edges,
                #[trigger] rs[j],
            ),
    decreases rs.len(),
{
    if rs.len() > 0 {
        let prev = lower_requirements(s, 0, rs.drop_last());
        lemma_requirements_hang_off(s, rs.drop_last());
        let t = lower_requirements(s, 0, rs);
        assert(keeps(prev, t));
        lemma_keeps_trans(s, prev, t);
        assert forall|j: int| 0 <= j < rs.len() implies required(t.nodes, t.edges, #[trigger] rs[j]) by {
            if j < rs.len() - 1 {
                assert(rs.drop_last()[j] == rs[j]);
                let k = choose|k: int|
                    0 <= k < prev.edges.len() && requirement_edge(prev.nodes, #[trigger] prev.edges[k], rs[j]);
                assert(t.edges[k] == prev.edges[k]);
                assert(t.nodes[prev.edges[k].target as int] == prev.nodes[prev.edges[k].target as int]);
                assert(requirement_edge(t.nodes, t.edges[k], rs[j]));
            } else {
                let k = prev.edges.len() as int;
                reveal_strlit("value");
                reveal_strlit("sdk.authoring_path");
                assert("value"@ != "sdk.authoring_path"@) by {
                    assert("value"@.len() != "sdk.authoring_path"@.len());
                }
                assert(rs[j] == rs.last());
                assert(t.edges[k].target == prev.nodes.len());
                assert(requirement_edge(t.nodes, t.edges[k], rs[j]));
            }
        }
    }
}

/// The design's requirements are lowered to constraint nodes that carry their names and values
/// and that the system node constrains, not any assembly.
pub proof fn law_requirements_hang_off_the_system(d: Design)
    requires
        lowered_graph(d) is Ok,
    ensures
        ({
            let nodes = lowered_graph(d)->Ok_0.0;
            let edges = lowered_graph(d)->Ok_0.1;
            &&& nodes[0].kind == NodeKind::System
            &&& forall|j: int|
                0 <= j < d.requirements@.len() ==> required(nodes, edges, #[trigger] d.requirements@[j])
        }),
{
    lemma_design_hangs(d);
    let s0 = initial_state(d);
    let sa = lower_assembly(s0, 0, d.root, "design.root"@);
    lemma_requirements_hang_off(sa, d.requirements@);
    let s = lowered_state(d);
    let nodes = lowered_graph(d)->Ok_0.0;
    let edges = lowered_graph(d)->Ok_0.1;
    assert(nodes == s.nodes);
    assert(extends(s.edges, edges));
    assert forall|j: int| 0 <= j < d.requirements@.len() implies required(nodes, edges, #[trigger] d.requirements@[j]) by {
        let r = d.requirements@[j];
        let k = choose|k: int| 0 <= k < s.edges.len() && requirement_edge(s.nodes, #[trigger] s.edges[k], r);
        assert(edges[k] == s.edges[k]);
        assert(requirement_edge(nodes, edges[k], r));
    }
}

} // verus!
