//! How large a lowered graph is: one node per unit, interface, constraint and requirement,
//! plus the root and one shared material node; one edge per unit, interface, constraint,
//! requirement, part and connection.

use super::lower::{
    attach, connection_edges, initial_state, item_path,
    lower_assembly, lower_component, lower_components, lower_constraints, lower_interfaces,
    lower_part, lower_requirements, lowered_graph, lowered_state, material_position,
    material_text, path_attrs, sdk_node, with_material, LowerState,
};
use super::model::{Assembly, Component, Connection, Constraint, Design, Interface, Part, Requirement};
use super::resolution::unit_constraints;
use super::validate::{
    assembly_units, component_list_units, component_units, lemma_component_list_units_push,
    unit_connections, unit_interfaces,
};
use crate::ir::{EdgeKind, NodeKind};
use vstd::prelude::*;

verus! {

/// The interfaces and constraints of a unit.
pub open spec fn unit_size(u: Component) -> nat {
    unit_interfaces(u).len() + unit_constraints(u).len()
}

pub open spec fn part_weight(u: Component) -> nat {
    if u is Part {
        1
    } else {
        0
    }
}

pub open spec fn connection_weight(u: Component) -> nat {
    unit_connections(u).len()
}

/// The sum of a weight over units.
pub open spec fn total(us: Seq<Component>, w: spec_fn(Component) -> nat) -> nat
    decreases us.len(),
{
    if us.len() == 0 {
        0
    } else {
        total(us.drop_last(), w) + w(us.last())
    }
}

pub proof fn lemma_total_concat(us: Seq<Component>, vs: Seq<Component>, w: spec_fn(Component) -> nat)
    ensures
        total(us + vs, w) == total(us, w) + total(vs, w),
    decreases vs.len(),
{
    if vs.len() == 0 {
        assert(us + vs =~= us);
    } else {
        assert((us + vs).drop_last() =~= us + vs.drop_last());
        assert((us + vs).last() == vs.last());
        lemma_total_concat(us, vs.drop_last(), w);
    }
}

/// A material node exists already.
pub open spec fn has_material(s: LowerState) -> bool {
    material_position(s.materials, "PLA"@) is Some
}

/// A step of the tree's lowering adds, for the units it lowers, one node and one edge per
/// unit, interface and constraint, one material edge per part, the material node if none
/// existed and a part needed it, and the units' connections to the pending list.
pub open spec fn grows(s: LowerState, t: LowerState, us: Seq<Component>) -> bool {
    let size = us.len() + total(us, |u: Component| unit_size(u));
    let parts = total(us, |u: Component| part_weight(u));
    &&& t.nodes.len() == s.nodes.len() + size + (if !has_material(s) && parts > 0 {
        1nat
    } else {
        0nat
    })
    &&& t.edges.len() == s.edges.len() + size + parts
    &&& has_material(t) == (has_material(s) || parts > 0)
    &&& t.pending.len() == s.pending.len() + total(us, |u: Component| connection_weight(u))
}

proof fn lemma_grows_compose(
    s: LowerState,
    t: LowerState,
    u: LowerState,
    us: Seq<Component>,
    vs: Seq<Component>,
)
    requires
        grows(s, t, us),
        grows(t, u, vs),
    ensures
        grows(s, u, us + vs),
{
    lemma_total_concat(us, vs, |c: Component| unit_size(c));
    lemma_total_concat(us, vs, |c: Component| part_weight(c));
    lemma_total_concat(us, vs, |c: Component| connection_weight(c));
}

proof fn lemma_total_one(u: Component, w: spec_fn(Component) -> nat)
    ensures
        total(seq![u], w) == w(u),
{
    assert(seq![u].drop_last() =~= Seq::<Component>::empty());
    assert(seq![u].last() == u);
    assert(total(Seq::<Component>::empty(), w) == 0);
}

proof fn lemma_interfaces_size(s: LowerState, component: Seq<char>, owner: nat, ifs: Seq<Interface>, path: Seq<char>)
    ensures
        lower_interfaces(s, component, owner, ifs, path).nodes.len() == s.nodes.len() + ifs.len(),
        lower_interfaces(s, component, owner, ifs, path).edges.len() == s.edges.len() + ifs.len(),
        lower_interfaces(s, component, owner, ifs, path).materials == s.materials,
        lower_interfaces(s, component, owner, ifs, path).pending == s.pending,
    decreases ifs.len(),
{
    if ifs.len() > 0 {
        lemma_interfaces_size(s, component, owner, ifs.drop_last(), path);
    }
}

proof fn lemma_constraints_size(s: LowerState, owner: nat, cs: Seq<Constraint>, path: Seq<char>)
    ensures
        lower_constraints(s, owner, cs, path).nodes.len() == s.nodes.len() + cs.len(),
        lower_constraints(s, owner, cs, path).edges.len() == s.edges.len() + cs.len(),
        lower_constraints(s, owner, cs, path).materials == s.materials,
        lower_constraints(s, owner, cs, path).pending == s.pending,
    decreases cs.len(),
{
    if cs.len() > 0 {
        lemma_constraints_size(s, owner, cs.drop_last(), path);
    }
}

proof fn lemma_requirements_size(s: LowerState, owner: nat, rs: Seq<Requirement>)
    ensures
        lower_requirements(s, owner, rs).nodes.len() == s.nodes.len() + rs.len(),
        lower_requirements(s, owner, rs).edges.len() == s.edges.len() + rs.len(),
        lower_requirements(s, owner, rs).materials == s.materials,
        lower_requirements(s, owner, rs).pending == s.pending,
    decreases rs.len(),
{
    if rs.len() > 0 {
        lemma_requirements_size(s, owner, rs.drop_last());
    }
}

proof fn lemma_material_found(s: LowerState)
    ensures
        has_material(with_material(s, "PLA"@)),
{
    let t = with_material(s, "PLA"@);
    if !has_material(s) {
        assert(t.materials.drop_last() =~= s.materials);
    }
}

proof fn lemma_part_grows(s: LowerState, parent: nat, p: Part, path: Seq<char>)
    ensures
        grows(s, lower_part(s, parent, p, path), seq![Component::Part(p)]),
{
    let us = seq![Component::Part(p)];
    let id = s.nodes.len();
    let s1 = attach(s, sdk_node(NodeKind::Part, p.id@, path_attrs(path)), EdgeKind::Contains, parent, path);
    lemma_interfaces_size(s1, p.id@, id, p.interfaces@, path);
    let s2 = lower_interfaces(s1, p.id@, id, p.interfaces@, path);
    lemma_constraints_size(s2, id, p.constraints@, path);
    let s3 = lower_constraints(s2, id, p.constraints@, path);
    assert(material_text(p.material) == "PLA"@);
    lemma_material_found(s3);
    lemma_total_one(Component::Part(p), |u: Component| unit_size(u));
    lemma_total_one(Component::Part(p), |u: Component| part_weight(u));
    lemma_total_one(Component::Part(p), |u: Component| connection_weight(u));
    assert(unit_interfaces(us[0]) == p.interfaces@);
    assert(unit_constraints(us[0]) == p.constraints@);
}

proof fn lemma_assembly_grows(s: LowerState, parent: nat, a: Assembly, path: Seq<char>)
    ensures
        grows(s, lower_assembly(s, parent, a, path), assembly_units(a)),
    decreases a,
{
    let id = s.nodes.len();
    let s1 = attach(s, sdk_node(NodeKind::Assembly, a.id@, path_attrs(path)), EdgeKind::Contains, parent, path);
    lemma_interfaces_size(s1, a.id@, id, a.interfaces@, path);
    let s2 = lower_interfaces(s1, a.id@, id, a.interfaces@, path);
    lemma_constraints_size(s2, id, a.constraints@, path);
    let s3 = lower_constraints(s2, id, a.constraints@, path);
    lemma_components_grow(s3, id, a.components@, path);
    let s4 = lower_components(s3, id, a.components@, path);
    let t = lower_assembly(s, parent, a, path);
    let head = seq![Component::Assembly(a)];
    assert(assembly_units(a) == head + component_list_units(a.components@));
    lemma_total_one(Component::Assembly(a), |u: Component| unit_size(u));
    lemma_total_one(Component::Assembly(a), |u: Component| part_weight(u));
    lemma_total_one(Component::Assembly(a), |u: Component| connection_weight(u));
    assert(unit_interfaces(head[0]) == a.interfaces@);
    assert(unit_constraints(head[0]) == a.constraints@);
    assert(unit_connections(head[0]) == a.connections@);
    assert(t.pending.len() == s4.pending.len() + a.connections@.len());
    assert(has_material(s3) == has_material(s));
    // The assembly's own connections join the pending list after its components.
    let rest = component_list_units(a.components@);
    lemma_total_concat(head, rest, |u: Component| connection_weight(u));
    lemma_total_concat(head, rest, |u: Component| unit_size(u));
    lemma_total_concat(head, rest, |u: Component| part_weight(u));
}

proof fn lemma_components_grow(s: LowerState, parent: nat, cs: Seq<Component>, path: Seq<char>)
    ensures
        grows(s, lower_components(s, parent, cs, path), component_list_units(cs)),
    decreases cs,
{
    if cs.len() == 0 {
        assert(component_list_units(cs) =~= Seq::<Component>::empty());
    } else {
        let prev = lower_components(s, parent, cs.drop_last(), path);
        lemma_components_grow(s, parent, cs.drop_last(), path);
        let item = item_path(path, "components"@, cs.len() - 1);
        lemma_component_grows(prev, parent, cs.last(), item);
        lemma_grows_compose(
            s,
            prev,
            lower_components(s, parent, cs, path),
            component_list_units(cs.drop_last()),
            component_units(cs.last()),
        );
        assert(cs =~= cs.drop_last().push(cs.last()));
        lemma_component_list_units_push(cs.drop_last(), cs.last());
    }
}

proof fn lemma_component_grows(s: LowerState, parent: nat, c: Component, path: Seq<char>)
    ensures
        grows(s, lower_component(s, parent, c, path), component_units(c)),
    decreases c,
{
    match c {
        Component::Assembly(a) => {
            lemma_assembly_grows(s, parent, a, path);
        },
        Component::Part(p) => {
            lemma_part_grows(s, parent, p, path);
        },
    }
}

proof fn lemma_connection_edges_len(
    entries: Seq<(Seq<char>, Seq<char>, nat)>,
    items: Seq<(Seq<char>, Connection)>,
)
    requires
        connection_edges(entries, items) is Ok,
    ensures
        connection_edges(entries, items)->Ok_0.len() == items.len(),
    decreases items.len(),
{
    if items.len() > 0 {
        lemma_connection_edges_len(entries, items.drop_last());
    }
}

/// A lowered graph holds the root, one node per unit, interface, constraint and requirement,
/// and one material node when the design has a part; and one edge per unit, interface,
/// constraint, requirement, part and connection.
pub proof fn law_lowered_graph_size(d: Design)
    requires
        lowered_graph(d) is Ok,
    ensures
        ({
            let units = assembly_units(d.root);
            let size = units.len() + total(units, |u: Component| unit_size(u)) + d.requirements@.len();
            let parts = total(units, |u: Component| part_weight(u));
            let g = lowered_graph(d)->Ok_0;
            &&& g.0.len() == 1 + size + (if parts > 0 {
                1nat
            } else {
                0nat
            })
            &&& g.1.len() == size + parts + total(units, |u: Component| connection_weight(u))
        }),
{
    let s0 = initial_state(d);
    assert(!has_material(s0));
    lemma_assembly_grows(s0, 0, d.root, "design.root"@);
    let sa = lower_assembly(s0, 0, d.root, "design.root"@);
    lemma_requirements_size(sa, 0, d.requirements@);
    let s = lowered_state(d);
    lemma_connection_edges_len(s.interfaces, s.pending);
}

} // verus!
