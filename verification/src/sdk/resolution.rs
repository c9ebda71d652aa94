//! What validation guarantees: a validated design is well formed, and every connection that it
//! declares names an interface node that lowering makes, so it always lowers.

use super::lower::{
    connection_edge, connection_edges, connection_items, initial_state, interface_position,
    lower_assembly, lower_component, lower_components, lower_constraints,
    lower_interfaces, lower_part, lower_requirements, lowered_graph, lowered_state, LowerState,
};
use super::model::{
    Assembly, Component, Connection, Constraint, Design, Interface, InterfaceRef, Part,
    Requirement,
};
use super::validate::{
    assembly_units, component_list_units, component_units, connection_issue,
    connection_issues_of, connections_issues, constraint_issues, design_issue, has_unit,
    interface_issue, interface_issues, lemma_component_list_units_push,
    material_issue, material_issues, named_value_issue, reference_issue, registration_issue,
    requirement_issues, unit_connections, unit_id, unit_interfaces, unit_issue, unit_issues,
    unit_with_id,
};
use super::model::TypedValue;
use crate::text::is_blank_text;
use crate::first::lemma_first_issue_none;
use vstd::prelude::*;

verus! {

// ---------------------------------------------------------------------------------------
// What lowering records.
// ---------------------------------------------------------------------------------------

/// `entries` holds an interface node for the pair.
pub open spec fn has_entry(entries: Seq<(Seq<char>, Seq<char>, nat)>, component: Seq<char>, interface: Seq<char>) -> bool {
    exists|k: int|
        0 <= k < entries.len() && (#[trigger] entries[k]).0 == component && entries[k].1 == interface
}

/// `b` starts with `a`.
pub open spec fn extends<T>(a: Seq<T>, b: Seq<T>) -> bool {
    a.len() <= b.len() && forall|k: int| 0 <= k < a.len() ==> #[trigger] b[k] == a[k]
}

/// Every interface of the unit has an interface node.
pub open spec fn unit_recorded(entries: Seq<(Seq<char>, Seq<char>, nat)>, u: Component) -> bool {
    forall|j: int|
        0 <= j < unit_interfaces(u).len() ==> has_entry(
            entries,
            unit_id(u),
            #[trigger] unit_interfaces(u)[j].name@,
        )
}

pub open spec fn units_recorded(entries: Seq<(Seq<char>, Seq<char>, nat)>, us: Seq<Component>) -> bool {
    forall|k: int| 0 <= k < us.len() ==> unit_recorded(entries, #[trigger] us[k])
}

/// Some unit declares the connection.
pub open spec fn connection_in(us: Seq<Component>, c: Connection) -> bool {
    exists|i: int, j: int|
        0 <= i < us.len() && 0 <= j < unit_connections(us[i]).len() && #[trigger] unit_connections(
            us[i],
        )[j] == c
}

/// The pending connections grew by connections that the units declare.
pub open spec fn pending_from(
    before: Seq<(Seq<char>, Connection)>,
    after: Seq<(Seq<char>, Connection)>,
    us: Seq<Component>,
) -> bool {
    &&& extends(before, after)
    &&& forall|k: int| before.len() <= k < after.len() ==> connection_in(us, #[trigger] after[k].1)
}

/// What a step of the tree's lowering keeps and adds, for the units it lowers.
pub open spec fn records(s: LowerState, t: LowerState, us: Seq<Component>) -> bool {
    &&& extends(s.interfaces, t.interfaces)
    &&& pending_from(s.pending, t.pending, us)
    &&& units_recorded(t.interfaces, us)
}

proof fn lemma_has_entry_extends(a: Seq<(Seq<char>, Seq<char>, nat)>, b: Seq<(Seq<char>, Seq<char>, nat)>, c: Seq<char>, i: Seq<char>)
    requires
        extends(a, b),
        has_entry(a, c, i),
    ensures
        has_entry(b, c, i),
{
    let k = choose|k: int| 0 <= k < a.len() && (#[trigger] a[k]).0 == c && a[k].1 == i;
    assert(b[k] == a[k]);
}

proof fn lemma_units_recorded_extends(a: Seq<(Seq<char>, Seq<char>, nat)>, b: Seq<(Seq<char>, Seq<char>, nat)>, us: Seq<Component>)
    requires
        extends(a, b),
        units_recorded(a, us),
    ensures
        units_recorded(b, us),
{
    assert forall|k: int| 0 <= k < us.len() implies unit_recorded(b, #[trigger] us[k]) by {
        assert(unit_recorded(a, us[k]));
        assert forall|j: int| 0 <= j < unit_interfaces(us[k]).len() implies has_entry(
            b,
            unit_id(us[k]),
            #[trigger] unit_interfaces(us[k])[j].name@,
        ) by {
            lemma_has_entry_extends(a, b, unit_id(us[k]), unit_interfaces(us[k])[j].name@);
        }
    }
}

proof fn lemma_extends_trans<T>(a: Seq<T>, b: Seq<T>, c: Seq<T>)
    requires
        extends(a, b),
        extends(b, c),
    ensures
        extends(a, c),
{
    assert forall|k: int| 0 <= k < a.len() implies #[trigger] c[k] == a[k] by {
        assert(c[k] == b[k]);
    }
}

proof fn lemma_connection_in_left(us: Seq<Component>, vs: Seq<Component>, c: Connection)
    requires
        connection_in(us, c),
    ensures
        connection_in(us + vs, c),
{
    let (i, j) = choose|i: int, j: int|
        0 <= i < us.len() && 0 <= j < unit_connections(us[i]).len() && #[trigger] unit_connections(
            us[i],
        )[j] == c;
    assert((us + vs)[i] == us[i]);
    assert(unit_connections((us + vs)[i])[j] == c);
}

proof fn lemma_connection_in_right(us: Seq<Component>, vs: Seq<Component>, c: Connection)
    requires
        connection_in(vs, c),
    ensures
        connection_in(us + vs, c),
{
    let (i, j) = choose|i: int, j: int|
        0 <= i < vs.len() && 0 <= j < unit_connections(vs[i]).len() && #[trigger] unit_connections(
            vs[i],
        )[j] == c;
    assert((us + vs)[us.len() + i] == vs[i]);
    assert(unit_connections((us + vs)[us.len() + i])[j] == c);
}

/// Two steps in a row record what each records.
proof fn lemma_records_compose(
    s: LowerState,
    t: LowerState,
    u: LowerState,
    us: Seq<Component>,
    vs: Seq<Component>,
)
    requires
        records(s, t, us),
        records(t, u, vs),
    ensures
        records(s, u, us + vs),
{
    lemma_extends_trans(s.interfaces, t.interfaces, u.interfaces);
    lemma_extends_trans(s.pending, t.pending, u.pending);
    lemma_units_recorded_extends(t.interfaces, u.interfaces, us);
    assert forall|k: int| 0 <= k < (us + vs).len() implies unit_recorded(
        u.interfaces,
        #[trigger] (us + vs)[k],
    ) by {
        if k < us.len() {
            assert((us + vs)[k] == us[k]);
        } else {
            assert((us + vs)[k] == vs[k - us.len()]);
        }
    }
    assert forall|k: int| s.pending.len() <= k < u.pending.len() implies connection_in(
        us + vs,
        #[trigger] u.pending[k].1,
    ) by {
        if k < t.pending.len() {
            assert(u.pending[k] == t.pending[k]);
            lemma_connection_in_left(us, vs, u.pending[k].1);
        } else {
            lemma_connection_in_right(us, vs, u.pending[k].1);
        }
    }
}

// ---------------------------------------------------------------------------------------
// The steps of lowering.
// ---------------------------------------------------------------------------------------

proof fn lemma_interfaces_recorded(s: LowerState, component: Seq<char>, owner: nat, ifs: Seq<Interface>, path: Seq<char>)
    ensures
        extends(s.interfaces, lower_interfaces(s, component, owner, ifs, path).interfaces),
        lower_interfaces(s, component, owner, ifs, path).pending == s.pending,
        forall|j: int|
            0 <= j < ifs.len() ==> has_entry(
                lower_interfaces(s, component, owner, ifs, path).interfaces,
                component,
                #[trigger] ifs[j].name@,
            ),
    decreases ifs.len(),
{
    if ifs.len() > 0 {
        let prev = lower_interfaces(s, component, owner, ifs.drop_last(), path);
        lemma_interfaces_recorded(s, component, owner, ifs.drop_last(), path);
        let t = lower_interfaces(s, component, owner, ifs, path);
        assert(t.interfaces == prev.interfaces.push((component, ifs.last().name@, prev.nodes.len())));
        assert(extends(prev.interfaces, t.interfaces));
        lemma_extends_trans(s.interfaces, prev.interfaces, t.interfaces);
        assert forall|j: int| 0 <= j < ifs.len() implies has_entry(
            t.interfaces,
            component,
            #[trigger] ifs[j].name@,
        ) by {
            if j < ifs.len() - 1 {
                assert(ifs.drop_last()[j] == ifs[j]);
                lemma_has_entry_extends(prev.interfaces, t.interfaces, component, ifs[j].name@);
            } else {
                assert(t.interfaces[prev.interfaces.len() as int] == (
                    component,
                    ifs[j].name@,
                    prev.nodes.len(),
                ));
            }
        }
    }
}

proof fn lemma_constraints_keep(s: LowerState, owner: nat, cs: Seq<Constraint>, path: Seq<char>)
    ensures
        lower_constraints(s, owner, cs, path).interfaces == s.interfaces,
        lower_constraints(s, owner, cs, path).pending == s.pending,
    decreases cs.len(),
{
    if cs.len() > 0 {
        lemma_constraints_keep(s, owner, cs.drop_last(), path);
    }
}

proof fn lemma_requirements_keep(s: LowerState, owner: nat, rs: Seq<Requirement>)
    ensures
        lower_requirements(s, owner, rs).interfaces == s.interfaces,
        lower_requirements(s, owner, rs).pending == s.pending,
    decreases rs.len(),
{
    if rs.len() > 0 {
        lemma_requirements_keep(s, owner, rs.drop_last());
    }
}

proof fn lemma_extends_refl<T>(a: Seq<T>)
    ensures
        extends(a, a),
{
}

proof fn lemma_part_records(s: LowerState, parent: nat, p: Part, path: Seq<char>)
    ensures
        records(s, lower_part(s, parent, p, path), seq![Component::Part(p)]),
{
    let us = seq![Component::Part(p)];
    let id = s.nodes.len();
    let s1 = crate::sdk::lower::attach(
        s,
        crate::sdk::lower::sdk_node(crate::ir::NodeKind::Part, p.id@, crate::sdk::lower::path_attrs(path)),
        crate::ir::EdgeKind::Contains,
        parent,
        path,
    );
    lemma_interfaces_recorded(s1, p.id@, id, p.interfaces@, path);
    let s2 = lower_interfaces(s1, p.id@, id, p.interfaces@, path);
    lemma_constraints_keep(s2, id, p.constraints@, path);
    let t = lower_part(s, parent, p, path);
    assert(t.interfaces == s2.interfaces);
    assert(t.pending == s.pending);
    lemma_extends_refl(s.pending);
    assert(unit_id(us[0]) == p.id@);
    assert(unit_interfaces(us[0]) == p.interfaces@);
    assert(unit_recorded(t.interfaces, us[0]));
}

proof fn lemma_assembly_records(s: LowerState, parent: nat, a: Assembly, path: Seq<char>)
    ensures
        records(s, lower_assembly(s, parent, a, path), assembly_units(a)),
    decreases a,
{
    let id = s.nodes.len();
    let s1 = crate::sdk::lower::attach(
        s,
        crate::sdk::lower::sdk_node(crate::ir::NodeKind::Assembly, a.id@, crate::sdk::lower::path_attrs(path)),
        crate::ir::EdgeKind::Contains,
        parent,
        path,
    );
    lemma_interfaces_recorded(s1, a.id@, id, a.interfaces@, path);
    let s2 = lower_interfaces(s1, a.id@, id, a.interfaces@, path);
    lemma_constraints_keep(s2, id, a.constraints@, path);
    let s3 = lower_constraints(s2, id, a.constraints@, path);
    lemma_components_records(s3, id, a.components@, path);
    let s4 = lower_components(s3, id, a.components@, path);
    let t = lower_assembly(s, parent, a, path);
    let head = seq![Component::Assembly(a)];
    let rest = component_list_units(a.components@);
    assert(assembly_units(a) == head + rest);
    // The assembly's own interfaces were recorded before its components.
    lemma_extends_trans(s.interfaces, s3.interfaces, s4.interfaces);
    assert(t.interfaces == s4.interfaces);
    assert(unit_id(head[0]) == a.id@);
    assert(unit_interfaces(head[0]) == a.interfaces@);
    assert(unit_recorded(s3.interfaces, head[0]));
    assert(units_recorded(s3.interfaces, head));
    lemma_units_recorded_extends(s3.interfaces, s4.interfaces, head);
    assert forall|k: int| 0 <= k < (head + rest).len() implies unit_recorded(
        t.interfaces,
        #[trigger] (head + rest)[k],
    ) by {
        if k == 0 {
            assert((head + rest)[k] == head[0]);
        } else {
            assert((head + rest)[k] == rest[k - 1]);
        }
    }
    // Pending: the components' connections, then the assembly's own.
    let items = connection_items(a.connections@, path);
    assert(t.pending == s4.pending + items);
    assert forall|k: int| 0 <= k < s.pending.len() implies #[trigger] t.pending[k] == s.pending[k] by {
        assert(t.pending[k] == s4.pending[k]);
    }
    assert forall|k: int| s.pending.len() <= k < t.pending.len() implies connection_in(
        head + rest,
        #[trigger] t.pending[k].1,
    ) by {
        if k < s4.pending.len() {
            assert(t.pending[k] == s4.pending[k]);
            lemma_connection_in_right(head, rest, t.pending[k].1);
        } else {
            let j = k - s4.pending.len();
            assert(t.pending[k] == items[j]);
            assert(items[j].1 == a.connections@[j]);
            assert(unit_connections(head[0]) == a.connections@);
            assert(unit_connections(head[0])[j] == t.pending[k].1);
            assert(connection_in(head, t.pending[k].1));
            lemma_connection_in_left(head, rest, t.pending[k].1);
        }
    }
}

proof fn lemma_components_records(s: LowerState, parent: nat, cs: Seq<Component>, path: Seq<char>)
    ensures
        records(s, lower_components(s, parent, cs, path), component_list_units(cs)),
    decreases cs,
{
    if cs.len() == 0 {
        lemma_extends_refl(s.interfaces);
        lemma_extends_refl(s.pending);
        assert(component_list_units(cs) =~= Seq::<Component>::empty());
    } else {
        let prev = lower_components(s, parent, cs.drop_last(), path);
        lemma_components_records(s, parent, cs.drop_last(), path);
        let item = crate::sdk::lower::item_path(path, "components"@, cs.len() - 1);
        lemma_component_records(prev, parent, cs.last(), item);
        lemma_records_compose(
            s,
            prev,
            lower_components(s, parent, cs, path),
            component_list_units(cs.drop_last()),
            component_units(cs.last()),
        );
        assert(cs =~= cs.drop_last().push(cs.last()));
        lemma_component_list_units_push(cs.drop_last(), cs.last());
    }
}

proof fn lemma_component_records(s: LowerState, parent: nat, c: Component, path: Seq<char>)
    ensures
        records(s, lower_component(s, parent, c, path), component_units(c)),
    decreases c,
{
    match c {
        Component::Assembly(a) => {
            lemma_assembly_records(s, parent, a, path);
        },
        Component::Part(p) => {
            lemma_part_records(s, parent, p, path);
        },
    }
}

// ---------------------------------------------------------------------------------------
// Resolution.
// ---------------------------------------------------------------------------------------

proof fn lemma_entry_found(entries: Seq<(Seq<char>, Seq<char>, nat)>, c: Seq<char>, i: Seq<char>)
    requires
        has_entry(entries, c, i),
    ensures
        interface_position(entries, c, i) is Some,
    decreases entries.len(),
{
    if !(entries.last().0 == c && entries.last().1 == i) {
        let k = choose|k: int| 0 <= k < entries.len() && (#[trigger] entries[k]).0 == c && entries[k].1 == i;
        assert(k < entries.len() - 1);
        assert(entries.drop_last()[k] == entries[k]);
        lemma_entry_found(entries.drop_last(), c, i);
    }
}

/// The unit that `unit_with_id` picks is one of the units and carries the identifier.
proof fn lemma_unit_with_id(units: Seq<Component>, id: Seq<char>)
    requires
        has_unit(units, id),
    ensures
        exists|k: int| 0 <= k < units.len() && units[k] == unit_with_id(units, id),
        unit_id(unit_with_id(units, id)) == id,
{
    let w = choose|k: int| 0 <= k < units.len() && #[trigger] unit_id(units[k]) == id;
    lemma_first_with_id(units, id, w);
}

proof fn lemma_first_with_id(units: Seq<Component>, id: Seq<char>, w: int)
    requires
        0 <= w < units.len(),
        unit_id(units[w]) == id,
    ensures
        exists|k: int|
            0 <= k < units.len() && unit_id(units[k]) == id && forall|m: int|
                0 <= m < k ==> #[trigger] unit_id(units[m]) != id,
    decreases w,
{
    if exists|m: int| 0 <= m < w && #[trigger] unit_id(units[m]) == id {
        let m = choose|m: int| 0 <= m < w && #[trigger] unit_id(units[m]) == id;
        lemma_first_with_id(units, id, m);
    } else {
        assert(forall|m: int| 0 <= m < w ==> #[trigger] unit_id(units[m]) != id);
    }
}

/// A reference that validation accepts names a recorded interface node.
proof fn lemma_reference_resolves(
    units: Seq<Component>,
    entries: Seq<(Seq<char>, Seq<char>, nat)>,
    connection: Seq<char>,
    r: InterfaceRef,
)
    requires
        reference_issue(units, connection, r) is None,
        units_recorded(entries, units),
    ensures
        interface_position(entries, r.component@, r.interface@) is Some,
{
    reveal(reference_issue);
    lemma_unit_with_id(units, r.component@);
    let u = unit_with_id(units, r.component@);
    let k = choose|k: int| 0 <= k < units.len() && units[k] == u;
    let j = choose|j: int|
        0 <= j < unit_interfaces(u).len() && #[trigger] unit_interfaces(u)[j].name@ == r.interface@;
    assert(unit_recorded(entries, units[k]));
    assert(has_entry(entries, unit_id(u), unit_interfaces(u)[j].name@));
    lemma_entry_found(entries, r.component@, r.interface@);
}

/// Every connection that lowering gathered resolves, so the connection edges can all be made.
proof fn lemma_items_resolve(
    units: Seq<Component>,
    entries: Seq<(Seq<char>, Seq<char>, nat)>,
    items: Seq<(Seq<char>, Connection)>,
)
    requires
        units_recorded(entries, units),
        forall|k: int| 0 <= k < items.len() ==> connection_issue(units, #[trigger] items[k].1) is None,
    ensures
        connection_edges(entries, items) is Ok,
    decreases items.len(),
{
    if items.len() > 0 {
        assert forall|k: int| 0 <= k < items.drop_last().len() implies connection_issue(
            units,
            #[trigger] items.drop_last()[k].1,
        ) is None by {
            assert(items.drop_last()[k] == items[k]);
        }
        lemma_items_resolve(units, entries, items.drop_last());
        let c = items.last().1;
        assert(connection_issue(units, items[items.len() - 1].1) is None);
        reveal(connection_issue);
        lemma_reference_resolves(units, entries, c.name@, c.from);
        lemma_reference_resolves(units, entries, c.name@, c.to);
        assert(connection_edge(entries, items.last()) is Ok);
    }
}

/// Validation accepts every connection that a unit of a valid design declares.
proof fn lemma_valid_connections(d: Design, c: Connection)
    requires
        design_issue(d) is None,
        connection_in(assembly_units(d.root), c),
    ensures
        connection_issue(assembly_units(d.root), c) is None,
{
    reveal(design_issue);
    let units = assembly_units(d.root);
    let cis = connections_issues(units);
    lemma_first_issue_none(cis);
    let (i, j) = choose|i: int, j: int|
        0 <= i < units.len() && 0 <= j < unit_connections(units[i]).len() && #[trigger] unit_connections(
            units[i],
        )[j] == c;
    assert(cis[i] is None);
    let per = connection_issues_of(units, i);
    lemma_first_issue_none(per);
    assert(per[j] is None);
}

/// A design that passes validation always lowers: every connection names an interface node
/// that lowering has made, so lowering never reports a missing interface.
pub proof fn law_validated_designs_lower(d: Design)
    requires
        design_issue(d) is None,
    ensures
        lowered_graph(d) is Ok,
{
    let units = assembly_units(d.root);
    let s0 = initial_state(d);
    lemma_assembly_records(s0, 0, d.root, "design.root"@);
    let sa = lower_assembly(s0, 0, d.root, "design.root"@);
    lemma_requirements_keep(sa, 0, d.requirements@);
    let s = lowered_state(d);
    assert(s.interfaces == sa.interfaces);
    assert(s.pending == sa.pending);
    assert forall|k: int| 0 <= k < s.pending.len() implies connection_issue(
        units,
        #[trigger] s.pending[k].1,
    ) is None by {
        assert(connection_in(units, s.pending[k].1));
        lemma_valid_connections(d, s.pending[k].1);
    }
    lemma_items_resolve(units, s.interfaces, s.pending);
}


// ---------------------------------------------------------------------------------------
// What validation guarantees.
// ---------------------------------------------------------------------------------------

/// A named value passes when its name is not blank and a length is positive.
pub open spec fn value_ok(name: Seq<char>, value: TypedValue) -> bool {
    &&& !is_blank_text(name)
    &&& (value matches TypedValue::LengthMm(v) ==> !v.at_most_int(0))
}

/// The constraints of a unit.
pub open spec fn unit_constraints(u: Component) -> Seq<Constraint> {
    match u {
        Component::Assembly(a) => a.constraints@,
        Component::Part(p) => p.constraints@,
    }
}

proof fn lemma_value_ok(name: Seq<char>, value: TypedValue)
    requires
        named_value_issue(name, value) is None,
    ensures
        value_ok(name, value),
{
    reveal(named_value_issue);
}

/// What a valid unit is: a named component with named, distinct interfaces, valid
/// constraints, an identifier that no earlier unit carries, and, for an assembly, components.
proof fn lemma_unit_ok(units: Seq<Component>, i: int)
    requires
        0 <= i < units.len(),
        unit_issue(units, i) is None,
    ensures
        !is_blank_text(unit_id(units[i])),
        units[i] matches Component::Assembly(a) ==> a.components@.len() > 0,
        forall|k: int| 0 <= k < i ==> #[trigger] unit_id(units[k]) != unit_id(units[i]),
        forall|j: int|
            0 <= j < unit_constraints(units[i]).len() ==> value_ok(
                #[trigger] unit_constraints(units[i])[j].name@,
                unit_constraints(units[i])[j].value,
            ),
        forall|j: int|
            0 <= j < unit_interfaces(units[i]).len() ==> !is_blank_text(
                #[trigger] unit_interfaces(units[i])[j].name@,
            ),
        forall|j: int, m: int|
            0 <= m < j < unit_interfaces(units[i]).len() ==> #[trigger] unit_interfaces(units[i])[m].name@
                != #[trigger] unit_interfaces(units[i])[j].name@,
{
    reveal(unit_issue);
    reveal(registration_issue);
    let u = units[i];
    let cs = constraint_issues(unit_constraints(u));
    lemma_first_issue_none(cs);
    assert forall|j: int| 0 <= j < unit_constraints(u).len() implies value_ok(
        #[trigger] unit_constraints(u)[j].name@,
        unit_constraints(u)[j].value,
    ) by {
        assert(cs[j] is None);
        lemma_value_ok(unit_constraints(u)[j].name@, unit_constraints(u)[j].value);
    }
    let ifs = unit_interfaces(u);
    let fi = interface_issues(unit_id(u), ifs);
    lemma_first_issue_none(fi);
    reveal(interface_issue);
    assert forall|j: int| 0 <= j < ifs.len() implies !is_blank_text(#[trigger] ifs[j].name@) by {
        assert(fi[j] is None);
    }
    assert forall|j: int, m: int| 0 <= m < j < ifs.len() implies #[trigger] ifs[m].name@
        != #[trigger] ifs[j].name@ by {
        assert(fi[j] is None);
    }
}

/// A design that passes validation is well formed: its design name and provenance are not
/// blank; its requirements and every unit's constraints are named, with positive lengths;
/// every unit is named, no two units share an identifier, every assembly has components, and
/// a unit's interfaces are named and distinct; every connection is named and both of its ends
/// name an interface of an existing unit; and every part's material is supported by the
/// design's manufacturing context.
pub proof fn law_valid_designs_are_well_formed(d: Design)
    requires
        design_issue(d) is None,
    ensures
        ({
            let units = assembly_units(d.root);
            &&& !is_blank_text(d.name@)
            &&& !is_blank_text(d.provenance.author@)
            &&& !is_blank_text(d.provenance.source@)
            &&& forall|j: int|
                0 <= j < d.requirements@.len() ==> value_ok(
                    #[trigger] d.requirements@[j].name@,
                    d.requirements@[j].value,
                )
            &&& forall|i: int| 0 <= i < units.len() ==> !is_blank_text(#[trigger] unit_id(units[i]))
            &&& forall|i: int, k: int|
                0 <= k < i < units.len() ==> #[trigger] unit_id(units[k]) != #[trigger] unit_id(
                    units[i],
                )
            &&& forall|i: int|
                0 <= i < units.len() ==> ((#[trigger] units[i]) matches Component::Assembly(a)
                    ==> a.components@.len() > 0)
            &&& forall|i: int, j: int|
                0 <= i < units.len() && 0 <= j < unit_constraints(units[i]).len() ==> value_ok(
                    #[trigger] unit_constraints(units[i])[j].name@,
                    unit_constraints(units[i])[j].value,
                )
            &&& forall|i: int, j: int|
                0 <= i < units.len() && 0 <= j < unit_interfaces(units[i]).len() ==> !is_blank_text(
                    #[trigger] unit_interfaces(units[i])[j].name@,
                )
            &&& forall|i: int, j: int, m: int|
                0 <= i < units.len() && 0 <= m < j < unit_interfaces(units[i]).len()
                    ==> #[trigger] unit_interfaces(units[i])[m].name@
                    != #[trigger] unit_interfaces(units[i])[j].name@
            &&& forall|c: Connection|
                #[trigger] connection_in(units, c) ==> {
                    &&& !is_blank_text(c.name@)
                    &&& interface_exists(units, c.from)
                    &&& interface_exists(units, c.to)
                }
            &&& forall|i: int|
                0 <= i < units.len() ==> ((#[trigger] units[i]) matches Component::Part(p)
                    ==> d.manufacturing.constraints.supported_materials@.contains(p.material))
        }),
{
    reveal(design_issue);
    let units = assembly_units(d.root);
    let rs = requirement_issues(d.requirements@);
    lemma_first_issue_none(rs);
    assert forall|j: int| 0 <= j < d.requirements@.len() implies value_ok(
        #[trigger] d.requirements@[j].name@,
        d.requirements@[j].value,
    ) by {
        assert(rs[j] is None);
        lemma_value_ok(d.requirements@[j].name@, d.requirements@[j].value);
    }
    let us = unit_issues(units);
    lemma_first_issue_none(us);
    assert forall|i: int| 0 <= i < units.len() implies !is_blank_text(#[trigger] unit_id(units[i])) by {
        assert(us[i] is None);
        lemma_unit_ok(units, i);
    }
    assert forall|i: int, k: int| 0 <= k < i < units.len() implies #[trigger] unit_id(units[k])
        != #[trigger] unit_id(units[i]) by {
        assert(us[i] is None);
        lemma_unit_ok(units, i);
    }
    assert forall|i: int| 0 <= i < units.len() implies ((#[trigger] units[i]) matches Component::Assembly(
        a,
    ) ==> a.components@.len() > 0) by {
        assert(us[i] is None);
        lemma_unit_ok(units, i);
    }
    assert forall|i: int, j: int| 0 <= i < units.len() && 0 <= j < unit_constraints(units[i]).len() implies value_ok(
        #[trigger] unit_constraints(units[i])[j].name@,
        unit_constraints(units[i])[j].value,
    ) by {
        assert(us[i] is None);
        lemma_unit_ok(units, i);
    }
    assert forall|i: int, j: int| 0 <= i < units.len() && 0 <= j < unit_interfaces(units[i]).len() implies !is_blank_text(
        #[trigger] unit_interfaces(units[i])[j].name@,
    ) by {
        assert(us[i] is None);
        lemma_unit_ok(units, i);
    }
    assert forall|i: int, j: int, m: int|
        0 <= i < units.len() && 0 <= m < j < unit_interfaces(units[i]).len() implies #[trigger] unit_interfaces(
        units[i],
    )[m].name@ != #[trigger] unit_interfaces(units[i])[j].name@ by {
        assert(us[i] is None);
        lemma_unit_ok(units, i);
    }
    assert forall|c: Connection| #[trigger] connection_in(units, c) implies {
        &&& !is_blank_text(c.name@)
        &&& interface_exists(units, c.from)
        &&& interface_exists(units, c.to)
    } by {
        lemma_valid_connections(d, c);
        reveal(connection_issue);
        reveal(reference_issue);
        lemma_interface_exists(units, c.name@, c.from);
        lemma_interface_exists(units, c.name@, c.to);
    }
    let ms = material_issues(units, d.manufacturing.constraints.supported_materials@);
    lemma_first_issue_none(ms);
    assert forall|i: int| 0 <= i < units.len() implies ((#[trigger] units[i]) matches Component::Part(p)
        ==> d.manufacturing.constraints.supported_materials@.contains(p.material)) by {
        assert(ms[i] is None);
        reveal(material_issue);
    }
}

/// Some unit carries the reference's component identifier and declares its interface.
pub open spec fn interface_exists(units: Seq<Component>, r: InterfaceRef) -> bool {
    exists|k: int, j: int|
        0 <= k < units.len() && unit_id(units[k]) == r.component@ && 0 <= j < unit_interfaces(
            units[k],
        ).len() && #[trigger] unit_interfaces(units[k])[j].name@ == r.interface@
}

proof fn lemma_interface_exists(units: Seq<Component>, connection: Seq<char>, r: InterfaceRef)
    requires
        reference_issue(units, connection, r) is None,
    ensures
        interface_exists(units, r),
{
    reveal(reference_issue);
    lemma_unit_with_id(units, r.component@);
    let u = unit_with_id(units, r.component@);
    let k = choose|k: int| 0 <= k < units.len() && units[k] == u;
    let j = choose|j: int|
        0 <= j < unit_interfaces(u).len() && #[trigger] unit_interfaces(u)[j].name@ == r.interface@;
    assert(unit_interfaces(units[k])[j].name@ == r.interface@);
}

} // verus!
