//! Validation of authored designs: the first problem found, in a fixed order.

use super::model::{
    Assembly, Component, Connection, Constraint, Design, Interface, InterfaceRef, Part, Provenance,
    Requirement, TypedValue, ValidationError, ValidationIssue,
};
use crate::context::Material;
use crate::first::{first_issue, lemma_first_issue};
use crate::text::{is_blank, is_blank_text};
use vstd::prelude::*;

verus! {

// ---------------------------------------------------------------------------------------
// The components of an assembly, in the order in which validation and lowering visit them.
// ---------------------------------------------------------------------------------------

/// The assembly followed by all of its components, depth first, in authored order.
pub open spec fn assembly_units(a: Assembly) -> Seq<Component>
    decreases a,
{
    seq![Component::Assembly(a)] + component_list_units(a.components@)
}

/// The units of a list of components, one after the other.
pub open spec fn component_list_units(cs: Seq<Component>) -> Seq<Component>
    decreases cs,
{
    if cs.len() == 0 {
        Seq::empty()
    } else {
        component_units(cs[0]) + component_list_units(cs.drop_first())
    }
}

/// The units of one component: a part alone, or an assembly and its components.
pub open spec fn component_units(c: Component) -> Seq<Component>
    decreases c,
{
    match c {
        Component::Assembly(a) => assembly_units(a),
        Component::Part(p) => seq![Component::Part(p)],
    }
}

pub proof fn lemma_component_list_units_push(cs: Seq<Component>, c: Component)
    ensures
        component_list_units(cs.push(c)) == component_list_units(cs) + component_units(c),
    decreases cs.len(),
{
    if cs.len() == 0 {
        assert(cs.push(c).drop_first() =~= Seq::<Component>::empty());
        assert(cs.push(c)[0] == c);
        assert(component_list_units(Seq::<Component>::empty()) =~= Seq::<Component>::empty());
        assert(component_list_units(cs.push(c)) =~= component_units(c) + component_list_units(
            cs.push(c).drop_first(),
        ));
        assert(component_list_units(cs.push(c)) =~= component_units(c));
    } else {
        assert(cs.push(c).drop_first() =~= cs.drop_first().push(c));
        lemma_component_list_units_push(cs.drop_first(), c);
        assert(component_list_units(cs.push(c)) =~= component_list_units(cs) + component_units(c));
    }
}

pub open spec fn unit_id(u: Component) -> Seq<char> {
    match u {
        Component::Assembly(a) => a.id@,
        Component::Part(p) => p.id@,
    }
}

pub open spec fn unit_interfaces(u: Component) -> Seq<Interface> {
    match u {
        Component::Assembly(a) => a.interfaces@,
        Component::Part(p) => p.interfaces@,
    }
}

pub open spec fn unit_connections(u: Component) -> Seq<Connection> {
    match u {
        Component::Assembly(a) => a.connections@,
        Component::Part(p) => Seq::empty(),
    }
}

/// A borrowed unit of a design.
pub enum UnitRef<'a> {
    Assembly(&'a Assembly),
    Part(&'a Part),
}

impl<'a> View for UnitRef<'a> {
    type V = Component;

    open spec fn view(&self) -> Component {
        match self {
            UnitRef::Assembly(a) => Component::Assembly(**a),
            UnitRef::Part(p) => Component::Part(**p),
        }
    }
}

pub open spec fn unit_views<'a>(us: Seq<UnitRef<'a>>) -> Seq<Component> {
    us.map_values(|u: UnitRef<'a>| u@)
}

impl<'a> UnitRef<'a> {
    pub fn id(&self) -> (r: &'a String)
        ensures
            r@ == unit_id(self@),
    {
        match self {
            UnitRef::Assembly(a) => &a.id,
            UnitRef::Part(p) => &p.id,
        }
    }

    pub fn interfaces(&self) -> (r: &'a Vec<Interface>)
        ensures
            r@ == unit_interfaces(self@),
    {
        match self {
            UnitRef::Assembly(a) => &a.interfaces,
            UnitRef::Part(p) => &p.interfaces,
        }
    }
}

/// Appends the units of `a`, depth first.
pub fn collect_units<'a>(a: &'a Assembly, out: &mut Vec<UnitRef<'a>>)
    ensures
        unit_views(final(out)@) == unit_views(old(out)@) + assembly_units(*a),
    decreases a,
{
    let ghost start = unit_views(old(out)@);
    out.push(UnitRef::Assembly(a));
    assert(unit_views(out@) =~= start + seq![Component::Assembly(*a)]);
    let n = a.components.len();
    let mut i: usize = 0;
    assert(a.components@.take(0) =~= Seq::<Component>::empty());
    while i < n
        invariant
            n == a.components@.len(),
            i <= n,
            unit_views(out@) == start + seq![Component::Assembly(*a)] + component_list_units(
                a.components@.take(i as int),
            ),
        decreases n - i,
    {
        let ghost before = unit_views(out@);
        match &a.components[i] {
            Component::Assembly(child) => {
                assert(decreases_to!(a => a.components));
                collect_units(child, out);
            },
            Component::Part(p) => {
                out.push(UnitRef::Part(p));
                assert(unit_views(out@) =~= before + seq![Component::Part(*p)]);
            },
        }
        proof {
            assert(a.components@.take(i + 1) =~= a.components@.take(i as int).push(a.components@[i as int]));
            lemma_component_list_units_push(a.components@.take(i as int), a.components@[i as int]);
        }
        i = i + 1;
    }
    assert(a.components@.take(n as int) =~= a.components@);
}

// ---------------------------------------------------------------------------------------
// What validation reports.
// ---------------------------------------------------------------------------------------

pub open spec fn either(a: Option<ValidationIssue>, b: Option<ValidationIssue>) -> Option<
    ValidationIssue,
> {
    if a is Some {
        a
    } else {
        b
    }
}

pub open spec fn label_issue(s: Seq<char>, entity: Seq<char>) -> Option<ValidationIssue> {
    if is_blank_text(s) {
        Some(ValidationIssue::EmptyName(entity))
    } else {
        None
    }
}

#[verifier::opaque]
pub open spec fn named_value_issue(name: Seq<char>, value: TypedValue) -> Option<ValidationIssue> {
    either(
        label_issue(name, "named value"@),
        match value {
            TypedValue::LengthMm(v) => if v.at_most_int(0) {
                Some(ValidationIssue::InvalidLength { name, value_mm: v })
            } else {
                None
            },
            _ => None,
        },
    )
}

pub open spec fn constraint_issues(cs: Seq<Constraint>) -> Seq<Option<ValidationIssue>> {
    Seq::new(cs.len(), |j: int| named_value_issue(cs[j].name@, cs[j].value))
}

pub open spec fn requirement_issues(rs: Seq<Requirement>) -> Seq<Option<ValidationIssue>> {
    Seq::new(rs.len(), |j: int| named_value_issue(rs[j].name@, rs[j].value))
}

pub open spec fn interface_issues(component: Seq<char>, ifs: Seq<Interface>) -> Seq<
    Option<ValidationIssue>,
> {
    Seq::new(ifs.len(), |j: int| interface_issue(component, ifs, j))
}

#[verifier::opaque]
pub open spec fn interface_issue(component: Seq<char>, ifs: Seq<Interface>, j: int) -> Option<
    ValidationIssue,
> {
    either(
        label_issue(ifs[j].name@, "interface"@),
        if exists|k: int| 0 <= k < j && #[trigger] ifs[k].name@ == ifs[j].name@ {
            Some(ValidationIssue::DuplicateInterfaceId { component, interface: ifs[j].name@ })
        } else {
            None
        },
    )
}

/// Registering a component: its interfaces are named and distinct, and its identifier is new.
#[verifier::opaque]
pub open spec fn registration_issue(units: Seq<Component>, i: int) -> Option<ValidationIssue> {
    let id = unit_id(units[i]);
    let ifs = unit_interfaces(units[i]);
    either(
        first_issue(interface_issues(id, ifs)),
        if exists|k: int| 0 <= k < i && #[trigger] unit_id(units[k]) == id {
            Some(ValidationIssue::DuplicateComponentId(id))
        } else {
            None
        },
    )
}

/// The checks of the `i`-th unit, in the order in which they run.
#[verifier::opaque]
pub open spec fn unit_issue(units: Seq<Component>, i: int) -> Option<ValidationIssue> {
    match units[i] {
        Component::Assembly(a) => either(
            label_issue(a.id@, "assembly"@),
            either(
                if a.components@.len() == 0 {
                    Some(ValidationIssue::EmptyAssembly(a.id@))
                } else {
                    None
                },
                either(first_issue(constraint_issues(a.constraints@)), registration_issue(units, i)),
            ),
        ),
        Component::Part(p) => either(
            label_issue(p.id@, "part"@),
            either(first_issue(constraint_issues(p.constraints@)), registration_issue(units, i)),
        ),
    }
}

/// Some unit carries identifier `id`.
pub open spec fn has_unit(units: Seq<Component>, id: Seq<char>) -> bool {
    exists|k: int| 0 <= k < units.len() && #[trigger] unit_id(units[k]) == id
}

/// The first unit carrying identifier `id`.
pub open spec fn unit_with_id(units: Seq<Component>, id: Seq<char>) -> Component {
    units[choose|k: int|
        0 <= k < units.len() && unit_id(units[k]) == id && forall|m: int|
            0 <= m < k ==> #[trigger] unit_id(units[m]) != id]
}

#[verifier::opaque]
pub open spec fn reference_issue(units: Seq<Component>, connection: Seq<char>, r: InterfaceRef) -> Option<
    ValidationIssue,
> {
    if !has_unit(units, r.component@) {
        Some(
            ValidationIssue::MissingConnectionComponent { connection, component: r.component@ },
        )
    } else if !(exists|j: int|
        0 <= j < unit_interfaces(unit_with_id(units, r.component@)).len()
            && #[trigger] unit_interfaces(unit_with_id(units, r.component@))[j].name@
            == r.interface@) {
        Some(
            ValidationIssue::MissingConnectionInterface {
                connection,
                component: r.component@,
                interface: r.interface@,
            },
        )
    } else {
        None
    }
}

#[verifier::opaque]
pub open spec fn connection_issue(units: Seq<Component>, c: Connection) -> Option<ValidationIssue> {
    either(
        label_issue(c.name@, "connection"@),
        either(reference_issue(units, c.name@, c.from), reference_issue(units, c.name@, c.to)),
    )
}

pub open spec fn unit_issues(units: Seq<Component>) -> Seq<Option<ValidationIssue>> {
    Seq::new(units.len(), |i: int| unit_issue(units, i))
}

/// The issues of the connections that the `i`-th unit declares.
pub open spec fn connection_issues_of(units: Seq<Component>, i: int) -> Seq<Option<ValidationIssue>> {
    Seq::new(
        unit_connections(units[i]).len(),
        |j: int| connection_issue(units, unit_connections(units[i])[j]),
    )
}

/// Connections are checked assembly by assembly, in unit order.
pub open spec fn connections_issues(units: Seq<Component>) -> Seq<Option<ValidationIssue>> {
    Seq::new(units.len(), |i: int| first_issue(connection_issues_of(units, i)))
}

pub open spec fn material_issues(units: Seq<Component>, supported: Seq<Material>) -> Seq<
    Option<ValidationIssue>,
> {
    Seq::new(units.len(), |i: int| material_issue(units[i], supported))
}

#[verifier::opaque]
pub open spec fn material_issue(u: Component, supported: Seq<Material>) -> Option<ValidationIssue> {
    match u {
        Component::Part(p) => if supported.contains(p.material) {
            None
        } else {
            Some(ValidationIssue::UnsupportedMaterial { part: p.id@, material: p.material })
        },
        Component::Assembly(_) => None,
    }
}

/// The design's name, its provenance, its requirements, then each unit, then the connections,
/// then the parts' materials.
#[verifier::opaque]
pub open spec fn design_issue(d: Design) -> Option<ValidationIssue> {
    let units = assembly_units(d.root);
    either(
        label_issue(d.name@, "design"@),
        either(
            label_issue(d.provenance.author@, "provenance author"@),
            either(
                label_issue(d.provenance.source@, "provenance source"@),
                either(
                    first_issue(requirement_issues(d.requirements@)),
                    either(
                        first_issue(unit_issues(units)),
                        either(
                            first_issue(connections_issues(units)),
                            first_issue(
                                material_issues(units, d.manufacturing.constraints.supported_materials@),
                            ),
                        ),
                    ),
                ),
            ),
        ),
    )
}

// ---------------------------------------------------------------------------------------
// Checks.
// ---------------------------------------------------------------------------------------

spec fn validate_label_ok(s: Seq<char>) -> bool {
    !is_blank_text(s)
}

/// Rejects a label that is empty once trimmed.
pub fn validate_label(value: &str, entity: &'static str) -> (r: Result<(), ValidationError>)
    ensures
        r is Ok <==> label_issue(value@, entity@) is None,
        r matches Err(e) ==> Some(e@) == label_issue(value@, entity@),
{
    if is_blank(value) {
        return Err(ValidationError::EmptyName(entity));
    }
    Ok(())
}

fn validate_named_value(name: &String, value: &TypedValue) -> (r: Result<(), ValidationError>)
    ensures
        r is Ok <==> named_value_issue(name@, *value) is None,
        r matches Err(e) ==> Some(e@) == named_value_issue(name@, *value),
{
    reveal(named_value_issue);
    validate_label(name.as_str(), "named value")?;
    if let TypedValue::LengthMm(value_mm) = value {
        if value_mm.is_at_most_zero() {
            return Err(ValidationError::InvalidLength { name: name.clone(), value_mm: *value_mm });
        }
    }
    Ok(())
}

impl Requirement {
    fn validate(&self) -> (r: Result<(), ValidationError>)
        ensures
            r is Ok <==> named_value_issue(self.name@, self.value) is None,
            r matches Err(e) ==> Some(e@) == named_value_issue(self.name@, self.value),
    {
        validate_named_value(&self.name, &self.value)
    }
}

impl Constraint {
    fn validate(&self) -> (r: Result<(), ValidationError>)
        ensures
            r is Ok <==> named_value_issue(self.name@, self.value) is None,
            r matches Err(e) ==> Some(e@) == named_value_issue(self.name@, self.value),
    {
        validate_named_value(&self.name, &self.value)
    }
}

#[verifier::loop_isolation(false)]
fn validate_constraints(cs: &Vec<Constraint>) -> (r: Result<(), ValidationError>)
    ensures
        r is Ok <==> first_issue(constraint_issues(cs@)) is None,
        r matches Err(e) ==> Some(e@) == first_issue(constraint_issues(cs@)),
{
    let ghost f = constraint_issues(cs@);
    assert(f.len() == cs@.len());
    let n = cs.len();
    let mut i: usize = 0;
    while i < n
        invariant
            n == cs@.len(),
            i <= n,
            f == constraint_issues(cs@),
            f.len() == n,
            forall|j: int| 0 <= j < i ==> (#[trigger] f[j]) is None,
        decreases n - i,
    {
        let r = cs[i].validate();
        if r.is_err() {
            proof {
                lemma_first_issue(f, i as int);
            }
            return r;
        }
        i = i + 1;
    }
    proof {
        lemma_first_issue(f, n as int);
    }
    Ok(())
}

impl Provenance {
    /// The author and the source must be named.
    pub fn validate(&self) -> (r: Result<(), ValidationError>)
        ensures
            r is Ok <==> either(
                label_issue(self.author@, "provenance author"@),
                label_issue(self.source@, "provenance source"@),
            ) is None,
            r matches Err(e) ==> Some(e@) == either(
                label_issue(self.author@, "provenance author"@),
                label_issue(self.source@, "provenance source"@),
            ),
    {
        validate_label(self.author.as_str(), "provenance author")?;
        validate_label(self.source.as_str(), "provenance source")?;
        Ok(())
    }
}

/// Registers the `i`-th unit: checks its interfaces and that its identifier is new.
#[verifier::loop_isolation(false)]
pub fn register_component<'a>(units: &Vec<UnitRef<'a>>, i: usize) -> (r: Result<(), ValidationError>)
    requires
        i < units@.len(),
    ensures
        r is Ok <==> registration_issue(unit_views(units@), i as int) is None,
        r matches Err(e) ==> Some(e@) == registration_issue(unit_views(units@), i as int),
{
    reveal(registration_issue);
    reveal(interface_issue);
    let ghost us = unit_views(units@);
    let component = units[i].id();
    let interfaces = units[i].interfaces();
    let ghost id = component@;
    let ghost ifs = interfaces@;
    let ghost f = interface_issues(id, ifs);
    assert(us[i as int] == units@[i as int]@);
    assert(id == unit_id(us[i as int]));
    assert(ifs == unit_interfaces(us[i as int]));
    assert(f.len() == ifs.len());
    assert(us.len() == units@.len());
    assert(registration_issue(us, i as int) == either(
        first_issue(f),
        if exists|k: int| 0 <= k < i && #[trigger] unit_id(us[k]) == id {
            Some(ValidationIssue::DuplicateComponentId(id))
        } else {
            None
        },
    ));
    let n = interfaces.len();
    let mut j: usize = 0;
    while j < n
        invariant
            n == ifs.len(),
            j <= n,
            ifs == interfaces@,
            f == interface_issues(id, ifs),
            f.len() == n,
            component@ == id,
            forall|m: int| 0 <= m < j ==> (#[trigger] f[m]) is None,
        decreases n - j,
    {
        let labelled = validate_label(interfaces[j].name.as_str(), "interface");
        if labelled.is_err() {
            proof {
                lemma_first_issue(f, j as int);
            }
            return labelled;
        }
        assert(validate_label_ok(ifs[j as int].name@));
        let mut k: usize = 0;
        while k < j
            invariant
                n == ifs.len(),
                k <= j < n,
                ifs == interfaces@,
                f == interface_issues(id, ifs),
                f.len() == n,
                component@ == id,
                forall|m: int| 0 <= m < j ==> (#[trigger] f[m]) is None,
                validate_label_ok(ifs[j as int].name@),
                forall|m: int| 0 <= m < k ==> #[trigger] ifs[m].name@ != ifs[j as int].name@,
            decreases j - k,
        {
            if interfaces[k].name == interfaces[j].name {
                proof {
                    assert(ifs[k as int].name@ == ifs[j as int].name@);
                    lemma_first_issue(f, j as int);
                }
                return Err(
                    ValidationError::DuplicateInterfaceId {
                        component: component.clone(),
                        interface: interfaces[j].name.clone(),
                    },
                );
            }
            k = k + 1;
        }
        assert(label_issue(ifs[j as int].name@, "interface"@) is None);
        assert(!(exists|k: int| 0 <= k < j && #[trigger] ifs[k].name@ == ifs[j as int].name@));
        assert(interface_issue(id, ifs, j as int) is None);
        assert(f[j as int] is None);
        j = j + 1;
    }
    proof {
        lemma_first_issue(f, n as int);
    }
    let mut k: usize = 0;
    while k < i
        invariant
            i < units@.len(),
            us == unit_views(units@),
            k <= i,
            id == unit_id(us[i as int]),
            component@ == id,
            forall|m: int| 0 <= m < k ==> #[trigger] unit_id(us[m]) != id,
        decreases i - k,
    {
        assert(us[k as int] == units@[k as int]@);
        if *units[k].id() == *component {
            assert(unit_id(us[k as int]) == id);
            return Err(ValidationError::DuplicateComponentId(component.clone()));
        }
        k = k + 1;
    }
    Ok(())
}

fn validate_unit<'a>(units: &Vec<UnitRef<'a>>, i: usize) -> (r: Result<(), ValidationError>)
    requires
        i < units@.len(),
    ensures
        r is Ok <==> unit_issues(unit_views(units@))[i as int] is None,
        r matches Err(e) ==> Some(e@) == unit_issues(unit_views(units@))[i as int],
{
    reveal(unit_issue);
    assert(unit_views(units@)[i as int] == units@[i as int]@);
    match units[i] {
        UnitRef::Assembly(a) => {
            validate_label(a.id.as_str(), "assembly")?;
            if a.components.len() == 0 {
                return Err(ValidationError::EmptyAssembly(a.id.clone()));
            }
            validate_constraints(&a.constraints)?;
            register_component(units, i)
        },
        UnitRef::Part(p) => {
            validate_label(p.id.as_str(), "part")?;
            validate_constraints(&p.constraints)?;
            register_component(units, i)
        },
    }
}

/// Finds the first unit with identifier `id`.
#[verifier::loop_isolation(false)]
fn find_unit<'a>(units: &Vec<UnitRef<'a>>, id: &String) -> (r: Option<usize>)
    ensures
        r is None <==> !has_unit(unit_views(units@), id@),
        r matches Some(k) ==> k < units@.len() && unit_views(units@)[k as int] == unit_with_id(
            unit_views(units@),
            id@,
        ),
{
    let ghost us = unit_views(units@);
    let n = units.len();
    let mut k: usize = 0;
    while k < n
        invariant
            n == units@.len(),
            us == unit_views(units@),
            k <= n,
            forall|m: int| 0 <= m < k ==> #[trigger] unit_id(us[m]) != id@,
        decreases n - k,
    {
        assert(us[k as int] == units@[k as int]@);
        if *units[k].id() == *id {
            proof {
                assert(unit_id(us[k as int]) == id@);
                let kk = choose|kk: int|
                    0 <= kk < us.len() && unit_id(us[kk]) == id@ && forall|m: int|
                        0 <= m < kk ==> #[trigger] unit_id(us[m]) != id@;
                if kk != k {
                    if kk < k {
                        assert(unit_id(us[kk]) != id@);
                    } else {
                        assert(unit_id(us[k as int]) != id@);
                    }
                }
            }
            return Some(k);
        }
        k = k + 1;
    }
    None
}

impl InterfaceRef {
    /// The referenced component exists and has the referenced interface.
    #[verifier::loop_isolation(false)]
    pub fn validate<'a>(&self, units: &Vec<UnitRef<'a>>, connection: &String) -> (r: Result<
        (),
        ValidationError,
    >)
        ensures
            r is Ok <==> reference_issue(unit_views(units@), connection@, *self) is None,
            r matches Err(e) ==> Some(e@) == reference_issue(unit_views(units@), connection@, *self),
    {
        reveal(reference_issue);
        let ghost us = unit_views(units@);
        let found = find_unit(units, &self.component);
        match found {
            None => Err(
                ValidationError::MissingConnectionComponent {
                    connection: connection.clone(),
                    component: self.component.clone(),
                },
            ),
            Some(k) => {
                let interfaces = units[k].interfaces();
                assert(us[k as int] == units@[k as int]@);
                let ghost target = unit_with_id(us, self.component@);
                assert(interfaces@ == unit_interfaces(target));
                let n = interfaces.len();
                let mut j: usize = 0;
                while j < n
                    invariant
                        n == interfaces@.len(),
                        interfaces@ == unit_interfaces(target),
                        j <= n,
                        forall|m: int| 0 <= m < j ==> #[trigger] unit_interfaces(target)[m].name@ != self.interface@,
                    decreases n - j,
                {
                    if interfaces[j].name == self.interface {
                        assert(unit_interfaces(target)[j as int].name@ == self.interface@);
                        return Ok(());
                    }
                    j = j + 1;
                }
                Err(
                    ValidationError::MissingConnectionInterface {
                        connection: connection.clone(),
                        component: self.component.clone(),
                        interface: self.interface.clone(),
                    },
                )
            },
        }
    }
}

impl Connection {
    /// The connection is named and both of its ends resolve.
    pub fn validate<'a>(&self, units: &Vec<UnitRef<'a>>) -> (r: Result<(), ValidationError>)
        ensures
            r is Ok <==> connection_issue(unit_views(units@), *self) is None,
            r matches Err(e) ==> Some(e@) == connection_issue(unit_views(units@), *self),
    {
        reveal(connection_issue);
        validate_label(self.name.as_str(), "connection")?;
        self.from.validate(units, &self.name)?;
        self.to.validate(units, &self.name)?;
        Ok(())
    }
}

#[verifier::loop_isolation(false)]
fn validate_connections<'a>(units: &Vec<UnitRef<'a>>) -> (r: Result<(), ValidationError>)
    ensures
        r is Ok <==> first_issue(connections_issues(unit_views(units@))) is None,
        r matches Err(e) ==> Some(e@) == first_issue(connections_issues(unit_views(units@))),
{
    let ghost us = unit_views(units@);
    let ghost g = connections_issues(us);
    assert(us.len() == units@.len());
    assert(g.len() == us.len());
    let n = units.len();
    let mut i: usize = 0;
    while i < n
        invariant
            n == units@.len(),
            us == unit_views(units@),
            g == connections_issues(us),
            g.len() == n,
            us.len() == n,
            i <= n,
            forall|m: int| 0 <= m < i ==> (#[trigger] g[m]) is None,
        decreases n - i,
    {
        assert(us[i as int] == units@[i as int]@);
        let ghost f = connection_issues_of(us, i as int);
        assert(g[i as int] == first_issue(f));
        assert(f.len() == unit_connections(us[i as int]).len());
        if let UnitRef::Assembly(a) = units[i] {
            let m = a.connections.len();
            let mut j: usize = 0;
            while j < m
                invariant
                    m == a.connections@.len(),
                    a.connections@ == unit_connections(us[i as int]),
                    us == unit_views(units@),
                    f == connection_issues_of(us, i as int),
                    f.len() == m,
                    g == connections_issues(us),
                    g.len() == n,
                    i < n,
                    forall|q: int| 0 <= q < i ==> (#[trigger] g[q]) is None,
                    g[i as int] == first_issue(f),
                    j <= m,
                    forall|q: int| 0 <= q < j ==> (#[trigger] f[q]) is None,
                decreases m - j,
            {
                let r = a.connections[j].validate(units);
                if r.is_err() {
                    proof {
                        lemma_first_issue(f, j as int);
                        lemma_first_issue(g, i as int);
                    }
                    return r;
                }
                j = j + 1;
            }
            proof {
                lemma_first_issue(f, m as int);
            }
        } else {
            proof {
                lemma_first_issue(f, 0);
            }
        }
        i = i + 1;
    }
    proof {
        lemma_first_issue(g, n as int);
    }
    Ok(())
}

impl Design {
    /// Validates the design and reports the first problem found; see `design_issue`.
    #[verifier::loop_isolation(false)]
    pub fn validate(&self) -> (r: Result<(), ValidationError>)
        ensures
            r is Ok <==> design_issue(*self) is None,
            r matches Err(e) ==> Some(e@) == design_issue(*self),
    {
        reveal(design_issue);
        validate_label(self.name.as_str(), "design")?;
        self.provenance.validate()?;
        let ghost rf = requirement_issues(self.requirements@);
        assert(rf.len() == self.requirements@.len());
        let nr = self.requirements.len();
        let mut i: usize = 0;
        while i < nr
            invariant
                nr == self.requirements@.len(),
                rf == requirement_issues(self.requirements@),
                rf.len() == nr,
                i <= nr,
                forall|j: int| 0 <= j < i ==> (#[trigger] rf[j]) is None,
            decreases nr - i,
        {
            let r = self.requirements[i].validate();
            if r.is_err() {
                proof {
                    lemma_first_issue(rf, i as int);
                }
                return r;
            }
            i = i + 1;
        }
        proof {
            lemma_first_issue(rf, nr as int);
        }
        let mut units: Vec<UnitRef> = Vec::new();
        collect_units(&self.root, &mut units);
        let ghost us = unit_views(units@);
        assert(us =~= assembly_units(self.root));
        let ghost uf = unit_issues(us);
        assert(us.len() == units@.len());
        assert(uf.len() == us.len());
        let n = units.len();
        let mut i: usize = 0;
        while i < n
            invariant
                n == units@.len(),
                us == unit_views(units@),
                uf == unit_issues(us),
                uf.len() == n,
                i <= n,
                forall|j: int| 0 <= j < i ==> (#[trigger] uf[j]) is None,
            decreases n - i,
        {
            let r = validate_unit(&units, i);
            if r.is_err() {
                proof {
                    lemma_first_issue(uf, i as int);
                }
                return r;
            }
            i = i + 1;
        }
        proof {
            lemma_first_issue(uf, n as int);
        }
        validate_connections(&units)?;
        let supported = &self.manufacturing.constraints.supported_materials;
        let ghost mf = material_issues(us, supported@);
        assert(mf.len() == n);
        let mut i: usize = 0;
        while i < n
            invariant
                n == units@.len(),
                us == unit_views(units@),
                supported@ == self.manufacturing.constraints.supported_materials@,
                mf == material_issues(us, supported@),
                mf.len() == n,
                us.len() == n,
                i <= n,
                forall|j: int| 0 <= j < i ==> (#[trigger] mf[j]) is None,
            decreases n - i,
        {
            assert(us[i as int] == units@[i as int]@);
            proof {
                reveal(material_issue);
            }
            if let UnitRef::Part(p) = units[i] {
                let mut found = false;
                let mut k: usize = 0;
                while k < supported.len()
                    invariant
                        k <= supported@.len(),
                        found == (exists|q: int| 0 <= q < k && supported@[q] == p.material),
                    decreases supported@.len() - k,
                {
                    if supported[k] == p.material {
                        found = true;
                    }
                    k = k + 1;
                }
                if !found {
                    proof {
                        lemma_first_issue(mf, i as int);
                    }
                    return Err(
                        ValidationError::UnsupportedMaterial { part: p.id.clone(), material: p.material },
                    );
                }
            }
            i = i + 1;
        }
        proof {
            lemma_first_issue(mf, n as int);
        }
        Ok(())
    }
}

} // verus!
