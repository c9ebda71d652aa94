//! The author-facing design model: assemblies of parts, their interfaces, connections and
//! named values.

use crate::context::{ManufacturingContext, Material};
use crate::ieee::Binary64;
use crate::ir::{GraphError, IrGraph};
use vstd::prelude::*;

verus! {

#[derive(Debug, PartialEq)]
pub struct Design {
    pub name: String,
    pub root: Assembly,
    pub requirements: Vec<Requirement>,
    pub manufacturing: ManufacturingContext,
    pub provenance: Provenance,
}

#[derive(Debug, PartialEq)]
pub struct Assembly {
    pub id: String,
    pub components: Vec<Component>,
    pub interfaces: Vec<Interface>,
    pub connections: Vec<Connection>,
    pub constraints: Vec<Constraint>,
}

#[derive(Debug, PartialEq)]
pub enum Component {
    Assembly(Assembly),
    Part(Part),
}

#[derive(Debug, Clone, PartialEq)]
pub struct Part {
    pub id: String,
    pub material: Material,
    pub interfaces: Vec<Interface>,
    pub constraints: Vec<Constraint>,
}

#[derive(Debug, Clone, PartialEq, Eq)]
pub struct Interface {
    pub name: String,
    pub kind: InterfaceKind,
}

#[derive(Debug, Clone, Copy, PartialEq, Eq, Structural)]
pub enum InterfaceKind {
    Mechanical,
    ElectricalPlaceholder,
}

#[derive(Debug, Clone, PartialEq, Eq)]
pub struct Connection {
    pub name: String,
    pub from: InterfaceRef,
    pub to: InterfaceRef,
    pub kind: ConnectionKind,
}

#[derive(Debug, Clone, Copy, PartialEq, Eq, Structural)]
pub enum ConnectionKind {
    Fixed,
    Rotational,
}

#[derive(Debug, Clone, PartialEq, Eq)]
pub struct InterfaceRef {
    pub component: String,
    pub interface: String,
}

#[derive(Debug, Clone, PartialEq)]
pub struct Requirement {
    pub name: String,
    pub value: TypedValue,
}

#[derive(Debug, Clone, PartialEq)]
pub struct Constraint {
    pub name: String,
    pub value: TypedValue,
}

#[derive(Debug, Clone, PartialEq)]
pub enum TypedValue {
    Boolean(bool),
    Count(u32),
    LengthMm(Binary64),
    Text(String),
}

#[derive(Debug, Clone, PartialEq, Eq)]
pub struct Provenance {
    pub author_kind: AuthorKind,
    pub author: String,
    pub source: String,
}

#[derive(Debug, Clone, Copy, PartialEq, Eq, Structural)]
pub enum AuthorKind {
    Human,
    Ai,
}

#[derive(Debug, Clone, PartialEq)]
pub struct LoweredDesign {
    pub graph: IrGraph,
    pub manufacturing: ManufacturingContext,
}

#[derive(Debug, Clone, PartialEq)]
pub enum ValidationError {
    EmptyName(&'static str),
    EmptyAssembly(String),
    DuplicateComponentId(String),
    DuplicateInterfaceId { component: String, interface: String },
    MissingConnectionComponent { connection: String, component: String },
    MissingConnectionInterface { connection: String, component: String, interface: String },
    UnsupportedMaterial { part: String, material: Material },
    InvalidLength { name: String, value_mm: Binary64 },
}

#[derive(Debug, Clone, PartialEq)]
pub enum LoweringError {
    Validation(ValidationError),
    Graph(GraphError),
}

/// What a validation error says, with its texts as character sequences.
pub enum ValidationIssue {
    EmptyName(Seq<char>),
    EmptyAssembly(Seq<char>),
    DuplicateComponentId(Seq<char>),
    DuplicateInterfaceId { component: Seq<char>, interface: Seq<char> },
    MissingConnectionComponent { connection: Seq<char>, component: Seq<char> },
    MissingConnectionInterface { connection: Seq<char>, component: Seq<char>, interface: Seq<char> },
    UnsupportedMaterial { part: Seq<char>, material: Material },
    InvalidLength { name: Seq<char>, value_mm: Binary64 },
}

impl View for ValidationError {
    type V = ValidationIssue;

    open spec fn view(&self) -> ValidationIssue {
        match self {
            ValidationError::EmptyName(e) => ValidationIssue::EmptyName(e@),
            ValidationError::EmptyAssembly(id) => ValidationIssue::EmptyAssembly(id@),
            ValidationError::DuplicateComponentId(id) => ValidationIssue::DuplicateComponentId(id@),
            ValidationError::DuplicateInterfaceId { component, interface } => {
                ValidationIssue::DuplicateInterfaceId { component: component@, interface: interface@ }
            },
            ValidationError::MissingConnectionComponent { connection, component } => {
                ValidationIssue::MissingConnectionComponent {
                    connection: connection@,
                    component: component@,
                }
            },
            ValidationError::MissingConnectionInterface { connection, component, interface } => {
                ValidationIssue::MissingConnectionInterface {
                    connection: connection@,
                    component: component@,
                    interface: interface@,
                }
            },
            ValidationError::UnsupportedMaterial { part, material } => {
                ValidationIssue::UnsupportedMaterial { part: part@, material: *material }
            },
            ValidationError::InvalidLength { name, value_mm } => {
                ValidationIssue::InvalidLength { name: name@, value_mm: *value_mm }
            },
        }
    }
}

impl Design {
    pub fn new(
        name: &str,
        root: Assembly,
        manufacturing: ManufacturingContext,
        provenance: Provenance,
    ) -> (r: Self)
        ensures
            r.name@ == name@,
            r.root == root,
            r.requirements@.len() == 0,
            r.manufacturing == manufacturing,
            r.provenance == provenance,
    {
        Design { name: name.to_owned(), root, requirements: Vec::new(), manufacturing, provenance }
    }

    pub fn with_requirement(self, requirement: Requirement) -> (r: Self)
        ensures
            r.name == self.name,
            r.root == self.root,
            r.requirements@ == self.requirements@.push(requirement),
            r.manufacturing == self.manufacturing,
            r.provenance == self.provenance,
    {
        let mut design = self;
        design.requirements.push(requirement);
        design
    }
}

impl Assembly {
    pub fn new(id: &str) -> (r: Self)
        ensures
            r.id@ == id@,
            r.components@.len() == 0,
            r.interfaces@.len() == 0,
            r.connections@.len() == 0,
            r.constraints@.len() == 0,
    {
        Assembly {
            id: id.to_owned(),
            components: Vec::new(),
            interfaces: Vec::new(),
            connections: Vec::new(),
            constraints: Vec::new(),
        }
    }

    pub fn with_component(self, component: Component) -> (r: Self)
        ensures
            r == (Assembly { components: r.components, ..self }),
            r.components@ == self.components@.push(component),
    {
        let mut assembly = self;
        assembly.components.push(component);
        assembly
    }

    pub fn with_part(self, part: Part) -> (r: Self)
        ensures
            r == (Assembly { components: r.components, ..self }),
            r.components@ == self.components@.push(Component::Part(part)),
    {
        self.with_component(Component::Part(part))
    }

    pub fn with_assembly(self, assembly: Assembly) -> (r: Self)
        ensures
            r == (Assembly { components: r.components, ..self }),
            r.components@ == self.components@.push(Component::Assembly(assembly)),
    {
        self.with_component(Component::Assembly(assembly))
    }

    pub fn with_interface(self, interface: Interface) -> (r: Self)
        ensures
            r == (Assembly { interfaces: r.interfaces, ..self }),
            r.interfaces@ == self.interfaces@.push(interface),
    {
        let mut assembly = self;
        assembly.interfaces.push(interface);
        assembly
    }

    pub fn with_connection(self, connection: Connection) -> (r: Self)
        ensures
            r == (Assembly { connections: r.connections, ..self }),
            r.connections@ == self.connections@.push(connection),
    {
        let mut assembly = self;
        assembly.connections.push(connection);
        assembly
    }

    pub fn with_constraint(self, constraint: Constraint) -> (r: Self)
        ensures
            r == (Assembly { constraints: r.constraints, ..self }),
            r.constraints@ == self.constraints@.push(constraint),
    {
        let mut assembly = self;
        assembly.constraints.push(constraint);
        assembly
    }
}

impl Part {
    pub fn new(id: &str, material: Material) -> (r: Self)
        ensures
            r.id@ == id@,
            r.material == material,
            r.interfaces@.len() == 0,
            r.constraints@.len() == 0,
    {
        Part { id: id.to_owned(), material, interfaces: Vec::new(), constraints: Vec::new() }
    }

    pub fn with_interface(self, interface: Interface) -> (r: Self)
        ensures
            r == (Part { interfaces: r.interfaces, ..self }),
            r.interfaces@ == self.interfaces@.push(interface),
    {
        let mut part = self;
        part.interfaces.push(interface);
        part
    }

    pub fn with_constraint(self, constraint: Constraint) -> (r: Self)
        ensures
            r == (Part { constraints: r.constraints, ..self }),
            r.constraints@ == self.constraints@.push(constraint),
    {
        let mut part = self;
        part.constraints.push(constraint);
        part
    }
}

impl Interface {
    pub fn new(name: &str, kind: InterfaceKind) -> (r: Self)
        ensures
            r.name@ == name@,
            r.kind == kind,
    {
        Interface { name: name.to_owned(), kind }
    }
}

impl Connection {
    pub fn new(name: &str, from: InterfaceRef, to: InterfaceRef, kind: ConnectionKind) -> (r: Self)
        ensures
            r.name@ == name@,
            r.from == from,
            r.to == to,
            r.kind == kind,
    {
        Connection { name: name.to_owned(), from, to, kind }
    }
}

impl InterfaceRef {
    pub fn new(component: &str, interface: &str) -> (r: Self)
        ensures
            r.component@ == component@,
            r.interface@ == interface@,
    {
        InterfaceRef { component: component.to_owned(), interface: interface.to_owned() }
    }
}

impl Requirement {
    pub fn new(name: &str, value: TypedValue) -> (r: Self)
        ensures
            r.name@ == name@,
            r.value == value,
    {
        Requirement { name: name.to_owned(), value }
    }
}

impl Constraint {
    pub fn new(name: &str, value: TypedValue) -> (r: Self)
        ensures
            r.name@ == name@,
            r.value == value,
    {
        Constraint { name: name.to_owned(), value }
    }
}

impl Provenance {
    pub fn new(author_kind: AuthorKind, author: &str, source: &str) -> (r: Self)
        ensures
            r.author_kind == author_kind,
            r.author@ == author@,
            r.source@ == source@,
    {
        Provenance { author_kind, author: author.to_owned(), source: source.to_owned() }
    }
}

impl From<ValidationError> for LoweringError {
    fn from(error: ValidationError) -> (r: Self) {
        LoweringError::Validation(error)
    }
}

impl vstd::std_specs::convert::FromSpecImpl<ValidationError> for LoweringError {
    open spec fn obeys_from_spec() -> bool {
        true
    }

    open spec fn from_spec(error: ValidationError) -> Self {
        LoweringError::Validation(error)
    }
}

impl From<GraphError> for LoweringError {
    fn from(error: GraphError) -> (r: Self) {
        LoweringError::Graph(error)
    }
}

impl vstd::std_specs::convert::FromSpecImpl<GraphError> for LoweringError {
    open spec fn obeys_from_spec() -> bool {
        true
    }

    open spec fn from_spec(error: GraphError) -> Self {
        LoweringError::Graph(error)
    }
}

} // verus!
