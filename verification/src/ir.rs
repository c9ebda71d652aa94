//! Intermediate representation: a typed graph of design elements and their relationships.

pub use crate::attrs::AttrMap;
use crate::ieee::Binary64;
use crate::text::{decimal, push_decimal};
use vstd::prelude::*;

verus! {

pub const IR_SCHEMA_VERSION: u32 = 1;

/// Identifier of a node: the position at which the graph stored it.
#[derive(Debug, Clone, Copy, PartialEq, Eq, PartialOrd, Ord, Hash, Structural)]
pub struct NodeId(u64);

/// Identifier of an edge: the position at which the graph stored it.
#[derive(Debug, Clone, Copy, PartialEq, Eq, PartialOrd, Ord, Hash, Structural)]
pub struct EdgeId(u64);

impl NodeId {
    pub closed spec fn index(self) -> nat {
        self.0 as nat
    }

    pub fn raw(self) -> (r: u64)
        ensures
            r == self.index(),
    {
        self.0
    }

    pub proof fn lemma_index_injective(a: NodeId, b: NodeId)
        ensures
            (a.index() == b.index()) == (a == b),
    {
    }
}

impl EdgeId {
    pub closed spec fn index(self) -> nat {
        self.0 as nat
    }

    pub fn raw(self) -> (r: u64)
        ensures
            r == self.index(),
    {
        self.0
    }

    pub proof fn lemma_index_injective(a: EdgeId, b: EdgeId)
        ensures
            (a.index() == b.index()) == (a == b),
    {
    }
}

#[derive(Debug, Clone, Copy, PartialEq, Eq, Structural)]
pub enum NodeKind {
    System,
    Assembly,
    Part,
    Interface,
    Constraint,
    Material,
    Process,
    Artifact,
}

#[derive(Debug, Clone, Copy, PartialEq, Eq, Structural)]
pub enum EdgeKind {
    Contains,
    Connects,
    Constrains,
    UsesMaterial,
    TargetsProcess,
    Produces,
    DerivedFrom,
    Satisfies,
}

impl EdgeKind {
    /// The variant's name, as `Debug` prints it.
    pub open spec fn name_text(self) -> Seq<char> {
        match self {
            EdgeKind::Contains => "Contains"@,
            EdgeKind::Connects => "Connects"@,
            EdgeKind::Constrains => "Constrains"@,
            EdgeKind::UsesMaterial => "UsesMaterial"@,
            EdgeKind::TargetsProcess => "TargetsProcess"@,
            EdgeKind::Produces => "Produces"@,
            EdgeKind::DerivedFrom => "DerivedFrom"@,
            EdgeKind::Satisfies => "Satisfies"@,
        }
    }

    pub fn debug_name(self) -> (r: &'static str)
        ensures
            r@ == self.name_text(),
    {
        match self {
            EdgeKind::Contains => "Contains",
            EdgeKind::Connects => "Connects",
            EdgeKind::Constrains => "Constrains",
            EdgeKind::UsesMaterial => "UsesMaterial",
            EdgeKind::TargetsProcess => "TargetsProcess",
            EdgeKind::Produces => "Produces",
            EdgeKind::DerivedFrom => "DerivedFrom",
            EdgeKind::Satisfies => "Satisfies",
        }
    }
}

#[derive(Debug, Clone, Copy, PartialEq, Eq, Structural)]
pub enum RefinementState {
    Abstract,
    Selected,
    Realized,
}

#[derive(Debug, PartialEq, Eq)]
pub enum Origin {
    InputSpec,
    Sdk,
    Pass { name: String },
    Imported { source: String },
}

impl Clone for Origin {
    fn clone(&self) -> (r: Self)
        ensures
            r == *self,
    {
        match self {
            Origin::InputSpec => Origin::InputSpec,
            Origin::Sdk => Origin::Sdk,
            Origin::Pass { name } => Origin::Pass { name: name.clone() },
            Origin::Imported { source } => Origin::Imported { source: source.clone() },
        }
    }
}

impl Origin {
    pub fn pass(name: &str) -> (r: Self)
        ensures
            r matches Origin::Pass { name: n } && n@ == name@,
    {
        Origin::Pass { name: name.to_owned() }
    }
}

#[derive(Debug, PartialEq)]
pub enum Value {
    Bool(bool),
    Int(i64),
    Float(Binary64),
    String(String),
    Enum(String),
    Quantity(Quantity),
    Range(Range),
}

#[derive(Debug, PartialEq)]
pub struct Quantity {
    pub value: Binary64,
    pub unit: String,
}

#[derive(Debug, PartialEq)]
pub struct Range {
    pub min: Binary64,
    pub max: Binary64,
    pub unit: String,
}

impl Clone for Quantity {
    fn clone(&self) -> (r: Self)
        ensures
            r == *self,
    {
        Quantity { value: self.value, unit: self.unit.clone() }
    }
}

impl Clone for Range {
    fn clone(&self) -> (r: Self)
        ensures
            r == *self,
    {
        Range { min: self.min, max: self.max, unit: self.unit.clone() }
    }
}

impl Clone for Value {
    fn clone(&self) -> (r: Self)
        ensures
            r == *self,
    {
        match self {
            Value::Bool(b) => Value::Bool(*b),
            Value::Int(i) => Value::Int(*i),
            Value::Float(f) => Value::Float(*f),
            Value::String(s) => Value::String(s.clone()),
            Value::Enum(s) => Value::Enum(s.clone()),
            Value::Quantity(q) => Value::Quantity(q.clone()),
            Value::Range(r) => Value::Range(r.clone()),
        }
    }
}

/// What a value says, with its texts as character sequences.
pub enum ValueView {
    Bool(bool),
    Int(i64),
    Float(Binary64),
    String(Seq<char>),
    Enum(Seq<char>),
    Quantity { value: Binary64, unit: Seq<char> },
    Range { min: Binary64, max: Binary64, unit: Seq<char> },
}

impl View for Value {
    type V = ValueView;

    open spec fn view(&self) -> ValueView {
        match self {
            Value::Bool(b) => ValueView::Bool(*b),
            Value::Int(i) => ValueView::Int(*i),
            Value::Float(f) => ValueView::Float(*f),
            Value::String(s) => ValueView::String(s@),
            Value::Enum(s) => ValueView::Enum(s@),
            Value::Quantity(q) => ValueView::Quantity { value: q.value, unit: q.unit@ },
            Value::Range(r) => ValueView::Range { min: r.min, max: r.max, unit: r.unit@ },
        }
    }
}

/// Where an element came from, with its texts as character sequences.
pub enum OriginView {
    InputSpec,
    Sdk,
    Pass(Seq<char>),
    Imported(Seq<char>),
}

impl View for Origin {
    type V = OriginView;

    open spec fn view(&self) -> OriginView {
        match self {
            Origin::InputSpec => OriginView::InputSpec,
            Origin::Sdk => OriginView::Sdk,
            Origin::Pass { name } => OriginView::Pass(name@),
            Origin::Imported { source } => OriginView::Imported(source@),
        }
    }
}

/// The attributes of an element, each value by its view.
pub open spec fn attrs_view(m: Map<Seq<char>, Value>) -> Map<Seq<char>, ValueView> {
    m.map_values(|v: Value| v@)
}

/// Storing an attribute and then viewing is viewing and then storing its view.
pub proof fn lemma_attrs_view_insert(m: Map<Seq<char>, Value>, k: Seq<char>, v: Value)
    ensures
        attrs_view(m.insert(k, v)) == attrs_view(m).insert(k, v@),
{
    assert(attrs_view(m.insert(k, v)) =~= attrs_view(m).insert(k, v@));
}

/// What a node says.
pub struct NodeView {
    pub kind: NodeKind,
    pub name: Seq<char>,
    pub state: RefinementState,
    pub attrs: Map<Seq<char>, ValueView>,
    pub origin: OriginView,
}

/// What an edge says, its ends by position.
pub struct EdgeView {
    pub kind: EdgeKind,
    pub source: nat,
    pub target: nat,
    pub attrs: Map<Seq<char>, ValueView>,
    pub origin: OriginView,
}

#[derive(Debug, PartialEq)]
pub struct Node {
    pub kind: NodeKind,
    pub name: String,
    pub state: RefinementState,
    pub attrs: AttrMap,
    pub origin: Origin,
}

impl Node {
    pub fn new(kind: NodeKind, name: &str, origin: Origin) -> (r: Self)
        ensures
            r.kind == kind,
            r.name@ == name@,
            r.state == RefinementState::Abstract,
            r.attrs@ == Map::<Seq<char>, Value>::empty(),
            r.origin == origin,
            r@ == (NodeView {
                kind,
                name: name@,
                state: RefinementState::Abstract,
                attrs: Map::empty(),
                origin: origin@,
            }),
    {
        assert(attrs_view(Map::<Seq<char>, Value>::empty()) =~= Map::<Seq<char>, ValueView>::empty());
        Node {
            kind,
            name: name.to_owned(),
            state: RefinementState::Abstract,
            attrs: AttrMap::new(),
            origin,
        }
    }

    pub fn with_attr(self, key: &str, value: Value) -> (r: Self)
        ensures
            r.kind == self.kind,
            r.name == self.name,
            r.state == self.state,
            r.attrs@ == self.attrs@.insert(key@, value),
            r.origin == self.origin,
            r@ == (NodeView { attrs: self@.attrs.insert(key@, value@), ..self@ }),
    {
        proof {
            lemma_attrs_view_insert(self.attrs@, key@, value);
        }
        let mut node = self;
        node.attrs.insert(key, value);
        node
    }
}

impl Clone for Node {
    fn clone(&self) -> (r: Self)
        ensures
            r@ == self@,
            r.kind == self.kind,
            r.name == self.name,
            r.state == self.state,
            r.attrs@ == self.attrs@,
            r.origin == self.origin,
    {
        Node {
            kind: self.kind,
            name: self.name.clone(),
            state: self.state,
            attrs: self.attrs.clone(),
            origin: self.origin.clone(),
        }
    }
}

impl Clone for Edge {
    fn clone(&self) -> (r: Self)
        ensures
            r@ == self@,
            r.kind == self.kind,
            r.source == self.source,
            r.target == self.target,
            r.attrs@ == self.attrs@,
            r.origin == self.origin,
    {
        Edge {
            kind: self.kind,
            source: self.source,
            target: self.target,
            attrs: self.attrs.clone(),
            origin: self.origin.clone(),
        }
    }
}

impl View for Node {
    type V = NodeView;

    open spec fn view(&self) -> NodeView {
        NodeView {
            kind: self.kind,
            name: self.name@,
            state: self.state,
            attrs: attrs_view(self.attrs@),
            origin: self.origin@,
        }
    }
}

#[derive(Debug, PartialEq)]
pub struct Edge {
    pub kind: EdgeKind,
    pub source: NodeId,
    pub target: NodeId,
    pub attrs: AttrMap,
    pub origin: Origin,
}

impl Edge {
    pub fn new(kind: EdgeKind, source: NodeId, target: NodeId, origin: Origin) -> (r: Self)
        ensures
            r.kind == kind,
            r.source == source,
            r.target == target,
            r.attrs@ == Map::<Seq<char>, Value>::empty(),
            r.origin == origin,
            r@ == (EdgeView {
                kind,
                source: source.index(),
                target: target.index(),
                attrs: Map::empty(),
                origin: origin@,
            }),
    {
        assert(attrs_view(Map::<Seq<char>, Value>::empty()) =~= Map::<Seq<char>, ValueView>::empty());
        Edge { kind, source, target, attrs: AttrMap::new(), origin }
    }

    pub fn with_attr(self, key: &str, value: Value) -> (r: Self)
        ensures
            r.kind == self.kind,
            r.source == self.source,
            r.target == self.target,
            r.attrs@ == self.attrs@.insert(key@, value),
            r.origin == self.origin,
            r@ == (EdgeView { attrs: self@.attrs.insert(key@, value@), ..self@ }),
    {
        proof {
            lemma_attrs_view_insert(self.attrs@, key@, value);
        }
        let mut edge = self;
        edge.attrs.insert(key, value);
        edge
    }
}

impl View for Edge {
    type V = EdgeView;

    open spec fn view(&self) -> EdgeView {
        EdgeView {
            kind: self.kind,
            source: self.source.index(),
            target: self.target.index(),
            attrs: attrs_view(self.attrs@),
            origin: self.origin@,
        }
    }
}

#[derive(Debug, Clone, Copy, PartialEq, Eq, Structural)]
pub enum GraphError {
    MissingNode(NodeId),
}

impl GraphError {
    /// The error's message: `missing node <id>`.
    pub fn message(&self) -> (r: String)
        ensures
            match self {
                GraphError::MissingNode(id) => r@ == "missing node "@ + decimal(id.index()),
            },
    {
        match self {
            GraphError::MissingNode(id) => {
                let mut r = "missing node ".to_owned();
                push_decimal(&mut r, id.raw());
                r
            },
        }
    }
}

/// A design graph: node `i` and edge `i` are the `i`-th added, node 0 is the root, and every
/// edge joins two nodes of the graph.
#[derive(Debug, PartialEq)]
pub struct IrGraph {
    version: u32,
    root: NodeId,
    nodes: Vec<Node>,
    edges: Vec<Edge>,
    metadata: AttrMap,
}

/// Every edge of `edges` joins two of the first `n` nodes.
pub open spec fn edges_within(edges: Seq<Edge>, n: nat) -> bool {
    forall|i: int|
        0 <= i < edges.len() ==> (#[trigger] edges[i]).source.index() < n && edges[i].target.index()
            < n
}

impl Clone for IrGraph {
    fn clone(&self) -> (r: Self)
        ensures
            r.node_views() == self.node_views(),
            r.edge_views() == self.edge_views(),
            r.metadata_view() == self.metadata_view(),
            r.root_id() == self.root_id(),
    {
        proof {
            use_type_invariant(self);
        }
        let nodes = self.nodes.clone();
        let edges = self.edges.clone();
        proof {
            assert forall|i: int| 0 <= i < edges@.len() implies (#[trigger] edges@[i]).source.index()
                < nodes@.len() && edges@[i].target.index() < nodes@.len() by {
                assert(cloned::<Edge>(self.edges@[i], edges@[i]));
                assert(self.edges@[i].source.index() < self.nodes@.len());
            }
        }
        let r = IrGraph {
            version: self.version,
            root: self.root,
            nodes,
            edges,
            metadata: self.metadata.clone(),
        };
        proof {
            assert forall|i: int| 0 <= i < r.nodes@.len() implies (#[trigger] r.node_views()[i]) == self.node_views()[i] by {
                assert(cloned::<Node>(self.nodes@[i], r.nodes@[i]));
            }
            assert forall|i: int| 0 <= i < r.edges@.len() implies (#[trigger] r.edge_views()[i]) == self.edge_views()[i] by {
                assert(cloned::<Edge>(self.edges@[i], r.edges@[i]));
            }
            assert(r.node_views() =~= self.node_views());
            assert(r.edge_views() =~= self.edge_views());
        }
        r
    }
}

impl IrGraph {
    /// Node 0 is the root and every edge joins two nodes of the graph; every graph keeps it.
    #[verifier::type_invariant]
    pub closed spec fn well_formed(self) -> bool {
        &&& self.version == IR_SCHEMA_VERSION
        &&& self.root.index() == 0
        &&& self.nodes@.len() >= 1
        &&& edges_within(self.edges@, self.nodes@.len())
    }

    /// The nodes, in order of addition.
    pub closed spec fn node_seq(self) -> Seq<Node> {
        self.nodes@
    }

    /// The edges, in order of addition.
    pub closed spec fn edge_seq(self) -> Seq<Edge> {
        self.edges@
    }

    pub closed spec fn metadata_map(self) -> Map<Seq<char>, Value> {
        self.metadata@
    }

    pub closed spec fn root_id(self) -> NodeId {
        self.root
    }

    /// The nodes, each by its view.
    pub open spec fn node_views(self) -> Seq<NodeView> {
        self.node_seq().map_values(|n: Node| n@)
    }

    /// The edges, each by its view.
    pub open spec fn edge_views(self) -> Seq<EdgeView> {
        self.edge_seq().map_values(|e: Edge| e@)
    }

    /// The metadata, each value by its view.
    pub open spec fn metadata_view(self) -> Map<Seq<char>, ValueView> {
        attrs_view(self.metadata_map())
    }

    /// The node with identifier `id`, if the graph holds one.
    pub open spec fn node_at(self, id: NodeId) -> Option<Node> {
        if id.index() < self.node_seq().len() {
            Some(self.node_seq()[id.index() as int])
        } else {
            None
        }
    }

    /// A graph made of its root node alone.
    pub fn new(root_kind: NodeKind, root_name: &str, origin: Origin) -> (r: Self)
        ensures
            r.node_seq().len() == 1,
            r.node_seq()[0].kind == root_kind,
            r.node_seq()[0].name@ == root_name@,
            r.node_seq()[0].state == RefinementState::Abstract,
            r.node_seq()[0].attrs@ == Map::<Seq<char>, Value>::empty(),
            r.node_seq()[0].origin == origin,
            r.edge_seq().len() == 0,
            r.metadata_map() == Map::<Seq<char>, Value>::empty(),
            r.root_id().index() == 0,
            r.well_formed(),
    {
        let mut nodes = Vec::new();
        nodes.push(Node::new(root_kind, root_name, origin));
        IrGraph {
            version: IR_SCHEMA_VERSION,
            root: NodeId(0),
            nodes,
            edges: Vec::new(),
            metadata: AttrMap::new(),
        }
    }

    pub fn version(&self) -> (r: u32)
        ensures
            r == IR_SCHEMA_VERSION,
    {
        proof {
            use_type_invariant(self);
        }
        self.version
    }

    pub fn root(&self) -> (r: NodeId)
        ensures
            r == self.root_id(),
            r.index() == 0,
            self.well_formed(),
            self.node_seq().len() >= 1,
            edges_within(self.edge_seq(), self.node_seq().len()),
    {
        proof {
            use_type_invariant(self);
        }
        self.root
    }

    pub fn metadata(&self) -> (r: &AttrMap)
        ensures
            r@ == self.metadata_map(),
    {
        &self.metadata
    }

    /// Stores a metadata attribute, replacing any earlier value under the same key.
    pub fn insert_metadata(&mut self, key: &str, value: Value)
        ensures
            final(self).well_formed(),
            final(self).metadata_map() == old(self).metadata_map().insert(key@, value),
            final(self).node_seq() == old(self).node_seq(),
            final(self).edge_seq() == old(self).edge_seq(),
            final(self).root_id() == old(self).root_id(),
    {
        proof {
            use_type_invariant(&*self);
        }
        let mut metadata = AttrMap::new();
        std::mem::swap(&mut metadata, &mut self.metadata);
        metadata.insert(key, value);
        self.metadata = metadata;
        proof {
            use_type_invariant(&*self);
        }
    }

    /// The nodes, in order of addition: node `i` has identifier `i`.
    pub fn nodes(&self) -> (r: &Vec<Node>)
        ensures
            r@ == self.node_seq(),
            self.well_formed(),
            r@.len() >= 1,
            edges_within(self.edge_seq(), r@.len()),
    {
        proof {
            use_type_invariant(self);
        }
        &self.nodes
    }

    /// The edges, in order of addition: edge `i` has identifier `i`.
    pub fn edges(&self) -> (r: &Vec<Edge>)
        ensures
            r@ == self.edge_seq(),
            self.well_formed(),
            self.node_seq().len() >= 1,
            edges_within(r@, self.node_seq().len()),
    {
        proof {
            use_type_invariant(self);
        }
        &self.edges
    }

    pub fn node(&self, id: NodeId) -> (r: Option<&Node>)
        ensures
            id.index() < self.node_seq().len() ==> r == Some(&self.node_seq()[id.index() as int]),
            id.index() >= self.node_seq().len() ==> r is None,
    {
        if (id.0 as usize) < self.nodes.len() && id.0 < usize::MAX as u64 {
            Some(&self.nodes[id.0 as usize])
        } else {
            None
        }
    }

    pub fn edge(&self, id: EdgeId) -> (r: Option<&Edge>)
        ensures
            id.index() < self.edge_seq().len() ==> r == Some(&self.edge_seq()[id.index() as int]),
            id.index() >= self.edge_seq().len() ==> r is None,
    {
        if (id.0 as usize) < self.edges.len() && id.0 < usize::MAX as u64 {
            Some(&self.edges[id.0 as usize])
        } else {
            None
        }
    }

    /// The identifier of the node at position `i`.
    pub fn node_id_at(&self, i: usize) -> (r: NodeId)
        requires
            i < self.node_seq().len(),
        ensures
            r.index() == i,
    {
        NodeId(i as u64)
    }

    /// Adds a node; its identifier is the number of nodes added before it.
    pub fn add_node(&mut self, node: Node) -> (r: NodeId)
        ensures
            final(self).well_formed(),
            r.index() == old(self).node_seq().len(),
            final(self).node_seq() == old(self).node_seq().push(node),
            final(self).edge_seq() == old(self).edge_seq(),
            final(self).metadata_map() == old(self).metadata_map(),
            final(self).root_id() == old(self).root_id(),
    {
        proof {
            use_type_invariant(&*self);
        }
        let id = NodeId(self.nodes.len() as u64);
        let mut edges: Vec<Edge> = Vec::new();
        std::mem::swap(&mut edges, &mut self.edges);
        let mut nodes: Vec<Node> = vec![Node::new(NodeKind::System, "", Origin::Sdk)];
        std::mem::swap(&mut nodes, &mut self.nodes);
        let ghost before = nodes@;
        nodes.push(node);
        self.nodes = nodes;
        proof {
            assert forall|i: int| 0 <= i < edges@.len() implies (#[trigger] edges@[i]).source.index()
                < self.nodes@.len() && edges@[i].target.index() < self.nodes@.len() by {
                assert(edges@[i].source.index() < before.len());
            }
        }
        self.edges = edges;
        proof {
            use_type_invariant(&*self);
        }
        id
    }

    /// Adds an edge when both of its ends are nodes of the graph; its identifier is the number
    /// of edges added before it.
    pub fn add_edge(&mut self, edge: Edge) -> (r: Result<EdgeId, GraphError>)
        ensures
            final(self).well_formed(),
            ({
                let n = old(self).node_seq().len();
                if edge.source.index() >= n {
                    &&& r == Err::<EdgeId, GraphError>(GraphError::MissingNode(edge.source))
                    &&& *final(self) == *old(self)
                } else if edge.target.index() >= n {
                    &&& r == Err::<EdgeId, GraphError>(GraphError::MissingNode(edge.target))
                    &&& *final(self) == *old(self)
                } else {
                    &&& r is Ok
                    &&& r->Ok_0.index() == old(self).edge_seq().len()
                    &&& final(self).edge_seq() == old(self).edge_seq().push(edge)
                    &&& final(self).node_seq() == old(self).node_seq()
                    &&& final(self).metadata_map() == old(self).metadata_map()
                    &&& final(self).root_id() == old(self).root_id()
                }
            }),
    {
        proof {
            use_type_invariant(&*self);
        }
        if !((edge.source.0 as usize) < self.nodes.len() && edge.source.0 < usize::MAX as u64) {
            return Err(GraphError::MissingNode(edge.source));
        }
        if !((edge.target.0 as usize) < self.nodes.len() && edge.target.0 < usize::MAX as u64) {
            return Err(GraphError::MissingNode(edge.target));
        }
        let id = EdgeId(self.edges.len() as u64);
        let mut edges: Vec<Edge> = Vec::new();
        std::mem::swap(&mut edges, &mut self.edges);
        let ghost before = edges@;
        edges.push(edge);
        proof {
            assert forall|i: int| 0 <= i < edges@.len() implies (#[trigger] edges@[i]).source.index()
                < self.nodes@.len() && edges@[i].target.index() < self.nodes@.len() by {
                if i < before.len() {
                    assert(edges@[i] == before[i]);
                }
            }
        }
        self.edges = edges;
        proof {
            use_type_invariant(&*self);
        }
        Ok(id)
    }
}


// ---------------------------------------------------------------------------------------
// The first printable prototype.
// ---------------------------------------------------------------------------------------

/// Encoding of 60.0 as binary64.
pub const SIXTY_BITS: u64 = 0x404E_0000_0000_0000;

/// Encoding of 0.2 as binary64.
pub const TWO_TENTHS_BITS: u64 = 0x3FC9_9999_9999_999A;

/// Encoding of -0.2 as binary64.
pub const MINUS_TWO_TENTHS_BITS: u64 = 0xBFC9_9999_9999_999A;

/// Encoding of 256.0 as binary64.
pub const TWO_FIFTY_SIX_BITS: u64 = 0x4070_0000_0000_0000;

pub open spec fn mm_view(bits: u64) -> ValueView {
    ValueView::Quantity { value: Binary64 { bits }, unit: "mm"@ }
}

pub open spec fn node_view(
    kind: NodeKind,
    name: Seq<char>,
    state: RefinementState,
    attrs: Map<Seq<char>, ValueView>,
    origin: OriginView,
) -> NodeView {
    NodeView { kind, name, state, attrs, origin }
}

pub open spec fn edge_view(kind: EdgeKind, source: nat, target: nat, origin: OriginView) -> EdgeView {
    EdgeView { kind, source, target, attrs: Map::empty(), origin }
}

/// The nodes of the first prototype: the spinner system, its design target, the printed body,
/// its material and process, the process limits and the three output artefacts.
pub open spec fn first_prototype_nodes() -> Seq<NodeView> {
    let manufacturability = OriginView::Pass("manufacturability"@);
    let output = OriginView::Pass("output"@);
    seq![
        node_view(NodeKind::System, "fidget_spinner"@, RefinementState::Abstract, Map::empty(), OriginView::InputSpec),
        node_view(
            NodeKind::Constraint,
            "design_target"@,
            RefinementState::Abstract,
            map![
                "object"@ => ValueView::String("fidget_spinner"@),
                "category"@ => ValueView::Enum("fidget_toy"@),
                "diameter"@ => mm_view(SIXTY_BITS),
                "electronics_required"@ => ValueView::Bool(false),
            ],
            OriginView::InputSpec,
        ),
        node_view(
            NodeKind::Part,
            "body"@,
            RefinementState::Realized,
            map!["printable_as_single_piece"@ => ValueView::Bool(true)],
            OriginView::Pass("synthesis"@),
        ),
        node_view(
            NodeKind::Material,
            "PLA"@,
            RefinementState::Selected,
            map!["form"@ => ValueView::Enum("filament"@)],
            manufacturability,
        ),
        node_view(
            NodeKind::Process,
            "fdm_printing"@,
            RefinementState::Selected,
            map![
                "machine"@ => ValueView::String("Bambu P1S"@),
                "manufacturing_mode"@ => ValueView::Enum("single_process"@),
            ],
            manufacturability,
        ),
        node_view(
            NodeKind::Constraint,
            "layer_height"@,
            RefinementState::Abstract,
            map!["target"@ => mm_view(TWO_TENTHS_BITS)],
            manufacturability,
        ),
        node_view(
            NodeKind::Constraint,
            "tolerance"@,
            RefinementState::Abstract,
            map![
                "allowed"@ => ValueView::Range {
                    min: Binary64 { bits: MINUS_TWO_TENTHS_BITS },
                    max: Binary64 { bits: TWO_TENTHS_BITS },
                    unit: "mm"@,
                },
            ],
            manufacturability,
        ),
        node_view(
            NodeKind::Constraint,
            "build_volume"@,
            RefinementState::Abstract,
            map![
                "x_max"@ => mm_view(TWO_FIFTY_SIX_BITS),
                "y_max"@ => mm_view(TWO_FIFTY_SIX_BITS),
                "z_max"@ => mm_view(TWO_FIFTY_SIX_BITS),
            ],
            manufacturability,
        ),
        node_view(
            NodeKind::Artifact,
            "cad_model"@,
            RefinementState::Realized,
            map!["format"@ => ValueView::Enum("cad"@)],
            output,
        ),
        node_view(
            NodeKind::Artifact,
            "stl_mesh"@,
            RefinementState::Realized,
            map!["format"@ => ValueView::Enum("stl"@)],
            output,
        ),
        node_view(
            NodeKind::Artifact,
            "gcode"@,
            RefinementState::Realized,
            map!["format"@ => ValueView::Enum("gcode"@)],
            output,
        ),
    ]
}

/// The relationships of the first prototype, by node position.
pub open spec fn first_prototype_edges() -> Seq<EdgeView> {
    let synthesis = OriginView::Pass("synthesis"@);
    let manufacturability = OriginView::Pass("manufacturability"@);
    let output = OriginView::Pass("output"@);
    seq![
        edge_view(EdgeKind::Constrains, 0, 1, OriginView::InputSpec),
        edge_view(EdgeKind::Contains, 0, 2, synthesis),
        edge_view(EdgeKind::TargetsProcess, 0, 4, manufacturability),
        edge_view(EdgeKind::UsesMaterial, 2, 3, manufacturability),
        edge_view(EdgeKind::UsesMaterial, 4, 3, manufacturability),
        edge_view(EdgeKind::Constrains, 4, 5, manufacturability),
        edge_view(EdgeKind::Constrains, 4, 6, manufacturability),
        edge_view(EdgeKind::Constrains, 4, 7, manufacturability),
        edge_view(EdgeKind::Satisfies, 2, 1, synthesis),
        edge_view(EdgeKind::Produces, 2, 8, output),
        edge_view(EdgeKind::Produces, 2, 9, output),
        edge_view(EdgeKind::Produces, 2, 10, output),
        edge_view(EdgeKind::DerivedFrom, 9, 8, output),
        edge_view(EdgeKind::DerivedFrom, 10, 9, output),
    ]
}

fn text_value(s: &str) -> (r: Value)
    ensures
        r@ == ValueView::String(s@),
{
    Value::String(s.to_owned())
}

fn enum_value(s: &str) -> (r: Value)
    ensures
        r@ == ValueView::Enum(s@),
{
    Value::Enum(s.to_owned())
}

fn mm_value(bits: u64) -> (r: Value)
    ensures
        r@ == mm_view(bits),
{
    Value::Quantity(Quantity { value: Binary64::from_bits(bits), unit: "mm".to_owned() })
}

fn node_with_state(node: Node, state: RefinementState) -> (r: Node)
    ensures
        r@ == (NodeView { state, ..node@ }),
{
    let mut node = node;
    node.state = state;
    node
}

/// Adds an edge between two nodes of the graph.
fn link(graph: &mut IrGraph, kind: EdgeKind, source: NodeId, target: NodeId, origin: Origin)
    requires
        old(graph).well_formed(),
        source.index() < old(graph).node_seq().len(),
        target.index() < old(graph).node_seq().len(),
    ensures
        final(graph).well_formed(),
        final(graph).node_seq() == old(graph).node_seq(),
        final(graph).edge_views() == old(graph).edge_views().push(
            EdgeView {
                kind,
                source: source.index(),
                target: target.index(),
                attrs: Map::empty(),
                origin: origin@,
            },
        ),
        final(graph).metadata_map() == old(graph).metadata_map(),
        final(graph).root_id() == old(graph).root_id(),
{
    let edge = Edge::new(kind, source, target, origin);
    let ghost e = edge;
    let r = graph.add_edge(edge);
    assert(attrs_view(e.attrs@) =~= Map::<Seq<char>, ValueView>::empty());
    assert(graph.edge_views() =~= old(graph).edge_views().push(e@));
}

/// Adds a node and gives back its identifier.
fn place(graph: &mut IrGraph, node: Node) -> (r: NodeId)
    requires
        old(graph).well_formed(),
    ensures
        final(graph).well_formed(),
        r.index() == old(graph).node_seq().len(),
        final(graph).node_views() == old(graph).node_views().push(node@),
        final(graph).node_seq().len() == old(graph).node_seq().len() + 1,
        final(graph).edge_seq() == old(graph).edge_seq(),
        final(graph).metadata_map() == old(graph).metadata_map(),
        final(graph).root_id() == old(graph).root_id(),
{
    let ghost n = node;
    let id = graph.add_node(node);
    assert(graph.node_views() =~= old(graph).node_views().push(n@));
    id
}

/// Builds the IR graph of the README's first printable prototype: a fidget spinner body in
/// PLA, printed by FDM on a Bambu P1S, with its CAD, STL and G-code outputs.
pub fn first_prototype_graph() -> (r: Result<IrGraph, GraphError>)
    ensures
        r is Ok,
        r matches Ok(g) && g.well_formed() && g.node_views() == first_prototype_nodes()
            && g.edge_views() == first_prototype_edges() && g.metadata_view() == map![
            "prototype"@ => ValueView::String("README first prototype"@),
        ],
{
    let mut graph = IrGraph::new(NodeKind::System, "fidget_spinner", Origin::InputSpec);
    graph.insert_metadata("prototype", text_value("README first prototype"));
    let root = graph.root();
    let design_target = place(
        &mut graph,
        Node::new(NodeKind::Constraint, "design_target", Origin::InputSpec).with_attr(
            "object",
            text_value("fidget_spinner"),
        ).with_attr("category", enum_value("fidget_toy")).with_attr(
            "diameter",
            mm_value(SIXTY_BITS),
        ).with_attr("electronics_required", Value::Bool(false)),
    );
    let body = place(
        &mut graph,
        node_with_state(
            Node::new(NodeKind::Part, "body", Origin::pass("synthesis")).with_attr(
                "printable_as_single_piece",
                Value::Bool(true),
            ),
            RefinementState::Realized,
        ),
    );
    let material = place(
        &mut graph,
        node_with_state(
            Node::new(NodeKind::Material, "PLA", Origin::pass("manufacturability")).with_attr(
                "form",
                enum_value("filament"),
            ),
            RefinementState::Selected,
        ),
    );
    let process = place(
        &mut graph,
        node_with_state(
            Node::new(NodeKind::Process, "fdm_printing", Origin::pass("manufacturability")).with_attr(
                "machine",
                text_value("Bambu P1S"),
            ).with_attr("manufacturing_mode", enum_value("single_process")),
            RefinementState::Selected,
        ),
    );
    let layer_height = place(
        &mut graph,
        Node::new(NodeKind::Constraint, "layer_height", Origin::pass("manufacturability")).with_attr(
            "target",
            mm_value(TWO_TENTHS_BITS),
        ),
    );
    let tolerance = place(
        &mut graph,
        Node::new(NodeKind::Constraint, "tolerance", Origin::pass("manufacturability")).with_attr(
            "allowed",
            Value::Range(
                Range {
                    min: Binary64::from_bits(MINUS_TWO_TENTHS_BITS),
                    max: Binary64::from_bits(TWO_TENTHS_BITS),
                    unit: "mm".to_owned(),
                },
            ),
        ),
    );
    let build_volume = place(
        &mut graph,
        Node::new(NodeKind::Constraint, "build_volume", Origin::pass("manufacturability")).with_attr(
            "x_max",
            mm_value(TWO_FIFTY_SIX_BITS),
        ).with_attr("y_max", mm_value(TWO_FIFTY_SIX_BITS)).with_attr(
            "z_max",
            mm_value(TWO_FIFTY_SIX_BITS),
        ),
    );
    let cad_model = place(
        &mut graph,
        node_with_state(
            Node::new(NodeKind::Artifact, "cad_model", Origin::pass("output")).with_attr(
                "format",
                enum_value("cad"),
            ),
            RefinementState::Realized,
        ),
    );
    let stl_mesh = place(
        &mut graph,
        node_with_state(
            Node::new(NodeKind::Artifact, "stl_mesh", Origin::pass("output")).with_attr(
                "format",
                enum_value("stl"),
            ),
            RefinementState::Realized,
        ),
    );
    let gcode = place(
        &mut graph,
        node_with_state(
            Node::new(NodeKind::Artifact, "gcode", Origin::pass("output")).with_attr(
                "format",
                enum_value("gcode"),
            ),
            RefinementState::Realized,
        ),
    );
    link(&mut graph, EdgeKind::Constrains, root, design_target, Origin::InputSpec);
    link(&mut graph, EdgeKind::Contains, root, body, Origin::pass("synthesis"));
    link(&mut graph, EdgeKind::TargetsProcess, root, process, Origin::pass("manufacturability"));
    link(&mut graph, EdgeKind::UsesMaterial, body, material, Origin::pass("manufacturability"));
    link(&mut graph, EdgeKind::UsesMaterial, process, material, Origin::pass("manufacturability"));
    link(&mut graph, EdgeKind::Constrains, process, layer_height, Origin::pass("manufacturability"));
    link(&mut graph, EdgeKind::Constrains, process, tolerance, Origin::pass("manufacturability"));
    link(&mut graph, EdgeKind::Constrains, process, build_volume, Origin::pass("manufacturability"));
    link(&mut graph, EdgeKind::Satisfies, body, design_target, Origin::pass("synthesis"));
    link(&mut graph, EdgeKind::Produces, body, cad_model, Origin::pass("output"));
    link(&mut graph, EdgeKind::Produces, body, stl_mesh, Origin::pass("output"));
    link(&mut graph, EdgeKind::Produces, body, gcode, Origin::pass("output"));
    link(&mut graph, EdgeKind::DerivedFrom, stl_mesh, cad_model, Origin::pass("output"));
    link(&mut graph, EdgeKind::DerivedFrom, gcode, stl_mesh, Origin::pass("output"));
    proof {
        assert(graph.node_views() =~= first_prototype_nodes());
        assert(graph.edge_views() =~= first_prototype_edges());
        assert(graph.metadata_view() =~= map![
            "prototype"@ => ValueView::String("README first prototype"@),
        ]);
    }
    Ok(graph)
}


/// Every edge of a graph joins two of its nodes, and the root is the first node.
pub proof fn law_edges_join_nodes(g: IrGraph)
    requires
        g.well_formed(),
    ensures
        g.node_seq().len() >= 1,
        g.root_id().index() == 0,
        forall|i: int|
            0 <= i < g.edge_seq().len() ==> (#[trigger] g.edge_seq()[i]).source.index()
                < g.node_seq().len() && g.edge_seq()[i].target.index() < g.node_seq().len(),
{
}

/// The first prototype stays within the simple printable scope: its nodes are the system, the
/// part, constraints, the material, the process and artefacts, and its edges join its nodes.
pub proof fn law_first_prototype_scope()
    ensures
        first_prototype_nodes().len() == 11,
        first_prototype_edges().len() == 14,
        forall|i: int|
            0 <= i < first_prototype_nodes().len() ==> {
                let k = (#[trigger] first_prototype_nodes()[i]).kind;
                ||| k == NodeKind::System
                ||| k == NodeKind::Part
                ||| k == NodeKind::Constraint
                ||| k == NodeKind::Material
                ||| k == NodeKind::Process
                ||| k == NodeKind::Artifact
            },
        forall|i: int|
            0 <= i < first_prototype_edges().len() ==> (#[trigger] first_prototype_edges()[i]).source
                < 11 && first_prototype_edges()[i].target < 11,
{
    let ns = first_prototype_nodes();
    let es = first_prototype_edges();
    assert forall|i: int| 0 <= i < ns.len() implies {
        let k = (#[trigger] ns[i]).kind;
        ||| k == NodeKind::System
        ||| k == NodeKind::Part
        ||| k == NodeKind::Constraint
        ||| k == NodeKind::Material
        ||| k == NodeKind::Process
        ||| k == NodeKind::Artifact
    } by {
        assert(0 <= i < 11);
    }
    assert forall|i: int| 0 <= i < es.len() implies (#[trigger] es[i]).source < 11 && es[i].target < 11 by {
        assert(0 <= i < 14);
    }
}


/// An edge by its kind and the names of its two ends.
pub open spec fn named_edge(nodes: Seq<NodeView>, e: EdgeView) -> (EdgeKind, Seq<char>, Seq<char>) {
    (e.kind, nodes[e.source as int].name, nodes[e.target as int].name)
}

/// In the first prototype the outputs derive from one another along the output pipeline: the
/// STL mesh from the CAD model and the G-code from the STL mesh. No other output is derived,
/// and nothing is derived from the G-code nor is the CAD model derived from anything.
pub proof fn law_first_prototype_derivations()
    ensures
        ({
            let ns = first_prototype_nodes();
            let es = first_prototype_edges();
            &&& forall|i: int|
                0 <= i < es.len() && (#[trigger] es[i]).kind == EdgeKind::DerivedFrom ==> {
                    ||| named_edge(ns, es[i]) == (EdgeKind::DerivedFrom, "stl_mesh"@, "cad_model"@)
                    ||| named_edge(ns, es[i]) == (EdgeKind::DerivedFrom, "gcode"@, "stl_mesh"@)
                }
            &&& exists|i: int|
                0 <= i < es.len() && named_edge(ns, #[trigger] es[i]) == (
                    EdgeKind::DerivedFrom,
                    "stl_mesh"@,
                    "cad_model"@,
                )
            &&& exists|i: int|
                0 <= i < es.len() && named_edge(ns, #[trigger] es[i]) == (
                    EdgeKind::DerivedFrom,
                    "gcode"@,
                    "stl_mesh"@,
                )
            &&& forall|i: int|
                0 <= i < es.len() && (#[trigger] es[i]).kind == EdgeKind::DerivedFrom
                    ==> ns[es[i].source as int].name != "cad_model"@ && ns[es[i].target as int].name
                    != "gcode"@
        }),
{
    let ns = first_prototype_nodes();
    let es = first_prototype_edges();
    reveal_strlit("cad_model");
    reveal_strlit("stl_mesh");
    reveal_strlit("gcode");
    assert forall|i: int| 0 <= i < es.len() && (#[trigger] es[i]).kind == EdgeKind::DerivedFrom implies {
        ||| named_edge(ns, es[i]) == (EdgeKind::DerivedFrom, "stl_mesh"@, "cad_model"@)
        ||| named_edge(ns, es[i]) == (EdgeKind::DerivedFrom, "gcode"@, "stl_mesh"@)
    } && ns[es[i].source as int].name != "cad_model"@ && ns[es[i].target as int].name != "gcode"@ by {
        assert(0 <= i < 14);
        if i == 12 {
            assert(es[i].source == 9 && es[i].target == 8);
            assert(ns[9].name == "stl_mesh"@ && ns[8].name == "cad_model"@);
        } else if i == 13 {
            assert(es[i].source == 10 && es[i].target == 9);
            assert(ns[10].name == "gcode"@ && ns[9].name == "stl_mesh"@);
        } else {
            assert(es[i].kind != EdgeKind::DerivedFrom);
        }
    }
    assert(named_edge(ns, es[12]) == (EdgeKind::DerivedFrom, "stl_mesh"@, "cad_model"@));
    assert(named_edge(ns, es[13]) == (EdgeKind::DerivedFrom, "gcode"@, "stl_mesh"@));
}

/// The relationships of the first prototype, in order, by the names of their ends: the system
/// is constrained by its design target and contains the body, which it targets to the FDM
/// process; body and process use PLA; the process is constrained by the layer height, the
/// tolerance and the build volume; the body satisfies the design target and produces the CAD
/// model, the STL mesh and the G-code, each output derived from the one before it.
pub proof fn law_first_prototype_relationships()
    ensures
        ({
            let ns = first_prototype_nodes();
            let es = first_prototype_edges();
            let expected = seq![
                (EdgeKind::Constrains, "fidget_spinner"@, "design_target"@),
                (EdgeKind::Contains, "fidget_spinner"@, "body"@),
                (EdgeKind::TargetsProcess, "fidget_spinner"@, "fdm_printing"@),
                (EdgeKind::UsesMaterial, "body"@, "PLA"@),
                (EdgeKind::UsesMaterial, "fdm_printing"@, "PLA"@),
                (EdgeKind::Constrains, "fdm_printing"@, "layer_height"@),
                (EdgeKind::Constrains, "fdm_printing"@, "tolerance"@),
                (EdgeKind::Constrains, "fdm_printing"@, "build_volume"@),
                (EdgeKind::Satisfies, "body"@, "design_target"@),
                (EdgeKind::Produces, "body"@, "cad_model"@),
                (EdgeKind::Produces, "body"@, "stl_mesh"@),
                (EdgeKind::Produces, "body"@, "gcode"@),
                (EdgeKind::DerivedFrom, "stl_mesh"@, "cad_model"@),
                (EdgeKind::DerivedFrom, "gcode"@, "stl_mesh"@),
            ];
            &&& es.len() == expected.len()
            &&& forall|i: int| 0 <= i < es.len() ==> named_edge(ns, #[trigger] es[i]) == expected[i]
        }),
{
    let ns = first_prototype_nodes();
    let es = first_prototype_edges();
    assert forall|i: int| 0 <= i < es.len() implies named_edge(ns, #[trigger] es[i]) == seq![
        (EdgeKind::Constrains, "fidget_spinner"@, "design_target"@),
        (EdgeKind::Contains, "fidget_spinner"@, "body"@),
        (EdgeKind::TargetsProcess, "fidget_spinner"@, "fdm_printing"@),
        (EdgeKind::UsesMaterial, "body"@, "PLA"@),
        (EdgeKind::UsesMaterial, "fdm_printing"@, "PLA"@),
        (EdgeKind::Constrains, "fdm_printing"@, "layer_height"@),
        (EdgeKind::Constrains, "fdm_printing"@, "tolerance"@),
        (EdgeKind::Constrains, "fdm_printing"@, "build_volume"@),
        (EdgeKind::Satisfies, "body"@, "design_target"@),
        (EdgeKind::Produces, "body"@, "cad_model"@),
        (EdgeKind::Produces, "body"@, "stl_mesh"@),
        (EdgeKind::Produces, "body"@, "gcode"@),
        (EdgeKind::DerivedFrom, "stl_mesh"@, "cad_model"@),
        (EdgeKind::DerivedFrom, "gcode"@, "stl_mesh"@),
    ][i] by {
        assert(0 <= i < 14);
    }
}

} // verus!
