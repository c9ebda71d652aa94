//! The spinner prototype: the geometry inputs that its graph must carry, and why a graph is
//! not the spinner.

use super::pipeline::{edge_label, enum_attr, node_label, node_name, string_attr};
use super::{CompileError, CompileIssue};
use crate::attrs::{
    lemma_text_listing, strictly_sorted_texts, text_listing, text_order, AttrMap, TextOrder,
};
use crate::first::{first_issue, lemma_first_issue};
use crate::ieee::Binary64;
use crate::ir::{Edge, EdgeKind, IrGraph, Node, NodeId, NodeKind, Value};
use crate::text::{debug_quoted, debug_text, decimal, push_decimal};
use vstd::prelude::*;

verus! {

/// The dimensions that the spinner meshes are made from, in millimetres.
#[derive(Debug, Clone, Copy, PartialEq)]
pub struct SpinnerGeometryInputs {
    pub outer_diameter_mm: Binary64,
    pub retention_depth_mm: Binary64,
}

// ---------------------------------------------------------------------------------------
// Texts of the shape reports.
// ---------------------------------------------------------------------------------------

/// The items of a list, each as `Debug` prints a string, separated by `, `.
pub open spec fn debug_items(items: Seq<Seq<char>>) -> Seq<char>
    decreases items.len(),
{
    if items.len() == 0 {
        Seq::empty()
    } else if items.len() == 1 {
        debug_text(items[0])
    } else {
        debug_items(items.drop_last()) + ", "@ + debug_text(items.last())
    }
}

/// A list of strings as `Debug` prints it.
pub open spec fn debug_list(items: Seq<Seq<char>>) -> Seq<char> {
    "["@ + debug_items(items) + "]"@
}

fn push_str(out: &mut String, s: &str)
    ensures
        final(out)@ == old(out)@ + s@,
{
    out.append(s);
}

fn debug_list_text(items: &Vec<String>) -> (r: String)
    ensures
        r@ == debug_list(items@.map_values(|s: String| s@)),
{
    let ghost views = items@.map_values(|s: String| s@);
    let mut out = "[".to_owned();
    let n = items.len();
    let mut i: usize = 0;
    while i < n
        invariant
            n == items@.len(),
            views == items@.map_values(|s: String| s@),
            i <= n,
            out@ == "["@ + debug_items(views.take(i as int)),
        decreases n - i,
    {
        let ghost before = out@;
        if i > 0 {
            push_str(&mut out, ", ");
        }
        let item = debug_quoted(items[i].as_str());
        push_str(&mut out, item.as_str());
        proof {
            assert(views.take(i + 1).drop_last() =~= views.take(i as int));
            assert(views.take(i + 1).last() == views[i as int]);
            if i == 0 {
                assert(debug_items(views.take(0)) =~= Seq::<char>::empty());
                assert(out@ =~= "["@ + debug_items(views.take(i + 1)));
            } else {
                assert(out@ =~= "["@ + debug_items(views.take(i + 1)));
            }
        }
        i = i + 1;
    }
    push_str(&mut out, "]");
    assert(views.take(n as int) =~= views);
    out
}

pub open spec fn shape_issue(design: Seq<char>, reason: Seq<char>) -> CompileIssue {
    CompileIssue::UnsupportedPrototypeShape { design, reason }
}

/// Why a spinner whose outer diameter is not its maximum diameter is refused; the diameters
/// are given as printed.
pub open spec fn diameter_mismatch(design: Seq<char>, outer: Seq<char>, max: Seq<char>) -> CompileIssue {
    shape_issue(
        design,
        "expected body.outer_diameter ("@ + outer + "mm) to match max_diameter ("@ + max + "mm)"@,
    )
}

fn unsupported_shape(design_name: &str, reason: &str) -> (r: CompileError)
    ensures
        r@ == shape_issue(design_name@, reason@),
{
    CompileError::UnsupportedPrototypeShape {
        design: design_name.to_owned(),
        reason: reason.to_owned(),
    }
}

pub open spec fn connection_reason(name: Seq<char>, kind: Seq<char>, source: Seq<char>, target: Seq<char>) -> Seq<char> {
    "expected cap_join fixed connection between body.cap_socket and cap.cap_spigot, found ("@
        + debug_text(name) + ", "@ + debug_text(kind) + ", "@ + debug_text(source) + ", "@
        + debug_text(target) + ")"@
}

// ---------------------------------------------------------------------------------------
// The graph's parts, connection and constraints.
// ---------------------------------------------------------------------------------------

/// The names of the part nodes, as map keys.
pub open spec fn part_name_map(nodes: Seq<Node>) -> Map<Seq<char>, Value>
    decreases nodes.len(),
{
    if nodes.len() == 0 {
        Map::empty()
    } else {
        let prev = part_name_map(nodes.drop_last());
        if nodes.last().kind == NodeKind::Part {
            prev.insert(nodes.last().name@, Value::Bool(true))
        } else {
            prev
        }
    }
}

/// The position of the last part node with the given name.
pub open spec fn last_part_named(nodes: Seq<Node>, name: Seq<char>) -> Option<int>
    decreases nodes.len(),
{
    if nodes.len() == 0 {
        None
    } else if nodes.last().kind == NodeKind::Part && nodes.last().name@ == name {
        Some(nodes.len() - 1)
    } else {
        last_part_named(nodes.drop_last(), name)
    }
}

/// Positions of the connection edges, in order.
pub open spec fn connects_positions(edges: Seq<Edge>) -> Seq<int>
    decreases edges.len(),
{
    if edges.len() == 0 {
        Seq::empty()
    } else {
        let prev = connects_positions(edges.drop_last());
        if edges.last().kind == EdgeKind::Connects {
            prev.push(edges.len() - 1)
        } else {
            prev
        }
    }
}

/// A constraint edge of `owner` must lead to a node of the graph that has a `value`.
pub open spec fn constraint_edge_issue(g: IrGraph, owner: int, e: Edge) -> Option<CompileIssue> {
    if e.kind == EdgeKind::Constrains && e.source.index() == owner {
        if e.target.index() >= g.node_seq().len() {
            Some(
                CompileIssue::InvalidGraphRelationship {
                    edge: e.kind,
                    source: node_label(g, e.source),
                    target: node_label(g, e.target),
                },
            )
        } else if !g.node_seq()[e.target.index() as int].attrs@.contains_key("value"@) {
            Some(
                CompileIssue::InvalidGraphAttribute {
                    element: g.node_seq()[e.target.index() as int].name@,
                    attribute: "value"@,
                    expected: "quantity or string"@,
                },
            )
        } else {
            None
        }
    } else {
        None
    }
}

pub open spec fn constraint_issues(g: IrGraph, owner: int) -> Seq<Option<CompileIssue>> {
    Seq::new(g.edge_seq().len(), |i: int| constraint_edge_issue(g, owner, g.edge_seq()[i]))
}

/// The named values of `owner`'s constraints among the first `k` edges; a later name replaces
/// an earlier one.
pub open spec fn constraint_values(g: IrGraph, owner: int, k: int) -> Map<Seq<char>, Value>
    decreases k,
{
    if k <= 0 {
        Map::empty()
    } else {
        let prev = constraint_values(g, owner, k - 1);
        let e = g.edge_seq()[k - 1];
        if e.kind == EdgeKind::Constrains && e.source.index() == owner && e.target.index()
            < g.node_seq().len() && g.node_seq()[e.target.index() as int].attrs@.contains_key(
            "value"@,
        ) {
            let t = g.node_seq()[e.target.index() as int];
            prev.insert(t.name@, t.attrs@["value"@])
        } else {
            prev
        }
    }
}

pub open spec fn text_constraint_of(design: Seq<char>, label: Seq<char>, key: Seq<char>, cons: Map<Seq<char>, Value>) -> Result<
    Seq<char>,
    CompileIssue,
> {
    if cons.contains_key(key) {
        match cons[key] {
            Value::String(v) => Ok(v@),
            _ => Err(
                CompileIssue::InvalidGraphAttribute {
                    element: design,
                    attribute: key,
                    expected: "string"@,
                },
            ),
        }
    } else {
        Err(shape_issue(design, "missing required spinner constraint "@ + label))
    }
}

pub open spec fn quantity_constraint_of(design: Seq<char>, label: Seq<char>, key: Seq<char>, cons: Map<Seq<char>, Value>) -> Result<
    Binary64,
    CompileIssue,
> {
    if cons.contains_key(key) {
        match cons[key] {
            Value::Quantity(q) => if q.unit@ == "mm"@ {
                Ok(q.value)
            } else {
                Err(
                    CompileIssue::InvalidGraphAttribute {
                        element: design,
                        attribute: key,
                        expected: "millimetre quantity"@,
                    },
                )
            },
            _ => Err(
                CompileIssue::InvalidGraphAttribute {
                    element: design,
                    attribute: key,
                    expected: "millimetre quantity"@,
                },
            ),
        }
    } else {
        Err(shape_issue(design, "missing required spinner constraint "@ + label))
    }
}

/// The constraint stage: the root's, the body's and the cap's constraints are gathered, then
/// the artefact class, the outer and maximum diameters and the retention depth are read.
pub open spec fn spinner_constraint_inputs(g: IrGraph, d: Seq<char>) -> Result<(Binary64, Binary64, Binary64), CompileIssue> {
    let nodes = g.node_seq();
    let m = g.edge_seq().len() as int;
    let body = last_part_named(nodes, "body"@).unwrap();
    let cap = last_part_named(nodes, "cap"@).unwrap();
    if first_issue(constraint_issues(g, 0)) is Some {
        Err(first_issue(constraint_issues(g, 0)).unwrap())
    } else if first_issue(constraint_issues(g, body)) is Some {
        Err(first_issue(constraint_issues(g, body)).unwrap())
    } else if first_issue(constraint_issues(g, cap)) is Some {
        Err(first_issue(constraint_issues(g, cap)).unwrap())
    } else {
        let rc = constraint_values(g, 0, m);
        let bc = constraint_values(g, body, m);
        let cc = constraint_values(g, cap, m);
        match text_constraint_of(d, "artefact_class"@, "artefact_class"@, rc) {
            Err(e) => Err(e),
            Ok(class) => if class != "fidget_toy"@ {
                Err(
                    shape_issue(
                        d,
                        "expected artefact_class = \"fidget_toy\", found "@ + debug_text(class),
                    ),
                )
            } else {
                match quantity_constraint_of(d, "body.outer_diameter"@, "outer_diameter"@, bc) {
                    Err(e) => Err(e),
                    Ok(outer) => match quantity_constraint_of(d, "max_diameter"@, "max_diameter"@, rc) {
                        Err(e) => Err(e),
                        Ok(max) => match quantity_constraint_of(
                            d,
                            "cap.retention_depth"@,
                            "retention_depth"@,
                            cc,
                        ) {
                            Err(e) => Err(e),
                            Ok(depth) => Ok((outer, max, depth)),
                        },
                    },
                }
            },
        }
    }
}

/// The spinner's geometry inputs, or why the graph is not the spinner.
#[verifier::opaque]
pub open spec fn spinner_inputs(g: IrGraph) -> Result<(Binary64, Binary64, Binary64), CompileIssue> {
    let d = node_label(g, g.root_id());
    let names = part_name_map(g.node_seq()).dom();
    let conns = connects_positions(g.edge_seq());
    if d != "fidget_spinner"@ {
        Err(shape_issue(d, "only the existing fidget_spinner synthesis path is supported"@))
    } else if names != set!["body"@, "cap"@] {
        Err(
            shape_issue(
                d,
                "expected printable parts "@ + debug_list(seq!["body"@, "cap"@]) + ", found "@
                    + debug_list(text_listing(names)),
            ),
        )
    } else if conns.len() != 1 {
        Err(
            shape_issue(
                d,
                "expected exactly one fixed spinner connection, found "@ + decimal(conns.len()),
            ),
        )
    } else {
        let e = g.edge_seq()[conns[0]];
        match string_attr(e.attrs@, "name"@) {
            None => Err(
                CompileIssue::InvalidGraphAttribute {
                    element: edge_label(g, e),
                    attribute: "name"@,
                    expected: "string"@,
                },
            ),
            Some(name) => match enum_attr(e.attrs@, "connection_kind"@) {
                None => Err(
                    CompileIssue::InvalidGraphAttribute {
                        element: edge_label(g, e),
                        attribute: "connection_kind"@,
                        expected: "enum"@,
                    },
                ),
                Some(kind) => {
                    let source = node_label(g, e.source);
                    let target = node_label(g, e.target);
                    if name != "cap_join"@ || kind != "fixed"@ || source != "body.cap_socket"@
                        || target != "cap.cap_spigot"@ {
                        Err(shape_issue(d, connection_reason(name, kind, source, target)))
                    } else {
                        spinner_constraint_inputs(g, d)
                    }
                },
            },
        }
    }
}

// ---------------------------------------------------------------------------------------
// Reading the inputs.
// ---------------------------------------------------------------------------------------

/// The named values of `owner`'s constraints; a later name replaces an earlier one.
#[verifier::loop_isolation(false)]
pub fn named_constraint_values(graph: &IrGraph, owner: NodeId) -> (r: Result<AttrMap, CompileError>)
    ensures
        r is Ok <==> first_issue(constraint_issues(*graph, owner.index() as int)) is None,
        r matches Err(e) ==> Some(e@) == first_issue(constraint_issues(*graph, owner.index() as int)),
        r matches Ok(m) ==> m@ == constraint_values(*graph, owner.index() as int, graph.edge_seq().len() as int),
{
    proof {
        use_type_invariant(graph);
    }
    let ghost o = owner.index() as int;
    let ghost issues = constraint_issues(*graph, o);
    let edges = graph.edges();
    let mut constraints = AttrMap::new();
    let n = edges.len();
    assert(issues.len() == n);
    let mut i: usize = 0;
    while i < n
        invariant
            n == edges@.len(),
            edges@ == graph.edge_seq(),
            i <= n,
            forall|j: int| 0 <= j < i ==> (#[trigger] issues[j]) is None,
            constraints@ == constraint_values(*graph, o, i as int),
        decreases n - i,
    {
        let edge = &edges[i];
        assert(issues[i as int] == constraint_edge_issue(*graph, o, edges@[i as int]));
        if edge.kind == EdgeKind::Constrains && edge.source == owner {
            proof {
                NodeId::lemma_index_injective(edge.source, owner);
            }
            let constraint = match graph.node(edge.target) {
                Some(node) => node,
                None => {
                    proof {
                        lemma_first_issue(issues, i as int);
                    }
                    let mut target = "node-".to_owned();
                    push_decimal(&mut target, edge.target.raw());
                    return Err(
                        CompileError::InvalidGraphRelationship {
                            edge: edge.kind,
                            source: node_name(graph, edge.source),
                            target,
                        },
                    );
                },
            };
            let value = match constraint.attrs.get("value") {
                Some(v) => v.clone(),
                None => {
                    proof {
                        lemma_first_issue(issues, i as int);
                    }
                    return Err(
                        CompileError::InvalidGraphAttribute {
                            element: constraint.name.clone(),
                            attribute: "value",
                            expected: "quantity or string",
                        },
                    );
                },
            };
            constraints.insert(constraint.name.as_str(), value);
        } else {
            proof {
                if edge.kind == EdgeKind::Constrains {
                    NodeId::lemma_index_injective(edge.source, owner);
                }
            }
        }
        i = i + 1;
    }
    proof {
        lemma_first_issue(issues, n as int);
    }
    Ok(constraints)
}

fn missing_constraint(design_name: &str, label: &str) -> (r: CompileError)
    ensures
        r@ == shape_issue(design_name@, "missing required spinner constraint "@ + label@),
{
    let mut reason = "missing required spinner constraint ".to_owned();
    reason.append(label);
    CompileError::UnsupportedPrototypeShape { design: design_name.to_owned(), reason }
}

/// Reads a required text constraint.
pub fn text_constraint(
    design_name: &str,
    label: &str,
    key: &'static str,
    constraints: &AttrMap,
) -> (r: Result<String, CompileError>)
    ensures
        r matches Ok(v) ==> text_constraint_of(design_name@, label@, key@, constraints@) == Ok::<
            Seq<char>,
            CompileIssue,
        >(v@),
        r matches Err(e) ==> text_constraint_of(design_name@, label@, key@, constraints@) == Err::<
            Seq<char>,
            CompileIssue,
        >(e@),
{
    match constraints.get(key) {
        Some(Value::String(value)) => Ok(value.clone()),
        Some(_) => Err(
            CompileError::InvalidGraphAttribute {
                element: design_name.to_owned(),
                attribute: key,
                expected: "string",
            },
        ),
        None => Err(missing_constraint(design_name, label)),
    }
}

/// Reads a required millimetre quantity constraint.
pub fn quantity_constraint(
    design_name: &str,
    label: &str,
    key: &'static str,
    constraints: &AttrMap,
) -> (r: Result<Binary64, CompileError>)
    ensures
        r matches Ok(v) ==> quantity_constraint_of(design_name@, label@, key@, constraints@) == Ok::<
            Binary64,
            CompileIssue,
        >(v),
        r matches Err(e) ==> quantity_constraint_of(design_name@, label@, key@, constraints@)
            == Err::<Binary64, CompileIssue>(e@),
{
    match constraints.get(key) {
        Some(Value::Quantity(quantity)) => {
            if let TextOrder::Equal = text_order(quantity.unit.as_str(), "mm") {
                Ok(quantity.value)
            } else {
                Err(
                    CompileError::InvalidGraphAttribute {
                        element: design_name.to_owned(),
                        attribute: key,
                        expected: "millimetre quantity",
                    },
                )
            }
        },
        Some(_) => Err(
            CompileError::InvalidGraphAttribute {
                element: design_name.to_owned(),
                attribute: key,
                expected: "millimetre quantity",
            },
        ),
        None => Err(missing_constraint(design_name, label)),
    }
}

fn text_is(s: &str, expected: &str) -> (r: bool)
    ensures
        r == (s@ == expected@),
{
    if let TextOrder::Equal = text_order(s, expected) {
        true
    } else {
        false
    }
}

/// Reads the spinner's geometry inputs from a compiled graph: the design must be the
/// `fidget_spinner` with parts `body` and `cap`, joined by the fixed `cap_join`, and carry its
/// artefact class, diameters and retention depth; its outer diameter must be its maximum
/// diameter to within `1e-9` in binary64 arithmetic. `length_text` prints a diameter for the
/// report of a mismatch.
#[verifier::loop_isolation(false)]
pub fn extract_spinner_geometry_inputs<F: Fn(Binary64) -> String>(
    graph: &IrGraph,
    length_text: F,
) -> (r: Result<SpinnerGeometryInputs, CompileError>)
    requires
        forall|v: Binary64| #[trigger] length_text.requires((v,)),
    ensures
        match spinner_inputs(*graph) {
            Err(issue) => r is Err && r->Err_0@ == issue,
            Ok((outer, max, depth)) => if outer.near(max) {
                r == Ok::<SpinnerGeometryInputs, CompileError>(
                    SpinnerGeometryInputs { outer_diameter_mm: outer, retention_depth_mm: depth },
                )
            } else {
                &&& r is Err
                &&& exists|outer_text: String, max_text: String|
                    #![trigger length_text.ensures((outer,), outer_text), length_text.ensures((max,), max_text)]
                    length_text.ensures((outer,), outer_text) && length_text.ensures((max,), max_text)
                        && r->Err_0@ == diameter_mismatch(
                        node_label(*graph, graph.root_id()),
                        outer_text@,
                        max_text@,
                    )
            },
        },
{
    proof {
        use_type_invariant(graph);
    }
    reveal(spinner_inputs);
    let root = graph.root();
    let design_name = node_name(graph, root);
    let d = design_name.as_str();
    if !text_is(d, "fidget_spinner") {
        return Err(unsupported_shape(d, "only the existing fidget_spinner synthesis path is supported"));
    }
    let nodes = graph.nodes();
    let edges = graph.edges();
    // The part names, as keys in order.
    let mut part_names = AttrMap::new();
    let mut body: Option<usize> = None;
    let mut cap: Option<usize> = None;
    let n = nodes.len();
    let mut i: usize = 0;
    while i < n
        invariant
            n == nodes@.len(),
            nodes@ == graph.node_seq(),
            i <= n,
            part_names@ == part_name_map(nodes@.take(i as int)),
            match body {
                Some(b) => last_part_named(nodes@.take(i as int), "body"@) == Some(b as int),
                None => last_part_named(nodes@.take(i as int), "body"@) is None,
            },
            match cap {
                Some(c) => last_part_named(nodes@.take(i as int), "cap"@) == Some(c as int),
                None => last_part_named(nodes@.take(i as int), "cap"@) is None,
            },
            forall|p: int| last_part_named(nodes@.take(i as int), "body"@) == Some(p) ==> 0 <= p < i,
            forall|p: int| last_part_named(nodes@.take(i as int), "cap"@) == Some(p) ==> 0 <= p < i,
        decreases n - i,
    {
        proof {
            assert(nodes@.take(i + 1).drop_last() =~= nodes@.take(i as int));
            assert(nodes@.take(i + 1).last() == nodes@[i as int]);
        }
        if nodes[i].kind == NodeKind::Part {
            part_names.insert(nodes[i].name.as_str(), Value::Bool(true));
            if text_is(nodes[i].name.as_str(), "body") {
                body = Some(i);
            }
            if text_is(nodes[i].name.as_str(), "cap") {
                cap = Some(i);
            }
        }
        i = i + 1;
    }
    assert(nodes@.take(n as int) =~= nodes@);
    let entries = part_names.entries();
    let mut actual_parts: Vec<String> = Vec::new();
    let ne = entries.len();
    let mut k: usize = 0;
    while k < ne
        invariant
            ne == entries@.len(),
            k <= ne,
            actual_parts@.len() == k,
            forall|q: int| 0 <= q < k ==> (#[trigger] actual_parts@[q])@ == entries@[q].0@,
        decreases ne - k,
    {
        actual_parts.push(entries[k].0.clone());
        k = k + 1;
    }
    let ghost listing = actual_parts@.map_values(|s: String| s@);
    proof {
        assert(strictly_sorted_texts(listing)) by {
            assert forall|a: int, b: int| 0 <= a < b < listing.len() implies crate::attrs::text_less(
                #[trigger] listing[a],
                #[trigger] listing[b],
            ) by {
                assert(listing[a] == entries@[a].0@);
                assert(listing[b] == entries@[b].0@);
            }
        }
        assert(listing.to_set() =~= part_names@.dom()) by {
            assert forall|x: Seq<char>| listing.to_set().contains(x) implies part_names@.dom().contains(x) by {
                let q = choose|q: int| 0 <= q < listing.len() && listing[q] == x;
                crate::attrs::lemma_entries_lookup(entries@, q);
            }
            assert forall|x: Seq<char>| part_names@.dom().contains(x) implies listing.to_set().contains(x) by {
                let q = choose|q: int| 0 <= q < entries@.len() && #[trigger] entries@[q].0@ == x;
                assert(listing[q] == x);
            }
        }
        lemma_text_listing(listing);
    }
    let two_parts = actual_parts.len() == 2 && text_is(actual_parts[0].as_str(), "body")
        && text_is(actual_parts[1].as_str(), "cap");
    proof {
        let expected = set!["body"@, "cap"@];
        if two_parts {
            assert(listing =~= seq!["body"@, "cap"@]);
            assert(part_names@.dom() =~= expected) by {
                assert(listing.to_set().contains("body"@) && listing.to_set().contains("cap"@));
                assert forall|x: Seq<char>| listing.to_set().contains(x) implies expected.contains(x) by {
                    let q = choose|q: int| 0 <= q < listing.len() && listing[q] == x;
                }
            }
        } else {
            if part_names@.dom() == expected {
                reveal_strlit("body");
                reveal_strlit("cap");
                let other = seq!["body"@, "cap"@];
                assert(strictly_sorted_texts(other)) by {
                    assert(crate::attrs::text_less("body"@, "cap"@));
                }
                assert(other.to_set() =~= expected);
                crate::attrs::lemma_sorted_listing_unique(listing, other);
            }
        }
    }
    if !two_parts {
        let expected_parts = vec!["body".to_owned(), "cap".to_owned()];
        let mut reason = "expected printable parts ".to_owned();
        let expected_text = debug_list_text(&expected_parts);
        reason.append(expected_text.as_str());
        reason.append(", found ");
        let found_text = debug_list_text(&actual_parts);
        reason.append(found_text.as_str());
        proof {
            assert(expected_parts@.map_values(|s: String| s@) =~= seq!["body"@, "cap"@]);
        }
        return Err(unsupported_shape(d, reason.as_str()));
    }
    // The single connection.
    let mut connects: Vec<usize> = Vec::new();
    let m = edges.len();
    let mut i: usize = 0;
    while i < m
        invariant
            m == edges@.len(),
            edges@ == graph.edge_seq(),
            i <= m,
            connects@.len() == connects_positions(edges@.take(i as int)).len(),
            forall|q: int| 0 <= q < connects@.len() ==> (#[trigger] connects@[q]) as int == connects_positions(edges@.take(i as int))[q],
            forall|q: int| 0 <= q < connects@.len() ==> #[trigger] connects@[q] < m,
        decreases m - i,
    {
        proof {
            assert(edges@.take(i + 1).drop_last() =~= edges@.take(i as int));
            assert(edges@.take(i + 1).last() == edges@[i as int]);
        }
        if edges[i].kind == EdgeKind::Connects {
            connects.push(i);
        }
        i = i + 1;
    }
    assert(edges@.take(m as int) =~= edges@);
    if connects.len() != 1 {
        let mut reason = "expected exactly one fixed spinner connection, found ".to_owned();
        push_decimal(&mut reason, connects.len() as u64);
        return Err(unsupported_shape(d, reason.as_str()));
    }
    let connection = &edges[connects[0]];
    let connection_name = match connection.attrs.get("name") {
        Some(Value::String(value)) => value.clone(),
        _ => {
            return Err(
                CompileError::InvalidGraphAttribute {
                    element: edge_label_of(graph, connection),
                    attribute: "name",
                    expected: "string",
                },
            );
        },
    };
    let connection_kind = match connection.attrs.get("connection_kind") {
        Some(Value::Enum(value)) => value.clone(),
        _ => {
            return Err(
                CompileError::InvalidGraphAttribute {
                    element: edge_label_of(graph, connection),
                    attribute: "connection_kind",
                    expected: "enum",
                },
            );
        },
    };
    let connection_source = node_name(graph, connection.source);
    let connection_target = node_name(graph, connection.target);
    if !text_is(connection_name.as_str(), "cap_join") || !text_is(connection_kind.as_str(), "fixed")
        || !text_is(connection_source.as_str(), "body.cap_socket") || !text_is(
        connection_target.as_str(),
        "cap.cap_spigot",
    ) {
        let mut reason =
            "expected cap_join fixed connection between body.cap_socket and cap.cap_spigot, found ("
                .to_owned();
        reason.append(debug_quoted(connection_name.as_str()).as_str());
        reason.append(", ");
        reason.append(debug_quoted(connection_kind.as_str()).as_str());
        reason.append(", ");
        reason.append(debug_quoted(connection_source.as_str()).as_str());
        reason.append(", ");
        reason.append(debug_quoted(connection_target.as_str()).as_str());
        reason.append(")");
        return Err(unsupported_shape(d, reason.as_str()));
    }
    // The constraints.
    proof {
        assert(part_names@.dom().contains("body"@));
        assert(part_names@.dom().contains("cap"@));
        lemma_part_name_found(nodes@, "body"@);
        lemma_part_name_found(nodes@, "cap"@);
    }
    let body_index = body.unwrap();
    let cap_index = cap.unwrap();
    let root_constraints = named_constraint_values(graph, root)?;
    let body_id = graph.node_id_at(body_index);
    let cap_id = graph.node_id_at(cap_index);
    let body_constraints = named_constraint_values(graph, body_id)?;
    let cap_constraints = named_constraint_values(graph, cap_id)?;
    let artefact_class = text_constraint(d, "artefact_class", "artefact_class", &root_constraints)?;
    if !text_is(artefact_class.as_str(), "fidget_toy") {
        let mut reason = "expected artefact_class = \"fidget_toy\", found ".to_owned();
        reason.append(debug_quoted(artefact_class.as_str()).as_str());
        return Err(unsupported_shape(d, reason.as_str()));
    }
    let outer_diameter_mm = quantity_constraint(
        d,
        "body.outer_diameter",
        "outer_diameter",
        &body_constraints,
    )?;
    let max_diameter_mm = quantity_constraint(d, "max_diameter", "max_diameter", &root_constraints)?;
    let retention_depth_mm = quantity_constraint(
        d,
        "cap.retention_depth",
        "retention_depth",
        &cap_constraints,
    )?;
    if !outer_diameter_mm.is_near(max_diameter_mm) {
        let outer_text = length_text(outer_diameter_mm);
        let max_text = length_text(max_diameter_mm);
        let mut reason = "expected body.outer_diameter (".to_owned();
        reason.append(outer_text.as_str());
        reason.append("mm) to match max_diameter (");
        reason.append(max_text.as_str());
        reason.append("mm)");
        let error = unsupported_shape(d, reason.as_str());
        assert(error@ == diameter_mismatch(d@, outer_text@, max_text@));
        return Err(error);
    }
    Ok(SpinnerGeometryInputs { outer_diameter_mm, retention_depth_mm })
}

fn edge_label_of(graph: &IrGraph, edge: &Edge) -> (r: String)
    ensures
        r@ == edge_label(*graph, *edge),
{
    let mut s = edge.kind.debug_name().to_owned();
    s.append(" ");
    s.append(node_name(graph, edge.source).as_str());
    s.append(" -> ");
    s.append(node_name(graph, edge.target).as_str());
    s
}

/// A name among the part names has a last part node carrying it.
proof fn lemma_part_name_found(nodes: Seq<Node>, name: Seq<char>)
    requires
        part_name_map(nodes).dom().contains(name),
    ensures
        last_part_named(nodes, name) matches Some(p) && 0 <= p < nodes.len(),
    decreases nodes.len(),
{
    if nodes.len() > 0 {
        if !(nodes.last().kind == NodeKind::Part && nodes.last().name@ == name) {
            lemma_part_name_found(nodes.drop_last(), name);
        }
    }
}


/// `cons` holds the text `text` under `key`.
pub open spec fn holds_text(cons: Map<Seq<char>, Value>, key: Seq<char>, text: Seq<char>) -> bool {
    &&& cons.contains_key(key)
    &&& match cons[key] {
        Value::String(v) => v@ == text,
        _ => false,
    }
}

/// `cons` holds the length `value` in millimetres under `key`.
pub open spec fn holds_mm(cons: Map<Seq<char>, Value>, key: Seq<char>, value: Binary64) -> bool {
    &&& cons.contains_key(key)
    &&& match cons[key] {
        Value::Quantity(q) => q.unit@ == "mm"@ && q.value == value,
        _ => false,
    }
}

/// A graph that yields the spinner's inputs is the spinner: the `fidget_spinner` design with
/// exactly the parts `body` and `cap`, one connection, the fixed `cap_join` from
/// `body.cap_socket` to `cap.cap_spigot`, the artefact class `fidget_toy` on the root, and the
/// outer diameter, the maximum diameter and the retention depth that were read, in millimetres
/// on the body, the root and the cap.
pub proof fn law_spinner_inputs_describe_the_spinner(g: IrGraph)
    requires
        spinner_inputs(g) is Ok,
    ensures
        ({
            let (outer, max, depth) = spinner_inputs(g)->Ok_0;
            let nodes = g.node_seq();
            let m = g.edge_seq().len() as int;
            let root = constraint_values(g, 0, m);
            let body = constraint_values(g, last_part_named(nodes, "body"@).unwrap(), m);
            let cap = constraint_values(g, last_part_named(nodes, "cap"@).unwrap(), m);
            let conns = connects_positions(g.edge_seq());
            let joint = g.edge_seq()[conns[0]];
            &&& node_label(g, g.root_id()) == "fidget_spinner"@
            &&& part_name_map(nodes).dom() == set!["body"@, "cap"@]
            &&& last_part_named(nodes, "body"@) is Some
            &&& last_part_named(nodes, "cap"@) is Some
            &&& conns.len() == 1
            &&& joint.kind == EdgeKind::Connects
            &&& string_attr(joint.attrs@, "name"@) == Some("cap_join"@)
            &&& enum_attr(joint.attrs@, "connection_kind"@) == Some("fixed"@)
            &&& node_label(g, joint.source) == "body.cap_socket"@
            &&& node_label(g, joint.target) == "cap.cap_spigot"@
            &&& holds_text(root, "artefact_class"@, "fidget_toy"@)
            &&& holds_mm(body, "outer_diameter"@, outer)
            &&& holds_mm(root, "max_diameter"@, max)
            &&& holds_mm(cap, "retention_depth"@, depth)
        }),
{
    reveal(spinner_inputs);
    let nodes = g.node_seq();
    let names = part_name_map(nodes).dom();
    if names == set!["body"@, "cap"@] {
        assert(names.contains("body"@) && names.contains("cap"@));
        lemma_part_name_found(nodes, "body"@);
        lemma_part_name_found(nodes, "cap"@);
    }
    lemma_connects_are_connects(g.edge_seq());
}

/// The connection positions are positions of connection edges.
proof fn lemma_connects_are_connects(edges: Seq<Edge>)
    ensures
        forall|q: int|
            0 <= q < connects_positions(edges).len() ==> {
                let p = #[trigger] connects_positions(edges)[q];
                &&& 0 <= p < edges.len()
                &&& edges[p].kind == EdgeKind::Connects
            },
    decreases edges.len(),
{
    if edges.len() > 0 {
        lemma_connects_are_connects(edges.drop_last());
        let prev = connects_positions(edges.drop_last());
        assert forall|q: int| 0 <= q < connects_positions(edges).len() implies {
            let p = #[trigger] connects_positions(edges)[q];
            &&& 0 <= p < edges.len()
            &&& edges[p].kind == EdgeKind::Connects
        } by {
            if q < prev.len() {
                assert(connects_positions(edges)[q] == prev[q]);
                assert(edges.drop_last()[prev[q]] == edges[prev[q]]);
            }
        }
    }
}

} // verus!
