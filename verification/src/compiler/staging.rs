//! Compiling a design is lowering it and then compiling the lowered design. Lowering fixes
//! the graph only up to what its nodes and edges say, so this module shows that every check
//! and every plan of the compiler depends on no more than that.

use super::pipeline::{
    analysis_issue, analysis_matches, compile_issue, compiled_from, connection_names,
    context_issues, dimension_checks, edge_issue, edge_issues, enum_attr, lemma_part_positions_bound,
    material_pairs, mm_quantity, node_issue, node_issues, node_kind_is, node_label, part_issue,
    part_issues, part_positions, plan_matches, planning_passes, string_attr, GraphAnalysis,
};
use super::{CompileError, CompileIssue, PrototypeCompilation, PrototypeProfile, LoweringIssue};
use crate::context::Material;
use crate::ir::{attrs_view, Edge, IrGraph, Node, NodeId, Value};
use crate::sdk::lower::{lowered_graph, lowering_outcome, lowering_result};
use crate::sdk::validate::design_issue;
use crate::sdk::{Design, LoweredDesign, LoweringError};
use vstd::prelude::*;

verus! {

/// Two lowered designs say the same: the same nodes, edges and metadata, the same root and the
/// same manufacturing context.
pub open spec fn same_lowered(a: LoweredDesign, b: LoweredDesign) -> bool {
    &&& a.graph.node_views() == b.graph.node_views()
    &&& a.graph.edge_views() == b.graph.edge_views()
    &&& a.graph.metadata_view() == b.graph.metadata_view()
    &&& a.graph.root_id() == b.graph.root_id()
    &&& a.manufacturing.target == b.manufacturing.target
    &&& a.manufacturing.constraints.same_as(b.manufacturing.constraints)
}

/// What `plan_matches` says, with the graph and the context taken by what they say.
pub open spec fn plan_agrees(c: PrototypeCompilation, lowered: LoweredDesign) -> bool {
    let g = lowered.graph;
    let m = lowered.manufacturing;
    &&& c.design_name@ == node_label(g, g.root_id())
    &&& c.profile == PrototypeProfile::PlaOnP1sSingleProcess
    &&& c.graph.node_views() == g.node_views()
    &&& c.graph.edge_views() == g.edge_views()
    &&& c.graph.metadata_view() == g.metadata_view()
    &&& c.graph.root_id() == g.root_id()
    &&& c.manufacturing.target == m.target
    &&& c.manufacturing.constraints.same_as(m.constraints)
    &&& c.plan.machine.manufacturer@ == m.target.machine.manufacturer@
    &&& c.plan.machine.model@ == m.target.machine.model@
    &&& c.plan.process == m.target.process
    &&& c.plan.material == Material::Pla
    &&& c.plan.build_volume == m.constraints.build_volume
    &&& c.plan.nominal_layer_height == m.constraints.nominal_layer_height
    &&& c.plan.achievable_tolerance == m.constraints.achievable_tolerance
    &&& analysis_matches(
        GraphAnalysis {
            parts: c.plan.parts,
            connections: c.plan.connections,
            validated_dimensions: c.report.validated_dimensions,
            part_count: c.report.validated_part_count,
            connection_count: c.report.validated_connection_count,
        },
        g,
        m.constraints.build_volume.max_edge(),
    )
    &&& c.report.executed_passes@ == planning_passes()
    &&& c.artifacts@.len() == 0
}

/// The compilation result agrees with the lowered design: refused exactly on its first issue,
/// and otherwise planned from what it says.
pub open spec fn compiled_alike(r: Result<PrototypeCompilation, CompileError>, lowered: LoweredDesign) -> bool {
    &&& (r is Ok <==> compile_issue(lowered) is None)
    &&& (r is Err ==> Some(r->Err_0@) == compile_issue(lowered))
    &&& (r is Ok ==> plan_agrees(r->Ok_0, lowered))
}

// ---------------------------------------------------------------------------------------
// Every check reads only what the graph says.
// ---------------------------------------------------------------------------------------

proof fn lemma_attrs_agree(a: Map<Seq<char>, Value>, b: Map<Seq<char>, Value>)
    requires
        attrs_view(a) == attrs_view(b),
    ensures
        forall|k: Seq<char>| #[trigger] enum_attr(a, k) == enum_attr(b, k),
        forall|k: Seq<char>| #[trigger] string_attr(a, k) == string_attr(b, k),
        mm_quantity(a) == mm_quantity(b),
{
    assert forall|k: Seq<char>| #[trigger] enum_attr(a, k) == enum_attr(b, k) by {
        assert(attrs_view(a).contains_key(k) == a.contains_key(k));
        assert(attrs_view(b).contains_key(k) == b.contains_key(k));
        if a.contains_key(k) {
            assert(attrs_view(a)[k] == a[k]@);
            assert(attrs_view(b)[k] == b[k]@);
        }
    }
    assert forall|k: Seq<char>| #[trigger] string_attr(a, k) == string_attr(b, k) by {
        assert(attrs_view(a).contains_key(k) == a.contains_key(k));
        assert(attrs_view(b).contains_key(k) == b.contains_key(k));
        if a.contains_key(k) {
            assert(attrs_view(a)[k] == a[k]@);
            assert(attrs_view(b)[k] == b[k]@);
        }
    }
    let k = "value"@;
    assert(attrs_view(a).contains_key(k) == a.contains_key(k));
    assert(attrs_view(b).contains_key(k) == b.contains_key(k));
    if a.contains_key(k) {
        assert(attrs_view(a)[k] == a[k]@);
        assert(attrs_view(b)[k] == b[k]@);
    }
}

proof fn lemma_node_issue_agrees(a: Node, b: Node, limit: u16)
    requires
        a@ == b@,
    ensures
        node_issue(a, limit) == node_issue(b, limit),
{
    reveal(node_issue);
    lemma_attrs_agree(a.attrs@, b.attrs@);
}

/// The nodes of two graphs say the same, position by position.
proof fn lemma_nodes_agree(g: IrGraph, h: IrGraph)
    requires
        g.node_views() == h.node_views(),
    ensures
        g.node_seq().len() == h.node_seq().len(),
        forall|i: int| 0 <= i < g.node_seq().len() ==> #[trigger] g.node_seq()[i]@ == h.node_seq()[i]@,
        forall|id: NodeId| #[trigger] node_label(g, id) == node_label(h, id),
        forall|id: NodeId, k| #[trigger] node_kind_is(g, id, k) == node_kind_is(h, id, k),
{
    assert(g.node_views().len() == g.node_seq().len());
    assert forall|i: int| 0 <= i < g.node_seq().len() implies #[trigger] g.node_seq()[i]@ == h.node_seq()[i]@ by {
        assert(g.node_views()[i] == g.node_seq()[i]@);
        assert(h.node_views()[i] == h.node_seq()[i]@);
    }
    assert forall|id: NodeId| #[trigger] node_label(g, id) == node_label(h, id) by {
        if id.index() < g.node_seq().len() {
            assert(g.node_seq()[id.index() as int]@ == h.node_seq()[id.index() as int]@);
        }
    }
    assert forall|id: NodeId, k| #[trigger] node_kind_is(g, id, k) == node_kind_is(h, id, k) by {
        if id.index() < g.node_seq().len() {
            assert(g.node_seq()[id.index() as int]@ == h.node_seq()[id.index() as int]@);
        }
    }
}

proof fn lemma_edges_agree(g: IrGraph, h: IrGraph)
    requires
        g.edge_views() == h.edge_views(),
    ensures
        g.edge_seq().len() == h.edge_seq().len(),
        forall|i: int| 0 <= i < g.edge_seq().len() ==> #[trigger] g.edge_seq()[i]@ == h.edge_seq()[i]@,
{
    assert(g.edge_views().len() == g.edge_seq().len());
    assert forall|i: int| 0 <= i < g.edge_seq().len() implies #[trigger] g.edge_seq()[i]@ == h.edge_seq()[i]@ by {
        assert(g.edge_views()[i] == g.edge_seq()[i]@);
        assert(h.edge_views()[i] == h.edge_seq()[i]@);
    }
}

proof fn lemma_edge_issue_agrees(g: IrGraph, h: IrGraph, e: Edge, f: Edge)
    requires
        g.node_views() == h.node_views(),
        e@ == f@,
    ensures
        edge_issue(g, e) == edge_issue(h, f),
{
    reveal(edge_issue);
    lemma_nodes_agree(g, h);
    lemma_attrs_agree(e.attrs@, f.attrs@);
    assert(node_label(g, e.source) == node_label(h, f.source)) by {
        NodeId::lemma_index_injective(e.source, f.source);
    }
    assert(node_label(g, e.target) == node_label(h, f.target)) by {
        NodeId::lemma_index_injective(e.target, f.target);
    }
    NodeId::lemma_index_injective(e.source, f.source);
    NodeId::lemma_index_injective(e.target, f.target);
}

proof fn lemma_part_positions_agree(a: Seq<Node>, b: Seq<Node>)
    requires
        a.len() == b.len(),
        forall|i: int| 0 <= i < a.len() ==> #[trigger] a[i]@ == b[i]@,
    ensures
        part_positions(a) == part_positions(b),
        dimension_checks(a) == dimension_checks(b),
    decreases a.len(),
{
    if a.len() > 0 {
        assert forall|i: int| 0 <= i < a.drop_last().len() implies #[trigger] a.drop_last()[i]@
            == b.drop_last()[i]@ by {
            assert(a.drop_last()[i] == a[i]);
            assert(b.drop_last()[i] == b[i]);
        }
        lemma_part_positions_agree(a.drop_last(), b.drop_last());
        assert(a.last()@ == b.last()@);
        lemma_attrs_agree(a.last().attrs@, b.last().attrs@);
    }
}

proof fn lemma_connection_names_agree(a: Seq<Edge>, b: Seq<Edge>)
    requires
        a.len() == b.len(),
        forall|i: int| 0 <= i < a.len() ==> #[trigger] a[i]@ == b[i]@,
    ensures
        connection_names(a) == connection_names(b),
    decreases a.len(),
{
    if a.len() > 0 {
        assert forall|i: int| 0 <= i < a.drop_last().len() implies #[trigger] a.drop_last()[i]@
            == b.drop_last()[i]@ by {
            assert(a.drop_last()[i] == a[i]);
            assert(b.drop_last()[i] == b[i]);
        }
        lemma_connection_names_agree(a.drop_last(), b.drop_last());
        assert(a.last()@ == b.last()@);
        lemma_attrs_agree(a.last().attrs@, b.last().attrs@);
    }
}

proof fn lemma_material_pairs_agree(g: IrGraph, h: IrGraph, k: int)
    requires
        g.node_views() == h.node_views(),
        g.edge_views() == h.edge_views(),
        k <= g.edge_seq().len(),
    ensures
        material_pairs(g, k) == material_pairs(h, k),
    decreases k,
{
    if k > 0 {
        lemma_material_pairs_agree(g, h, k - 1);
        lemma_nodes_agree(g, h);
        lemma_edges_agree(g, h);
        let e = g.edge_seq()[k - 1];
        let f = h.edge_seq()[k - 1];
        assert(e@ == f@);
        NodeId::lemma_index_injective(e.target, f.target);
    }
}

/// The graph checks give the same verdict on two graphs that say the same.
proof fn lemma_analysis_agrees(g: IrGraph, h: IrGraph, limit: u16)
    requires
        g.node_views() == h.node_views(),
        g.edge_views() == h.edge_views(),
    ensures
        analysis_issue(g, limit) == analysis_issue(h, limit),
        part_positions(g.node_seq()) == part_positions(h.node_seq()),
        connection_names(g.edge_seq()) == connection_names(h.edge_seq()),
        dimension_checks(g.node_seq()) == dimension_checks(h.node_seq()),
{
    lemma_nodes_agree(g, h);
    lemma_edges_agree(g, h);
    assert forall|i: int| 0 <= i < g.node_seq().len() implies #[trigger] node_issues(g, limit)[i]
        == node_issues(h, limit)[i] by {
        lemma_node_issue_agrees(g.node_seq()[i], h.node_seq()[i], limit);
    }
    assert(node_issues(g, limit) =~= node_issues(h, limit));
    assert forall|i: int| 0 <= i < g.edge_seq().len() implies #[trigger] edge_issues(g)[i]
        == edge_issues(h)[i] by {
        lemma_edge_issue_agrees(g, h, g.edge_seq()[i], h.edge_seq()[i]);
    }
    assert(edge_issues(g) =~= edge_issues(h));
    lemma_part_positions_agree(g.node_seq(), h.node_seq());
    lemma_connection_names_agree(g.edge_seq(), h.edge_seq());
    lemma_material_pairs_agree(g, h, g.edge_seq().len() as int);
    lemma_part_positions_bound(g.node_seq());
    let ps = part_positions(g.node_seq());
    assert forall|q: int| 0 <= q < ps.len() implies #[trigger] part_issues(g)[q] == part_issues(h)[q] by {
        assert(g.node_seq()[ps[q]]@ == h.node_seq()[ps[q]]@);
        assert(part_issue(g, ps[q]) == part_issue(h, ps[q]));
    }
    assert(part_issues(g) =~= part_issues(h));
}

/// Two lowered designs that say the same are refused on the same issue.
pub proof fn lemma_compile_issue_agrees(a: LoweredDesign, b: LoweredDesign)
    requires
        same_lowered(a, b),
    ensures
        compile_issue(a) == compile_issue(b),
{
    lemma_analysis_agrees(a.graph, b.graph, a.manufacturing.constraints.build_volume.max_edge());
    assert(context_issues(a.manufacturing) =~= context_issues(b.manufacturing));
}

/// A plan that agrees with one lowered design agrees with any that says the same.
pub proof fn lemma_plan_agrees_transfer(c: PrototypeCompilation, a: LoweredDesign, b: LoweredDesign)
    requires
        same_lowered(a, b),
        plan_agrees(c, a),
    ensures
        plan_agrees(c, b),
{
    let limit = a.manufacturing.constraints.build_volume.max_edge();
    lemma_analysis_agrees(a.graph, b.graph, limit);
    lemma_nodes_agree(a.graph, b.graph);
    lemma_part_positions_bound(a.graph.node_seq());
    let ps = part_positions(a.graph.node_seq());
    assert forall|q: int| 0 <= q < ps.len() implies #[trigger] a.graph.node_seq()[ps[q]].name@
        == b.graph.node_seq()[ps[q]].name@ by {
        assert(a.graph.node_seq()[ps[q]]@ == b.graph.node_seq()[ps[q]]@);
    }
}

/// Two results of lowering one design say the same.
pub proof fn lemma_lowerings_agree(d: Design, a: LoweredDesign, b: LoweredDesign)
    requires
        lowering_outcome(Ok(a), d),
        lowering_outcome(Ok(b), d),
    ensures
        same_lowered(a, b),
{
    NodeId::lemma_index_injective(a.graph.root_id(), b.graph.root_id());
}

// ---------------------------------------------------------------------------------------
// The law.
// ---------------------------------------------------------------------------------------

/// What compiling an authored design up to its plan gives: a validation failure as a
/// lowering failure, and otherwise, for any lowered design that lowering gives, what
/// compiling that lowered design gives.
pub open spec fn prototype_plan_outcome(r: Result<PrototypeCompilation, CompileError>, d: Design) -> bool {
    &&& design_issue(d) is Some ==> r is Err && r->Err_0@ == CompileIssue::Lowering(
        LoweringIssue::Validation(design_issue(d)->Some_0),
    )
    &&& design_issue(d) is None && lowered_graph(d) is Err ==> r is Err && r->Err_0@
        == CompileIssue::Lowering(LoweringIssue::Validation(lowered_graph(d)->Err_0))
    &&& design_issue(d) is None ==> forall|l: LoweredDesign|
        #[trigger] lowering_outcome(Ok(l), d) ==> compiled_alike(r, l)
}

/// Compiling a design is lowering it and then compiling the lowered design: when lowering
/// fails, compiling fails with that lowering failure; otherwise both routes are refused on the
/// same issue, or both accept, with plans that agree with the same lowered design.
pub proof fn law_compile_is_lower_then_compile(
    d: Design,
    direct: Result<PrototypeCompilation, CompileError>,
    lowered: Result<LoweredDesign, LoweringError>,
    staged: Result<PrototypeCompilation, CompileError>,
)
    requires
        prototype_plan_outcome(direct, d),
        lowering_result(lowered, d),
        lowered is Ok ==> compiled_from(staged, lowered->Ok_0),
    ensures
        lowered is Err ==> direct is Err && direct->Err_0@ == CompileIssue::Lowering(lowered->Err_0@),
        lowered is Ok ==> (direct is Ok <==> staged is Ok),
        lowered is Ok && direct is Err ==> direct->Err_0@ == staged->Err_0@,
        lowered is Ok && direct is Ok ==> plan_agrees(direct->Ok_0, lowered->Ok_0) && plan_matches(
            staged->Ok_0,
            lowered->Ok_0,
        ),
{
    if lowered is Ok {
        let l = lowered->Ok_0;
        assert(lowering_outcome(Ok(l), d));
        assert(compiled_alike(direct, l));
    }
}

} // verus!
