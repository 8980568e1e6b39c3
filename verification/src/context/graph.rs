//! The graph of context nodes and the edges between them.

use vstd::prelude::*;

use crate::context::node::{
    node_verdict, ContextNode, ContextValidationError, NodeModel,
};
use crate::text::{blank, copy_texts, has_provenance, is_blank, names_sources, same_text, texts};

verus! {

#[derive(Debug, Clone, Copy, PartialEq, Eq, Structural, Hash)]
pub enum ContextEdgeKind {
    Supports,
    Contradicts,
    Supersedes,
    DerivedFrom,
    RelatedTo,
}

/// A typed relation between two nodes.
#[derive(Debug)]
pub struct ContextEdge {
    pub id: String,
    pub from: String,
    pub to: String,
    pub relation: ContextEdgeKind,
    pub source_event_ids: Vec<String>,
}

/// The model of an edge.
pub struct EdgeModel {
    pub id: Seq<char>,
    pub from: Seq<char>,
    pub to: Seq<char>,
    pub relation: ContextEdgeKind,
    pub source_event_ids: Seq<Seq<char>>,
}

impl View for ContextEdge {
    type V = EdgeModel;

    open spec fn view(&self) -> EdgeModel {
        EdgeModel {
            id: self.id@,
            from: self.from@,
            to: self.to@,
            relation: self.relation,
            source_event_ids: texts(self.source_event_ids@),
        }
    }
}

impl Clone for ContextEdge {
    fn clone(&self) -> (r: ContextEdge)
        ensures
            r@ == self@,
    {
        ContextEdge {
            id: self.id.clone(),
            from: self.from.clone(),
            to: self.to.clone(),
            relation: self.relation,
            source_event_ids: copy_texts(&self.source_event_ids),
        }
    }
}

impl EdgeModel {
    /// The edge has an identity and sources.
    pub open spec fn valid(self) -> bool {
        !blank(self.id) && names_sources(self.source_event_ids)
    }
}

/// The result of validating an edge on its own.
pub open spec fn edge_verdict(edge: EdgeModel, r: Result<(), ContextValidationError>) -> bool {
    if blank(edge.id) {
        r is Err && r->Err_0 is EmptyId
    } else if !names_sources(edge.source_event_ids) {
        r is Err && r->Err_0 is MissingProvenance && r->Err_0->subject_id@ == edge.id
    } else {
        r is Ok
    }
}

impl ContextEdge {
    /// Checks that the edge has an identity and names its sources.
    pub fn validate(&self) -> (r: Result<(), ContextValidationError>)
        ensures
            edge_verdict(self@, r),
    {
        if is_blank(&self.id) {
            return Err(ContextValidationError::EmptyId);
        }
        if !has_provenance(&self.source_event_ids) {
            return Err(ContextValidationError::MissingProvenance { subject_id: self.id.clone() });
        }
        Ok(())
    }
}

/// Valid nodes with distinct identities, and valid edges between them.
#[derive(Debug, Clone)]
pub struct ContextGraph {
    nodes: Vec<ContextNode>,
    edges: Vec<ContextEdge>,
}

/// The model of a graph: its nodes and its edges, each in order of insertion.
pub struct GraphModel {
    pub nodes: Seq<NodeModel>,
    pub edges: Seq<EdgeModel>,
}

impl View for ContextGraph {
    type V = GraphModel;

    closed spec fn view(&self) -> GraphModel {
        GraphModel {
            nodes: self.nodes@.map_values(|n: ContextNode| n@),
            edges: self.edges@.map_values(|e: ContextEdge| e@),
        }
    }
}

impl GraphModel {
    /// A node of that identity is in the graph.
    pub open spec fn has(self, id: Seq<char>) -> bool {
        exists|i: int| 0 <= i < self.nodes.len() && (#[trigger] self.nodes[i]).id == id
    }

    /// Nodes are valid and distinct, and every edge is valid and joins nodes of
    /// the graph.
    pub open spec fn well_formed(self) -> bool {
        &&& forall|i: int| 0 <= i < self.nodes.len() ==> (#[trigger] self.nodes[i]).valid()
        &&& forall|i: int, j: int|
            0 <= i < j < self.nodes.len() ==> (#[trigger] self.nodes[i]).id != (
            #[trigger] self.nodes[j]).id
        &&& forall|k: int|
            0 <= k < self.edges.len() ==> {
                &&& (#[trigger] self.edges[k]).valid()
                &&& self.has(self.edges[k].from)
                &&& self.has(self.edges[k].to)
            }
    }

    pub open spec fn with_node(self, node: NodeModel) -> GraphModel {
        GraphModel { nodes: self.nodes.push(node), edges: self.edges }
    }

    pub open spec fn with_edge(self, edge: EdgeModel) -> GraphModel {
        GraphModel { nodes: self.nodes, edges: self.edges.push(edge) }
    }
}

/// The result of inserting a node.
pub open spec fn insert_node_verdict(
    graph: GraphModel,
    node: NodeModel,
    r: Result<(), ContextValidationError>,
) -> bool {
    if !node.valid() {
        node_verdict(node, r)
    } else if graph.has(node.id) {
        r is Err && r->Err_0 is DuplicateNode && r->Err_0->DuplicateNode_node_id@ == node.id
    } else {
        r is Ok
    }
}

/// The result of inserting an edge.
pub open spec fn insert_edge_verdict(
    graph: GraphModel,
    edge: EdgeModel,
    r: Result<(), ContextValidationError>,
) -> bool {
    if !edge.valid() {
        edge_verdict(edge, r)
    } else if !graph.has(edge.from) {
        &&& r is Err
        &&& r->Err_0 is MissingNode
        &&& r->Err_0->edge_id@ == edge.id
        &&& r->Err_0->MissingNode_node_id@ == edge.from
    } else if !graph.has(edge.to) {
        &&& r is Err
        &&& r->Err_0 is MissingNode
        &&& r->Err_0->edge_id@ == edge.id
        &&& r->Err_0->MissingNode_node_id@ == edge.to
    } else {
        r is Ok
    }
}

impl ContextGraph {
    /// A graph without nodes or edges.
    pub fn new() -> (r: ContextGraph)
        ensures
            r@.nodes == Seq::<NodeModel>::empty(),
            r@.edges == Seq::<EdgeModel>::empty(),
            r@.well_formed(),
    {
        let r = ContextGraph { nodes: Vec::new(), edges: Vec::new() };
        assert(r@.nodes =~= Seq::<NodeModel>::empty());
        assert(r@.edges =~= Seq::<EdgeModel>::empty());
        r
    }

    fn contains(&self, id: &str) -> (r: bool)
        ensures
            r == self@.has(id@),
    {
        let mut i: usize = 0;
        while i < self.nodes.len()
            invariant
                0 <= i <= self.nodes@.len(),
                forall|j: int| 0 <= j < i ==> (#[trigger] self@.nodes[j]).id != id@,
            decreases self.nodes.len() - i,
        {
            if same_text(&self.nodes[i].id, id) {
                assert(self@.nodes[i as int].id == id@);
                return true;
            }
            i += 1;
        }
        false
    }

    /// Adds a valid node whose identity is new; otherwise changes nothing.
    pub fn insert_node(&mut self, node: ContextNode) -> (r: Result<(), ContextValidationError>)
        ensures
            insert_node_verdict(old(self)@, node@, r),
            r is Ok ==> final(self)@ == old(self)@.with_node(node@),
            r is Err ==> final(self)@ == old(self)@,
    {
        let checked = node.validate();
        if checked.is_err() {
            return checked;
        }
        if self.contains(&node.id) {
            return Err(ContextValidationError::DuplicateNode { node_id: node.id.clone() });
        }
        self.nodes.push(node);
        assert(self@.nodes =~= old(self)@.with_node(node@).nodes);
        Ok(())
    }

    /// Adds a valid edge between nodes of the graph; otherwise changes nothing.
    pub fn insert_edge(&mut self, edge: ContextEdge) -> (r: Result<(), ContextValidationError>)
        ensures
            insert_edge_verdict(old(self)@, edge@, r),
            r is Ok ==> final(self)@ == old(self)@.with_edge(edge@),
            r is Err ==> final(self)@ == old(self)@,
    {
        let checked = edge.validate();
        if checked.is_err() {
            return checked;
        }
        if !self.contains(&edge.from) {
            return Err(
                ContextValidationError::MissingNode {
                    edge_id: edge.id.clone(),
                    node_id: edge.from.clone(),
                },
            );
        }
        if !self.contains(&edge.to) {
            return Err(
                ContextValidationError::MissingNode {
                    edge_id: edge.id.clone(),
                    node_id: edge.to.clone(),
                },
            );
        }
        self.edges.push(edge);
        assert(self@.edges =~= old(self)@.with_edge(edge@).edges);
        Ok(())
    }

    /// The nodes of the graph.
    pub fn nodes(&self) -> (r: &Vec<ContextNode>)
        ensures
            r@.map_values(|n: ContextNode| n@) == self@.nodes,
    {
        &self.nodes
    }

    /// The edges of the graph, in order of insertion.
    pub fn edges(&self) -> (r: &Vec<ContextEdge>)
        ensures
            r@.map_values(|e: ContextEdge| e@) == self@.edges,
    {
        &self.edges
    }
}

impl Default for ContextGraph {
    fn default() -> (r: ContextGraph)
        ensures
            r@.nodes == Seq::<NodeModel>::empty(),
            r@.edges == Seq::<EdgeModel>::empty(),
            r@.well_formed(),
    {
        ContextGraph::new()
    }
}

/// An accepted node keeps the graph well formed: no edge loses an endpoint and
/// no identity occurs twice.
pub proof fn accepted_node_keeps_graph_well_formed(
    graph: GraphModel,
    node: NodeModel,
    r: Result<(), ContextValidationError>,
)
    requires
        graph.well_formed(),
        insert_node_verdict(graph, node, r),
        r is Ok,
    ensures
        graph.with_node(node).well_formed(),
        graph.with_node(node).has(node.id),
{
    let after = graph.with_node(node);
    assert forall|id: Seq<char>| graph.has(id) implies #[trigger] after.has(id) by {
        let i = choose|i: int| 0 <= i < graph.nodes.len() && (#[trigger] graph.nodes[i]).id == id;
        assert(after.nodes[i].id == id);
    }
    assert(after.nodes[graph.nodes.len() as int].id == node.id);
    assert forall|k: int| 0 <= k < after.edges.len() implies {
        &&& (#[trigger] after.edges[k]).valid()
        &&& after.has(after.edges[k].from)
        &&& after.has(after.edges[k].to)
    } by {
        assert(graph.has(graph.edges[k].from));
        assert(graph.has(graph.edges[k].to));
    }
}

/// An accepted edge keeps the graph well formed.
pub proof fn accepted_edge_keeps_graph_well_formed(
    graph: GraphModel,
    edge: EdgeModel,
    r: Result<(), ContextValidationError>,
)
    requires
        graph.well_formed(),
        insert_edge_verdict(graph, edge, r),
        r is Ok,
    ensures
        graph.with_edge(edge).well_formed(),
{
    let after = graph.with_edge(edge);
    assert forall|id: Seq<char>| graph.has(id) implies #[trigger] after.has(id) by {
        let i = choose|i: int| 0 <= i < graph.nodes.len() && (#[trigger] graph.nodes[i]).id == id;
        assert(after.nodes[i].id == id);
    }
    assert forall|k: int| 0 <= k < after.edges.len() implies {
        &&& (#[trigger] after.edges[k]).valid()
        &&& after.has(after.edges[k].from)
        &&& after.has(after.edges[k].to)
    } by {
        if k < graph.edges.len() {
            assert(graph.has(graph.edges[k].from));
            assert(graph.has(graph.edges[k].to));
        }
    }
}

/// A graph takes in a node exactly where it is valid and its identity is new, and
/// an edge exactly where it says something, names its sources, and joins nodes of
/// the graph; a refusal names the missing end.
pub proof fn graphs_take_in_what_belongs(
    graph: GraphModel,
    node: NodeModel,
    edge: EdgeModel,
    r: Result<(), ContextValidationError>,
    s: Result<(), ContextValidationError>,
)
    requires
        insert_node_verdict(graph, node, r),
        insert_edge_verdict(graph, edge, s),
    ensures
        r is Ok <==> node.valid() && forall|i: int|
            0 <= i < graph.nodes.len() ==> (#[trigger] graph.nodes[i]).id != node.id,
        r matches Err(ContextValidationError::DuplicateNode { node_id }) ==> node_id@ == node.id
            && exists|i: int|
            0 <= i < graph.nodes.len() && (#[trigger] graph.nodes[i]).id == node.id,
        s is Ok ==> !blank(edge.id) && edge.source_event_ids.len() > 0,
        s is Ok ==> forall|i: int|
            0 <= i < edge.source_event_ids.len() ==> !blank(#[trigger] edge.source_event_ids[i]),
        s is Ok ==> exists|i: int|
            0 <= i < graph.nodes.len() && (#[trigger] graph.nodes[i]).id == edge.from,
        s is Ok ==> exists|i: int|
            0 <= i < graph.nodes.len() && (#[trigger] graph.nodes[i]).id == edge.to,
        s is Err ==> s->Err_0 is EmptyId || s->Err_0 is MissingProvenance || s->Err_0
            is MissingNode,
        s is Err && s->Err_0 is EmptyId ==> blank(edge.id),
        s matches Err(ContextValidationError::MissingProvenance { subject_id }) ==> subject_id@
            == edge.id && (edge.source_event_ids.len() == 0 || exists|i: int|
            0 <= i < edge.source_event_ids.len() && blank(#[trigger] edge.source_event_ids[i])),
        s matches Err(ContextValidationError::MissingNode { edge_id, node_id }) ==> edge_id@
            == edge.id && (node_id@ == edge.from || node_id@ == edge.to) && forall|i: int|
            0 <= i < graph.nodes.len() ==> (#[trigger] graph.nodes[i]).id != node_id@,
{
}

} // verus!
