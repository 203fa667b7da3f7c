//! The graph query assembler: the nodes of the categories that a filter
//! selects, each with an aggregate count, and the stored edges that run
//! between those nodes.

use vstd::prelude::*;
use crate::mentions::contains_id;
use crate::store::{
    Concept,
    EdgeKind,
    Entity,
    EntityCategory,
    GraphEdge,
    GraphStore,
    NoteConceptLink,
    NoteEntityLink,
    StoreView,
};
use crate::text::str_eq;

verus! {

/// Which categories of nodes a graph query asks for.
#[derive(Clone, Copy, Debug, PartialEq, Eq, Structural)]
pub enum CategoryFilter {
    /// People and artifacts.
    Entities,
    Concepts,
    Locations,
    All,
    /// A filter that names no known category: it selects nothing.
    Unknown,
}

impl CategoryFilter {
    /// Whether people and artifacts are asked for.
    pub open spec fn wants_entities(self) -> bool {
        self == CategoryFilter::Entities || self == CategoryFilter::All
    }

    /// Whether locations are asked for.
    pub open spec fn wants_locations(self) -> bool {
        self == CategoryFilter::Locations || self == CategoryFilter::All
    }

    /// Whether concepts are asked for.
    pub open spec fn wants_concepts(self) -> bool {
        self == CategoryFilter::Concepts || self == CategoryFilter::All
    }

    /// Whether people and artifacts are asked for.
    pub fn includes_entities(self) -> (r: bool)
        ensures
            r == self.wants_entities(),
    {
        match self {
            CategoryFilter::Entities | CategoryFilter::All => true,
            _ => false,
        }
    }

    /// Whether locations are asked for.
    pub fn includes_locations(self) -> (r: bool)
        ensures
            r == self.wants_locations(),
    {
        match self {
            CategoryFilter::Locations | CategoryFilter::All => true,
            _ => false,
        }
    }

    /// Whether concepts are asked for.
    pub fn includes_concepts(self) -> (r: bool)
        ensures
            r == self.wants_concepts(),
    {
        match self {
            CategoryFilter::Concepts | CategoryFilter::All => true,
            _ => false,
        }
    }
}

/// The filter of a graph query as it arrives: an optional word.
pub struct GraphFilter {
    pub filter: Option<String>,
}

/// The category filter that a word stands for.
pub open spec fn category_of_word(word: Seq<char>) -> CategoryFilter {
    if word == "all"@ {
        CategoryFilter::All
    } else if word == "entities"@ {
        CategoryFilter::Entities
    } else if word == "concepts"@ {
        CategoryFilter::Concepts
    } else if word == "locations"@ {
        CategoryFilter::Locations
    } else {
        CategoryFilter::Unknown
    }
}

impl GraphFilter {
    /// The category filter that this query asks for: everything where no
    /// word is given.
    pub open spec fn category_spec(self) -> CategoryFilter {
        match self.filter {
            Some(word) => category_of_word(word@),
            None => CategoryFilter::All,
        }
    }

    /// The category filter that this query asks for. Without a word it is
    /// `All`; a word other than `all`, `entities`, `concepts` and
    /// `locations` selects nothing.
    pub fn category(&self) -> (r: CategoryFilter)
        ensures
            r == self.category_spec(),
    {
        match &self.filter {
            None => CategoryFilter::All,
            Some(word) => {
                let word = word.as_str();
                if str_eq(word, "all") {
                    CategoryFilter::All
                } else if str_eq(word, "entities") {
                    CategoryFilter::Entities
                } else if str_eq(word, "concepts") {
                    CategoryFilter::Concepts
                } else if str_eq(word, "locations") {
                    CategoryFilter::Locations
                } else {
                    CategoryFilter::Unknown
                }
            },
        }
    }
}

/// The category of a node of the displayed graph.
#[derive(Clone, Copy, Debug, PartialEq, Eq, Structural)]
pub enum NodeType {
    Entity,
    Location,
    Concept,
}

/// A node of the displayed graph.
#[derive(Debug, PartialEq, Eq)]
pub struct GraphNode {
    pub id: u128,
    pub label: String,
    pub node_type: NodeType,
    /// For a node that stands for an entity, what kind of entity it is.
    pub entity_type: Option<EntityCategory>,
    /// For an entity or a location, the sum of its mention counts over all
    /// notes; for a concept, the number of notes tagged with it.
    pub note_count: u128,
}

/// An edge of the displayed graph.
#[derive(Debug, PartialEq, Eq)]
pub struct GraphEdgeOut {
    pub source: u128,
    pub target: u128,
    pub edge_type: EdgeKind,
    pub strength_tenths: u8,
    pub label: Option<String>,
    pub is_dashed: bool,
}

/// The displayed graph.
#[derive(Debug, PartialEq, Eq)]
pub struct GraphData {
    pub nodes: Vec<GraphNode>,
    pub edges: Vec<GraphEdgeOut>,
}

/// The sum of the mention counts of `entity` over the first `upto` links.
pub open spec fn mention_total(links: Seq<NoteEntityLink>, entity: u128, upto: nat) -> nat
    decreases upto,
{
    if 0 < upto <= links.len() {
        mention_total(links, entity, (upto - 1) as nat) + if links[upto - 1].entity_id == entity {
            links[upto - 1].mention_count as nat
        } else {
            0nat
        }
    } else {
        0
    }
}

/// The number of links to `concept` among the first `upto` links.
pub open spec fn tag_total(links: Seq<NoteConceptLink>, concept: u128, upto: nat) -> nat
    decreases upto,
{
    if 0 < upto <= links.len() {
        tag_total(links, concept, (upto - 1) as nat) + if links[upto - 1].concept_id == concept {
            1nat
        } else {
            0nat
        }
    } else {
        0
    }
}

/// Whether an entity is shown as a location node (`locations` set) or as an
/// entity node (`locations` not set) of `workspace`.
pub open spec fn entity_selected(entity: Entity, workspace: u128, locations: bool) -> bool {
    entity.workspace_id == workspace && (entity.category == EntityCategory::Location) == locations
}

impl StoreView {
    /// The node that stands for `entity`.
    pub open spec fn node_of_entity(self, entity: Entity) -> GraphNode {
        GraphNode {
            id: entity.id,
            label: entity.name,
            node_type: if entity.category == EntityCategory::Location {
                NodeType::Location
            } else {
                NodeType::Entity
            },
            entity_type: Some(entity.category),
            note_count: mention_total(self.entity_links, entity.id, self.entity_links.len()) as u128,
        }
    }

    /// The node that stands for `concept`.
    pub open spec fn node_of_concept(self, concept: Concept) -> GraphNode {
        GraphNode {
            id: concept.id,
            label: concept.name,
            node_type: NodeType::Concept,
            entity_type: None,
            note_count: tag_total(self.concept_links, concept.id, self.concept_links.len()) as u128,
        }
    }

    /// The nodes of the selected entities among the first `upto`, in order.
    pub open spec fn entity_nodes(self, workspace: u128, locations: bool, upto: nat) -> Seq<GraphNode>
        decreases upto,
    {
        if 0 < upto <= self.entities.len() {
            let before = self.entity_nodes(workspace, locations, (upto - 1) as nat);
            if entity_selected(self.entities[upto - 1], workspace, locations) {
                before.push(self.node_of_entity(self.entities[upto - 1]))
            } else {
                before
            }
        } else {
            Seq::empty()
        }
    }

    /// The nodes of the concepts of `workspace` among the first `upto`, in
    /// order.
    pub open spec fn concept_nodes(self, workspace: u128, upto: nat) -> Seq<GraphNode>
        decreases upto,
    {
        if 0 < upto <= self.concepts.len() {
            let before = self.concept_nodes(workspace, (upto - 1) as nat);
            if self.concepts[upto - 1].workspace_id == workspace {
                before.push(self.node_of_concept(self.concepts[upto - 1]))
            } else {
                before
            }
        } else {
            Seq::empty()
        }
    }

    /// The nodes of a graph query: entity nodes, then location nodes, then
    /// concept nodes, each group only if the filter asks for it.
    pub open spec fn graph_nodes(self, workspace: u128, filter: CategoryFilter) -> Seq<GraphNode> {
        let entities = if filter.wants_entities() {
            self.entity_nodes(workspace, false, self.entities.len())
        } else {
            Seq::empty()
        };
        let locations = if filter.wants_locations() {
            self.entity_nodes(workspace, true, self.entities.len())
        } else {
            Seq::empty()
        };
        let concepts = if filter.wants_concepts() {
            self.concept_nodes(workspace, self.concepts.len())
        } else {
            Seq::empty()
        };
        entities + locations + concepts
    }

    /// The edges of `workspace` among the first `upto` whose source and
    /// target are both among `node_ids`, in order, as they are displayed.
    pub open spec fn edges_between(self, workspace: u128, node_ids: Seq<u128>, upto: nat) -> Seq<
        GraphEdgeOut,
    >
        decreases upto,
    {
        if 0 < upto <= self.edges.len() {
            let before = self.edges_between(workspace, node_ids, (upto - 1) as nat);
            if edge_joins(self.edges[upto - 1], workspace, node_ids) {
                before.push(displayed(self.edges[upto - 1]))
            } else {
                before
            }
        } else {
            Seq::empty()
        }
    }
}

/// Whether `edge` belongs to `workspace` and runs between two of `node_ids`.
pub open spec fn edge_joins(edge: GraphEdge, workspace: u128, node_ids: Seq<u128>) -> bool {
    edge.key.workspace_id == workspace && node_ids.contains(edge.key.source_id)
        && node_ids.contains(edge.key.target_id)
}

/// A stored edge as it is displayed.
pub open spec fn displayed(edge: GraphEdge) -> GraphEdgeOut {
    GraphEdgeOut {
        source: edge.key.source_id,
        target: edge.key.target_id,
        edge_type: edge.key.edge_kind,
        strength_tenths: edge.strength_tenths,
        label: edge.label,
        is_dashed: edge.is_dashed,
    }
}

/// The identifiers of `nodes`, in order.
pub open spec fn node_ids(nodes: Seq<GraphNode>) -> Seq<u128> {
    nodes.map_values(|n: GraphNode| n.id)
}

/// Whether a node of this type is among what `filter` asks for.
pub open spec fn filter_admits(filter: CategoryFilter, node_type: NodeType) -> bool {
    match node_type {
        NodeType::Entity => filter.wants_entities(),
        NodeType::Location => filter.wants_locations(),
        NodeType::Concept => filter.wants_concepts(),
    }
}

/// Every entity node is of the group that was asked for.
pub proof fn entity_nodes_have_type(s: StoreView, workspace: u128, locations: bool, upto: nat)
    ensures
        forall|k: int|
            0 <= k < s.entity_nodes(workspace, locations, upto).len() ==> (#[trigger] s.entity_nodes(
                workspace,
                locations,
                upto,
            )[k]).node_type == if locations {
                NodeType::Location
            } else {
                NodeType::Entity
            },
    decreases upto,
{
    if 0 < upto <= s.entities.len() {
        entity_nodes_have_type(s, workspace, locations, (upto - 1) as nat);
    }
}

/// Every concept node is a concept node.
pub proof fn concept_nodes_have_type(s: StoreView, workspace: u128, upto: nat)
    ensures
        forall|k: int|
            0 <= k < s.concept_nodes(workspace, upto).len() ==> (#[trigger] s.concept_nodes(
                workspace,
                upto,
            )[k]).node_type == NodeType::Concept,
    decreases upto,
{
    if 0 < upto <= s.concepts.len() {
        concept_nodes_have_type(s, workspace, (upto - 1) as nat);
    }
}

/// A graph query returns only nodes of the categories that its filter asks
/// for.
pub proof fn graph_nodes_obey_filter(s: StoreView, workspace: u128, filter: CategoryFilter)
    ensures
        forall|k: int|
            0 <= k < s.graph_nodes(workspace, filter).len() ==> filter_admits(
                filter,
                (#[trigger] s.graph_nodes(workspace, filter)[k]).node_type,
            ),
{
    entity_nodes_have_type(s, workspace, false, s.entities.len());
    entity_nodes_have_type(s, workspace, true, s.entities.len());
    concept_nodes_have_type(s, workspace, s.concepts.len());
}

/// Every displayed edge runs between two of the given nodes.
pub proof fn edges_between_stay_inside(s: StoreView, workspace: u128, ids: Seq<u128>, upto: nat)
    ensures
        forall|k: int|
            0 <= k < s.edges_between(workspace, ids, upto).len() ==> ids.contains(
                (#[trigger] s.edges_between(workspace, ids, upto)[k]).source,
            ) && ids.contains(s.edges_between(workspace, ids, upto)[k].target),
    decreases upto,
{
    if 0 < upto <= s.edges.len() {
        edges_between_stay_inside(s, workspace, ids, (upto - 1) as nat);
    }
}

impl GraphStore {
    /// The sum of the mention counts of `entity` over all notes.
    pub fn total_mentions(&self, entity: u128) -> (total: u128)
        ensures
            total == mention_total(self@.entity_links, entity, self@.entity_links.len()),
    {
        let links = self.entity_links();
        let mut total: u128 = 0;
        let mut i: usize = 0;
        while i < links.len()
            invariant
                0 <= i <= links.len(),
                links@ == self@.entity_links,
                total == mention_total(links@, entity, i as nat),
                total <= i * 0xffff_ffff_ffff_ffff,
            decreases links.len() - i,
        {
            if links[i].entity_id == entity {
                assert((i + 1) * 0xffff_ffff_ffff_ffff <= 0xffff_ffff_ffff_ffff
                    * 0xffff_ffff_ffff_ffff) by (nonlinear_arith)
                    requires
                        i + 1 <= 0xffff_ffff_ffff_ffff,
                ;
                assert((i + 1) * 0xffff_ffff_ffff_ffff == i * 0xffff_ffff_ffff_ffff
                    + 0xffff_ffff_ffff_ffff) by (nonlinear_arith);
                total = total + links[i].mention_count as u128;
            } else {
                assert((i + 1) * 0xffff_ffff_ffff_ffff >= i * 0xffff_ffff_ffff_ffff)
                    by (nonlinear_arith);
            }
            i += 1;
        }
        total
    }

    /// The number of notes that are tagged with `concept`.
    pub fn total_tags(&self, concept: u128) -> (total: u128)
        ensures
            total == tag_total(self@.concept_links, concept, self@.concept_links.len()),
    {
        let links = self.concept_links();
        let mut total: u128 = 0;
        let mut i: usize = 0;
        while i < links.len()
            invariant
                0 <= i <= links.len(),
                links@ == self@.concept_links,
                total == tag_total(links@, concept, i as nat),
                total <= i,
            decreases links.len() - i,
        {
            if links[i].concept_id == concept {
                total = total + 1;
            }
            i += 1;
        }
        total
    }

    /// Appends the nodes of the selected entities of `workspace` to `nodes`.
    fn push_entity_nodes(&self, workspace: u128, locations: bool, nodes: &mut Vec<GraphNode>)
        ensures
            final(nodes)@ == old(nodes)@ + self@.entity_nodes(
                workspace,
                locations,
                self@.entities.len(),
            ),
    {
        let entities = self.entities();
        let mut i: usize = 0;
        while i < entities.len()
            invariant
                0 <= i <= entities.len(),
                entities@ == self@.entities,
                nodes@ == old(nodes)@ + self@.entity_nodes(workspace, locations, i as nat),
            decreases entities.len() - i,
        {
            let entity = &entities[i];
            let is_location = match entity.category {
                EntityCategory::Location => true,
                _ => false,
            };
            if entity.workspace_id == workspace && is_location == locations {
                let node = GraphNode {
                    id: entity.id,
                    label: entity.name.clone(),
                    node_type: if is_location {
                        NodeType::Location
                    } else {
                        NodeType::Entity
                    },
                    entity_type: Some(entity.category),
                    note_count: self.total_mentions(entity.id),
                };
                assert(node == self@.node_of_entity(*entity));
                nodes.push(node);
            }
            i += 1;
        }
    }

    /// Appends the nodes of the concepts of `workspace` to `nodes`.
    fn push_concept_nodes(&self, workspace: u128, nodes: &mut Vec<GraphNode>)
        ensures
            final(nodes)@ == old(nodes)@ + self@.concept_nodes(workspace, self@.concepts.len()),
    {
        let concepts = self.concepts();
        let mut i: usize = 0;
        while i < concepts.len()
            invariant
                0 <= i <= concepts.len(),
                concepts@ == self@.concepts,
                nodes@ == old(nodes)@ + self@.concept_nodes(workspace, i as nat),
            decreases concepts.len() - i,
        {
            let concept = &concepts[i];
            if concept.workspace_id == workspace {
                let node = GraphNode {
                    id: concept.id,
                    label: concept.name.clone(),
                    node_type: NodeType::Concept,
                    entity_type: None,
                    note_count: self.total_tags(concept.id),
                };
                assert(node == self@.node_of_concept(*concept));
                nodes.push(node);
            }
            i += 1;
        }
    }

    /// Assembles the graph of `workspace` for display.
    ///
    /// The nodes are the people and artifacts, the locations and the
    /// concepts of the workspace, each group only if `filter` asks for it.
    /// The edges are the stored edges of the workspace whose source and
    /// target are both among those nodes. Callers should not rely on the
    /// order of either list.
    pub fn query_graph(&self, workspace: u128, filter: CategoryFilter) -> (graph: GraphData)
        ensures
            graph.nodes@ == self@.graph_nodes(workspace, filter),
            graph.edges@ == self@.edges_between(
                workspace,
                node_ids(graph.nodes@),
                self@.edges.len(),
            ),
            forall|k: int|
                0 <= k < graph.nodes@.len() ==> filter_admits(
                    filter,
                    (#[trigger] graph.nodes@[k]).node_type,
                ),
            forall|k: int|
                0 <= k < graph.edges@.len() ==> node_ids(graph.nodes@).contains(
                    (#[trigger] graph.edges@[k]).source,
                ) && node_ids(graph.nodes@).contains(graph.edges@[k].target),
    {
        let mut nodes: Vec<GraphNode> = Vec::new();
        if filter.includes_entities() {
            self.push_entity_nodes(workspace, false, &mut nodes);
        }
        if filter.includes_locations() {
            self.push_entity_nodes(workspace, true, &mut nodes);
        }
        if filter.includes_concepts() {
            self.push_concept_nodes(workspace, &mut nodes);
        }
        assert(nodes@ == self@.graph_nodes(workspace, filter));
        let mut ids: Vec<u128> = Vec::new();
        let mut k: usize = 0;
        while k < nodes.len()
            invariant
                0 <= k <= nodes.len(),
                ids@.len() == k,
                forall|j: int| 0 <= j < k ==> #[trigger] ids@[j] == nodes@[j].id,
            decreases nodes.len() - k,
        {
            ids.push(nodes[k].id);
            k += 1;
        }
        assert(ids@ == node_ids(nodes@));
        let stored = self.edges();
        let mut edges: Vec<GraphEdgeOut> = Vec::new();
        let mut i: usize = 0;
        while i < stored.len()
            invariant
                0 <= i <= stored.len(),
                stored@ == self@.edges,
                edges@ == self@.edges_between(workspace, ids@, i as nat),
            decreases stored.len() - i,
        {
            let edge = &stored[i];
            if edge.key.workspace_id == workspace && contains_id(&ids, edge.key.source_id)
                && contains_id(&ids, edge.key.target_id) {
                let shown = GraphEdgeOut {
                    source: edge.key.source_id,
                    target: edge.key.target_id,
                    edge_type: edge.key.edge_kind,
                    strength_tenths: edge.strength_tenths,
                    label: match &edge.label {
                        Some(text) => Some(text.clone()),
                        None => None,
                    },
                    is_dashed: edge.is_dashed,
                };
                assert(shown == displayed(*edge));
                edges.push(shown);
            }
            i += 1;
        }
        proof {
            graph_nodes_obey_filter(self@, workspace, filter);
            edges_between_stay_inside(self@, workspace, ids@, self@.edges.len());
        }
        GraphData { nodes, edges }
    }
}

} // verus!
