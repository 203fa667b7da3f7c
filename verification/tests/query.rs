use archivemind::document::{AttrField, DocNode, NodeAttrs};
use archivemind::query::{CategoryFilter, GraphData, GraphEdgeOut, GraphFilter, GraphNode, NodeType};
use archivemind::sync::sync_note_links;
use archivemind::store::{
    EdgeKey, EdgeKind, EntityCategory, GraphEdge, GraphStore, NodeKind, NoteConceptLink,
    NoteEntityLink,
};

const WS: u128 = 0x1000;
const OTHER_WS: u128 = 0x2000;
const PRIYA: u128 = 0xa1;
const SIDA: u128 = 0xa2;
const KANDY: u128 = 0xa3;
const GALLE: u128 = 0xa4;
const MEDICINE: u128 = 0xc1;
const RITUAL: u128 = 0xc2;
const ELSEWHERE: u128 = 0xe1;

fn mention(node_type: &str, id: u128) -> DocNode {
    DocNode {
        node_type: Some(node_type.to_string()),
        attrs: Some(NodeAttrs {
            fields: vec![AttrField { name: "id".to_string(), text: Some(format!("{:032x}", id)) }],
        }),
        content: None,
    }
}

fn doc(entities: &[u128], concepts: &[u128]) -> DocNode {
    let mut children: Vec<DocNode> = Vec::new();
    for e in entities {
        children.push(mention("entityMention", *e));
    }
    for c in concepts {
        children.push(mention("conceptTag", *c));
    }
    DocNode { node_type: Some("doc".to_string()), attrs: None, content: Some(children) }
}

fn key(source_kind: NodeKind, source: u128, target_kind: NodeKind, target: u128, kind: EdgeKind) -> EdgeKey {
    EdgeKey {
        workspace_id: WS,
        source_kind,
        source_id: source,
        target_kind,
        target_id: target,
        edge_kind: kind,
    }
}

fn sample() -> GraphStore {
    let mut store = GraphStore::new();
    assert!(store.add_entity(PRIYA, WS, "Priya".to_string(), EntityCategory::Person));
    assert!(store.add_entity(KANDY, WS, "Kandy".to_string(), EntityCategory::Location));
    assert!(store.add_entity(SIDA, WS, "Sida leaf".to_string(), EntityCategory::Artifact));
    assert!(store.add_entity(GALLE, WS, "Galle".to_string(), EntityCategory::Location));
    assert!(store.add_entity(ELSEWHERE, OTHER_WS, "Elsewhere".to_string(), EntityCategory::Person));
    assert!(store.add_concept(MEDICINE, WS, "Traditional Medicine".to_string()));
    assert!(store.add_concept(RITUAL, WS, "Ritual".to_string()));
    assert!(store.add_concept(0xc9, OTHER_WS, "Foreign".to_string()));
    for n in [1u128, 2, 3] {
        assert!(store.add_note(n, WS));
    }
    assert_eq!(sync_note_links(&mut store, WS, 1, &doc(&[PRIYA, SIDA, PRIYA, KANDY], &[MEDICINE, RITUAL])), Ok(()));
    assert_eq!(sync_note_links(&mut store, WS, 2, &doc(&[PRIYA, KANDY], &[MEDICINE])), Ok(()));
    assert_eq!(sync_note_links(&mut store, WS, 3, &doc(&[GALLE], &[])), Ok(()));
    assert!(store.insert_edge(GraphEdge {
        key: key(NodeKind::Concept, MEDICINE, NodeKind::Concept, RITUAL, EdgeKind::ConceptConcept),
        strength_tenths: 6,
        label: Some("Related to".to_string()),
        is_dashed: false,
    }));
    assert!(store.insert_edge(GraphEdge {
        key: key(NodeKind::Entity, KANDY, NodeKind::Entity, GALLE, EdgeKind::CrossRegion),
        strength_tenths: 3,
        label: Some("Trade route".to_string()),
        is_dashed: true,
    }));
    assert!(store.insert_edge(GraphEdge {
        key: EdgeKey {
            workspace_id: OTHER_WS,
            source_kind: NodeKind::Concept,
            source_id: MEDICINE,
            target_kind: NodeKind::Concept,
            target_id: RITUAL,
            edge_kind: EdgeKind::ConceptConcept,
        },
        strength_tenths: 9,
        label: None,
        is_dashed: false,
    }));
    store
}

fn node_ids(graph: &GraphData) -> Vec<u128> {
    graph.nodes.iter().map(|n| n.id).collect()
}

fn edge_ends(graph: &GraphData) -> Vec<(u128, u128, EdgeKind, u8)> {
    let mut rows: Vec<(u128, u128, u8, EdgeKind)> = graph
        .edges
        .iter()
        .map(|e| (e.source, e.target, e.strength_tenths, e.edge_type))
        .collect();
    rows.sort_by_key(|r| (r.0, r.1, r.2));
    rows.into_iter().map(|r| (r.0, r.1, r.3, r.2)).collect()
}

#[test]
fn concepts_only() {
    let graph = sample().query_graph(WS, CategoryFilter::Concepts);
    assert_eq!(node_ids(&graph), vec![MEDICINE, RITUAL]);
    assert!(graph.nodes.iter().all(|n| n.node_type == NodeType::Concept));
    assert_eq!(
        graph.nodes[0],
        GraphNode {
            id: MEDICINE,
            label: "Traditional Medicine".to_string(),
            node_type: NodeType::Concept,
            entity_type: None,
            note_count: 2,
        }
    );
    assert_eq!(graph.nodes[1].note_count, 1);
    assert_eq!(
        graph.edges,
        vec![GraphEdgeOut {
            source: MEDICINE,
            target: RITUAL,
            edge_type: EdgeKind::ConceptConcept,
            strength_tenths: 6,
            label: Some("Related to".to_string()),
            is_dashed: false,
        }]
    );
}

#[test]
fn entities_only() {
    let graph = sample().query_graph(WS, CategoryFilter::Entities);
    assert_eq!(node_ids(&graph), vec![PRIYA, SIDA]);
    assert_eq!(
        graph.nodes[0],
        GraphNode {
            id: PRIYA,
            label: "Priya".to_string(),
            node_type: NodeType::Entity,
            entity_type: Some(EntityCategory::Person),
            note_count: 3,
        }
    );
    assert_eq!(graph.nodes[1].entity_type, Some(EntityCategory::Artifact));
    assert_eq!(graph.nodes[1].note_count, 1);
    assert_eq!(edge_ends(&graph), vec![(PRIYA, SIDA, EdgeKind::EntityCoMention, 1)]);
}

#[test]
fn locations_only() {
    let graph = sample().query_graph(WS, CategoryFilter::Locations);
    assert_eq!(node_ids(&graph), vec![KANDY, GALLE]);
    assert!(graph.nodes.iter().all(|n| n.node_type == NodeType::Location));
    assert!(graph.nodes.iter().all(|n| n.entity_type == Some(EntityCategory::Location)));
    assert_eq!(graph.nodes[0].note_count, 2);
    assert_eq!(graph.nodes[1].note_count, 1);
    assert_eq!(edge_ends(&graph), vec![(KANDY, GALLE, EdgeKind::CrossRegion, 3)]);
    assert_eq!(graph.edges[0].label, Some("Trade route".to_string()));
    assert!(graph.edges[0].is_dashed);
}

#[test]
fn everything() {
    let store = sample();
    let graph = store.query_graph(WS, CategoryFilter::All);
    assert_eq!(node_ids(&graph), vec![PRIYA, SIDA, KANDY, GALLE, MEDICINE, RITUAL]);
    let ids = node_ids(&graph);
    for e in &graph.edges {
        assert!(ids.contains(&e.source) && ids.contains(&e.target));
    }
    let stored_here = store.edges().iter().filter(|e| e.key.workspace_id == WS).count();
    assert_eq!(graph.edges.len(), stored_here);
    assert!(edge_ends(&graph).contains(&(PRIYA, KANDY, EdgeKind::EntityCoMention, 2)));
    assert!(edge_ends(&graph).contains(&(PRIYA, MEDICINE, EdgeKind::EntityConcept, 2)));
    assert!(edge_ends(&graph).contains(&(SIDA, RITUAL, EdgeKind::EntityConcept, 1)));
    assert!(edge_ends(&graph).contains(&(MEDICINE, RITUAL, EdgeKind::ConceptConcept, 6)));
}

#[test]
fn unknown_filter_selects_nothing() {
    let graph = sample().query_graph(WS, CategoryFilter::Unknown);
    assert!(graph.nodes.is_empty());
    assert!(graph.edges.is_empty());
}

#[test]
fn another_workspace_sees_its_own_graph() {
    let graph = sample().query_graph(OTHER_WS, CategoryFilter::All);
    assert_eq!(node_ids(&graph), vec![ELSEWHERE, 0xc9]);
    assert!(graph.edges.is_empty());
    let empty = GraphStore::new().query_graph(WS, CategoryFilter::All);
    assert!(empty.nodes.is_empty() && empty.edges.is_empty());
}

#[test]
fn filter_words() {
    let word = |w: Option<&str>| GraphFilter { filter: w.map(|s| s.to_string()) }.category();
    assert_eq!(word(None), CategoryFilter::All);
    assert_eq!(word(Some("all")), CategoryFilter::All);
    assert_eq!(word(Some("entities")), CategoryFilter::Entities);
    assert_eq!(word(Some("concepts")), CategoryFilter::Concepts);
    assert_eq!(word(Some("locations")), CategoryFilter::Locations);
    assert_eq!(word(Some("Entities")), CategoryFilter::Unknown);
    assert_eq!(word(Some("")), CategoryFilter::Unknown);
    assert_eq!(word(Some("notes")), CategoryFilter::Unknown);
}

#[test]
fn what_each_filter_includes() {
    let table = [
        (CategoryFilter::Entities, true, false, false),
        (CategoryFilter::Concepts, false, true, false),
        (CategoryFilter::Locations, false, false, true),
        (CategoryFilter::All, true, true, true),
        (CategoryFilter::Unknown, false, false, false),
    ];
    for (filter, entities, concepts, locations) in table {
        assert_eq!(filter.includes_entities(), entities);
        assert_eq!(filter.includes_concepts(), concepts);
        assert_eq!(filter.includes_locations(), locations);
    }
}

#[test]
fn node_counts_add_up_over_all_notes() {
    let mut store = GraphStore::new();
    assert!(store.add_entity(PRIYA, WS, "Priya".to_string(), EntityCategory::Person));
    assert!(store.add_concept(MEDICINE, WS, "Medicine".to_string()));
    assert_eq!(store.total_mentions(PRIYA), 0);
    assert_eq!(store.total_tags(MEDICINE), 0);
    assert!(store.insert_entity_link(NoteEntityLink {
        note_id: 1,
        entity_id: PRIYA,
        mention_count: u64::MAX,
    }));
    assert!(store.insert_entity_link(NoteEntityLink { note_id: 2, entity_id: PRIYA, mention_count: 7 }));
    assert!(store.insert_entity_link(NoteEntityLink { note_id: 2, entity_id: SIDA, mention_count: 9 }));
    assert!(store.insert_concept_link(NoteConceptLink { note_id: 1, concept_id: MEDICINE }));
    assert!(store.insert_concept_link(NoteConceptLink { note_id: 2, concept_id: MEDICINE }));
    assert!(store.insert_concept_link(NoteConceptLink { note_id: 2, concept_id: RITUAL }));
    assert_eq!(store.total_mentions(PRIYA), u64::MAX as u128 + 7);
    assert_eq!(store.total_mentions(SIDA), 9);
    assert_eq!(store.total_tags(MEDICINE), 2);
    let graph = store.query_graph(WS, CategoryFilter::All);
    assert_eq!(graph.nodes[0].note_count, u64::MAX as u128 + 7);
    assert_eq!(graph.nodes[1].note_count, 2);
}
