//! The tables that the graph is derived from and stored in: notes, entities,
//! concepts, the links of each note, and the relationship edges.

use vstd::prelude::*;

verus! {

/// A note, as far as the graph depends on it.
#[derive(Clone, Copy, Debug, PartialEq, Eq, Structural)]
pub struct Note {
    pub id: u128,
    pub workspace_id: u128,
    /// Set once the note is moved to the trash. A deleted note takes no part
    /// in any recomputation.
    pub deleted: bool,
}

/// What kind of thing an entity is.
#[derive(Clone, Copy, Debug, PartialEq, Eq, Structural)]
pub enum EntityCategory {
    Person,
    Location,
    Artifact,
}

/// A person, place or object that notes refer to.
#[derive(Debug, PartialEq, Eq)]
pub struct Entity {
    pub id: u128,
    pub workspace_id: u128,
    pub name: String,
    pub category: EntityCategory,
}

/// A topic that notes are tagged with.
#[derive(Debug, PartialEq, Eq)]
pub struct Concept {
    pub id: u128,
    pub workspace_id: u128,
    pub name: String,
}

/// A note refers to an entity `mention_count` times; at least once.
#[derive(Clone, Copy, Debug, PartialEq, Eq, Structural)]
pub struct NoteEntityLink {
    pub note_id: u128,
    pub entity_id: u128,
    pub mention_count: u64,
}

/// A note is tagged with a concept.
#[derive(Clone, Copy, Debug, PartialEq, Eq, Structural)]
pub struct NoteConceptLink {
    pub note_id: u128,
    pub concept_id: u128,
}

/// The kind of an edge's endpoint.
#[derive(Clone, Copy, Debug, PartialEq, Eq, Structural)]
pub enum NodeKind {
    Entity,
    Concept,
    Note,
}

/// The kind of a relationship. The first two are derived from the links of
/// notes; the others are stored and shown, and never recomputed.
#[derive(Clone, Copy, Debug, PartialEq, Eq, Structural)]
pub enum EdgeKind {
    EntityCoMention,
    EntityConcept,
    EntityLocation,
    LocationConcept,
    ConceptConcept,
    CrossRegion,
}

/// What identifies an edge: no two edges of a store agree on all of this.
#[derive(Clone, Copy, Debug, PartialEq, Eq, Structural)]
pub struct EdgeKey {
    pub workspace_id: u128,
    pub source_kind: NodeKind,
    pub source_id: u128,
    pub target_kind: NodeKind,
    pub target_id: u128,
    pub edge_kind: EdgeKind,
}

/// A weighted relationship between two nodes. The strength is counted in
/// tenths: `strength_tenths` is between 0 and 10, for a strength of 0.0 to 1.0.
#[derive(Debug, PartialEq, Eq)]
pub struct GraphEdge {
    pub key: EdgeKey,
    pub strength_tenths: u8,
    pub label: Option<String>,
    pub is_dashed: bool,
}

impl GraphEdge {
    /// A copy of this edge.
    pub fn duplicate(&self) -> (copy: GraphEdge)
        ensures
            copy == *self,
    {
        GraphEdge {
            key: self.key,
            strength_tenths: self.strength_tenths,
            label: match &self.label {
                Some(text) => Some(text.clone()),
                None => None,
            },
            is_dashed: self.is_dashed,
        }
    }
}

/// Whether a note with this identifier is among `notes`.
pub open spec fn has_note(notes: Seq<Note>, id: u128) -> bool {
    exists|i: int| 0 <= i < notes.len() && (#[trigger] notes[i]).id == id
}

/// Whether an entity with this identifier is among `entities`.
pub open spec fn has_entity(entities: Seq<Entity>, id: u128) -> bool {
    exists|i: int| 0 <= i < entities.len() && (#[trigger] entities[i]).id == id
}

/// Whether a concept with this identifier is among `concepts`.
pub open spec fn has_concept(concepts: Seq<Concept>, id: u128) -> bool {
    exists|i: int| 0 <= i < concepts.len() && (#[trigger] concepts[i]).id == id
}

/// Whether `link` joins `note` and `entity`.
pub open spec fn joins_entity(link: NoteEntityLink, note: u128, entity: u128) -> bool {
    link.note_id == note && link.entity_id == entity
}

/// Whether `link` joins `note` and `concept`.
pub open spec fn joins_concept(link: NoteConceptLink, note: u128, concept: u128) -> bool {
    link.note_id == note && link.concept_id == concept
}

/// Whether `links` holds a row for `note` and `entity`.
pub open spec fn has_entity_link(links: Seq<NoteEntityLink>, note: u128, entity: u128) -> bool {
    exists|i: int| 0 <= i < links.len() && joins_entity(#[trigger] links[i], note, entity)
}

/// The mention count of the row for `note` and `entity`, if there is one.
pub open spec fn entity_link_count(links: Seq<NoteEntityLink>, note: u128, entity: u128) -> Option<
    u64,
> {
    if has_entity_link(links, note, entity) {
        let i = choose|i: int| 0 <= i < links.len() && joins_entity(#[trigger] links[i], note, entity);
        Some(links[i].mention_count)
    } else {
        None
    }
}

/// Whether `links` holds a row for `note` and `concept`.
pub open spec fn has_concept_link(links: Seq<NoteConceptLink>, note: u128, concept: u128) -> bool {
    exists|i: int| 0 <= i < links.len() && joins_concept(#[trigger] links[i], note, concept)
}

/// Whether `edges` holds an edge with this key.
pub open spec fn has_edge(edges: Seq<GraphEdge>, key: EdgeKey) -> bool {
    exists|i: int| 0 <= i < edges.len() && (#[trigger] edges[i]).key == key
}

/// The edge with this key, if there is one.
pub open spec fn edge_at(edges: Seq<GraphEdge>, key: EdgeKey) -> Option<GraphEdge> {
    if has_edge(edges, key) {
        let i = choose|i: int| 0 <= i < edges.len() && (#[trigger] edges[i]).key == key;
        Some(edges[i])
    } else {
        None
    }
}

/// `notes` with the deletion mark of the note `id` set to `deleted`.
pub open spec fn with_deleted(notes: Seq<Note>, id: u128, deleted: bool) -> Seq<Note> {
    Seq::new(
        notes.len(),
        |i: int|
            if notes[i].id == id {
                Note { deleted, ..notes[i] }
            } else {
                notes[i]
            },
    )
}

/// No two notes share an identifier.
pub open spec fn unique_notes(notes: Seq<Note>) -> bool {
    forall|i: int, j: int|
        0 <= i < j < notes.len() ==> (#[trigger] notes[i]).id != (#[trigger] notes[j]).id
}

/// No two entities share an identifier.
pub open spec fn unique_entities(entities: Seq<Entity>) -> bool {
    forall|i: int, j: int|
        0 <= i < j < entities.len() ==> (#[trigger] entities[i]).id != (#[trigger] entities[j]).id
}

/// No two concepts share an identifier.
pub open spec fn unique_concepts(concepts: Seq<Concept>) -> bool {
    forall|i: int, j: int|
        0 <= i < j < concepts.len() ==> (#[trigger] concepts[i]).id != (#[trigger] concepts[j]).id
}

/// At most one row for each note and entity, each with a count of at least
/// one.
pub open spec fn valid_entity_links(links: Seq<NoteEntityLink>) -> bool {
    &&& forall|i: int, j: int|
        0 <= i < j < links.len() ==> !joins_entity(
            #[trigger] links[i],
            (#[trigger] links[j]).note_id,
            links[j].entity_id,
        )
    &&& forall|i: int| 0 <= i < links.len() ==> (#[trigger] links[i]).mention_count >= 1
}

/// At most one row for each note and concept.
pub open spec fn valid_concept_links(links: Seq<NoteConceptLink>) -> bool {
    forall|i: int, j: int|
        0 <= i < j < links.len() ==> !joins_concept(
            #[trigger] links[i],
            (#[trigger] links[j]).note_id,
            links[j].concept_id,
        )
}

/// At most one edge for each key, each with a strength of at most ten tenths.
pub open spec fn valid_edges(edges: Seq<GraphEdge>) -> bool {
    &&& forall|i: int, j: int|
        0 <= i < j < edges.len() ==> (#[trigger] edges[i]).key != (#[trigger] edges[j]).key
    &&& forall|i: int| 0 <= i < edges.len() ==> (#[trigger] edges[i]).strength_tenths <= 10
}

/// The row at a position is the row that its key finds.
pub proof fn entity_link_at(links: Seq<NoteEntityLink>, i: int)
    requires
        valid_entity_links(links),
        0 <= i < links.len(),
    ensures
        has_entity_link(links, links[i].note_id, links[i].entity_id),
        entity_link_count(links, links[i].note_id, links[i].entity_id) == Some(
            links[i].mention_count,
        ),
{
    let note = links[i].note_id;
    let entity = links[i].entity_id;
    assert(joins_entity(links[i], note, entity));
    let c = choose|c: int| 0 <= c < links.len() && joins_entity(#[trigger] links[c], note, entity);
    if c < i {
        assert(!joins_entity(links[c], links[i].note_id, links[i].entity_id));
    } else if i < c {
        assert(!joins_entity(links[i], links[c].note_id, links[c].entity_id));
    }
}

/// The edge at a position is the edge that its key finds.
pub proof fn edge_at_position(edges: Seq<GraphEdge>, i: int)
    requires
        valid_edges(edges),
        0 <= i < edges.len(),
    ensures
        has_edge(edges, edges[i].key),
        edge_at(edges, edges[i].key) == Some(edges[i]),
{
    let key = edges[i].key;
    let c = choose|c: int| 0 <= c < edges.len() && (#[trigger] edges[c]).key == key;
    if c < i {
        assert(edges[c].key != edges[i].key);
    } else if i < c {
        assert(edges[i].key != edges[c].key);
    }
}

/// One workspace-spanning state of the tables, as sequences of rows.
pub struct StoreView {
    pub notes: Seq<Note>,
    pub entities: Seq<Entity>,
    pub concepts: Seq<Concept>,
    pub entity_links: Seq<NoteEntityLink>,
    pub concept_links: Seq<NoteConceptLink>,
    pub edges: Seq<GraphEdge>,
}

/// Whether `note` belongs to `workspace` and is not deleted.
pub open spec fn is_live_in(note: Note, workspace: u128) -> bool {
    note.workspace_id == workspace && !note.deleted
}

impl StoreView {
    /// What every [`GraphStore`] satisfies: the keys of each table are unique,
    /// mention counts are positive and strengths are at most ten tenths.
    pub open spec fn well_formed(self) -> bool {
        &&& unique_notes(self.notes)
        &&& unique_entities(self.entities)
        &&& unique_concepts(self.concepts)
        &&& valid_entity_links(self.entity_links)
        &&& valid_concept_links(self.concept_links)
        &&& valid_edges(self.edges)
    }

    /// How often `note` mentions `entity`, if it is linked to it.
    pub open spec fn entity_link(self, note: u128, entity: u128) -> Option<u64> {
        entity_link_count(self.entity_links, note, entity)
    }

    /// Whether `note` is linked to `entity`.
    pub open spec fn links_entity(self, note: u128, entity: u128) -> bool {
        has_entity_link(self.entity_links, note, entity)
    }

    /// Whether `note` is linked to `concept`.
    pub open spec fn links_concept(self, note: u128, concept: u128) -> bool {
        has_concept_link(self.concept_links, note, concept)
    }

    /// The stored edge with this key, if there is one.
    pub open spec fn edge(self, key: EdgeKey) -> Option<GraphEdge> {
        edge_at(self.edges, key)
    }

    /// Whether `note` counts towards the relationship of entities `a` and
    /// `b` in `workspace`: it is a live note there and linked to both.
    pub open spec fn note_joins_entities(self, note: Note, workspace: u128, a: u128, b: u128) -> bool {
        is_live_in(note, workspace) && self.links_entity(note.id, a) && self.links_entity(
            note.id,
            b,
        )
    }

    /// Whether `note` counts towards the relationship of `entity` and
    /// `concept` in `workspace`.
    pub open spec fn note_joins_entity_concept(
        self,
        note: Note,
        workspace: u128,
        entity: u128,
        concept: u128,
    ) -> bool {
        is_live_in(note, workspace) && self.links_entity(note.id, entity) && self.links_concept(
            note.id,
            concept,
        )
    }

    /// Among the first `upto` notes, the number of those that count towards
    /// the relationship of entities `a` and `b`.
    pub open spec fn shared_entity_notes_upto(self, workspace: u128, a: u128, b: u128, upto: nat) -> nat
        decreases upto,
    {
        if 0 < upto <= self.notes.len() {
            self.shared_entity_notes_upto(workspace, a, b, (upto - 1) as nat) + if self.note_joins_entities(
                self.notes[upto - 1],
                workspace,
                a,
                b,
            ) {
                1nat
            } else {
                0nat
            }
        } else {
            0
        }
    }

    /// The number of live notes of `workspace` that are linked to both of the
    /// entities `a` and `b`.
    pub open spec fn shared_entity_notes(self, workspace: u128, a: u128, b: u128) -> nat {
        self.shared_entity_notes_upto(workspace, a, b, self.notes.len())
    }

    /// Among the first `upto` notes, the number of those that count towards
    /// the relationship of `entity` and `concept`.
    pub open spec fn shared_concept_notes_upto(
        self,
        workspace: u128,
        entity: u128,
        concept: u128,
        upto: nat,
    ) -> nat
        decreases upto,
    {
        if 0 < upto <= self.notes.len() {
            self.shared_concept_notes_upto(workspace, entity, concept, (upto - 1) as nat)
                + if self.note_joins_entity_concept(
                self.notes[upto - 1],
                workspace,
                entity,
                concept,
            ) {
                1nat
            } else {
                0nat
            }
        } else {
            0
        }
    }

    /// The number of live notes of `workspace` that are linked to both
    /// `entity` and `concept`.
    pub open spec fn shared_concept_notes(self, workspace: u128, entity: u128, concept: u128) -> nat {
        self.shared_concept_notes_upto(workspace, entity, concept, self.notes.len())
    }
}

/// The number of notes that count towards a pair of entities depends only
/// on the notes and on which notes are linked to the two entities.
pub proof fn shared_entity_notes_by_links(
    s: StoreView,
    t: StoreView,
    workspace: u128,
    a: u128,
    b: u128,
    upto: nat,
)
    requires
        s.notes == t.notes,
        forall|n: u128| #[trigger] s.links_entity(n, a) == t.links_entity(n, a),
        forall|n: u128| #[trigger] s.links_entity(n, b) == t.links_entity(n, b),
    ensures
        s.shared_entity_notes_upto(workspace, a, b, upto) == t.shared_entity_notes_upto(
            workspace,
            a,
            b,
            upto,
        ),
    decreases upto,
{
    if 0 < upto <= s.notes.len() {
        shared_entity_notes_by_links(s, t, workspace, a, b, (upto - 1) as nat);
        let n = s.notes[upto - 1];
        assert(s.links_entity(n.id, a) == t.links_entity(n.id, a));
        assert(s.links_entity(n.id, b) == t.links_entity(n.id, b));
    }
}

/// The number of notes that count towards an entity and a concept depends
/// only on the notes and on which notes are linked to the two.
pub proof fn shared_concept_notes_by_links(
    s: StoreView,
    t: StoreView,
    workspace: u128,
    entity: u128,
    concept: u128,
    upto: nat,
)
    requires
        s.notes == t.notes,
        forall|n: u128| #[trigger] s.links_entity(n, entity) == t.links_entity(n, entity),
        forall|n: u128| #[trigger] s.links_concept(n, concept) == t.links_concept(n, concept),
    ensures
        s.shared_concept_notes_upto(workspace, entity, concept, upto)
            == t.shared_concept_notes_upto(workspace, entity, concept, upto),
    decreases upto,
{
    if 0 < upto <= s.notes.len() {
        shared_concept_notes_by_links(s, t, workspace, entity, concept, (upto - 1) as nat);
        let n = s.notes[upto - 1];
        assert(s.links_entity(n.id, entity) == t.links_entity(n.id, entity));
        assert(s.links_concept(n.id, concept) == t.links_concept(n.id, concept));
    }
}

/// The tables of the knowledge graph. Rows are added through the methods
/// below, which keep the keys of each table unique.
pub struct GraphStore {
    notes: Vec<Note>,
    entities: Vec<Entity>,
    concepts: Vec<Concept>,
    entity_links: Vec<NoteEntityLink>,
    concept_links: Vec<NoteConceptLink>,
    edges: Vec<GraphEdge>,
}

impl View for GraphStore {
    type V = StoreView;

    closed spec fn view(&self) -> StoreView {
        StoreView {
            notes: self.notes@,
            entities: self.entities@,
            concepts: self.concepts@,
            entity_links: self.entity_links@,
            concept_links: self.concept_links@,
            edges: self.edges@,
        }
    }
}

impl GraphStore {
    #[verifier::type_invariant]
    pub open spec fn inv(self) -> bool {
        self@.well_formed()
    }

    /// A store without rows.
    pub fn new() -> (store: GraphStore)
        ensures
            store@.notes.len() == 0,
            store@.entities.len() == 0,
            store@.concepts.len() == 0,
            store@.entity_links.len() == 0,
            store@.concept_links.len() == 0,
            store@.edges.len() == 0,
            store@.well_formed(),
    {
        GraphStore {
            notes: Vec::new(),
            entities: Vec::new(),
            concepts: Vec::new(),
            entity_links: Vec::new(),
            concept_links: Vec::new(),
            edges: Vec::new(),
        }
    }

    /// The notes.
    pub fn notes(&self) -> (rows: &Vec<Note>)
        ensures
            rows@ == self@.notes,
            self@.well_formed(),
    {
        proof {
            use_type_invariant(self);
        }
        &self.notes
    }

    /// The entities.
    pub fn entities(&self) -> (rows: &Vec<Entity>)
        ensures
            rows@ == self@.entities,
            self@.well_formed(),
    {
        proof {
            use_type_invariant(self);
        }
        &self.entities
    }

    /// The concepts.
    pub fn concepts(&self) -> (rows: &Vec<Concept>)
        ensures
            rows@ == self@.concepts,
            self@.well_formed(),
    {
        proof {
            use_type_invariant(self);
        }
        &self.concepts
    }

    /// The links between notes and entities.
    pub fn entity_links(&self) -> (rows: &Vec<NoteEntityLink>)
        ensures
            rows@ == self@.entity_links,
            self@.well_formed(),
    {
        proof {
            use_type_invariant(self);
        }
        &self.entity_links
    }

    /// The links between notes and concepts.
    pub fn concept_links(&self) -> (rows: &Vec<NoteConceptLink>)
        ensures
            rows@ == self@.concept_links,
            self@.well_formed(),
    {
        proof {
            use_type_invariant(self);
        }
        &self.concept_links
    }

    /// The edges.
    pub fn edges(&self) -> (rows: &Vec<GraphEdge>)
        ensures
            rows@ == self@.edges,
            self@.well_formed(),
    {
        proof {
            use_type_invariant(self);
        }
        &self.edges
    }

    /// The position of the note with this identifier.
    pub fn note_position(&self, id: u128) -> (r: Option<usize>)
        ensures
            match r {
                Some(i) => i < self@.notes.len() && self@.notes[i as int].id == id,
                None => !has_note(self@.notes, id),
            },
    {
        let mut i: usize = 0;
        while i < self.notes.len()
            invariant
                0 <= i <= self.notes.len(),
                forall|j: int| 0 <= j < i ==> (#[trigger] self.notes[j]).id != id,
            decreases self.notes.len() - i,
        {
            if self.notes[i].id == id {
                return Some(i);
            }
            i += 1;
        }
        None
    }

    /// Whether there is an entity with this identifier.
    pub fn contains_entity(&self, id: u128) -> (r: bool)
        ensures
            r == has_entity(self@.entities, id),
    {
        let mut i: usize = 0;
        while i < self.entities.len()
            invariant
                0 <= i <= self.entities.len(),
                forall|j: int| 0 <= j < i ==> (#[trigger] self.entities[j]).id != id,
            decreases self.entities.len() - i,
        {
            if self.entities[i].id == id {
                return true;
            }
            i += 1;
        }
        false
    }

    /// Whether there is a concept with this identifier.
    pub fn contains_concept(&self, id: u128) -> (r: bool)
        ensures
            r == has_concept(self@.concepts, id),
    {
        let mut i: usize = 0;
        while i < self.concepts.len()
            invariant
                0 <= i <= self.concepts.len(),
                forall|j: int| 0 <= j < i ==> (#[trigger] self.concepts[j]).id != id,
            decreases self.concepts.len() - i,
        {
            if self.concepts[i].id == id {
                return true;
            }
            i += 1;
        }
        false
    }

    /// How often `note` mentions `entity`, if it is linked to it.
    pub fn mention_count(&self, note: u128, entity: u128) -> (r: Option<u64>)
        ensures
            r == self@.entity_link(note, entity),
    {
        proof {
            use_type_invariant(self);
        }
        let mut i: usize = 0;
        while i < self.entity_links.len()
            invariant
                0 <= i <= self.entity_links.len(),
                valid_entity_links(self.entity_links@),
                forall|j: int| 0 <= j < i ==> !joins_entity(#[trigger] self.entity_links[j], note, entity),
            decreases self.entity_links.len() - i,
        {
            if self.entity_links[i].note_id == note && self.entity_links[i].entity_id == entity {
                proof {
                    entity_link_at(self.entity_links@, i as int);
                }
                return Some(self.entity_links[i].mention_count);
            }
            i += 1;
        }
        None
    }

    /// Whether `note` is linked to `entity`.
    pub fn is_linked_to_entity(&self, note: u128, entity: u128) -> (r: bool)
        ensures
            r == self@.links_entity(note, entity),
    {
        self.mention_count(note, entity).is_some()
    }

    /// Whether `note` is linked to `concept`.
    pub fn is_linked_to_concept(&self, note: u128, concept: u128) -> (r: bool)
        ensures
            r == self@.links_concept(note, concept),
    {
        let mut i: usize = 0;
        while i < self.concept_links.len()
            invariant
                0 <= i <= self.concept_links.len(),
                forall|j: int| 0 <= j < i ==> !joins_concept(#[trigger] self.concept_links[j], note, concept),
            decreases self.concept_links.len() - i,
        {
            if self.concept_links[i].note_id == note && self.concept_links[i].concept_id == concept {
                return true;
            }
            i += 1;
        }
        false
    }

    /// The position of the edge with this key.
    pub fn edge_position(&self, key: EdgeKey) -> (r: Option<usize>)
        ensures
            match r {
                Some(i) => i < self@.edges.len() && self@.edge(key) == Some(self@.edges[i as int]),
                None => self@.edge(key) is None,
            },
    {
        proof {
            use_type_invariant(self);
        }
        let mut i: usize = 0;
        while i < self.edges.len()
            invariant
                0 <= i <= self.edges.len(),
                valid_edges(self.edges@),
                forall|j: int| 0 <= j < i ==> (#[trigger] self.edges[j]).key != key,
            decreases self.edges.len() - i,
        {
            if self.edges[i].key == key {
                proof {
                    edge_at_position(self.edges@, i as int);
                }
                return Some(i);
            }
            i += 1;
        }
        None
    }

    /// The strength, in tenths, of the edge with this key.
    pub fn edge_strength(&self, key: EdgeKey) -> (r: Option<u8>)
        ensures
            r == match self@.edge(key) {
                Some(edge) => Some(edge.strength_tenths),
                None => None,
            },
    {
        match self.edge_position(key) {
            Some(i) => Some(self.edges[i].strength_tenths),
            None => None,
        }
    }

    /// Puts `rows` in the place of the links between notes and entities.
    pub(crate) fn set_entity_links(&mut self, rows: Vec<NoteEntityLink>)
        requires
            valid_entity_links(rows@),
        ensures
            final(self)@ == (StoreView { entity_links: rows@, ..old(self)@ }),
            final(self)@.well_formed(),
    {
        proof {
            use_type_invariant(&*self);
        }
        self.entity_links = rows;
    }

    /// Puts `rows` in the place of the links between notes and concepts.
    pub(crate) fn set_concept_links(&mut self, rows: Vec<NoteConceptLink>)
        requires
            valid_concept_links(rows@),
        ensures
            final(self)@ == (StoreView { concept_links: rows@, ..old(self)@ }),
            final(self)@.well_formed(),
    {
        proof {
            use_type_invariant(&*self);
        }
        self.concept_links = rows;
    }

    /// Puts `rows` in the place of the edges.
    pub(crate) fn set_edges(&mut self, rows: Vec<GraphEdge>)
        requires
            valid_edges(rows@),
        ensures
            final(self)@ == (StoreView { edges: rows@, ..old(self)@ }),
            final(self)@.well_formed(),
    {
        proof {
            use_type_invariant(&*self);
        }
        self.edges = rows;
    }

    /// Adds a live note, unless a note with this identifier is there.
    pub fn add_note(&mut self, id: u128, workspace_id: u128) -> (added: bool)
        ensures
            added == !has_note(old(self)@.notes, id),
            added ==> final(self)@ == (StoreView {
                notes: old(self)@.notes.push(Note { id, workspace_id, deleted: false }),
                ..old(self)@
            }),
            !added ==> final(self)@ == old(self)@,
            final(self)@.well_formed(),
    {
        proof {
            use_type_invariant(&*self);
        }
        match self.note_position(id) {
            Some(_) => false,
            None => {
                let mut rows: Vec<Note> = Vec::new();
                core::mem::swap(&mut rows, &mut self.notes);
                rows.push(Note { id, workspace_id, deleted: false });
                self.notes = rows;
                true
            },
        }
    }

    /// Marks the note with this identifier as deleted or as live again.
    /// Links and edges stay as they are.
    pub fn set_note_deleted(&mut self, id: u128, deleted: bool) -> (found: bool)
        ensures
            found == has_note(old(self)@.notes, id),
            final(self)@ == (StoreView {
                notes: with_deleted(old(self)@.notes, id, deleted),
                ..old(self)@
            }),
            final(self)@.well_formed(),
    {
        proof {
            use_type_invariant(&*self);
        }
        match self.note_position(id) {
            Some(i) => {
                let mut rows: Vec<Note> = Vec::new();
                core::mem::swap(&mut rows, &mut self.notes);
                let row = rows[i];
                rows.set(i, Note { id: row.id, workspace_id: row.workspace_id, deleted });
                assert(rows@ =~= with_deleted(old(self)@.notes, id, deleted));
                self.notes = rows;
                true
            },
            None => {
                assert(self.notes@ =~= with_deleted(old(self)@.notes, id, deleted));
                false
            },
        }
    }

    /// Adds an entity, unless an entity with this identifier is there.
    pub fn add_entity(&mut self, id: u128, workspace_id: u128, name: String, category: EntityCategory) -> (added: bool)
        ensures
            added == !has_entity(old(self)@.entities, id),
            added ==> final(self)@ == (StoreView {
                entities: old(self)@.entities.push(Entity { id, workspace_id, name, category }),
                ..old(self)@
            }),
            !added ==> final(self)@ == old(self)@,
            final(self)@.well_formed(),
    {
        proof {
            use_type_invariant(&*self);
        }
        if self.contains_entity(id) {
            false
        } else {
            let mut rows: Vec<Entity> = Vec::new();
            core::mem::swap(&mut rows, &mut self.entities);
            rows.push(Entity { id, workspace_id, name, category });
            self.entities = rows;
            true
        }
    }

    /// Adds a concept, unless a concept with this identifier is there.
    pub fn add_concept(&mut self, id: u128, workspace_id: u128, name: String) -> (added: bool)
        ensures
            added == !has_concept(old(self)@.concepts, id),
            added ==> final(self)@ == (StoreView {
                concepts: old(self)@.concepts.push(Concept { id, workspace_id, name }),
                ..old(self)@
            }),
            !added ==> final(self)@ == old(self)@,
            final(self)@.well_formed(),
    {
        proof {
            use_type_invariant(&*self);
        }
        if self.contains_concept(id) {
            false
        } else {
            let mut rows: Vec<Concept> = Vec::new();
            core::mem::swap(&mut rows, &mut self.concepts);
            rows.push(Concept { id, workspace_id, name });
            self.concepts = rows;
            true
        }
    }

    /// Adds a link between a note and an entity, unless the two are linked
    /// already or the count is zero.
    pub fn insert_entity_link(&mut self, link: NoteEntityLink) -> (added: bool)
        ensures
            added == (link.mention_count >= 1 && !old(self)@.links_entity(
                link.note_id,
                link.entity_id,
            )),
            added ==> final(self)@ == (StoreView {
                entity_links: old(self)@.entity_links.push(link),
                ..old(self)@
            }),
            !added ==> final(self)@ == old(self)@,
            final(self)@.well_formed(),
    {
        proof {
            use_type_invariant(&*self);
        }
        if link.mention_count == 0 || self.is_linked_to_entity(link.note_id, link.entity_id) {
            false
        } else {
            let mut rows: Vec<NoteEntityLink> = Vec::new();
            core::mem::swap(&mut rows, &mut self.entity_links);
            rows.push(link);
            self.entity_links = rows;
            true
        }
    }

    /// Adds a link between a note and a concept, unless the two are linked
    /// already.
    pub fn insert_concept_link(&mut self, link: NoteConceptLink) -> (added: bool)
        ensures
            added == !old(self)@.links_concept(link.note_id, link.concept_id),
            added ==> final(self)@ == (StoreView {
                concept_links: old(self)@.concept_links.push(link),
                ..old(self)@
            }),
            !added ==> final(self)@ == old(self)@,
            final(self)@.well_formed(),
    {
        proof {
            use_type_invariant(&*self);
        }
        if self.is_linked_to_concept(link.note_id, link.concept_id) {
            false
        } else {
            let mut rows: Vec<NoteConceptLink> = Vec::new();
            core::mem::swap(&mut rows, &mut self.concept_links);
            rows.push(link);
            self.concept_links = rows;
            true
        }
    }

    /// Adds an edge, unless an edge with its key is there or its strength
    /// is above ten tenths.
    pub fn insert_edge(&mut self, edge: GraphEdge) -> (added: bool)
        ensures
            added == (edge.strength_tenths <= 10 && old(self)@.edge(edge.key) is None),
            added ==> final(self)@ == (StoreView {
                edges: old(self)@.edges.push(edge),
                ..old(self)@
            }),
            !added ==> final(self)@ == old(self)@,
            final(self)@.well_formed(),
    {
        proof {
            use_type_invariant(&*self);
        }
        if edge.strength_tenths > 10 {
            return false;
        }
        match self.edge_position(edge.key) {
            Some(_) => false,
            None => {
                let mut rows: Vec<GraphEdge> = Vec::new();
                core::mem::swap(&mut rows, &mut self.edges);
                rows.push(edge);
                self.edges = rows;
                true
            },
        }
    }
}

} // verus!
