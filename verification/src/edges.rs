//! The edge recomputer: after the links of a note are replaced, the derived
//! edges among the entities and concepts that the note touches are dropped
//! and derived anew from the link tables.

use vstd::prelude::*;
use crate::mentions::{all_distinct, contains_id, Mentions};
use crate::store::{
    edge_at,
    edge_at_position,
    has_edge,
    shared_concept_notes_by_links,
    shared_entity_notes_by_links,
    valid_edges,
    EdgeKey,
    EdgeKind,
    GraphEdge,
    GraphStore,
    NodeKind,
    StoreView,
};

verus! {

/// The strength, in tenths, of a derived edge whose endpoints share `shared`
/// notes: the number of shared notes, and ten from ten notes on.
pub open spec fn strength_of(shared: nat) -> u8 {
    if shared < 10 {
        shared as u8
    } else {
        10
    }
}

/// The strength, in tenths, of a derived edge whose endpoints share `shared`
/// notes.
pub fn saturated_strength(shared: u64) -> (tenths: u8)
    ensures
        tenths == strength_of(shared as nat),
        tenths <= 10,
        tenths as nat == if shared < 10 {
            shared as nat
        } else {
            10
        },
{
    if shared < 10 {
        shared as u8
    } else {
        10
    }
}

/// The key of the co-mention edge from entity `source` to entity `target`.
pub open spec fn co_mention_key(workspace: u128, source: u128, target: u128) -> EdgeKey {
    EdgeKey {
        workspace_id: workspace,
        source_kind: NodeKind::Entity,
        source_id: source,
        target_kind: NodeKind::Entity,
        target_id: target,
        edge_kind: EdgeKind::EntityCoMention,
    }
}

/// The key of the edge from `entity` to `concept`.
pub open spec fn entity_concept_key(workspace: u128, entity: u128, concept: u128) -> EdgeKey {
    EdgeKey {
        workspace_id: workspace,
        source_kind: NodeKind::Entity,
        source_id: entity,
        target_kind: NodeKind::Concept,
        target_id: concept,
        edge_kind: EdgeKind::EntityConcept,
    }
}

/// The key of the co-mention edge between the entities `a` and `b`: the
/// smaller identifier is the source.
pub open spec fn canonical_key(workspace: u128, a: u128, b: u128) -> EdgeKey {
    if a <= b {
        co_mention_key(workspace, a, b)
    } else {
        co_mention_key(workspace, b, a)
    }
}

impl EdgeKey {
    /// The key of the co-mention edge between the entities `a` and `b` of
    /// `workspace`, with the smaller identifier as the source.
    pub fn co_mention(workspace: u128, a: u128, b: u128) -> (key: EdgeKey)
        ensures
            key == canonical_key(workspace, a, b),
    {
        let (source_id, target_id) = if a <= b {
            (a, b)
        } else {
            (b, a)
        };
        EdgeKey {
            workspace_id: workspace,
            source_kind: NodeKind::Entity,
            source_id,
            target_kind: NodeKind::Entity,
            target_id,
            edge_kind: EdgeKind::EntityCoMention,
        }
    }

    /// The key of the edge from `entity` to `concept` in `workspace`.
    pub fn entity_concept(workspace: u128, entity: u128, concept: u128) -> (key: EdgeKey)
        ensures
            key == entity_concept_key(workspace, entity, concept),
    {
        EdgeKey {
            workspace_id: workspace,
            source_kind: NodeKind::Entity,
            source_id: entity,
            target_kind: NodeKind::Concept,
            target_id: concept,
            edge_kind: EdgeKind::EntityConcept,
        }
    }
}

/// Whether a note that touches `entities` puts the co-mention edge `key` up
/// for recomputation: both of its endpoints are touched.
pub open spec fn in_co_mention_scope(key: EdgeKey, workspace: u128, entities: Seq<u128>) -> bool {
    &&& key.workspace_id == workspace
    &&& key.edge_kind == EdgeKind::EntityCoMention
    &&& entities.contains(key.source_id)
    &&& entities.contains(key.target_id)
}

/// Whether a note that touches `entities` and `concepts` puts the
/// entity-concept edge `key` up for recomputation.
pub open spec fn in_entity_concept_scope(
    key: EdgeKey,
    workspace: u128,
    entities: Seq<u128>,
    concepts: Seq<u128>,
) -> bool {
    &&& key.workspace_id == workspace
    &&& key.edge_kind == EdgeKind::EntityConcept
    &&& entities.contains(key.source_id)
    &&& concepts.contains(key.target_id)
}

/// Whether the edge `key` is up for recomputation at all.
pub open spec fn in_scope(key: EdgeKey, workspace: u128, entities: Seq<u128>, concepts: Seq<u128>) -> bool {
    in_co_mention_scope(key, workspace, entities) || in_entity_concept_scope(
        key,
        workspace,
        entities,
        concepts,
    )
}

/// The edge that is derived for `key` from `shared` common notes. It has no
/// label and is drawn solid.
pub open spec fn derived_edge(key: EdgeKey, shared: nat) -> GraphEdge {
    GraphEdge { key, strength_tenths: strength_of(shared), label: None, is_dashed: false }
}

impl StoreView {
    /// The co-mention edge that the link tables give for `key`. There is one
    /// only from the smaller entity to the larger, and only if at least one
    /// live note of the workspace links both.
    pub open spec fn co_mention_edge(self, key: EdgeKey) -> Option<GraphEdge> {
        let shared = self.shared_entity_notes(key.workspace_id, key.source_id, key.target_id);
        if key.source_kind == NodeKind::Entity && key.target_kind == NodeKind::Entity
            && key.source_id < key.target_id && shared > 0 {
            Some(derived_edge(key, shared))
        } else {
            None
        }
    }

    /// The entity-concept edge that the link tables give for `key`. There is
    /// one only if at least one live note of the workspace links both.
    pub open spec fn entity_concept_edge(self, key: EdgeKey) -> Option<GraphEdge> {
        let shared = self.shared_concept_notes(key.workspace_id, key.source_id, key.target_id);
        if key.source_kind == NodeKind::Entity && key.target_kind == NodeKind::Concept && shared > 0 {
            Some(derived_edge(key, shared))
        } else {
            None
        }
    }

    /// The edge that stands under `key` once the edges in the scope of
    /// `entities` and `concepts` are recomputed: inside the scope what the
    /// link tables give, outside it what was stored in `pre`.
    pub open spec fn recomputed_edge(
        self,
        pre: StoreView,
        key: EdgeKey,
        workspace: u128,
        entities: Seq<u128>,
        concepts: Seq<u128>,
    ) -> Option<GraphEdge> {
        if in_co_mention_scope(key, workspace, entities) {
            self.co_mention_edge(key)
        } else if in_entity_concept_scope(key, workspace, entities, concepts) {
            self.entity_concept_edge(key)
        } else {
            pre.edge(key)
        }
    }
}

/// The edges of `post` are those of `pre` with the scope of `entities` and
/// `concepts` recomputed from the link tables of `post`.
pub open spec fn edges_recomputed(
    pre: StoreView,
    post: StoreView,
    workspace: u128,
    entities: Seq<u128>,
    concepts: Seq<u128>,
) -> bool {
    forall|key: EdgeKey| #[trigger]
        post.edge(key) == post.recomputed_edge(pre, key, workspace, entities, concepts)
}

/// The key of the pair of the `x`-th and `y`-th touched entity.
spec fn pair_key(workspace: u128, entities: Seq<u128>, x: int, y: int) -> EdgeKey {
    canonical_key(workspace, entities[x], entities[y])
}

/// Whether the pair `(x, y)` comes before the pair `(i, j)`.
spec fn pair_before(x: int, y: int, i: int, j: int) -> bool {
    x < i || (x == i && y < j)
}

/// After an edge with a new key is appended, every other key finds what it
/// found before.
pub proof fn edge_at_push(edges: Seq<GraphEdge>, edge: GraphEdge)
    requires
        valid_edges(edges),
        !has_edge(edges, edge.key),
        edge.strength_tenths <= 10,
    ensures
        valid_edges(edges.push(edge)),
        forall|key: EdgeKey| #[trigger]
            edge_at(edges.push(edge), key) == if key == edge.key {
                Some(edge)
            } else {
                edge_at(edges, key)
            },
{
    let after = edges.push(edge);
    assert forall|a: int, b: int| 0 <= a < b < after.len() implies (#[trigger] after[a]).key != (
    #[trigger] after[b]).key by {
        assert(after[a] == edges[a]);
        if b < edges.len() {
            assert(after[b] == edges[b]);
        }
    }
    assert forall|i: int| 0 <= i < after.len() implies (#[trigger] after[i]).strength_tenths <= 10 by {
        if i < edges.len() {
            assert(after[i] == edges[i]);
        }
    }
    assert forall|key: EdgeKey| #[trigger]
        edge_at(after, key) == if key == edge.key {
            Some(edge)
        } else {
            edge_at(edges, key)
        } by {
        if key == edge.key {
            assert(after[edges.len() as int] == edge);
            edge_at_position(after, edges.len() as int);
        } else if has_edge(edges, key) {
            let i = choose|i: int| 0 <= i < edges.len() && (#[trigger] edges[i]).key == key;
            assert(after[i] == edges[i]);
            edge_at_position(after, i);
            edge_at_position(edges, i);
        } else if has_edge(after, key) {
            let i = choose|i: int| 0 <= i < after.len() && (#[trigger] after[i]).key == key;
            assert(after[i] == edges[i]);
        }
    }
}

/// In the concatenation of two lists of edges without a common key, a key
/// finds what it finds in the list that holds it.
pub proof fn edge_at_concat(first: Seq<GraphEdge>, second: Seq<GraphEdge>)
    requires
        valid_edges(first),
        valid_edges(second),
        forall|i: int, j: int|
            0 <= i < first.len() && 0 <= j < second.len() ==> (#[trigger] first[i]).key != (
            #[trigger] second[j]).key,
    ensures
        valid_edges(first + second),
        forall|key: EdgeKey| #[trigger]
            edge_at(first + second, key) == if has_edge(first, key) {
                edge_at(first, key)
            } else {
                edge_at(second, key)
            },
{
    let all = first + second;
    assert forall|a: int, b: int| 0 <= a < b < all.len() implies (#[trigger] all[a]).key != (
    #[trigger] all[b]).key by {
        if b < first.len() {
            assert(all[a] == first[a] && all[b] == first[b]);
        } else if a < first.len() {
            assert(all[a] == first[a] && all[b] == second[b - first.len()]);
        } else {
            assert(all[a] == second[a - first.len()] && all[b] == second[b - first.len()]);
        }
    }
    assert forall|i: int| 0 <= i < all.len() implies (#[trigger] all[i]).strength_tenths <= 10 by {
        if i < first.len() {
            assert(all[i] == first[i]);
        } else {
            assert(all[i] == second[i - first.len()]);
        }
    }
    assert forall|key: EdgeKey| #[trigger]
        edge_at(all, key) == if has_edge(first, key) {
            edge_at(first, key)
        } else {
            edge_at(second, key)
        } by {
        if has_edge(first, key) {
            let i = choose|i: int| 0 <= i < first.len() && (#[trigger] first[i]).key == key;
            assert(all[i] == first[i]);
            edge_at_position(all, i);
            edge_at_position(first, i);
        } else if has_edge(second, key) {
            let j = choose|j: int| 0 <= j < second.len() && (#[trigger] second[j]).key == key;
            assert(all[first.len() + j] == second[j]);
            edge_at_position(all, first.len() + j);
            edge_at_position(second, j);
        } else if has_edge(all, key) {
            let i = choose|i: int| 0 <= i < all.len() && (#[trigger] all[i]).key == key;
            if i < first.len() {
                assert(all[i] == first[i]);
            } else {
                assert(all[i] == second[i - first.len()]);
            }
        }
    }
}

/// Whether `out` holds the edges among the first `upto` of `rows` whose key
/// `dropped` does not hold of: a key that is not dropped finds in `out` what
/// it finds among those rows, and a dropped key finds nothing.
spec fn kept_of(
    rows: Seq<GraphEdge>,
    out: Seq<GraphEdge>,
    upto: int,
    dropped: spec_fn(EdgeKey) -> bool,
) -> bool {
    &&& valid_edges(out)
    &&& forall|key: EdgeKey| #[trigger]
        edge_at(out, key) == if dropped(key) {
            None
        } else {
            edge_at(rows.take(upto), key)
        }
}

/// The first rows of a valid list are a valid list, which the next row
/// extends with a new key.
proof fn valid_edges_prefix(rows: Seq<GraphEdge>, i: int)
    requires
        valid_edges(rows),
        0 <= i < rows.len(),
    ensures
        valid_edges(rows.take(i)),
        !has_edge(rows.take(i), rows[i].key),
        rows.take(i + 1) == rows.take(i).push(rows[i]),
{
    let front = rows.take(i);
    assert forall|a: int, b: int| 0 <= a < b < front.len() implies (#[trigger] front[a]).key != (
    #[trigger] front[b]).key by {
        assert(front[a] == rows[a] && front[b] == rows[b]);
    }
    assert forall|a: int| 0 <= a < front.len() implies (#[trigger] front[a]).strength_tenths <= 10 by {
        assert(front[a] == rows[a]);
    }
    if has_edge(front, rows[i].key) {
        let a = choose|a: int| 0 <= a < front.len() && (#[trigger] front[a]).key == rows[i].key;
        assert(front[a] == rows[a]);
        assert(rows[a].key != rows[i].key);
    }
}

/// Going one row further keeps `kept_of`, with the row appended unless it is
/// dropped.
proof fn kept_of_step(rows: Seq<GraphEdge>, out: Seq<GraphEdge>, i: int, dropped: spec_fn(EdgeKey) -> bool)
    requires
        valid_edges(rows),
        0 <= i < rows.len(),
        kept_of(rows, out, i, dropped),
    ensures
        dropped(rows[i].key) ==> kept_of(rows, out, i + 1, dropped),
        !dropped(rows[i].key) ==> kept_of(rows, out.push(rows[i]), i + 1, dropped),
{
    valid_edges_prefix(rows, i);
    edge_at_push(rows.take(i), rows[i]);
    if !dropped(rows[i].key) {
        assert(edge_at(out, rows[i].key) == edge_at(rows.take(i), rows[i].key));
        edge_at_push(out, rows[i]);
    }
}

/// Whether the edge `key` is up for recomputation.
fn is_in_scope(key: EdgeKey, workspace: u128, entities: &Vec<u128>, concepts: &Vec<u128>) -> (r: bool)
    ensures
        r == in_scope(key, workspace, entities@, concepts@),
{
    if key.workspace_id != workspace || !contains_id(entities, key.source_id) {
        return false;
    }
    match key.edge_kind {
        EdgeKind::EntityCoMention => contains_id(entities, key.target_id),
        EdgeKind::EntityConcept => contains_id(concepts, key.target_id),
        _ => false,
    }
}

impl GraphStore {
    /// The number of live notes of `workspace` that are linked to both of
    /// the entities `a` and `b`.
    pub fn count_shared_entity_notes(&self, workspace: u128, a: u128, b: u128) -> (count: u64)
        ensures
            count == self@.shared_entity_notes(workspace, a, b),
    {
        let notes = self.notes();
        let mut count: u64 = 0;
        let mut i: usize = 0;
        while i < notes.len()
            invariant
                0 <= i <= notes.len(),
                notes@ == self@.notes,
                count <= i,
                count == self@.shared_entity_notes_upto(workspace, a, b, i as nat),
            decreases notes.len() - i,
        {
            let note = notes[i];
            if note.workspace_id == workspace && !note.deleted && self.is_linked_to_entity(note.id, a)
                && self.is_linked_to_entity(note.id, b) {
                count += 1;
            }
            i += 1;
        }
        count
    }

    /// The number of live notes of `workspace` that are linked to both
    /// `entity` and `concept`.
    pub fn count_shared_concept_notes(&self, workspace: u128, entity: u128, concept: u128) -> (count:
        u64)
        ensures
            count == self@.shared_concept_notes(workspace, entity, concept),
    {
        let notes = self.notes();
        let mut count: u64 = 0;
        let mut i: usize = 0;
        while i < notes.len()
            invariant
                0 <= i <= notes.len(),
                notes@ == self@.notes,
                count <= i,
                count == self@.shared_concept_notes_upto(workspace, entity, concept, i as nat),
            decreases notes.len() - i,
        {
            let note = notes[i];
            if note.workspace_id == workspace && !note.deleted && self.is_linked_to_entity(
                note.id,
                entity,
            ) && self.is_linked_to_concept(note.id, concept) {
                count += 1;
            }
            i += 1;
        }
        count
    }

    /// The co-mention edges among `entities`: one for each pair of them that
    /// at least one live note of `workspace` links, from the smaller
    /// identifier to the larger.
    fn derive_co_mention_edges(&self, workspace: u128, entities: &Vec<u128>) -> (out: Vec<GraphEdge>)
        requires
            all_distinct(entities@),
        ensures
            valid_edges(out@),
            forall|key: EdgeKey| #[trigger]
                edge_at(out@, key) == if in_co_mention_scope(key, workspace, entities@) {
                    self@.co_mention_edge(key)
                } else {
                    None
                },
    {
        let ghost ids = entities@;
        let n = entities.len();
        let mut out: Vec<GraphEdge> = Vec::new();
        let mut i: usize = 0;
        while i < n
            invariant
                0 <= i <= n,
                n == ids.len(),
                ids == entities@,
                all_distinct(ids),
                valid_edges(out@),
                forall|x: int, y: int|
                    0 <= x < y < n && pair_before(x, y, i as int, 0) ==> edge_at(
                        out@,
                        #[trigger] pair_key(workspace, ids, x, y),
                    ) == self@.co_mention_edge(pair_key(workspace, ids, x, y)),
                forall|k: int|
                    0 <= k < out@.len() ==> exists|x: int, y: int|
                        0 <= x < y < n && pair_before(x, y, i as int, 0) && (#[trigger] out@[k]).key
                            == #[trigger] pair_key(workspace, ids, x, y),
            decreases n - i,
        {
            let mut j: usize = i + 1;
            while j < n
                invariant
                    0 <= i < n,
                    i < j <= n,
                    n == ids.len(),
                    ids == entities@,
                    all_distinct(ids),
                    valid_edges(out@),
                    forall|x: int, y: int|
                        0 <= x < y < n && pair_before(x, y, i as int, j as int) ==> edge_at(
                            out@,
                            #[trigger] pair_key(workspace, ids, x, y),
                        ) == self@.co_mention_edge(pair_key(workspace, ids, x, y)),
                    forall|k: int|
                        0 <= k < out@.len() ==> exists|x: int, y: int|
                            0 <= x < y < n && pair_before(x, y, i as int, j as int) && (
                            #[trigger] out@[k]).key == #[trigger] pair_key(workspace, ids, x, y),
                decreases n - j,
            {
                let key = EdgeKey::co_mention(workspace, entities[i], entities[j]);
                let a = key.source_id;
                let b = key.target_id;
                let ghost before = out@;
                proof {
                    assert(ids[i as int] != ids[j as int]);
                    assert(key == pair_key(workspace, ids, i as int, j as int));
                    assert forall|k: int| 0 <= k < before.len() implies (#[trigger] before[k]).key
                        != key by {
                        let (x, y) = choose|x: int, y: int|
                            0 <= x < y < n && pair_before(x, y, i as int, j as int) && (
                            #[trigger] before[k]).key == #[trigger] pair_key(workspace, ids, x, y);
                        pair_key_is_injective(workspace, ids, x, y, i as int, j as int);
                    }
                    assert(!has_edge(before, key));
                }
                let shared = self.count_shared_entity_notes(workspace, a, b);
                if shared > 0 {
                    let edge = GraphEdge {
                        key,
                        strength_tenths: saturated_strength(shared),
                        label: None,
                        is_dashed: false,
                    };
                    out.push(edge);
                    proof {
                        edge_at_push(before, edge);
                        assert(edge == derived_edge(key, shared as nat));
                    }
                }
                proof {
                    assert forall|x: int, y: int|
                        0 <= x < y < n && pair_before(x, y, i as int, j + 1) implies edge_at(
                        out@,
                        #[trigger] pair_key(workspace, ids, x, y),
                    ) == self@.co_mention_edge(pair_key(workspace, ids, x, y)) by {
                        if x == i && y == j {
                        } else {
                            assert(pair_before(x, y, i as int, j as int));
                            pair_key_is_injective(workspace, ids, x, y, i as int, j as int);
                        }
                    }
                    assert forall|k: int| 0 <= k < out@.len() implies exists|x: int, y: int|
                        0 <= x < y < n && pair_before(x, y, i as int, j + 1) && (
                        #[trigger] out@[k]).key == #[trigger] pair_key(workspace, ids, x, y) by {
                        if k < before.len() {
                            assert(out@[k] == before[k]);
                            let (x, y) = choose|x: int, y: int|
                                0 <= x < y < n && pair_before(x, y, i as int, j as int) && (
                                #[trigger] before[k]).key == #[trigger] pair_key(workspace, ids, x, y);
                            assert(pair_before(x, y, i as int, j + 1));
                        } else {
                            assert(pair_before(i as int, j as int, i as int, j + 1));
                            assert(out@[k].key == pair_key(workspace, ids, i as int, j as int));
                        }
                    }
                }
                j += 1;
            }
            proof {
                assert forall|x: int, y: int|
                    0 <= x < y < n && pair_before(x, y, i + 1, 0) implies pair_before(
                    x,
                    y,
                    i as int,
                    n as int,
                ) by {}
            }
            i += 1;
        }
        proof {
            assert forall|key: EdgeKey| #[trigger]
                edge_at(out@, key) == if in_co_mention_scope(key, workspace, ids) {
                    self@.co_mention_edge(key)
                } else {
                    None
                } by {
                if has_edge(out@, key) {
                    let k = choose|k: int| 0 <= k < out@.len() && (#[trigger] out@[k]).key == key;
                    let (x, y) = choose|x: int, y: int|
                        0 <= x < y < n && pair_before(x, y, n as int, 0) && (#[trigger] out@[k]).key
                            == #[trigger] pair_key(workspace, ids, x, y);
                    assert(ids.contains(ids[x]) && ids.contains(ids[y]));
                    assert(key == pair_key(workspace, ids, x, y));
                } else if in_co_mention_scope(key, workspace, ids) && key.source_kind
                    == NodeKind::Entity && key.target_kind == NodeKind::Entity && key.source_id
                    < key.target_id {
                    let x = choose|x: int| 0 <= x < ids.len() && ids[x] == key.source_id;
                    let y = choose|y: int| 0 <= y < ids.len() && ids[y] == key.target_id;
                    if x < y {
                        assert(pair_before(x, y, n as int, 0));
                        assert(key == pair_key(workspace, ids, x, y));
                    } else {
                        assert(pair_before(y, x, n as int, 0));
                        assert(key == pair_key(workspace, ids, y, x));
                    }
                }
            }
        }
        out
    }

    /// The entity-concept edges between `entities` and `concepts`: one for
    /// each pair that at least one live note of `workspace` links.
    fn derive_entity_concept_edges(&self, workspace: u128, entities: &Vec<u128>, concepts: &Vec<u128>) -> (out:
        Vec<GraphEdge>)
        requires
            all_distinct(entities@),
            all_distinct(concepts@),
        ensures
            valid_edges(out@),
            forall|key: EdgeKey| #[trigger]
                edge_at(out@, key) == if in_entity_concept_scope(
                    key,
                    workspace,
                    entities@,
                    concepts@,
                ) {
                    self@.entity_concept_edge(key)
                } else {
                    None
                },
    {
        let ghost es = entities@;
        let ghost cs = concepts@;
        let n = entities.len();
        let m = concepts.len();
        let mut out: Vec<GraphEdge> = Vec::new();
        let mut i: usize = 0;
        while i < n
            invariant
                0 <= i <= n,
                n == es.len(),
                m == cs.len(),
                es == entities@,
                cs == concepts@,
                all_distinct(es),
                all_distinct(cs),
                valid_edges(out@),
                forall|x: int, y: int|
                    0 <= x < n && 0 <= y < m && pair_before(x, y, i as int, 0) ==> edge_at(
                        out@,
                        #[trigger] entity_concept_key(workspace, es[x], cs[y]),
                    ) == self@.entity_concept_edge(entity_concept_key(workspace, es[x], cs[y])),
                forall|k: int|
                    0 <= k < out@.len() ==> exists|x: int, y: int|
                        0 <= x < n && 0 <= y < m && pair_before(x, y, i as int, 0) && (
                        #[trigger] out@[k]).key == #[trigger] entity_concept_key(
                            workspace,
                            es[x],
                            cs[y],
                        ),
            decreases n - i,
        {
            let mut j: usize = 0;
            while j < m
                invariant
                    0 <= i < n,
                    0 <= j <= m,
                    n == es.len(),
                    m == cs.len(),
                    es == entities@,
                    cs == concepts@,
                    all_distinct(es),
                    all_distinct(cs),
                    valid_edges(out@),
                    forall|x: int, y: int|
                        0 <= x < n && 0 <= y < m && pair_before(x, y, i as int, j as int)
                            ==> edge_at(
                            out@,
                            #[trigger] entity_concept_key(workspace, es[x], cs[y]),
                        ) == self@.entity_concept_edge(entity_concept_key(workspace, es[x], cs[y])),
                    forall|k: int|
                        0 <= k < out@.len() ==> exists|x: int, y: int|
                            0 <= x < n && 0 <= y < m && pair_before(x, y, i as int, j as int) && (
                            #[trigger] out@[k]).key == #[trigger] entity_concept_key(
                                workspace,
                                es[x],
                                cs[y],
                            ),
                decreases m - j,
            {
                let key = EdgeKey::entity_concept(workspace, entities[i], concepts[j]);
                let ghost before = out@;
                proof {
                    assert(key == entity_concept_key(workspace, es[i as int], cs[j as int]));
                    assert forall|k: int| 0 <= k < before.len() implies (#[trigger] before[k]).key
                        != key by {
                        let (x, y) = choose|x: int, y: int|
                            0 <= x < n && 0 <= y < m && pair_before(x, y, i as int, j as int) && (
                            #[trigger] before[k]).key == #[trigger] entity_concept_key(
                                workspace,
                                es[x],
                                cs[y],
                            );
                        if x != i {
                            assert(es[x] != es[i as int]);
                        } else {
                            assert(cs[y] != cs[j as int]);
                        }
                    }
                    assert(!has_edge(before, key));
                }
                let shared = self.count_shared_concept_notes(workspace, entities[i], concepts[j]);
                if shared > 0 {
                    let edge = GraphEdge {
                        key,
                        strength_tenths: saturated_strength(shared),
                        label: None,
                        is_dashed: false,
                    };
                    out.push(edge);
                    proof {
                        edge_at_push(before, edge);
                        assert(edge == derived_edge(key, shared as nat));
                    }
                }
                proof {
                    assert forall|x: int, y: int|
                        0 <= x < n && 0 <= y < m && pair_before(x, y, i as int, j + 1)
                            implies edge_at(
                        out@,
                        #[trigger] entity_concept_key(workspace, es[x], cs[y]),
                    ) == self@.entity_concept_edge(entity_concept_key(workspace, es[x], cs[y])) by {
                        if x == i && y == j {
                        } else {
                            assert(pair_before(x, y, i as int, j as int));
                            if x != i {
                                assert(es[x] != es[i as int]);
                            } else {
                                assert(cs[y] != cs[j as int]);
                            }
                        }
                    }
                    assert forall|k: int| 0 <= k < out@.len() implies exists|x: int, y: int|
                        0 <= x < n && 0 <= y < m && pair_before(x, y, i as int, j + 1) && (
                        #[trigger] out@[k]).key == #[trigger] entity_concept_key(
                            workspace,
                            es[x],
                            cs[y],
                        ) by {
                        if k < before.len() {
                            assert(out@[k] == before[k]);
                            let (x, y) = choose|x: int, y: int|
                                0 <= x < n && 0 <= y < m && pair_before(x, y, i as int, j as int)
                                    && (#[trigger] before[k]).key == #[trigger] entity_concept_key(
                                    workspace,
                                    es[x],
                                    cs[y],
                                );
                            assert(pair_before(x, y, i as int, j + 1));
                        } else {
                            assert(pair_before(i as int, j as int, i as int, j + 1));
                            assert(out@[k].key == entity_concept_key(
                                workspace,
                                es[i as int],
                                cs[j as int],
                            ));
                        }
                    }
                }
                j += 1;
            }
            proof {
                assert forall|x: int, y: int|
                    0 <= x < n && 0 <= y < m && pair_before(x, y, i + 1, 0) implies pair_before(
                    x,
                    y,
                    i as int,
                    m as int,
                ) by {}
            }
            i += 1;
        }
        proof {
            assert forall|key: EdgeKey| #[trigger]
                edge_at(out@, key) == if in_entity_concept_scope(key, workspace, es, cs) {
                    self@.entity_concept_edge(key)
                } else {
                    None
                } by {
                if has_edge(out@, key) {
                    let k = choose|k: int| 0 <= k < out@.len() && (#[trigger] out@[k]).key == key;
                    let (x, y) = choose|x: int, y: int|
                        0 <= x < n && 0 <= y < m && pair_before(x, y, n as int, 0) && (
                        #[trigger] out@[k]).key == #[trigger] entity_concept_key(
                            workspace,
                            es[x],
                            cs[y],
                        );
                    assert(es.contains(es[x]) && cs.contains(cs[y]));
                } else if in_entity_concept_scope(key, workspace, es, cs) && key.source_kind
                    == NodeKind::Entity && key.target_kind == NodeKind::Concept {
                    let x = choose|x: int| 0 <= x < es.len() && es[x] == key.source_id;
                    let y = choose|y: int| 0 <= y < cs.len() && cs[y] == key.target_id;
                    assert(pair_before(x, y, n as int, 0));
                    assert(key == entity_concept_key(workspace, es[x], cs[y]));
                }
            }
        }
        out
    }

    /// The stored edges that are not up for recomputation.
    fn edges_out_of_scope(&self, workspace: u128, entities: &Vec<u128>, concepts: &Vec<u128>) -> (out:
        Vec<GraphEdge>)
        ensures
            valid_edges(out@),
            forall|key: EdgeKey| #[trigger]
                edge_at(out@, key) == if in_scope(key, workspace, entities@, concepts@) {
                    None
                } else {
                    self@.edge(key)
                },
    {
        let rows = self.edges();
        let ghost dropped = |key: EdgeKey| in_scope(key, workspace, entities@, concepts@);
        let mut out: Vec<GraphEdge> = Vec::new();
        let mut i: usize = 0;
        while i < rows.len()
            invariant
                0 <= i <= rows.len(),
                valid_edges(rows@),
                rows@ == self@.edges,
                forall|key: EdgeKey| #[trigger]
                    dropped(key) == in_scope(key, workspace, entities@, concepts@),
                kept_of(rows@, out@, i as int, dropped),
            decreases rows.len() - i,
        {
            let is_dropped = is_in_scope(rows[i].key, workspace, entities, concepts);
            assert(is_dropped == dropped(rows@[i as int].key));
            proof {
                kept_of_step(rows@, out@, i as int, dropped);
            }
            if !is_dropped {
                out.push(rows[i].duplicate());
            }
            i += 1;
        }
        proof {
            assert(rows@.take(rows@.len() as int) == rows@);
        }
        out
    }

    /// Recomputes the derived edges that a note with these mentions touches.
    ///
    /// With the touched entities `E` and the touched concepts `C`: the
    /// co-mention edges of `workspace` with both endpoints in `E`, and the
    /// entity-concept edges from `E` to `C`, are dropped. For each pair of
    /// distinct entities of `E`, and each pair from `E` and `C`, that at
    /// least one live note of the workspace links, an edge is stored whose
    /// strength is the number of those notes in tenths, at most ten. Every
    /// other edge stays as it is; so does every other table. Nothing is done
    /// where no entity is touched.
    pub fn recompute_edges(&mut self, workspace: u128, mentions: &Mentions)
        ensures
            edges_recomputed(
                old(self)@,
                final(self)@,
                workspace,
                mentions@.entity_ids(),
                mentions@.concept_ids,
            ),
            final(self)@ == (StoreView { edges: final(self)@.edges, ..old(self)@ }),
            mentions@.entity_counts.len() == 0 ==> final(self)@ == old(self)@,
            final(self)@.well_formed(),
    {
        let counts = mentions.entity_counts();
        let concepts = mentions.concept_ids();
        let ghost pre = self@;
        if counts.len() == 0 {
            proof {
                use_type_invariant(&*self);
                assert forall|key: EdgeKey| #[trigger]
                    pre.edge(key) == pre.recomputed_edge(
                        pre,
                        key,
                        workspace,
                        mentions@.entity_ids(),
                        mentions@.concept_ids,
                    ) by {
                    assert(!mentions@.entity_ids().contains(key.source_id));
                }
            }
            return ;
        }
        let mut entities: Vec<u128> = Vec::new();
        let mut t: usize = 0;
        while t < counts.len()
            invariant
                0 <= t <= counts.len(),
                entities@.len() == t,
                forall|u: int| 0 <= u < t ==> #[trigger] entities@[u] == counts@[u].0,
            decreases counts.len() - t,
        {
            entities.push(counts[t].0);
            t += 1;
        }
        assert(entities@ == mentions@.entity_ids());
        let mut rows = self.edges_out_of_scope(workspace, &entities, concepts);
        let mut co_mentions = self.derive_co_mention_edges(workspace, &entities);
        let mut entity_concepts = self.derive_entity_concept_edges(workspace, &entities, concepts);
        let ghost kept = rows@;
        let ghost first = co_mentions@;
        let ghost second = entity_concepts@;
        proof {
            assert forall|i: int, j: int| 0 <= i < kept.len() && 0 <= j < first.len() implies (
            #[trigger] kept[i]).key != (#[trigger] first[j]).key by {
                edge_at_position(kept, i);
                edge_at_position(first, j);
            }
            edge_at_concat(kept, first);
            assert forall|i: int, j: int|
                0 <= i < (kept + first).len() && 0 <= j < second.len() implies (#[trigger] (kept
                + first)[i]).key != (#[trigger] second[j]).key by {
                edge_at_position(kept + first, i);
                edge_at_position(second, j);
            }
            edge_at_concat(kept + first, second);
        }
        rows.append(&mut co_mentions);
        rows.append(&mut entity_concepts);
        proof {
            assert(rows@ == kept + first + second);
            assert forall|key: EdgeKey| #[trigger]
                edge_at(rows@, key) == pre.recomputed_edge(
                    pre,
                    key,
                    workspace,
                    entities@,
                    concepts@,
                ) by {
                assert(edge_at(kept + first, key) == if has_edge(kept, key) {
                    edge_at(kept, key)
                } else {
                    edge_at(first, key)
                });
            }
        }
        self.set_edges(rows);
        proof {
            let post = self@;
            assert forall|key: EdgeKey| #[trigger]
                post.edge(key) == post.recomputed_edge(pre, key, workspace, entities@, concepts@) by {
                assert(edge_at(rows@, key) == pre.recomputed_edge(
                    pre,
                    key,
                    workspace,
                    entities@,
                    concepts@,
                ));
                shared_entity_notes_by_links(
                    post,
                    pre,
                    key.workspace_id,
                    key.source_id,
                    key.target_id,
                    pre.notes.len(),
                );
                shared_concept_notes_by_links(
                    post,
                    pre,
                    key.workspace_id,
                    key.source_id,
                    key.target_id,
                    pre.notes.len(),
                );
            }
        }
    }
}

/// Two pairs of touched entities with the same key are the same pair.
proof fn pair_key_is_injective(workspace: u128, ids: Seq<u128>, x: int, y: int, i: int, j: int)
    requires
        all_distinct(ids),
        0 <= x < y < ids.len(),
        0 <= i < j < ids.len(),
        x != i || y != j,
    ensures
        pair_key(workspace, ids, x, y) != pair_key(workspace, ids, i, j),
{
    if pair_key(workspace, ids, x, y) == pair_key(workspace, ids, i, j) {
        let a = ids[x];
        let b = ids[y];
        let c = ids[i];
        let d = ids[j];
        assert(a != b && c != d);
        if a == c {
            assert(x == i) by {
                if x < i {
                    assert(ids[x] != ids[i]);
                } else if i < x {
                    assert(ids[i] != ids[x]);
                }
            }
            assert(b == d);
            if y < j {
                assert(ids[y] != ids[j]);
            } else if j < y {
                assert(ids[j] != ids[y]);
            }
        } else {
            assert(a == d && b == c);
            if x < j {
                assert(ids[x] != ids[j]);
            } else if j < x {
                assert(ids[j] != ids[x]);
            }
            if y < i {
                assert(ids[y] != ids[i]);
            } else if i < y {
                assert(ids[i] != ids[y]);
            }
        }
    }
}

} // verus!
