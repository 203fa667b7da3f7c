//! Synchronising the graph with a note: the entry point of the write path,
//! what it establishes, and what follows from that.

use vstd::prelude::*;
use crate::document::DocNode;
use crate::edges::{
    co_mention_key,
    derived_edge,
    edges_recomputed,
    entity_concept_key,
    in_scope,
};
use crate::links::{concept_links_replaced, entity_links_replaced};
use crate::mentions::{body_mentions, extract_mentions, Mentions, MentionsView};
use crate::store::{
    shared_concept_notes_by_links,
    shared_entity_notes_by_links,
    EdgeKey,
    GraphStore,
    Note,
    StoreView,
};

verus! {

/// Why a note could not be synchronised.
#[derive(Clone, Copy, Debug, PartialEq, Eq, Structural)]
pub enum SyncError {
    /// The workspace holds no note with the given identifier.
    NoteNotFound,
}

/// Whether `notes` holds the note `id` as a note of `workspace`.
pub open spec fn note_in_workspace(notes: Seq<Note>, id: u128, workspace: u128) -> bool {
    exists|i: int|
        0 <= i < notes.len() && (#[trigger] notes[i]).id == id && notes[i].workspace_id == workspace
}

/// What a synchronisation of `note` with `mentions` establishes between the
/// state before and the state after.
///
/// The notes, entities and concepts are untouched. The links of `note` are
/// exactly the mentions, the links of other notes are untouched. Each derived
/// edge among the touched entities and concepts is what the link tables of
/// the state after give, and every other edge is untouched.
pub open spec fn synced(
    pre: StoreView,
    post: StoreView,
    workspace: u128,
    note: u128,
    mentions: MentionsView,
) -> bool {
    &&& post.notes == pre.notes
    &&& post.entities == pre.entities
    &&& post.concepts == pre.concepts
    &&& entity_links_replaced(pre, post, note, mentions)
    &&& concept_links_replaced(pre, post, note, mentions)
    &&& edges_recomputed(pre, post, workspace, mentions.entity_ids(), mentions.concept_ids)
    &&& post.well_formed()
}

impl GraphStore {
    /// Whether the store holds the note `id` as a note of `workspace`.
    pub fn has_note_in(&self, id: u128, workspace: u128) -> (r: bool)
        ensures
            r == note_in_workspace(self@.notes, id, workspace),
    {
        match self.note_position(id) {
            Some(i) => {
                let notes = self.notes();
                proof {
                    if note_in_workspace(notes@, id, workspace) {
                        let j = choose|j: int|
                            0 <= j < notes@.len() && (#[trigger] notes@[j]).id == id
                                && notes@[j].workspace_id == workspace;
                        if j < i {
                            assert(notes@[j].id != notes@[i as int].id);
                        } else if i < j {
                            assert(notes@[i as int].id != notes@[j].id);
                        }
                    }
                }
                notes[i].workspace_id == workspace
            },
            None => false,
        }
    }

    /// Brings the links of `note` and the derived edges in line with
    /// `mentions`.
    ///
    /// Fails, and changes nothing, where `workspace` holds no such note.
    /// Otherwise the entity and concept links of the note are replaced by the
    /// mentions, and the derived edges that the mentions touch are
    /// recomputed: see [`synced`].
    pub fn sync_mentions(&mut self, workspace: u128, note: u128, mentions: &Mentions) -> (r: Result<
        (),
        SyncError,
    >)
        ensures
            r is Ok <==> note_in_workspace(old(self)@.notes, note, workspace),
            r is Ok ==> synced(old(self)@, final(self)@, workspace, note, mentions@),
            r is Err ==> final(self)@ == old(self)@,
            final(self)@.well_formed(),
    {
        if !self.has_note_in(note, workspace) {
            proof {
                use_type_invariant(&*self);
            }
            return Err(SyncError::NoteNotFound);
        }
        let ghost pre = self@;
        self.replace_entity_links(note, mentions);
        let ghost mid = self@;
        self.replace_concept_links(note, mentions);
        let ghost linked = self@;
        self.recompute_edges(workspace, mentions);
        proof {
            let post = self@;
            assert(post.entity_links == mid.entity_links);
            assert(post.concept_links == linked.concept_links);
            assert forall|n: u128, e: u128| #[trigger]
                post.entity_link(n, e) == if n == note {
                    mentions@.count_of(e)
                } else {
                    pre.entity_link(n, e)
                } by {
                assert(mid.entity_link(n, e) == post.entity_link(n, e));
            }
            assert forall|n: u128, c: u128| #[trigger]
                post.links_concept(n, c) == if n == note {
                    mentions@.tags_concept(c)
                } else {
                    pre.links_concept(n, c)
                } by {
                assert(linked.links_concept(n, c) == post.links_concept(n, c));
                assert(mid.links_concept(n, c) == pre.links_concept(n, c));
            }
            assert forall|key: EdgeKey| #[trigger]
                post.edge(key) == post.recomputed_edge(
                    pre,
                    key,
                    workspace,
                    mentions@.entity_ids(),
                    mentions@.concept_ids,
                ) by {
                assert(linked.edge(key) == pre.edge(key));
                assert(post.edge(key) == post.recomputed_edge(
                    linked,
                    key,
                    workspace,
                    mentions@.entity_ids(),
                    mentions@.concept_ids,
                ));
            }
        }
        Ok(())
    }
}

/// Synchronises the graph with the body of a note that was just written.
///
/// Fails, and changes nothing, where `workspace` holds no such note.
/// Otherwise the store is synchronised with what the body mentions: see
/// [`synced`] and [`body_mentions`]. A body that mentions nothing leaves
/// the note without links and the edges as they are.
pub fn sync_note_links(
    store: &mut GraphStore,
    workspace: u128,
    note: u128,
    body: &DocNode,
) -> (r: Result<(), SyncError>)
    ensures
        r is Ok <==> note_in_workspace(old(store)@.notes, note, workspace),
        r is Ok ==> synced(old(store)@, final(store)@, workspace, note, body_mentions(*body)),
        r is Err ==> final(store)@ == old(store)@,
        final(store)@.well_formed(),
{
    let mentions = extract_mentions(body);
    store.sync_mentions(workspace, note, &mentions)
}

/// Idempotence: synchronising a note with the same mentions a second time
/// changes no link and no edge.
pub proof fn sync_is_idempotent(
    first: StoreView,
    second: StoreView,
    third: StoreView,
    workspace: u128,
    note: u128,
    mentions: MentionsView,
)
    requires
        synced(first, second, workspace, note, mentions),
        synced(second, third, workspace, note, mentions),
    ensures
        forall|n: u128, e: u128| #[trigger] third.entity_link(n, e) == second.entity_link(n, e),
        forall|n: u128, c: u128| #[trigger] third.links_concept(n, c) == second.links_concept(n, c),
        forall|key: EdgeKey| #[trigger] third.edge(key) == second.edge(key),
{
    assert forall|n: u128, e: u128| #[trigger] third.entity_link(n, e) == second.entity_link(
        n,
        e,
    ) by {}
    assert forall|n: u128, e: u128| #[trigger] third.links_entity(n, e) == second.links_entity(
        n,
        e,
    ) by {
        assert(third.entity_link(n, e) == second.entity_link(n, e));
    }
    assert forall|n: u128, c: u128| #[trigger] third.links_concept(n, c) == second.links_concept(
        n,
        c,
    ) by {}
    let entities = mentions.entity_ids();
    let concepts = mentions.concept_ids;
    assert forall|key: EdgeKey| #[trigger] third.edge(key) == second.edge(key) by {
        assert(third.edge(key) == third.recomputed_edge(second, key, workspace, entities, concepts));
        assert(second.edge(key) == second.recomputed_edge(first, key, workspace, entities, concepts));
        shared_entity_notes_by_links(
            third,
            second,
            key.workspace_id,
            key.source_id,
            key.target_id,
            second.notes.len(),
        );
        shared_concept_notes_by_links(
            third,
            second,
            key.workspace_id,
            key.source_id,
            key.target_id,
            second.notes.len(),
        );
    }
}

/// Saturation: after a synchronisation, the co-mention edge between two
/// touched entities `a < b` is there exactly when they share a live note of
/// the workspace, and its strength in tenths is the number of the notes they
/// share, at most ten.
pub proof fn touched_entities_follow_saturation(
    pre: StoreView,
    post: StoreView,
    workspace: u128,
    note: u128,
    mentions: MentionsView,
    a: u128,
    b: u128,
)
    requires
        synced(pre, post, workspace, note, mentions),
        mentions.mentions_entity(a),
        mentions.mentions_entity(b),
        a < b,
    ensures
        post.edge(co_mention_key(workspace, a, b)) == if post.shared_entity_notes(workspace, a, b)
            > 0 {
            Some(
                derived_edge(
                    co_mention_key(workspace, a, b),
                    post.shared_entity_notes(workspace, a, b),
                ),
            )
        } else {
            None
        },
        post.shared_entity_notes(workspace, a, b) > 0 ==> post.edge(
            co_mention_key(workspace, a, b),
        )->0.strength_tenths == if post.shared_entity_notes(workspace, a, b) < 10 {
            post.shared_entity_notes(workspace, a, b)
        } else {
            10
        },
{
    let key = co_mention_key(workspace, a, b);
    let ids = mentions.entity_ids();
    mentioned_is_touched(mentions, a);
    mentioned_is_touched(mentions, b);
    assert(post.edge(key) == post.recomputed_edge(pre, key, workspace, ids, mentions.concept_ids));
}

/// Saturation for concepts: after a synchronisation, the edge from a touched
/// entity to a touched concept is there exactly when they share a live note
/// of the workspace, with the number of shared notes, at most ten, as its
/// strength in tenths.
pub proof fn touched_concepts_follow_saturation(
    pre: StoreView,
    post: StoreView,
    workspace: u128,
    note: u128,
    mentions: MentionsView,
    entity: u128,
    concept: u128,
)
    requires
        synced(pre, post, workspace, note, mentions),
        mentions.mentions_entity(entity),
        mentions.tags_concept(concept),
    ensures
        post.edge(entity_concept_key(workspace, entity, concept)) == if post.shared_concept_notes(
            workspace,
            entity,
            concept,
        ) > 0 {
            Some(
                derived_edge(
                    entity_concept_key(workspace, entity, concept),
                    post.shared_concept_notes(workspace, entity, concept),
                ),
            )
        } else {
            None
        },
{
    let key = entity_concept_key(workspace, entity, concept);
    let ids = mentions.entity_ids();
    mentioned_is_touched(mentions, entity);
    assert(post.edge(key) == post.recomputed_edge(pre, key, workspace, ids, mentions.concept_ids));
}

/// Removal: an entity that the note no longer mentions is no longer linked
/// to the note, and a concept that it no longer tags is no longer linked to
/// it either.
pub proof fn sync_drops_unmentioned_links(
    pre: StoreView,
    post: StoreView,
    workspace: u128,
    note: u128,
    mentions: MentionsView,
    id: u128,
)
    requires
        synced(pre, post, workspace, note, mentions),
    ensures
        !mentions.mentions_entity(id) ==> post.entity_link(note, id) is None && !post.links_entity(
            note,
            id,
        ),
        !mentions.tags_concept(id) ==> !post.links_concept(note, id),
{
    assert(post.entity_link(note, id) == mentions.count_of(id));
    assert(post.links_concept(note, id) == mentions.tags_concept(id));
}

/// Isolation: an edge is left exactly as it was unless the note touches its
/// source as an entity and its target as an entity or a concept. In
/// particular, no edge with an endpoint that the note does not touch is
/// altered.
pub proof fn sync_leaves_untouched_edges(
    pre: StoreView,
    post: StoreView,
    workspace: u128,
    note: u128,
    mentions: MentionsView,
    key: EdgeKey,
)
    requires
        synced(pre, post, workspace, note, mentions),
        !mentions.mentions_entity(key.source_id) || !(mentions.mentions_entity(key.target_id)
            || mentions.tags_concept(key.target_id)),
    ensures
        post.edge(key) == pre.edge(key),
{
    let ids = mentions.entity_ids();
    if ids.contains(key.source_id) {
        touched_is_mentioned(mentions, key.source_id);
    }
    if ids.contains(key.target_id) {
        touched_is_mentioned(mentions, key.target_id);
    }
    assert(!in_scope(key, workspace, ids, mentions.concept_ids));
    assert(post.edge(key) == post.recomputed_edge(pre, key, workspace, ids, mentions.concept_ids));
}

/// An empty body: a note that mentions nothing is left without links, and no
/// edge changes.
pub proof fn sync_of_nothing(
    pre: StoreView,
    post: StoreView,
    workspace: u128,
    note: u128,
    mentions: MentionsView,
)
    requires
        synced(pre, post, workspace, note, mentions),
        mentions.entity_counts.len() == 0,
        mentions.concept_ids.len() == 0,
    ensures
        forall|e: u128| !#[trigger] post.links_entity(note, e),
        forall|c: u128| !#[trigger] post.links_concept(note, c),
        forall|key: EdgeKey| #[trigger] post.edge(key) == pre.edge(key),
{
    assert forall|e: u128| !#[trigger] post.links_entity(note, e) by {
        assert(post.entity_link(note, e) == mentions.count_of(e));
    }
    assert forall|c: u128| !#[trigger] post.links_concept(note, c) by {
        assert(post.links_concept(note, c) == mentions.tags_concept(c));
    }
    assert forall|key: EdgeKey| #[trigger] post.edge(key) == pre.edge(key) by {
        sync_leaves_untouched_edges(pre, post, workspace, note, mentions, key);
    }
}

/// A mentioned entity is among the touched entities.
proof fn mentioned_is_touched(mentions: MentionsView, entity: u128)
    requires
        mentions.mentions_entity(entity),
    ensures
        mentions.entity_ids().contains(entity),
{
    let k = choose|k: int|
        0 <= k < mentions.entity_counts.len() && (#[trigger] mentions.entity_counts[k]).0 == entity;
    assert(mentions.entity_ids()[k] == entity);
}

/// A touched entity is a mentioned entity.
proof fn touched_is_mentioned(mentions: MentionsView, entity: u128)
    requires
        mentions.entity_ids().contains(entity),
    ensures
        mentions.mentions_entity(entity),
{
    let ids = mentions.entity_ids();
    let k = choose|k: int| 0 <= k < ids.len() && ids[k] == entity;
    assert(mentions.entity_counts[k].0 == entity);
}

} // verus!
