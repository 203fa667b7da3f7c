//! The link synchroniser: on every write of a note, the rows that link the
//! note to entities and concepts are replaced by what the note now mentions.

use vstd::prelude::*;
use crate::mentions::{all_distinct, counted_ids, Mentions, MentionsView};
use crate::store::{
    entity_link_at,
    entity_link_count,
    has_concept_link,
    has_entity_link,
    joins_concept,
    joins_entity,
    valid_concept_links,
    valid_entity_links,
    GraphStore,
    NoteConceptLink,
    NoteEntityLink,
    StoreView,
};

verus! {

/// The entity links of `note` in `post` are what `mentions` counts, and the
/// entity links of every other note are those of `pre`.
pub open spec fn entity_links_replaced(
    pre: StoreView,
    post: StoreView,
    note: u128,
    mentions: MentionsView,
) -> bool {
    forall|n: u128, e: u128| #[trigger]
        post.entity_link(n, e) == if n == note {
            mentions.count_of(e)
        } else {
            pre.entity_link(n, e)
        }
}

/// The concept links of `note` in `post` are the concepts that `mentions`
/// tags, and the concept links of every other note are those of `pre`.
pub open spec fn concept_links_replaced(
    pre: StoreView,
    post: StoreView,
    note: u128,
    mentions: MentionsView,
) -> bool {
    forall|n: u128, c: u128| #[trigger]
        post.links_concept(n, c) == if n == note {
            mentions.tags_concept(c)
        } else {
            pre.links_concept(n, c)
        }
}

/// The rows of `rows` that belong to other notes than `note`.
fn entity_links_of_others(rows: &Vec<NoteEntityLink>, note: u128) -> (out: Vec<NoteEntityLink>)
    requires
        valid_entity_links(rows@),
    ensures
        valid_entity_links(out@),
        forall|k: int| 0 <= k < out@.len() ==> (#[trigger] out@[k]).note_id != note,
        forall|n: u128, e: u128|
            n != note ==> #[trigger] entity_link_count(out@, n, e) == entity_link_count(rows@, n, e),
{
    let mut out: Vec<NoteEntityLink> = Vec::new();
    let mut i: usize = 0;
    while i < rows.len()
        invariant
            0 <= i <= rows.len(),
            valid_entity_links(rows@),
            valid_entity_links(out@),
            forall|k: int|
                0 <= k < out@.len() ==> (#[trigger] out@[k]).note_id != note && exists|j: int|
                    0 <= j < i && #[trigger] rows@[j] == out@[k],
            forall|j: int|
                0 <= j < i && (#[trigger] rows@[j]).note_id != note ==> exists|k: int|
                    0 <= k < out@.len() && #[trigger] out@[k] == rows@[j],
        decreases rows.len() - i,
    {
        let row = rows[i];
        if row.note_id != note {
            let ghost before = out@;
            out.push(row);
            proof {
                assert forall|k: int| 0 <= k < out@.len() implies (#[trigger] out@[k]).note_id
                    != note && exists|j: int| 0 <= j < i + 1 && #[trigger] rows@[j] == out@[k] by {
                    if k < before.len() {
                        assert(out@[k] == before[k]);
                        let j = choose|j: int| 0 <= j < i && #[trigger] rows@[j] == before[k];
                        assert(rows@[j] == out@[k]);
                    } else {
                        assert(rows@[i as int] == out@[k]);
                    }
                }
                assert forall|j: int| 0 <= j < i + 1 && (#[trigger] rows@[j]).note_id
                    != note implies exists|k: int| 0 <= k < out@.len() && #[trigger] out@[k]
                    == rows@[j] by {
                    if j < i {
                        let k = choose|k: int| 0 <= k < before.len() && #[trigger] before[k] == rows@[j];
                        assert(out@[k] == rows@[j]);
                    } else {
                        assert(out@[before.len() as int] == rows@[j]);
                    }
                }
                assert forall|a: int, b: int| 0 <= a < b < out@.len() implies !joins_entity(
                    #[trigger] out@[a],
                    (#[trigger] out@[b]).note_id,
                    out@[b].entity_id,
                ) by {
                    if b == before.len() {
                        assert(out@[a] == before[a]);
                        let j = choose|j: int| 0 <= j < i && #[trigger] rows@[j] == before[a];
                        assert(!joins_entity(rows@[j], rows@[i as int].note_id, rows@[i as int].entity_id));
                    } else {
                        assert(out@[a] == before[a]);
                        assert(out@[b] == before[b]);
                    }
                }
            }
        }
        i += 1;
    }
    proof {
        assert forall|n: u128, e: u128| n != note implies #[trigger] entity_link_count(out@, n, e)
            == entity_link_count(rows@, n, e) by {
            if has_entity_link(out@, n, e) {
                let k = choose|k: int| 0 <= k < out@.len() && joins_entity(#[trigger] out@[k], n, e);
                let j = choose|j: int| 0 <= j < rows@.len() && #[trigger] rows@[j] == out@[k];
                entity_link_at(out@, k);
                entity_link_at(rows@, j);
            } else if has_entity_link(rows@, n, e) {
                let j = choose|j: int| 0 <= j < rows@.len() && joins_entity(#[trigger] rows@[j], n, e);
                let k = choose|k: int| 0 <= k < out@.len() && #[trigger] out@[k] == rows@[j];
                assert(joins_entity(out@[k], n, e));
            }
        }
    }
    out
}

/// `kept` followed by one row for each counted entity of `note`.
fn with_entity_links_of(kept: Vec<NoteEntityLink>, note: u128, counts: &Vec<(u128, u64)>) -> (out: Vec<
    NoteEntityLink,
>)
    requires
        valid_entity_links(kept@),
        forall|k: int| 0 <= k < kept@.len() ==> (#[trigger] kept@[k]).note_id != note,
        all_distinct(counted_ids(counts@)),
        forall|t: int| 0 <= t < counts@.len() ==> (#[trigger] counts@[t]).1 >= 1,
    ensures
        valid_entity_links(out@),
        forall|n: u128, e: u128|
            n != note ==> #[trigger] entity_link_count(out@, n, e) == entity_link_count(kept@, n, e),
        forall|t: int|
            0 <= t < counts@.len() ==> entity_link_count(out@, note, (#[trigger] counts@[t]).0)
                == Some(counts@[t].1),
        forall|e: u128|
            #[trigger] has_entity_link(out@, note, e) ==> exists|t: int|
                0 <= t < counts@.len() && (#[trigger] counts@[t]).0 == e,
{
    let ghost base = kept@;
    let mut out = kept;
    let mut t: usize = 0;
    while t < counts.len()
        invariant
            0 <= t <= counts.len(),
            out@.len() == base.len() + t,
            forall|k: int| 0 <= k < base.len() ==> #[trigger] out@[k] == base[k],
            forall|u: int|
                0 <= u < t ==> #[trigger] out@[base.len() + u] == (NoteEntityLink {
                    note_id: note,
                    entity_id: counts@[u].0,
                    mention_count: counts@[u].1,
                }),
        decreases counts.len() - t,
    {
        let ghost before = out@;
        out.push(NoteEntityLink { note_id: note, entity_id: counts[t].0, mention_count: counts[t].1 });
        proof {
            assert forall|u: int| 0 <= u < t + 1 implies #[trigger] out@[base.len() + u] == (
            NoteEntityLink {
                note_id: note,
                entity_id: counts@[u].0,
                mention_count: counts@[u].1,
            }) by {
                if u < t {
                    assert(out@[base.len() + u] == before[base.len() + u]);
                }
            }
        }
        t += 1;
    }
    proof {
        let ids = counted_ids(counts@);
        assert forall|a: int, b: int| 0 <= a < b < out@.len() implies !joins_entity(
            #[trigger] out@[a],
            (#[trigger] out@[b]).note_id,
            out@[b].entity_id,
        ) by {
            if b < base.len() {
                assert(out@[a] == base[a]);
                assert(out@[b] == base[b]);
            } else if a < base.len() {
                assert(out@[a] == base[a]);
                assert(out@[base.len() + (b - base.len())].note_id == note);
            } else {
                let ua = a - base.len();
                let ub = b - base.len();
                assert(out@[base.len() + ua].entity_id == counts@[ua].0);
                assert(out@[base.len() + ub].entity_id == counts@[ub].0);
                assert(ids[ua] != ids[ub]);
            }
        }
        assert forall|k: int| 0 <= k < out@.len() implies (#[trigger] out@[k]).mention_count >= 1 by {
            if k < base.len() {
                assert(out@[k] == base[k]);
            } else {
                let u = k - base.len();
                assert(out@[base.len() + u].mention_count == counts@[u].1);
            }
        }
        assert forall|n: u128, e: u128| n != note implies #[trigger] entity_link_count(out@, n, e)
            == entity_link_count(base, n, e) by {
            if has_entity_link(out@, n, e) {
                let k = choose|k: int| 0 <= k < out@.len() && joins_entity(#[trigger] out@[k], n, e);
                if k >= base.len() {
                    assert(out@[base.len() + (k - base.len())].note_id == note);
                }
                assert(out@[k] == base[k]);
                entity_link_at(out@, k);
                entity_link_at(base, k);
            } else if has_entity_link(base, n, e) {
                let k = choose|k: int| 0 <= k < base.len() && joins_entity(#[trigger] base[k], n, e);
                assert(out@[k] == base[k]);
            }
        }
        assert forall|t: int| 0 <= t < counts@.len() implies entity_link_count(
            out@,
            note,
            (#[trigger] counts@[t]).0,
        ) == Some(counts@[t].1) by {
            assert(out@[base.len() + t].entity_id == counts@[t].0);
            entity_link_at(out@, base.len() + t);
        }
        assert forall|e: u128| #[trigger] has_entity_link(out@, note, e) implies exists|t: int|
            0 <= t < counts@.len() && (#[trigger] counts@[t]).0 == e by {
            let k = choose|k: int| 0 <= k < out@.len() && joins_entity(#[trigger] out@[k], note, e);
            if k < base.len() {
                assert(out@[k] == base[k]);
            } else {
                let u = k - base.len();
                assert(out@[base.len() + u].entity_id == counts@[u].0);
            }
        }
    }
    out
}

/// The rows of `rows` that belong to other notes than `note`.
fn concept_links_of_others(rows: &Vec<NoteConceptLink>, note: u128) -> (out: Vec<NoteConceptLink>)
    requires
        valid_concept_links(rows@),
    ensures
        valid_concept_links(out@),
        forall|k: int| 0 <= k < out@.len() ==> (#[trigger] out@[k]).note_id != note,
        forall|n: u128, c: u128|
            n != note ==> #[trigger] has_concept_link(out@, n, c) == has_concept_link(rows@, n, c),
{
    let mut out: Vec<NoteConceptLink> = Vec::new();
    let mut i: usize = 0;
    while i < rows.len()
        invariant
            0 <= i <= rows.len(),
            valid_concept_links(rows@),
            valid_concept_links(out@),
            forall|k: int|
                0 <= k < out@.len() ==> (#[trigger] out@[k]).note_id != note && exists|j: int|
                    0 <= j < i && #[trigger] rows@[j] == out@[k],
            forall|j: int|
                0 <= j < i && (#[trigger] rows@[j]).note_id != note ==> exists|k: int|
                    0 <= k < out@.len() && #[trigger] out@[k] == rows@[j],
        decreases rows.len() - i,
    {
        let row = rows[i];
        if row.note_id != note {
            let ghost before = out@;
            out.push(row);
            proof {
                assert forall|k: int| 0 <= k < out@.len() implies (#[trigger] out@[k]).note_id
                    != note && exists|j: int| 0 <= j < i + 1 && #[trigger] rows@[j] == out@[k] by {
                    if k < before.len() {
                        assert(out@[k] == before[k]);
                        let j = choose|j: int| 0 <= j < i && #[trigger] rows@[j] == before[k];
                        assert(rows@[j] == out@[k]);
                    } else {
                        assert(rows@[i as int] == out@[k]);
                    }
                }
                assert forall|j: int| 0 <= j < i + 1 && (#[trigger] rows@[j]).note_id
                    != note implies exists|k: int| 0 <= k < out@.len() && #[trigger] out@[k]
                    == rows@[j] by {
                    if j < i {
                        let k = choose|k: int| 0 <= k < before.len() && #[trigger] before[k] == rows@[j];
                        assert(out@[k] == rows@[j]);
                    } else {
                        assert(out@[before.len() as int] == rows@[j]);
                    }
                }
                assert forall|a: int, b: int| 0 <= a < b < out@.len() implies !joins_concept(
                    #[trigger] out@[a],
                    (#[trigger] out@[b]).note_id,
                    out@[b].concept_id,
                ) by {
                    if b == before.len() {
                        assert(out@[a] == before[a]);
                        let j = choose|j: int| 0 <= j < i && #[trigger] rows@[j] == before[a];
                        assert(!joins_concept(rows@[j], rows@[i as int].note_id, rows@[i as int].concept_id));
                    } else {
                        assert(out@[a] == before[a]);
                        assert(out@[b] == before[b]);
                    }
                }
            }
        }
        i += 1;
    }
    proof {
        assert forall|n: u128, c: u128| n != note implies #[trigger] has_concept_link(out@, n, c)
            == has_concept_link(rows@, n, c) by {
            if has_concept_link(out@, n, c) {
                let k = choose|k: int| 0 <= k < out@.len() && joins_concept(#[trigger] out@[k], n, c);
                let j = choose|j: int| 0 <= j < rows@.len() && #[trigger] rows@[j] == out@[k];
                assert(joins_concept(rows@[j], n, c));
            } else if has_concept_link(rows@, n, c) {
                let j = choose|j: int| 0 <= j < rows@.len() && joins_concept(#[trigger] rows@[j], n, c);
                let k = choose|k: int| 0 <= k < out@.len() && #[trigger] out@[k] == rows@[j];
                assert(joins_concept(out@[k], n, c));
            }
        }
    }
    out
}

/// `kept` followed by one row for each tagged concept of `note`.
fn with_concept_links_of(kept: Vec<NoteConceptLink>, note: u128, concepts: &Vec<u128>) -> (out: Vec<
    NoteConceptLink,
>)
    requires
        valid_concept_links(kept@),
        forall|k: int| 0 <= k < kept@.len() ==> (#[trigger] kept@[k]).note_id != note,
        all_distinct(concepts@),
    ensures
        valid_concept_links(out@),
        forall|n: u128, c: u128|
            n != note ==> #[trigger] has_concept_link(out@, n, c) == has_concept_link(kept@, n, c),
        forall|c: u128| #[trigger] has_concept_link(out@, note, c) == concepts@.contains(c),
{
    let ghost base = kept@;
    let mut out = kept;
    let mut t: usize = 0;
    while t < concepts.len()
        invariant
            0 <= t <= concepts.len(),
            out@.len() == base.len() + t,
            forall|k: int| 0 <= k < base.len() ==> #[trigger] out@[k] == base[k],
            forall|u: int|
                0 <= u < t ==> #[trigger] out@[base.len() + u] == (NoteConceptLink {
                    note_id: note,
                    concept_id: concepts@[u],
                }),
        decreases concepts.len() - t,
    {
        let ghost before = out@;
        out.push(NoteConceptLink { note_id: note, concept_id: concepts[t] });
        proof {
            assert forall|u: int| 0 <= u < t + 1 implies #[trigger] out@[base.len() + u] == (
            NoteConceptLink { note_id: note, concept_id: concepts@[u] }) by {
                if u < t {
                    assert(out@[base.len() + u] == before[base.len() + u]);
                }
            }
        }
        t += 1;
    }
    proof {
        assert forall|a: int, b: int| 0 <= a < b < out@.len() implies !joins_concept(
            #[trigger] out@[a],
            (#[trigger] out@[b]).note_id,
            out@[b].concept_id,
        ) by {
            if b < base.len() {
                assert(out@[a] == base[a]);
                assert(out@[b] == base[b]);
            } else if a < base.len() {
                assert(out@[a] == base[a]);
                assert(out@[base.len() + (b - base.len())].note_id == note);
            } else {
                let ua = a - base.len();
                let ub = b - base.len();
                assert(out@[base.len() + ua].concept_id == concepts@[ua]);
                assert(out@[base.len() + ub].concept_id == concepts@[ub]);
            }
        }
        assert forall|n: u128, c: u128| n != note implies #[trigger] has_concept_link(out@, n, c)
            == has_concept_link(base, n, c) by {
            if has_concept_link(out@, n, c) {
                let k = choose|k: int| 0 <= k < out@.len() && joins_concept(#[trigger] out@[k], n, c);
                if k >= base.len() {
                    assert(out@[base.len() + (k - base.len())].note_id == note);
                }
                assert(out@[k] == base[k]);
                assert(joins_concept(base[k], n, c));
            } else if has_concept_link(base, n, c) {
                let k = choose|k: int| 0 <= k < base.len() && joins_concept(#[trigger] base[k], n, c);
                assert(out@[k] == base[k]);
                assert(joins_concept(out@[k], n, c));
            }
        }
        assert forall|c: u128| #[trigger] has_concept_link(out@, note, c) == concepts@.contains(c) by {
            if has_concept_link(out@, note, c) {
                let k = choose|k: int| 0 <= k < out@.len() && joins_concept(#[trigger] out@[k], note, c);
                if k < base.len() {
                    assert(out@[k] == base[k]);
                } else {
                    let u = k - base.len();
                    assert(out@[base.len() + u].concept_id == concepts@[u]);
                }
            }
            if concepts@.contains(c) {
                let u = choose|u: int| 0 <= u < concepts@.len() && concepts@[u] == c;
                assert(joins_concept(out@[base.len() + u], note, c));
            }
        }
    }
    out
}

impl GraphStore {
    /// Replaces the entity links of `note`: all its rows are dropped, and one
    /// row is written for each entity that `mentions` counts. The links of
    /// other notes, and every other table, stay as they are.
    pub fn replace_entity_links(&mut self, note: u128, mentions: &Mentions)
        ensures
            entity_links_replaced(old(self)@, final(self)@, note, mentions@),
            final(self)@ == (StoreView { entity_links: final(self)@.entity_links, ..old(self)@ }),
            final(self)@.well_formed(),
    {
        let counts = mentions.entity_counts();
        let kept = entity_links_of_others(self.entity_links(), note);
        let rows = with_entity_links_of(kept, note, counts);
        proof {
            let m = mentions@;
            assert forall|n: u128, e: u128| #[trigger]
                entity_link_count(rows@, n, e) == if n == note {
                    m.count_of(e)
                } else {
                    old(self)@.entity_link(n, e)
                } by {
                if n == note {
                    if m.mentions_entity(e) {
                        let k = choose|k: int|
                            0 <= k < m.entity_counts.len() && (#[trigger] m.entity_counts[k]).0 == e;
                        assert(entity_link_count(rows@, note, counts@[k].0) == Some(counts@[k].1));
                    } else if has_entity_link(rows@, note, e) {
                        let t = choose|t: int| 0 <= t < counts@.len() && (#[trigger] counts@[t]).0 == e;
                        assert(m.entity_counts[t].0 == e);
                    }
                } else {
                    assert(entity_link_count(rows@, n, e) == entity_link_count(kept@, n, e));
                }
            }
        }
        self.set_entity_links(rows);
    }

    /// Replaces the concept links of `note`: all its rows are dropped, and
    /// one row is written for each concept that `mentions` tags. The links
    /// of other notes, and every other table, stay as they are.
    pub fn replace_concept_links(&mut self, note: u128, mentions: &Mentions)
        ensures
            concept_links_replaced(old(self)@, final(self)@, note, mentions@),
            final(self)@ == (StoreView { concept_links: final(self)@.concept_links, ..old(self)@ }),
            final(self)@.well_formed(),
    {
        let concepts = mentions.concept_ids();
        let kept = concept_links_of_others(self.concept_links(), note);
        let rows = with_concept_links_of(kept, note, concepts);
        self.set_concept_links(rows);
    }
}

} // verus!
