//! From attribute bundles to the mentions of a note: how often each entity is
//! referred to, and which concepts are tagged.

use vstd::prelude::*;
use crate::document::{
    bundles,
    collect_nodes,
    collected,
    concept_tag_type,
    entity_mention_type,
    AttrField,
    DocNode,
    NodeAttrs,
};
use crate::ident::{parse_uuid_text, parsed_uuid};
use crate::text::str_eq;

verus! {

/// The text of the first field named `key` among `fields[start..]`, if that
/// field holds a string.
pub open spec fn attr_text_from(fields: Seq<AttrField>, key: Seq<char>, start: int) -> Option<
    Seq<char>,
>
    decreases fields.len() - start,
{
    if start < 0 || start >= fields.len() {
        None
    } else if fields[start].name@ == key {
        match fields[start].text {
            Some(t) => Some(t@),
            None => None,
        }
    } else {
        attr_text_from(fields, key, start + 1)
    }
}

/// The text of the attribute `key` of a bundle, if it is there and a string.
pub open spec fn attr_text(attrs: NodeAttrs, key: Seq<char>) -> Option<Seq<char>> {
    attr_text_from(attrs.fields@, key, 0)
}

/// The identifier that the attribute `key` of a bundle holds: `None` where
/// the attribute is missing, is no string, or does not parse as a UUID.
pub open spec fn attr_uuid(attrs: NodeAttrs, key: Seq<char>) -> Option<u128> {
    match attr_text(attrs, key) {
        Some(t) => parsed_uuid(t),
        None => None,
    }
}

/// The name of the attribute that holds a mention's identifier.
pub open spec fn id_key() -> Seq<char> {
    "id"@
}

/// The identifiers of the first `upto` bundles, in order, leaving out the
/// bundles without a valid identifier.
pub open spec fn bundle_ids(all: Seq<NodeAttrs>, upto: nat) -> Seq<u128>
    decreases upto,
{
    if 0 < upto <= all.len() {
        let before = bundle_ids(all, (upto - 1) as nat);
        match attr_uuid(all[upto - 1], id_key()) {
            Some(id) => before.push(id),
            None => before,
        }
    } else {
        Seq::empty()
    }
}

/// The identifiers that the nodes of type `node_type` in `body` mention, in
/// document order and with repetitions.
pub open spec fn mentioned_ids(body: DocNode, node_type: Seq<char>) -> Seq<u128> {
    let all = collected(body, node_type);
    bundle_ids(all, all.len())
}

/// `ids` without repetitions, each identifier at the place of its first
/// occurrence.
pub open spec fn distinct_in_order(ids: Seq<u128>) -> Seq<u128>
    decreases ids.len(),
{
    if ids.len() == 0 {
        Seq::empty()
    } else {
        let before = distinct_in_order(ids.drop_last());
        if before.contains(ids.last()) {
            before
        } else {
            before.push(ids.last())
        }
    }
}

/// How many times `id` occurs in `ids`.
pub open spec fn occurrences(ids: Seq<u128>, id: u128) -> nat
    decreases ids.len(),
{
    if ids.len() == 0 {
        0
    } else {
        occurrences(ids.drop_last(), id) + if ids.last() == id {
            1nat
        } else {
            0nat
        }
    }
}

/// Whether `counts` lists each distinct identifier of `ids` once, in order
/// of first occurrence, with the number of its occurrences.
pub open spec fn is_tally_of(counts: Seq<(u128, u64)>, ids: Seq<u128>) -> bool {
    let distinct = distinct_in_order(ids);
    &&& counts.len() == distinct.len()
    &&& forall|k: int|
        0 <= k < counts.len() ==> (#[trigger] counts[k]).0 == distinct[k] && counts[k].1
            == occurrences(ids, distinct[k])
}

/// No identifier occurs twice in `ids`.
pub open spec fn all_distinct(ids: Seq<u128>) -> bool {
    forall|i: int, j: int| 0 <= i < j < ids.len() ==> ids[i] != ids[j]
}

/// The identifiers that `counts` speaks of, in order.
pub open spec fn counted_ids(counts: Seq<(u128, u64)>) -> Seq<u128> {
    counts.map_values(|c: (u128, u64)| c.0)
}

/// Each distinct identifier of `ids`, in order of first occurrence, with the
/// number of its occurrences.
pub open spec fn tally(ids: Seq<u128>) -> Seq<(u128, u64)> {
    let distinct = distinct_in_order(ids);
    Seq::new(distinct.len(), |k: int| (distinct[k], occurrences(ids, distinct[k]) as u64))
}

/// The mentions that the identifiers `entity_ids` of entity mentions and
/// `concept_ids` of concept tags amount to.
pub open spec fn mentions_of(entity_ids: Seq<u128>, concept_ids: Seq<u128>) -> MentionsView {
    MentionsView { entity_counts: tally(entity_ids), concept_ids: distinct_in_order(concept_ids) }
}

/// What the body of a note mentions.
pub open spec fn body_mentions(body: DocNode) -> MentionsView {
    mentions_of(
        mentioned_ids(body, entity_mention_type()),
        mentioned_ids(body, concept_tag_type()),
    )
}

/// The mathematical content of a [`Mentions`] value.
pub struct MentionsView {
    /// Each mentioned entity with its number of mentions, which is at least
    /// one; no entity twice.
    pub entity_counts: Seq<(u128, u64)>,
    /// The tagged concepts; no concept twice.
    pub concept_ids: Seq<u128>,
}

impl MentionsView {
    /// What every [`Mentions`] value satisfies.
    pub open spec fn well_formed(self) -> bool {
        &&& all_distinct(counted_ids(self.entity_counts))
        &&& all_distinct(self.concept_ids)
        &&& forall|k: int|
            0 <= k < self.entity_counts.len() ==> (#[trigger] self.entity_counts[k]).1 >= 1
    }

    /// The entities that are mentioned: the touched entities of a note.
    pub open spec fn entity_ids(self) -> Seq<u128> {
        counted_ids(self.entity_counts)
    }

    /// Whether `entity` is mentioned.
    pub open spec fn mentions_entity(self, entity: u128) -> bool {
        exists|k: int| 0 <= k < self.entity_counts.len() && (#[trigger] self.entity_counts[k]).0 == entity
    }

    /// How often `entity` is mentioned, if it is mentioned at all.
    pub open spec fn count_of(self, entity: u128) -> Option<u64> {
        if self.mentions_entity(entity) {
            let k = choose|k: int|
                0 <= k < self.entity_counts.len() && (#[trigger] self.entity_counts[k]).0 == entity;
            Some(self.entity_counts[k].1)
        } else {
            None
        }
    }

    /// Whether `concept` is tagged.
    pub open spec fn tags_concept(self, concept: u128) -> bool {
        self.concept_ids.contains(concept)
    }
}

/// What a note mentions: entity identifiers with mention counts, and concept
/// identifiers.
pub struct Mentions {
    entity_counts: Vec<(u128, u64)>,
    concept_ids: Vec<u128>,
}

impl View for Mentions {
    type V = MentionsView;

    closed spec fn view(&self) -> MentionsView {
        MentionsView { entity_counts: self.entity_counts@, concept_ids: self.concept_ids@ }
    }
}

impl Mentions {
    #[verifier::type_invariant]
    spec fn inv(self) -> bool {
        self@.well_formed()
    }

    /// No mentions at all.
    pub fn none() -> (m: Mentions)
        ensures
            m@.entity_counts.len() == 0,
            m@.concept_ids.len() == 0,
            m@.well_formed(),
    {
        Mentions { entity_counts: Vec::new(), concept_ids: Vec::new() }
    }

    /// The mentioned entities with their counts.
    pub fn entity_counts(&self) -> (r: &Vec<(u128, u64)>)
        ensures
            r@ == self@.entity_counts,
            self@.well_formed(),
    {
        proof {
            use_type_invariant(self);
        }
        &self.entity_counts
    }

    /// The tagged concepts.
    pub fn concept_ids(&self) -> (r: &Vec<u128>)
        ensures
            r@ == self@.concept_ids,
            self@.well_formed(),
    {
        proof {
            use_type_invariant(self);
        }
        &self.concept_ids
    }

    /// Whether nothing is mentioned.
    pub fn is_empty(&self) -> (r: bool)
        ensures
            r == (self@.entity_counts.len() == 0 && self@.concept_ids.len() == 0),
    {
        self.entity_counts.len() == 0 && self.concept_ids.len() == 0
    }
}

/// An identifier is kept by `distinct_in_order` exactly when it occurs.
pub proof fn distinct_in_order_keeps(ids: Seq<u128>, id: u128)
    ensures
        distinct_in_order(ids).contains(id) <==> ids.contains(id),
    decreases ids.len(),
{
    if ids.len() > 0 {
        let front = ids.drop_last();
        distinct_in_order_keeps(front, id);
        distinct_in_order_keeps(front, ids.last());
        let before = distinct_in_order(front);
        let out = distinct_in_order(ids);
        if ids.contains(id) {
            let i = choose|i: int| 0 <= i < ids.len() && ids[i] == id;
            if i < ids.len() - 1 {
                assert(front[i] == id);
                assert(front.contains(id));
                let k = choose|k: int| 0 <= k < before.len() && before[k] == id;
                assert(out[k] == id);
            } else if before.contains(id) {
            } else {
                assert(out[out.len() - 1] == id);
            }
        }
        if out.contains(id) {
            let k = choose|k: int| 0 <= k < out.len() && out[k] == id;
            if k < before.len() {
                assert(before[k] == id);
                assert(before.contains(id));
                let i = choose|i: int| 0 <= i < front.len() && front[i] == id;
                assert(ids[i] == id);
            } else {
                assert(ids[ids.len() - 1] == id);
            }
        }
    }
}

/// `distinct_in_order` holds no identifier twice and is no longer than its
/// argument.
pub proof fn distinct_in_order_properties(ids: Seq<u128>)
    ensures
        all_distinct(distinct_in_order(ids)),
        distinct_in_order(ids).len() <= ids.len(),
    decreases ids.len(),
{
    if ids.len() > 0 {
        distinct_in_order_properties(ids.drop_last());
    }
}

/// An identifier occurs at least once exactly when it is in the sequence,
/// and never more often than the sequence is long.
pub proof fn occurrences_properties(ids: Seq<u128>, id: u128)
    ensures
        occurrences(ids, id) <= ids.len(),
        occurrences(ids, id) > 0 <==> ids.contains(id),
    decreases ids.len(),
{
    if ids.len() > 0 {
        let front = ids.drop_last();
        occurrences_properties(front, id);
        if ids.contains(id) {
            let i = choose|i: int| 0 <= i < ids.len() && ids[i] == id;
            if i < ids.len() - 1 {
                assert(front[i] == id);
            }
        }
        if front.contains(id) {
            let i = choose|i: int| 0 <= i < front.len() && front[i] == id;
            assert(ids[i] == id);
        }
        if ids.last() == id {
            assert(ids[ids.len() - 1] == id);
        }
    }
}

/// Purity: what is extracted from a body depends on the body alone, so two
/// extractions from the same body agree in their entity counts and in their
/// concepts.
pub proof fn extraction_is_pure(body: DocNode, first: MentionsView, second: MentionsView)
    requires
        first == body_mentions(body),
        second == body_mentions(body),
    ensures
        first.entity_counts == second.entity_counts,
        first.concept_ids == second.concept_ids,
{
}

/// A body without a type and without children mentions nothing.
pub proof fn empty_body_mentions_nothing(body: DocNode)
    requires
        body.node_type is None,
        body.content is None,
    ensures
        body_mentions(body).entity_counts.len() == 0,
        body_mentions(body).concept_ids.len() == 0,
{
    assert(collected(body, entity_mention_type()).len() == 0);
    assert(collected(body, concept_tag_type()).len() == 0);
}

/// Reads the attribute `key` of a bundle as an identifier. A missing
/// attribute, one that is no string and one that is no UUID give `None`.
pub fn parse_uuid_attr(attrs: &NodeAttrs, key: &str) -> (r: Option<u128>)
    ensures
        r == attr_uuid(*attrs, key@),
{
    let mut i: usize = 0;
    while i < attrs.fields.len()
        invariant
            0 <= i <= attrs.fields.len(),
            attr_text_from(attrs.fields@, key@, 0) == attr_text_from(attrs.fields@, key@, i as int),
        decreases attrs.fields.len() - i,
    {
        let field = &attrs.fields[i];
        if str_eq(field.name.as_str(), key) {
            return match &field.text {
                Some(t) => parse_uuid_text(t.as_str()),
                None => None,
            };
        }
        i += 1;
    }
    None
}

/// The identifiers of the given bundles, in order, leaving out the bundles
/// whose `id` attribute is missing or invalid.
pub fn mention_ids(found: &Vec<&NodeAttrs>) -> (ids: Vec<u128>)
    ensures
        ids@ == bundle_ids(bundles(found@), found@.len()),
{
    let mut ids: Vec<u128> = Vec::new();
    let mut i: usize = 0;
    while i < found.len()
        invariant
            0 <= i <= found.len(),
            ids@ == bundle_ids(bundles(found@), i as nat),
        decreases found.len() - i,
    {
        match parse_uuid_attr(found[i], "id") {
            Some(id) => {
                ids.push(id);
            },
            None => {},
        }
        i += 1;
    }
    ids
}

/// The position of `id` among the counted identifiers.
fn position_of(counts: &Vec<(u128, u64)>, id: u128) -> (r: Option<usize>)
    ensures
        match r {
            Some(k) => k < counts.len() && counts[k as int].0 == id,
            None => !counted_ids(counts@).contains(id),
        },
{
    let mut k: usize = 0;
    while k < counts.len()
        invariant
            0 <= k <= counts.len(),
            forall|j: int| 0 <= j < k ==> counts[j].0 != id,
        decreases counts.len() - k,
    {
        if counts[k].0 == id {
            return Some(k);
        }
        k += 1;
    }
    None
}

/// Whether `id` is among `ids`.
pub fn contains_id(ids: &Vec<u128>, id: u128) -> (r: bool)
    ensures
        r == ids@.contains(id),
{
    let mut k: usize = 0;
    while k < ids.len()
        invariant
            0 <= k <= ids.len(),
            forall|j: int| 0 <= j < k ==> ids[j] != id,
        decreases ids.len() - k,
    {
        if ids[k] == id {
            return true;
        }
        k += 1;
    }
    false
}

/// `ids` without repetitions, in order of first occurrence.
pub fn dedup_in_order(ids: &Vec<u128>) -> (out: Vec<u128>)
    ensures
        out@ == distinct_in_order(ids@),
        all_distinct(out@),
{
    let mut out: Vec<u128> = Vec::new();
    let mut i: usize = 0;
    while i < ids.len()
        invariant
            0 <= i <= ids.len(),
            out@ == distinct_in_order(ids@.take(i as int)),
        decreases ids.len() - i,
    {
        assert(ids@.take(i + 1).drop_last() == ids@.take(i as int));
        if !contains_id(&out, ids[i]) {
            out.push(ids[i]);
        }
        i += 1;
    }
    proof {
        assert(ids@.take(ids.len() as int) == ids@);
        distinct_in_order_properties(ids@);
    }
    out
}

/// Counts the entity mentions and removes repeated concept tags.
///
/// `entity_ids` are the identifiers of the entity mentions and `concept_ids`
/// those of the concept tags, both in document order.
pub fn tally_mentions(entity_ids: &Vec<u128>, concept_ids: &Vec<u128>) -> (m: Mentions)
    ensures
        m@ == mentions_of(entity_ids@, concept_ids@),
        m@.well_formed(),
{
    let mut counts: Vec<(u128, u64)> = Vec::new();
    let mut i: usize = 0;
    while i < entity_ids.len()
        invariant
            0 <= i <= entity_ids.len(),
            is_tally_of(counts@, entity_ids@.take(i as int)),
        decreases entity_ids.len() - i,
    {
        let id = entity_ids[i];
        let ghost seen = entity_ids@.take(i as int);
        let ghost next = entity_ids@.take(i + 1);
        let ghost prior = counts@;
        proof {
            assert(next.drop_last() == seen);
            assert(next.last() == id);
            distinct_in_order_properties(seen);
            distinct_in_order_keeps(seen, id);
            assert(counted_ids(prior) == distinct_in_order(seen));
        }
        match position_of(&counts, id) {
            Some(k) => {
                let n = counts[k].1;
                proof {
                    occurrences_properties(seen, id);
                    assert(prior[k as int].0 == id);
                    assert(counted_ids(prior)[k as int] == id);
                    assert(distinct_in_order(seen).contains(id));
                }
                counts.set(k, (id, n + 1));
                proof {
                    assert forall|j: int| 0 <= j < counts@.len() implies (#[trigger] counts@[j]).0
                        == distinct_in_order(next)[j] && counts@[j].1 == occurrences(
                        next,
                        distinct_in_order(next)[j],
                    ) by {
                        if j != k {
                            assert(counts@[j] == prior[j]);
                            assert(distinct_in_order(seen)[j] != distinct_in_order(seen)[k as int]);
                        }
                    }
                }
            },
            None => {
                counts.push((id, 1));
                proof {
                    occurrences_properties(seen, id);
                    assert forall|j: int| 0 <= j < counts@.len() implies (#[trigger] counts@[j]).0
                        == distinct_in_order(next)[j] && counts@[j].1 == occurrences(
                        next,
                        distinct_in_order(next)[j],
                    ) by {
                        if j < prior.len() {
                            assert(counts@[j] == prior[j]);
                            assert(distinct_in_order(seen).contains(distinct_in_order(seen)[j]));
                        }
                    }
                }
            },
        }
        i += 1;
    }
    let concepts = dedup_in_order(concept_ids);
    proof {
        assert(entity_ids@.take(entity_ids.len() as int) == entity_ids@);
        distinct_in_order_properties(entity_ids@);
        assert(counted_ids(counts@) == distinct_in_order(entity_ids@));
        assert forall|k: int| 0 <= k < counts@.len() implies (#[trigger] counts@[k]).1 >= 1 by {
            let d = distinct_in_order(entity_ids@);
            assert(d.contains(d[k]));
            distinct_in_order_keeps(entity_ids@, d[k]);
            occurrences_properties(entity_ids@, d[k]);
        }
        assert(counts@ =~= tally(entity_ids@));
    }
    Mentions { entity_counts: counts, concept_ids: concepts }
}

/// Extracts what a note body mentions: for each entity the number of its
/// `entityMention` nodes, and the concepts of its `conceptTag` nodes without
/// repetition, both in order of first occurrence. Nodes without a valid
/// identifier are passed over.
pub fn extract_mentions(body: &DocNode) -> (m: Mentions)
    ensures
        m@ == body_mentions(*body),
        m@.well_formed(),
{
    let mut entity_attrs: Vec<&NodeAttrs> = Vec::new();
    collect_nodes(body, "entityMention", &mut entity_attrs);
    assert(bundles(entity_attrs@) == collected(*body, entity_mention_type()));
    let entity_ids = mention_ids(&entity_attrs);

    let mut concept_attrs: Vec<&NodeAttrs> = Vec::new();
    collect_nodes(body, "conceptTag", &mut concept_attrs);
    assert(bundles(concept_attrs@) == collected(*body, concept_tag_type()));
    let concept_ids = mention_ids(&concept_attrs);

    tally_mentions(&entity_ids, &concept_ids)
}

} // verus!
