use archivemind::document::{collect_nodes, AttrField, DocNode, NodeAttrs};
use archivemind::mentions::{
    contains_id, dedup_in_order, extract_mentions, mention_ids, parse_uuid_attr, tally_mentions,
    Mentions,
};

const A: u128 = 0xa1a2a3a4_b1b2_c1c2_d1d2_d3d4d5d6d7d8;
const B: u128 = 0x00000000_0000_0000_0000_000000000002;
const C: u128 = 0x550e8400_e29b_41d4_a716_446655440000;

fn attrs_with_id(id: &str) -> NodeAttrs {
    NodeAttrs { fields: vec![AttrField { name: "id".to_string(), text: Some(id.to_string()) }] }
}

fn leaf(node_type: &str, id: &str) -> DocNode {
    DocNode { node_type: Some(node_type.to_string()), attrs: Some(attrs_with_id(id)), content: None }
}

fn entity(id: u128) -> DocNode {
    leaf("entityMention", &format!("{:032x}", id))
}

fn concept(id: u128) -> DocNode {
    leaf("conceptTag", &format!("{:032x}", id))
}

fn text(words: &str) -> DocNode {
    DocNode {
        node_type: Some("text".to_string()),
        attrs: Some(NodeAttrs {
            fields: vec![AttrField { name: "text".to_string(), text: Some(words.to_string()) }],
        }),
        content: None,
    }
}

fn block(node_type: &str, children: Vec<DocNode>) -> DocNode {
    DocNode { node_type: Some(node_type.to_string()), attrs: None, content: Some(children) }
}

fn ids_of(found: &Vec<&NodeAttrs>) -> Vec<String> {
    found
        .iter()
        .map(|a| a.fields[0].text.clone().unwrap_or_default())
        .collect()
}

#[test]
fn counts_repeated_entity_mentions() {
    let body = block("doc", vec![entity(A), entity(B), entity(A)]);
    let m = extract_mentions(&body);
    assert_eq!(m.entity_counts(), &vec![(A, 2u64), (B, 1u64)]);
    assert!(m.concept_ids().is_empty());
    assert!(!m.is_empty());
}

#[test]
fn collects_in_document_order_through_nested_blocks() {
    let body = block(
        "doc",
        vec![
            block("paragraph", vec![text("met"), leaf("entityMention", "first")]),
            block(
                "bulletList",
                vec![block("listItem", vec![block("paragraph", vec![leaf("entityMention", "second")])])],
            ),
            leaf("entityMention", "third"),
        ],
    );
    let mut found: Vec<&NodeAttrs> = Vec::new();
    collect_nodes(&body, "entityMention", &mut found);
    assert_eq!(ids_of(&found), vec!["first", "second", "third"]);
}

#[test]
fn appends_to_what_was_collected_before() {
    let first = block("doc", vec![leaf("conceptTag", "one")]);
    let second = block("doc", vec![leaf("conceptTag", "two"), leaf("entityMention", "other")]);
    let mut found: Vec<&NodeAttrs> = Vec::new();
    collect_nodes(&first, "conceptTag", &mut found);
    collect_nodes(&second, "conceptTag", &mut found);
    assert_eq!(ids_of(&found), vec!["one", "two"]);
}

#[test]
fn does_not_descend_into_a_matching_node() {
    let outer = DocNode {
        node_type: Some("entityMention".to_string()),
        attrs: Some(attrs_with_id("outer")),
        content: Some(vec![leaf("entityMention", "inner")]),
    };
    let mut found: Vec<&NodeAttrs> = Vec::new();
    let body = block("doc", vec![outer]);
    collect_nodes(&body, "entityMention", &mut found);
    assert_eq!(ids_of(&found), vec!["outer"]);
}

#[test]
fn matching_node_without_attributes_contributes_nothing_and_hides_its_children() {
    let bare = DocNode {
        node_type: Some("entityMention".to_string()),
        attrs: None,
        content: Some(vec![leaf("entityMention", "inner")]),
    };
    let mut found: Vec<&NodeAttrs> = Vec::new();
    let body = block("doc", vec![bare, leaf("entityMention", "next")]);
    collect_nodes(&body, "entityMention", &mut found);
    assert_eq!(ids_of(&found), vec!["next"]);
}

#[test]
fn node_of_the_other_mention_type_is_descended_into() {
    let tag = DocNode {
        node_type: Some("conceptTag".to_string()),
        attrs: Some(attrs_with_id("tag")),
        content: Some(vec![leaf("entityMention", "inside")]),
    };
    let mut found: Vec<&NodeAttrs> = Vec::new();
    let body = block("doc", vec![tag]);
    collect_nodes(&body, "entityMention", &mut found);
    assert_eq!(ids_of(&found), vec!["inside"]);
}

#[test]
fn untyped_nodes_are_walked_through() {
    let body = DocNode {
        node_type: None,
        attrs: None,
        content: Some(vec![DocNode {
            node_type: None,
            attrs: Some(attrs_with_id("ignored")),
            content: Some(vec![entity(A)]),
        }]),
    };
    let m = extract_mentions(&body);
    assert_eq!(m.entity_counts(), &vec![(A, 1u64)]);
}

#[test]
fn empty_body_mentions_nothing() {
    let m = extract_mentions(&DocNode::empty());
    assert!(m.entity_counts().is_empty());
    assert!(m.concept_ids().is_empty());
    assert!(m.is_empty());
    let none = Mentions::none();
    assert!(none.is_empty());
}

#[test]
fn body_without_mentions_mentions_nothing() {
    let body = block("doc", vec![block("paragraph", vec![text("nothing to see")]), block("heading", vec![])]);
    assert!(extract_mentions(&body).is_empty());
}

#[test]
fn invalid_and_missing_identifiers_are_passed_over() {
    let no_id = DocNode {
        node_type: Some("entityMention".to_string()),
        attrs: Some(NodeAttrs {
            fields: vec![AttrField { name: "label".to_string(), text: Some("Priya".to_string()) }],
        }),
        content: None,
    };
    let not_a_string = DocNode {
        node_type: Some("entityMention".to_string()),
        attrs: Some(NodeAttrs { fields: vec![AttrField { name: "id".to_string(), text: None }] }),
        content: None,
    };
    let no_fields = DocNode {
        node_type: Some("entityMention".to_string()),
        attrs: Some(NodeAttrs { fields: vec![] }),
        content: None,
    };
    let body = block(
        "doc",
        vec![
            leaf("entityMention", "not-a-uuid"),
            no_id,
            entity(B),
            not_a_string,
            no_fields,
            leaf("entityMention", ""),
            leaf("conceptTag", "zzzzzzzz-zzzz-zzzz-zzzz-zzzzzzzzzzzz"),
        ],
    );
    let m = extract_mentions(&body);
    assert_eq!(m.entity_counts(), &vec![(B, 1u64)]);
    assert!(m.concept_ids().is_empty());
}

#[test]
fn concepts_are_deduplicated_in_order_of_first_occurrence() {
    let body = block(
        "doc",
        vec![concept(C), concept(A), concept(C), entity(B), concept(B), concept(A)],
    );
    let m = extract_mentions(&body);
    assert_eq!(m.concept_ids(), &vec![C, A, B]);
    assert_eq!(m.entity_counts(), &vec![(B, 1u64)]);
}

#[test]
fn entities_are_listed_in_order_of_first_occurrence() {
    let body = block("doc", vec![entity(C), entity(A), entity(C), entity(B), entity(A), entity(C)]);
    let m = extract_mentions(&body);
    assert_eq!(m.entity_counts(), &vec![(C, 3u64), (A, 2u64), (B, 1u64)]);
}

#[test]
fn extraction_is_repeatable() {
    let body = block(
        "doc",
        vec![
            block("paragraph", vec![entity(A), text("and"), entity(B), concept(C)]),
            block("paragraph", vec![entity(A), concept(C), leaf("entityMention", "broken")]),
        ],
    );
    let first = extract_mentions(&body);
    let second = extract_mentions(&body);
    assert_eq!(first.entity_counts(), second.entity_counts());
    assert_eq!(first.concept_ids(), second.concept_ids());
    assert_eq!(first.entity_counts(), &vec![(A, 2u64), (B, 1u64)]);
    assert_eq!(first.concept_ids(), &vec![C]);
}

#[test]
fn identifier_is_read_in_every_textual_form() {
    let hyphenated = attrs_with_id("a1a2a3a4-b1b2-c1c2-d1d2-d3d4d5d6d7d8");
    let simple = attrs_with_id("a1a2a3a4b1b2c1c2d1d2d3d4d5d6d7d8");
    let upper = attrs_with_id("A1A2A3A4-B1B2-C1C2-D1D2-D3D4D5D6D7D8");
    let braced = attrs_with_id("{a1a2a3a4-b1b2-c1c2-d1d2-d3d4d5d6d7d8}");
    let urn = attrs_with_id("urn:uuid:a1a2a3a4-b1b2-c1c2-d1d2-d3d4d5d6d7d8");
    assert_eq!(parse_uuid_attr(&hyphenated, "id"), Some(A));
    assert_eq!(parse_uuid_attr(&simple, "id"), Some(A));
    assert_eq!(parse_uuid_attr(&upper, "id"), Some(A));
    assert_eq!(parse_uuid_attr(&braced, "id"), Some(A));
    assert_eq!(parse_uuid_attr(&urn, "id"), Some(A));
}

#[test]
fn identifier_attribute_is_looked_up_by_name() {
    let attrs = NodeAttrs {
        fields: vec![
            AttrField { name: "label".to_string(), text: Some(format!("{:032x}", B)) },
            AttrField { name: "id".to_string(), text: Some(format!("{:032x}", A)) },
            AttrField { name: "ref".to_string(), text: Some(format!("{:032x}", C)) },
        ],
    };
    assert_eq!(parse_uuid_attr(&attrs, "id"), Some(A));
    assert_eq!(parse_uuid_attr(&attrs, "ref"), Some(C));
    assert_eq!(parse_uuid_attr(&attrs, "label"), Some(B));
    assert_eq!(parse_uuid_attr(&attrs, "missing"), None);
    assert_eq!(parse_uuid_attr(&attrs, "ID"), None);
}

#[test]
fn first_attribute_of_a_name_decides() {
    let attrs = NodeAttrs {
        fields: vec![
            AttrField { name: "id".to_string(), text: None },
            AttrField { name: "id".to_string(), text: Some(format!("{:032x}", A)) },
        ],
    };
    assert_eq!(parse_uuid_attr(&attrs, "id"), None);
}

#[test]
fn rejected_identifier_texts() {
    for bad in [
        "",
        "a1a2a3a4",
        "a1a2a3a4-b1b2-c1c2-d1d2-d3d4d5d6d7d",
        "a1a2a3a4-b1b2-c1c2-d1d2-d3d4d5d6d7d8a",
        "g1a2a3a4-b1b2-c1c2-d1d2-d3d4d5d6d7d8",
        "a1a2a3a4_b1b2_c1c2_d1d2_d3d4d5d6d7d8",
        " a1a2a3a4-b1b2-c1c2-d1d2-d3d4d5d6d7d8",
    ] {
        assert_eq!(parse_uuid_attr(&attrs_with_id(bad), "id"), None, "{:?}", bad);
    }
}

#[test]
fn mention_ids_keeps_the_valid_identifiers_in_order() {
    let one = attrs_with_id(&format!("{:032x}", B));
    let two = attrs_with_id("nope");
    let three = attrs_with_id(&format!("{:032x}", A));
    let four = attrs_with_id(&format!("{:032x}", B));
    let found = vec![&one, &two, &three, &four];
    assert_eq!(mention_ids(&found), vec![B, A, B]);
    assert_eq!(mention_ids(&Vec::new()), Vec::<u128>::new());
}

#[test]
fn tally_counts_each_identifier() {
    let m = tally_mentions(&vec![7, 3, 7, 7, 9, 3], &vec![5, 5, 4, 5, 6, 4]);
    assert_eq!(m.entity_counts(), &vec![(7u128, 3u64), (3u128, 2u64), (9u128, 1u64)]);
    assert_eq!(m.concept_ids(), &vec![5u128, 4, 6]);
    let empty = tally_mentions(&vec![], &vec![]);
    assert!(empty.is_empty());
}

#[test]
fn dedup_and_contains() {
    assert_eq!(dedup_in_order(&vec![3, 1, 3, 2, 1, 3]), vec![3u128, 1, 2]);
    assert_eq!(dedup_in_order(&vec![]), Vec::<u128>::new());
    assert!(contains_id(&vec![3, 1, 2], 1));
    assert!(!contains_id(&vec![3, 1, 2], 4));
    assert!(!contains_id(&vec![], 0));
}
