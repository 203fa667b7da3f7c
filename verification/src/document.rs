//! The structured body of a note and the walk that finds mention nodes in it.

use vstd::prelude::*;
use crate::text::str_eq;

verus! {

/// One named attribute of a node. `text` is present when the attribute's
/// value is a string.
pub struct AttrField {
    pub name: String,
    pub text: Option<String>,
}

/// The attribute bundle of a node.
pub struct NodeAttrs {
    pub fields: Vec<AttrField>,
}

/// A node of a note's rich-text body: a type tag, attributes and ordered
/// children, each of which may be absent.
pub struct DocNode {
    pub node_type: Option<String>,
    pub attrs: Option<NodeAttrs>,
    pub content: Option<Vec<DocNode>>,
}

/// The node type of an embedded entity reference.
pub open spec fn entity_mention_type() -> Seq<char> {
    "entityMention"@
}

/// The node type of an embedded concept reference.
pub open spec fn concept_tag_type() -> Seq<char> {
    "conceptTag"@
}

/// Whether `node` carries the type tag `node_type`.
pub open spec fn has_type(node: DocNode, node_type: Seq<char>) -> bool {
    node.node_type matches Some(t) && t@ == node_type
}

/// The attribute bundles of the nodes of type `node_type` under `node`, in
/// document order. A node of that type contributes its attributes, if it has
/// any, and is not descended into; any other node contributes what its
/// children contribute.
pub open spec fn collected(node: DocNode, node_type: Seq<char>) -> Seq<NodeAttrs>
    decreases node, 0nat,
{
    if has_type(node, node_type) {
        match node.attrs {
            Some(a) => seq![a],
            None => Seq::empty(),
        }
    } else {
        match node.content {
            Some(children) => collected_from(children@, node_type, children@.len()),
            None => Seq::empty(),
        }
    }
}

/// What the first `upto` nodes of `children` contribute, in order.
pub open spec fn collected_from(children: Seq<DocNode>, node_type: Seq<char>, upto: nat) -> Seq<
    NodeAttrs,
>
    decreases children, upto,
{
    if 0 < upto <= children.len() {
        collected_from(children, node_type, (upto - 1) as nat) + collected(
            children[upto - 1],
            node_type,
        )
    } else {
        Seq::empty()
    }
}

/// The bundles that a list of borrowed bundles refers to.
pub open spec fn bundles(refs: Seq<&NodeAttrs>) -> Seq<NodeAttrs> {
    refs.map_values(|a: &NodeAttrs| *a)
}

impl DocNode {
    /// A node with no type, no attributes and no children: an empty body.
    pub fn empty() -> (node: DocNode)
        ensures
            node.node_type is None,
            node.attrs is None,
            node.content is None,
    {
        DocNode { node_type: None, attrs: None, content: None }
    }
}

/// Walks `node` and appends to `out` the attribute bundles of the nodes of
/// type `node_type`, in document order.
pub fn collect_nodes<'a>(node: &'a DocNode, node_type: &str, out: &mut Vec<&'a NodeAttrs>)
    ensures
        bundles(final(out)@) == bundles(old(out)@) + collected(*node, node_type@),
    decreases node,
{
    let is_match = match &node.node_type {
        Some(t) => str_eq(t.as_str(), node_type),
        None => false,
    };
    if is_match {
        match &node.attrs {
            Some(a) => {
                out.push(a);
            },
            None => {},
        }
        return ;
    }
    match &node.content {
        Some(children) => {
            let mut i: usize = 0;
            while i < children.len()
                invariant
                    0 <= i <= children.len(),
                    node.content == Some(*children),
                    bundles(out@) == bundles(old(out)@) + collected_from(
                        children@,
                        node_type@,
                        i as nat,
                    ),
                decreases children.len() - i,
            {
                proof {
                    let kids = node.content->0;
                    assert(decreases_to!(*node => node.content));
                    assert(decreases_to!(node.content => kids));
                    assert(decreases_to!(kids => kids[i as int]));
                }
                collect_nodes(&children[i], node_type, out);
                i += 1;
            }
        },
        None => {},
    }
}

} // verus!
