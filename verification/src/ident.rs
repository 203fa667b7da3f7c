//! Identifiers.
//!
//! Notes, entities, concepts and workspaces are identified by UUIDs. The crate
//! carries an identifier as the 128-bit integer whose big-endian bytes are the
//! UUID's bytes, so that identifiers compare as integers.

use vstd::prelude::*;

verus! {

/// The identifier that `uuid::Uuid::parse_str` reads from `text`, as a
/// big-endian integer, or `None` where it rejects `text`.
pub uninterp spec fn parsed_uuid(text: Seq<char>) -> Option<u128>;

/// Parses the textual form of a UUID with `uuid::Uuid::parse_str`.
///
/// Trusted: the outcome depends on the characters of `text` alone, and is the
/// value that [`parsed_uuid`] names. Nothing else is claimed about which
/// texts are accepted.
#[verifier::external_body]
pub(crate) fn parse_uuid_text(text: &str) -> (r: Option<u128>)
    ensures
        r == parsed_uuid(text@),
{
    match uuid::Uuid::parse_str(text) {
        Ok(id) => Some(id.as_u128()),
        Err(_) => None,
    }
}

} // verus!
