//! Knowledge-graph synchronisation for a field-research notebook.
//!
//! A note's rich-text body embeds references to entities and concepts. This
//! crate extracts those references, keeps the per-note link tables and the
//! weighted relationship edges consistent with them, and assembles the graph
//! that a workspace displays.

pub mod text;
pub mod ident;
pub mod document;
pub mod mentions;
pub mod store;
pub mod links;
pub mod edges;
pub mod sync;
pub mod query;
pub mod plan;
pub mod response;
pub mod config;
pub mod billing;
pub mod payloads;
pub mod webhook;
pub mod media;
