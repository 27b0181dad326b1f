//! Newsletter backend core: a member/topic record store with a CRUD
//! protocol, subscription matching, and an email fan-out pipeline.
//!
//! Records (members and topics) are kept as generic attribute rows in a
//! key-value table; the codec between typed records and rows round-trips,
//! listing is best-effort (undecodable rows are dropped, never fatal), and
//! updates assign timestamp-plus-random identifiers on first persistence.

pub mod api;
pub mod crud;
pub mod digits;
pub mod dispatch;
pub mod error;
pub mod router;
pub mod row;
pub mod serialize;
pub mod store;
pub mod subscribe;
pub mod text;
pub mod types;

use vstd::prelude::*;

verus! {

/// Fixed collaborator addresses, resolved once at process start and passed
/// explicitly into each component.
pub struct Config {
    pub members_table: String,
    pub topics_table: String,
    pub queue_address: String,
    pub content_bucket: String,
    pub allowed_origin: String,
}

} // verus!
