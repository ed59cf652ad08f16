//! Peer-keyed entity lookup for a chat protocol client.
//!
//! A response from the protocol carries loose lists of user and chat
//! records next to the data the caller actually asked for. This crate
//! turns those lists into two kinds of store sharing one key space:
//! an immutable [`entity_set::EntitySet`] snapshot for looking up the
//! full record of a peer mentioned elsewhere in the response, and a
//! growing [`entity_cache::EntityCache`] that remembers the access-hash
//! credentials needed to address users and channels in later requests.

pub mod entity;
pub mod entity_cache;
pub mod entity_set;
pub mod peer;
