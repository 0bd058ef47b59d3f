//! Profile keys: the canonical name a service's webview data store is
//! known by, the stable UUID derived from it, and the table recording
//! each key's UUID.

pub mod key;

pub use key::{derive_key, profile_uuid, resolve, uuid_still_in_use, ProfileKey, ProfileTable, PROFILE_NAMESPACE};
