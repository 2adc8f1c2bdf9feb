//! Archival of federated social actors into a static mirror: the canonical
//! ActivityPub object model, the lax-array wire codec, the outbox crawler and
//! re-paginator, and the deterministic resource-path and redirect-map
//! encodings.

pub mod activitypub;
pub mod fetch;
pub mod path_helper;
pub mod redirect_map;
pub mod resource_path;
pub mod webfinger;
pub mod wire;
