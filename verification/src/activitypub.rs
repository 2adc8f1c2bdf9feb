//! The ActivityPub side of the library: the canonical object model and the
//! lax-array wire codec, together with the small fixed-shape documents used
//! for actors, collections and outboxes.

pub mod json;
pub mod model;
