//! WebFinger (RFC 7033): the resource document shape and the resolution of
//! an `acct:` subject to its actor document URL.

pub mod resource;
