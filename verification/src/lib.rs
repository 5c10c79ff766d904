//! A read-only user-lookup service core: an in-memory cache of serialized
//! user records loaded once from a persistent store, a bounded admission
//! controller, and a request router that maps an HTTP method and path to
//! one of four terminal responses.

pub mod admission;
pub mod cache;
pub mod laws;
pub mod payload;
pub mod router;
pub mod user;
