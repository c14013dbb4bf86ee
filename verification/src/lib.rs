//! Verified core of a small CRUD service over two entities, users and
//! products, kept in an id-ordered store.
//!
//! The store itself is modelled as an in-memory table per entity with an
//! exact contract for every operation: list, lookup, create with a
//! server-generated id, partial update by field merge, and delete.  Around
//! the store stand the pieces a serving process needs: the wire encoding of
//! records as JSON text, the mapping of outcomes to HTTP status codes and
//! bodies, the health payload, the connection-string builder, and the
//! ordering of pending schema migrations.

pub mod http;
pub mod json;
pub mod lifecycle;
pub mod models;
pub mod store;
