//! A small attribute-based authorization engine.
//!
//! The library decides whether a named principal may perform a named action
//! on a named resource, given a declarative set of permit/forbid rules and a
//! typed entity collection.  Domain records (users, orders) are converted to
//! schema-agnostic entities, a schema validates entities and requests at
//! construction time, and the authorizer evaluates the rules with
//! forbid-precedence and default-deny semantics.

pub mod authorize;
pub mod entities;
pub mod error;
pub mod greeting;
pub mod policy;
pub mod policy_text;
pub mod schema;
pub mod surface;
pub mod text;
