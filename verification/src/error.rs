//! Error types: configuration errors stop a startup sequence, validation
//! errors reject a single request without ever being confused with a `Deny`
//! decision.

use vstd::prelude::*;

verus! {

/// A request, entity or identifier failed schema validation.  This is a
/// rejected input, never an authorization decision.
#[derive(Clone, Copy, Debug, PartialEq, Eq, Structural)]
pub enum ValidationError {
    /// An entity type name is not a well-formed identifier.
    MalformedIdentifier,
    /// An entity's type is not declared in the schema.
    UnknownEntityType,
    /// An entity's attributes do not match its type's declared shape.
    AttributeMismatch,
    /// An entity carries parent references, which the schema does not declare.
    UnexpectedParents,
    /// Two entities in one collection share a uid.
    DuplicateUid,
    /// An entity reference points at a uid absent from the collection.
    UnresolvedReference,
    /// The request's action is not declared in the schema.
    UnknownAction,
    /// The request's principal type is not applicable to the action.
    PrincipalNotApplicable,
    /// The request's resource is missing, superfluous, or of a type not
    /// applicable to the action.
    ResourceNotApplicable,
    /// The request carries context attributes, which the schema does not
    /// declare.
    UnexpectedContext,
}

/// Policy text handed to the loader was malformed.  This is a startup-time
/// configuration error: no decision is ever produced from it.
#[derive(Clone, Copy, Debug, PartialEq, Eq, Structural)]
pub enum ConfigError {
    /// A rule line does not follow the policy grammar.
    MalformedPolicy,
}

} // verus!
