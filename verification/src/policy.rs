//! The policy store: an immutable, ordered set of declarative allow/deny
//! rules, each with an effect, a scope over principal, action and
//! resource, and an optional attribute condition.

use vstd::prelude::*;

use crate::entities::{EntityUid, EntityUidV};

verus! {

/// What a matching rule contributes: permission or prohibition.
#[derive(Clone, Copy, Debug, PartialEq, Eq, Structural)]
pub enum Effect {
    Permit,
    Forbid,
}

/// One scope pattern: a wildcard, or a specific entity uid.
pub enum ScopePattern {
    Any,
    Is(EntityUid),
}

/// Mathematical form of a [`ScopePattern`].
#[verifier::ext_equal]
pub enum ScopePatternV {
    Any,
    Is(EntityUidV),
}

impl View for ScopePattern {
    type V = ScopePatternV;

    open spec fn view(&self) -> ScopePatternV {
        match self {
            ScopePattern::Any => ScopePatternV::Any,
            ScopePattern::Is(u) => ScopePatternV::Is(u@),
        }
    }
}

/// The optional condition of a rule: the request's resource must carry an
/// entity-reference attribute of this name whose value is the request's
/// principal.
pub struct Condition {
    pub attr: String,
}

/// Mathematical form of a [`Condition`].
#[verifier::ext_equal]
pub struct ConditionV {
    pub attr: Seq<char>,
}

impl View for Condition {
    type V = ConditionV;

    open spec fn view(&self) -> ConditionV {
        ConditionV { attr: self.attr@ }
    }
}

/// One declarative rule.
pub struct Policy {
    pub effect: Effect,
    pub principal: ScopePattern,
    pub action: ScopePattern,
    pub resource: ScopePattern,
    pub when: Option<Condition>,
}

/// Mathematical form of a [`Policy`].
#[verifier::ext_equal]
pub struct PolicyV {
    pub effect: Effect,
    pub principal: ScopePatternV,
    pub action: ScopePatternV,
    pub resource: ScopePatternV,
    pub when: Option<ConditionV>,
}

impl View for Policy {
    type V = PolicyV;

    open spec fn view(&self) -> PolicyV {
        PolicyV {
            effect: self.effect,
            principal: self.principal@,
            action: self.action@,
            resource: self.resource@,
            when: match &self.when {
                Some(c) => Some(c@),
                None => None,
            },
        }
    }
}

/// The immutable, ordered rule set.
pub struct PolicySet {
    pub policies: Vec<Policy>,
}

impl View for PolicySet {
    type V = Seq<PolicyV>;

    open spec fn view(&self) -> Seq<PolicyV> {
        self.policies@.map_values(|p: Policy| p@)
    }
}

} // verus!
