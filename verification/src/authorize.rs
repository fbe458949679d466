//! The request form and the decision engine: default-deny evaluation of an
//! ordered rule set with absolute forbid-precedence.

use vstd::prelude::*;

use crate::entities::{
    attr_of, entities_view, AttrValue, AttrValueV, Entity, EntityUid, EntityUidV, EntityV,
};
use crate::error::ValidationError;
use crate::policy::{Condition, ConditionV, Effect, Policy, PolicySet, PolicyV, ScopePatternV};
use crate::schema::{
    contains_name, find_action, has_name, lookup_action, Entities, Schema, SchemaV,
};

verus! {

/// The outcome of evaluation.  `Deny` is a normal result, not an error.
#[derive(Clone, Copy, Debug, PartialEq, Eq, Structural)]
pub enum Decision {
    Allow,
    Deny,
}

/// A well-formed authorization request: principal uid, action uid, an
/// optional resource uid, and a context attribute map (always empty in the
/// demonstrated schema).
pub struct Request {
    pub principal: EntityUid,
    pub action: EntityUid,
    pub resource: Option<EntityUid>,
    pub context: Vec<(String, AttrValue)>,
}

/// Mathematical form of a [`Request`].
#[verifier::ext_equal]
pub struct RequestV {
    pub principal: EntityUidV,
    pub action: EntityUidV,
    pub resource: Option<EntityUidV>,
    pub context: Seq<(Seq<char>, AttrValueV)>,
}

/// The view of an optional uid.
pub open spec fn opt_uid_view(o: Option<EntityUid>) -> Option<EntityUidV> {
    match o {
        Some(u) => Some(u@),
        None => None,
    }
}

impl View for Request {
    type V = RequestV;

    open spec fn view(&self) -> RequestV {
        RequestV {
            principal: self.principal@,
            action: self.action@,
            resource: opt_uid_view(self.resource),
            context: self.context@.map_values(|p: (String, AttrValue)| (p.0@, p.1@)),
        }
    }
}

/// The first schema check a request fails, if any: the action must be a
/// declared action entity, the principal's type must be applicable to it,
/// the resource must be absent exactly when the action takes none and
/// otherwise of an applicable type, and the context must be empty.
pub open spec fn request_error(s: SchemaV, r: RequestV) -> Option<ValidationError> {
    if r.action.etype != "Action"@ {
        Some(ValidationError::UnknownAction)
    } else {
        match find_action(s, r.action.eid) {
            None => Some(ValidationError::UnknownAction),
            Some(a) => if !has_name(a.principal_types, r.principal.etype) {
                Some(ValidationError::PrincipalNotApplicable)
            } else if !(match r.resource {
                None => a.resource_types.len() == 0,
                Some(u) => has_name(a.resource_types, u.etype),
            }) {
                Some(ValidationError::ResourceNotApplicable)
            } else if r.context.len() != 0 {
                Some(ValidationError::UnexpectedContext)
            } else {
                None
            },
        }
    }
}

/// Whether a request conforms to the schema.
pub open spec fn request_conforms(s: SchemaV, r: RequestV) -> bool {
    request_error(s, r) is None
}

/// An empty context attribute map.
pub fn empty_context() -> (r: Vec<(String, AttrValue)>)
    ensures
        r@.map_values(|p: (String, AttrValue)| (p.0@, p.1@)) =~= Seq::<(Seq<char>, AttrValueV)>::empty(),
{
    Vec::new()
}

impl Request {
    /// Assembles a request and validates it against the schema, returning
    /// exactly the first schema check it fails, if any.
    pub fn new(
        principal: EntityUid,
        action: EntityUid,
        resource: Option<EntityUid>,
        context: Vec<(String, AttrValue)>,
        schema: &Schema,
    ) -> (r: Result<Request, ValidationError>)
        ensures
            ({
                let rv = RequestV {
                    principal: principal@,
                    action: action@,
                    resource: opt_uid_view(resource),
                    context: context@.map_values(|p: (String, AttrValue)| (p.0@, p.1@)),
                };
                match r {
                    Ok(req) => request_error(schema@, rv) is None && req@ == rv,
                    Err(e) => request_error(schema@, rv) == Some(e),
                }
            }),
    {
        let ghost rv = RequestV {
            principal: principal@,
            action: action@,
            resource: opt_uid_view(resource),
            context: context@.map_values(|p: (String, AttrValue)| (p.0@, p.1@)),
        };
        if !action.etype.eq(&String::from_str("Action")) {
            return Err(ValidationError::UnknownAction);
        }
        let decl = match lookup_action(schema, &action.eid) {
            Some(d) => d,
            None => {
                return Err(ValidationError::UnknownAction);
            },
        };
        if !contains_name(&decl.principal_types, &principal.etype) {
            return Err(ValidationError::PrincipalNotApplicable);
        }
        let resource_ok = match &resource {
            None => decl.resource_types.len() == 0,
            Some(u) => contains_name(&decl.resource_types, &u.etype),
        };
        if !resource_ok {
            return Err(ValidationError::ResourceNotApplicable);
        }
        if context.len() != 0 {
            return Err(ValidationError::UnexpectedContext);
        }
        let req = Request { principal, action, resource, context };
        proof {
            assert(req@ =~= rv);
        }
        Ok(req)
    }
}

/// Whether a scope pattern accepts uid `u`.
pub open spec fn scope_match(p: ScopePatternV, u: EntityUidV) -> bool {
    match p {
        ScopePatternV::Any => true,
        ScopePatternV::Is(t) => t == u,
    }
}

/// Whether a resource scope pattern accepts an optional resource uid: a
/// wildcard accepts anything, a specific pattern needs that resource.
pub open spec fn resource_scope_match(p: ScopePatternV, r: Option<EntityUidV>) -> bool {
    match p {
        ScopePatternV::Any => true,
        ScopePatternV::Is(t) => match r {
            Some(u) => t == u,
            None => false,
        },
    }
}

/// The first entity with uid `u`, searching from `i` on.
pub open spec fn find_entity_from(ents: Seq<EntityV>, u: EntityUidV, i: int) -> Option<EntityV>
    decreases ents.len() - i,
{
    if i < 0 || i >= ents.len() {
        None
    } else if ents[i].uid == u {
        Some(ents[i])
    } else {
        find_entity_from(ents, u, i + 1)
    }
}

/// The first entity with uid `u`, if any.
pub open spec fn find_entity(ents: Seq<EntityV>, u: EntityUidV) -> Option<EntityV> {
    find_entity_from(ents, u, 0)
}

/// Whether a rule's optional condition holds: no condition always does; a
/// condition holds when the request has a resource, that resource is in
/// the collection, and its named attribute is an entity reference to the
/// request's principal.
pub open spec fn condition_holds(w: Option<ConditionV>, req: RequestV, ents: Seq<EntityV>) -> bool {
    match w {
        None => true,
        Some(c) => match req.resource {
            None => false,
            Some(ru) => match find_entity(ents, ru) {
                None => false,
                Some(e) => match attr_of(e.attrs, c.attr) {
                    Some(v) => match v {
                        AttrValueV::EntityRef(u) => u == req.principal,
                        _ => false,
                    },
                    None => false,
                },
            },
        },
    }
}

/// Whether one rule matches the request against the entity collection:
/// every scope pattern accepts its element and the condition holds.
pub open spec fn policy_matches(p: PolicyV, req: RequestV, ents: Seq<EntityV>) -> bool {
    &&& scope_match(p.principal, req.principal)
    &&& scope_match(p.action, req.action)
    &&& resource_scope_match(p.resource, req.resource)
    &&& condition_holds(p.when, req, ents)
}

/// Whether some rule among the first `k` has effect `eff` and matches.
pub open spec fn matching_in(
    ps: Seq<PolicyV>,
    eff: Effect,
    req: RequestV,
    ents: Seq<EntityV>,
    k: int,
) -> bool {
    exists|i: int|
        0 <= i < k && (#[trigger] ps[i]).effect == eff && policy_matches(ps[i], req, ents)
}

/// Whether some rule of the set has effect `eff` and matches.
pub open spec fn matching(ps: Seq<PolicyV>, eff: Effect, req: RequestV, ents: Seq<EntityV>) -> bool {
    matching_in(ps, eff, req, ents, ps.len() as int)
}

/// The decision for a request: `Deny` if any matching rule forbids,
/// else `Allow` if any matching rule permits, else `Deny`.
pub open spec fn evaluate(ps: Seq<PolicyV>, req: RequestV, ents: Seq<EntityV>) -> Decision {
    if matching(ps, Effect::Forbid, req, ents) {
        Decision::Deny
    } else if matching(ps, Effect::Permit, req, ents) {
        Decision::Allow
    } else {
        Decision::Deny
    }
}

/// Finds the first entity with uid `u` in the list.
pub fn find_in<'a>(list: &'a Vec<Entity>, u: &EntityUid) -> (r: Option<&'a Entity>)
    ensures
        match r {
            Some(e) => find_entity(entities_view(list@), u@) == Some(e@),
            None => find_entity(entities_view(list@), u@) is None,
        },
{
    let ghost ents = entities_view(list@);
    let n = list.len();
    let mut i: usize = 0;
    while i < n
        invariant
            0 <= i <= n,
            n == list.len(),
            ents == entities_view(list@),
            find_entity(ents, u@) == find_entity_from(ents, u@, i as int),
        decreases n - i,
    {
        proof {
            assert(ents[i as int] == list@[i as int]@);
        }
        if list[i].uid.same_as(u) {
            return Some(&list[i]);
        }
        i = i + 1;
    }
    None
}

/// Decides whether a rule's optional condition holds.
pub fn eval_condition(w: &Option<Condition>, req: &Request, list: &Vec<Entity>) -> (r: bool)
    ensures
        r == condition_holds(
            match w {
                Some(c) => Some(c@),
                None => None,
            },
            req@,
            entities_view(list@),
        ),
{
    let c = match w {
        None => {
            return true;
        },
        Some(c) => c,
    };
    let ru = match &req.resource {
        None => {
            return false;
        },
        Some(u) => u,
    };
    let e = match find_in(list, ru) {
        None => {
            return false;
        },
        Some(e) => e,
    };
    match e.attr(&c.attr) {
        Some(v) => match v {
            AttrValue::EntityRef(u) => u.same_as(&req.principal),
            AttrValue::Long(_) => false,
        },
        None => false,
    }
}

/// Decides whether a scope pattern accepts uid `u`.
pub fn scope_accepts(p: &crate::policy::ScopePattern, u: &EntityUid) -> (r: bool)
    ensures
        r == scope_match(p@, u@),
{
    match p {
        crate::policy::ScopePattern::Any => true,
        crate::policy::ScopePattern::Is(t) => t.same_as(u),
    }
}

/// Decides whether one rule matches the request.
pub fn policy_applies(p: &Policy, req: &Request, list: &Vec<Entity>) -> (r: bool)
    ensures
        r == policy_matches(p@, req@, entities_view(list@)),
{
    if !scope_accepts(&p.principal, &req.principal) {
        return false;
    }
    if !scope_accepts(&p.action, &req.action) {
        return false;
    }
    let resource_ok = match (&p.resource, &req.resource) {
        (crate::policy::ScopePattern::Any, _) => true,
        (crate::policy::ScopePattern::Is(t), Some(u)) => t.same_as(u),
        (crate::policy::ScopePattern::Is(_), None) => false,
    };
    if !resource_ok {
        return false;
    }
    eval_condition(&p.when, req, list)
}

/// Evaluates one request against the rule set and the entity collection.
/// The decision is exactly [`evaluate`]: forbids take absolute precedence,
/// a permit is needed for `Allow`, and no match at all denies.
pub fn authorize(request: &Request, entities: &Entities, policies: &PolicySet) -> (d: Decision)
    ensures
        d == evaluate(policies@, request@, entities@),
{
    let list = entities.as_list();
    let n = policies.policies.len();
    let mut any_forbid: bool = false;
    let mut any_permit: bool = false;
    let mut i: usize = 0;
    while i < n
        invariant
            0 <= i <= n,
            n == policies.policies.len(),
            entities_view(list@) == entities@,
            any_forbid == matching_in(policies@, Effect::Forbid, request@, entities@, i as int),
            any_permit == matching_in(policies@, Effect::Permit, request@, entities@, i as int),
        decreases n - i,
    {
        proof {
            assert(policies@[i as int] == policies.policies@[i as int]@);
        }
        if policy_applies(&policies.policies[i], request, list) {
            match policies.policies[i].effect {
                Effect::Forbid => {
                    any_forbid = true;
                },
                Effect::Permit => {
                    any_permit = true;
                },
            }
        }
        proof {
            let k = i as int;
            assert forall|e: Effect|
                matching_in(policies@, e, request@, entities@, k + 1) == (matching_in(
                    policies@,
                    e,
                    request@,
                    entities@,
                    k,
                ) || (policies@[k].effect == e && policy_matches(
                    policies@[k],
                    request@,
                    entities@,
                ))) by {
                if matching_in(policies@, e, request@, entities@, k + 1) {
                }
            }
        }
        i = i + 1;
    }
    if any_forbid {
        Decision::Deny
    } else if any_permit {
        Decision::Allow
    } else {
        Decision::Deny
    }
}

/// Forbid-precedence: whenever some matching rule forbids, the decision
/// is `Deny`, whatever else matches.
pub proof fn lemma_forbid_precedence(ps: Seq<PolicyV>, req: RequestV, ents: Seq<EntityV>)
    requires
        matching(ps, Effect::Forbid, req, ents),
    ensures
        evaluate(ps, req, ents) == Decision::Deny,
{
}

/// Forbid overrides permit: a rule set holding both a matching permit and
/// a matching forbid for the same request decides `Deny`.
pub proof fn lemma_forbid_overrides_permit(ps: Seq<PolicyV>, req: RequestV, ents: Seq<EntityV>)
    requires
        matching(ps, Effect::Permit, req, ents),
        matching(ps, Effect::Forbid, req, ents),
    ensures
        evaluate(ps, req, ents) == Decision::Deny,
{
}

/// Default-deny: when no rule of the set matches the request at all, the
/// decision is `Deny`.
pub proof fn lemma_default_deny(ps: Seq<PolicyV>, req: RequestV, ents: Seq<EntityV>)
    requires
        forall|i: int| 0 <= i < ps.len() ==> !policy_matches(#[trigger] ps[i], req, ents),
    ensures
        evaluate(ps, req, ents) == Decision::Deny,
{
    assert(!matching(ps, Effect::Forbid, req, ents));
    assert(!matching(ps, Effect::Permit, req, ents));
}

/// Evaluation is deterministic: identical rule sets, requests and entity
/// collections always yield the same decision.  Together with the
/// contract of [`authorize`], repeated calls on identical inputs return
/// identical decisions.
pub proof fn lemma_evaluate_deterministic(
    ps1: Seq<PolicyV>,
    ps2: Seq<PolicyV>,
    req1: RequestV,
    req2: RequestV,
    ents1: Seq<EntityV>,
    ents2: Seq<EntityV>,
)
    requires
        ps1 == ps2,
        req1 == req2,
        ents1 == ents2,
    ensures
        evaluate(ps1, req1, ents1) == evaluate(ps2, req2, ents2),
{
}

} // verus!
