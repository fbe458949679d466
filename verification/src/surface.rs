//! The programmatic surface: the demonstrated schema and rule set for the
//! pizza-ordering domain, the request builders, and the two use-case entry
//! points `authorize_place_order` and `authorize_view_order`.

use vstd::prelude::*;

use crate::authorize::{
    authorize, condition_holds, empty_context, evaluate, find_entity, find_entity_from, matching,
    opt_uid_view, policy_matches, request_conforms, request_error, Decision, Request, RequestV,
};
use crate::entities::{
    action_uid_v, attr_from, attr_of, entities_view, order_entity_v, order_uid_v, user_entity_v,
    user_uid_v, Action, AttrValue, AttrValueV, Entity, EntityV, Order, User,
};
use crate::error::ValidationError;
use crate::policy::{
    Condition, ConditionV, Effect, Policy, PolicySet, PolicyV, ScopePattern, ScopePatternV,
};
use crate::policy_text::{all_textable, load_policies, policies_text, textable};
use crate::schema::{
    entities_ok, entity_conforms, find_action, find_action_from, find_etype, find_etype_from,
    has_name, refs_resolve, uid_present, uids_unique, ActionDecl, ActionDeclV, AttrDecl, AttrDeclV,
    AttrType, AttrTypeV, Entities, EntityTypeDecl, EntityTypeDeclV, Schema, SchemaV,
};
use crate::text::{is_ident, lemma_dec_string_injective};

verus! {

/// The demonstrated schema: user principals without attributes, orders
/// with one `placedBy` reference to a user, an action `PlaceOrder` that
/// takes no resource and an action `ViewOrder` on orders.
pub open spec fn demo_schema_v() -> SchemaV {
    SchemaV {
        entity_types: seq![
            EntityTypeDeclV { name: "UserPrincipal"@, attrs: seq![] },
            EntityTypeDeclV {
                name: "Order"@,
                attrs: seq![
                    AttrDeclV { name: "placedBy"@, ty: AttrTypeV::EntityRef("UserPrincipal"@) },
                ],
            },
        ],
        actions: seq![
            ActionDeclV {
                name: "PlaceOrder"@,
                principal_types: seq!["UserPrincipal"@],
                resource_types: seq![],
            },
            ActionDeclV {
                name: "ViewOrder"@,
                principal_types: seq!["UserPrincipal"@],
                resource_types: seq!["Order"@],
            },
        ],
    }
}

/// The demonstrated rule set: anyone may place an order; anyone may view
/// an order they placed themselves.
pub open spec fn demo_policies_v() -> Seq<PolicyV> {
    seq![
        PolicyV {
            effect: Effect::Permit,
            principal: ScopePatternV::Any,
            action: ScopePatternV::Is(action_uid_v(Action::PlaceOrder)),
            resource: ScopePatternV::Any,
            when: None,
        },
        PolicyV {
            effect: Effect::Permit,
            principal: ScopePatternV::Any,
            action: ScopePatternV::Is(action_uid_v(Action::ViewOrder)),
            resource: ScopePatternV::Any,
            when: Some(ConditionV { attr: "placedBy"@ }),
        },
    ]
}

/// Builds the demonstrated schema.
pub fn demo_schema() -> (s: Schema)
    ensures
        s@ == demo_schema_v(),
{
    let mut entity_types: Vec<EntityTypeDecl> = Vec::new();
    entity_types.push(EntityTypeDecl { name: String::from_str("UserPrincipal"), attrs: Vec::new() });
    let mut order_attrs: Vec<AttrDecl> = Vec::new();
    order_attrs.push(
        AttrDecl {
            name: String::from_str("placedBy"),
            ty: AttrType::EntityRef(String::from_str("UserPrincipal")),
        },
    );
    entity_types.push(EntityTypeDecl { name: String::from_str("Order"), attrs: order_attrs });
    let mut place_principals: Vec<String> = Vec::new();
    place_principals.push(String::from_str("UserPrincipal"));
    let mut view_principals: Vec<String> = Vec::new();
    view_principals.push(String::from_str("UserPrincipal"));
    let mut view_resources: Vec<String> = Vec::new();
    view_resources.push(String::from_str("Order"));
    let mut actions: Vec<ActionDecl> = Vec::new();
    actions.push(
        ActionDecl {
            name: String::from_str("PlaceOrder"),
            principal_types: place_principals,
            resource_types: Vec::new(),
        },
    );
    actions.push(
        ActionDecl {
            name: String::from_str("ViewOrder"),
            principal_types: view_principals,
            resource_types: view_resources,
        },
    );
    let s = Schema { entity_types, actions };
    proof {
        assert(s@ =~~= demo_schema_v());
    }
    s
}

/// Builds the demonstrated rule set.
pub fn demo_policy_set() -> (p: PolicySet)
    ensures
        p@ == demo_policies_v(),
{
    let mut policies: Vec<Policy> = Vec::new();
    policies.push(
        Policy {
            effect: Effect::Permit,
            principal: ScopePattern::Any,
            action: ScopePattern::Is(Action::PlaceOrder.uid()),
            resource: ScopePattern::Any,
            when: None,
        },
    );
    policies.push(
        Policy {
            effect: Effect::Permit,
            principal: ScopePattern::Any,
            action: ScopePattern::Is(Action::ViewOrder.uid()),
            resource: ScopePattern::Any,
            when: Some(Condition { attr: String::from_str("placedBy") }),
        },
    );
    let p = PolicySet { policies };
    proof {
        assert(p@ =~~= demo_policies_v());
    }
    p
}

/// Every demonstrated rule can be written in the policy source format.
pub proof fn lemma_demo_policies_textable()
    ensures
        all_textable(demo_policies_v()),
{
    reveal_strlit("PlaceOrder");
    reveal_strlit("ViewOrder");
    reveal_strlit("placedBy");
    reveal_with_fuel(crate::text::ident_chars_from, 12);
    assert(is_ident("PlaceOrder"@));
    assert(is_ident("ViewOrder"@));
    assert(is_ident("placedBy"@));
    assert(textable(demo_policies_v()[0]));
    assert(textable(demo_policies_v()[1]));
    assert forall|i: int| 0 <= i < demo_policies_v().len() implies textable(
        #[trigger] demo_policies_v()[i],
    ) by {
        if i == 0 {
        } else {
            assert(i == 1);
        }
    }
}

/// The canonical source text of the demonstrated rule set.
pub fn demo_policy_text() -> (r: String)
    ensures
        r@ == policies_text(demo_policies_v(), 0),
{
    let r = String::from_str("permit PlaceOrder\npermit ViewOrder when placedBy\n");
    proof {
        reveal_strlit("permit PlaceOrder\npermit ViewOrder when placedBy\n");
        reveal_strlit("permit");
        reveal_strlit(" ");
        reveal_strlit(" when ");
        reveal_strlit("\n");
        reveal_strlit("PlaceOrder");
        reveal_strlit("ViewOrder");
        reveal_strlit("placedBy");
        reveal_with_fuel(policies_text, 4);
        assert(r@ =~= policies_text(demo_policies_v(), 0));
    }
    r
}

/// Loads the demonstrated rule set from its canonical source text.  The
/// load provably succeeds — the text is a rendering, so the loader owes a
/// rule set — and, because renderings are unique, returns exactly the
/// demonstrated rules.
pub fn demo_policies_from_text() -> (r: PolicySet)
    ensures
        r@ == demo_policies_v(),
{
    let text = demo_policy_text();
    match load_policies(text.as_str()) {
        Ok(ps) => {
            proof {
                lemma_demo_policies_textable();
                crate::policy_text::lemma_policies_text_injective(ps@, demo_policies_v());
            }
            ps
        },
        Err(_) => {
            proof {
                lemma_demo_policies_textable();
                assert(false);
            }
            PolicySet { policies: Vec::new() }
        },
    }
}

/// The request a place-order decision evaluates: the user as principal,
/// the `PlaceOrder` action, no resource, empty context.
pub open spec fn place_order_request_v(uid: int) -> RequestV {
    RequestV {
        principal: user_uid_v(uid),
        action: action_uid_v(Action::PlaceOrder),
        resource: None,
        context: seq![],
    }
}

/// The entity slice a place-order decision evaluates against.
pub open spec fn place_order_entities_v(uid: int) -> Seq<EntityV> {
    seq![user_entity_v(uid)]
}

/// The request a view-order decision evaluates: the user as principal,
/// the `ViewOrder` action, the order as resource, empty context.
pub open spec fn view_order_request_v(uid: int, oid: int) -> RequestV {
    RequestV {
        principal: user_uid_v(uid),
        action: action_uid_v(Action::ViewOrder),
        resource: Some(order_uid_v(oid)),
        context: seq![],
    }
}

/// The entity slice a view-order decision evaluates against: the user,
/// the order, and — so that the order's `placedBy` reference always
/// resolves — the owning principal's bare entity when it is not the
/// requesting user.
pub open spec fn view_order_entities_v(uid: int, oid: int, owner: int) -> Seq<EntityV> {
    if owner == uid {
        seq![user_entity_v(uid), order_entity_v(oid, owner)]
    } else {
        seq![user_entity_v(uid), order_entity_v(oid, owner), user_entity_v(owner)]
    }
}

/// The names of the demonstrated vocabulary are pairwise distinct.
proof fn lemma_demo_names_distinct()
    ensures
        "UserPrincipal"@ != "Order"@,
        "UserPrincipal"@ != "Action"@,
        "Order"@ != "Action"@,
        "PlaceOrder"@ != "ViewOrder"@,
        "placedBy"@ != ""@,
{
    reveal_strlit("UserPrincipal");
    reveal_strlit("Order");
    reveal_strlit("Action");
    reveal_strlit("PlaceOrder");
    reveal_strlit("ViewOrder");
    reveal_strlit("placedBy");
    reveal_strlit("");
    assert("UserPrincipal"@.len() == 13);
    assert("Order"@.len() == 5);
    assert("Action"@.len() == 6);
    assert("PlaceOrder"@.len() == 10);
    assert("ViewOrder"@.len() == 9);
    assert("placedBy"@.len() == 8);
}

/// Under the demonstrated schema, the place-order request is well formed
/// for every principal.
pub proof fn lemma_demo_place_order_request_ok(uid: int)
    ensures
        request_error(demo_schema_v(), place_order_request_v(uid)) is None,
{
    reveal_with_fuel(find_action_from, 3);
    assert(find_action(demo_schema_v(), "PlaceOrder"@) == Some(demo_schema_v().actions[0]));
    assert(demo_schema_v().actions[0].principal_types[0] == "UserPrincipal"@);
    assert(has_name(demo_schema_v().actions[0].principal_types, "UserPrincipal"@));
}

/// Under the demonstrated schema, the view-order request is well formed
/// for every principal and order.
pub proof fn lemma_demo_view_order_request_ok(uid: int, oid: int)
    ensures
        request_error(demo_schema_v(), view_order_request_v(uid, oid)) is None,
{
    lemma_demo_names_distinct();
    reveal_with_fuel(find_action_from, 3);
    assert(find_action(demo_schema_v(), "ViewOrder"@) == Some(demo_schema_v().actions[1]));
    assert(demo_schema_v().actions[1].principal_types[0] == "UserPrincipal"@);
    assert(has_name(demo_schema_v().actions[1].principal_types, "UserPrincipal"@));
    assert(demo_schema_v().actions[1].resource_types[0] == "Order"@);
    assert(has_name(demo_schema_v().actions[1].resource_types, "Order"@));
}

/// Under the demonstrated schema, the place-order entity slice is valid
/// for every principal.
pub proof fn lemma_demo_place_order_entities_ok(uid: int)
    ensures
        entities_ok(demo_schema_v(), place_order_entities_v(uid)),
{
    let s = demo_schema_v();
    let ents = place_order_entities_v(uid);
    reveal_with_fuel(find_etype_from, 3);
    assert(find_etype(s, "UserPrincipal"@) == Some(s.entity_types[0]));
    assert(entity_conforms(s, ents[0]));
    assert forall|i: int| 0 <= i < ents.len() implies entity_conforms(s, #[trigger] ents[i]) by {
        assert(i == 0);
    }
}

/// Under the demonstrated schema, the view-order entity slice is valid
/// for every principal, order and owner.
pub proof fn lemma_demo_view_order_entities_ok(uid: int, oid: int, owner: int)
    ensures
        entities_ok(demo_schema_v(), view_order_entities_v(uid, oid, owner)),
{
    let s = demo_schema_v();
    let ents = view_order_entities_v(uid, oid, owner);
    lemma_demo_names_distinct();
    reveal_with_fuel(find_etype_from, 3);
    assert(find_etype(s, "UserPrincipal"@) == Some(s.entity_types[0]));
    assert(find_etype(s, "Order"@) == Some(s.entity_types[1]));
    assert(entity_conforms(s, user_entity_v(uid)));
    assert(entity_conforms(s, user_entity_v(owner)));
    assert(entity_conforms(s, order_entity_v(oid, owner))) by {
        let e = order_entity_v(oid, owner);
        let d = s.entity_types[1];
        assert(e.attrs[0].0 == d.attrs[0].name);
        assert(e.attrs.len() == 1 && d.attrs.len() == 1);
    }
    assert forall|i: int| 0 <= i < ents.len() implies entity_conforms(s, #[trigger] ents[i]) by {
        if i == 0 {
            assert(ents[i] == user_entity_v(uid));
        } else if i == 1 {
            assert(ents[i] == order_entity_v(oid, owner));
        } else {
            assert(ents[i] == user_entity_v(owner));
        }
    }
    assert(user_uid_v(uid) != order_uid_v(oid));
    if owner != uid {
        assert(user_uid_v(uid) != user_uid_v(owner)) by {
            if user_uid_v(uid) == user_uid_v(owner) {
                lemma_dec_string_injective(uid, owner);
            }
        }
        assert(user_uid_v(owner) != order_uid_v(oid));
    }
    assert(uids_unique(ents)) by {
        assert forall|i: int, j: int| 0 <= i < j < ents.len() implies (#[trigger] ents[i]).uid != (
        #[trigger] ents[j]).uid by {
            if i == 0 && j == 1 {
            } else if i == 0 && j == 2 {
            } else if i == 1 && j == 2 {
            }
        }
    }
    let owner_ix: int = if owner == uid {
        0
    } else {
        2
    };
    assert(ents[owner_ix].uid == user_uid_v(owner));
    assert(uid_present(ents, user_uid_v(owner)));
    assert(refs_resolve(ents)) by {
        assert forall|i: int, j: int|
            0 <= i < ents.len() && 0 <= j < ents[i].attrs.len() implies match (
        #[trigger] ents[i].attrs[j]).1 {
            AttrValueV::EntityRef(u) => uid_present(ents, u),
            _ => true,
        } by {
            if i == 1 {
                assert(j == 0);
                assert(ents[i].attrs[j].1 == AttrValueV::EntityRef(user_uid_v(owner)));
            } else {
                assert(ents[i].attrs.len() == 0);
            }
        }
    }
}

/// Any principal may place an order under the demonstrated rules: the
/// unconditional permit matches and nothing forbids.
pub proof fn lemma_demo_place_order_decision(uid: int)
    ensures
        evaluate(demo_policies_v(), place_order_request_v(uid), place_order_entities_v(uid))
            == Decision::Allow,
{
    let ps = demo_policies_v();
    let req = place_order_request_v(uid);
    let ents = place_order_entities_v(uid);
    assert forall|i: int| 0 <= i < ps.len() implies (#[trigger] ps[i]).effect == Effect::Permit by {
        if i == 0 {
        } else {
            assert(i == 1);
        }
    }
    assert(!matching(ps, Effect::Forbid, req, ents));
    assert(policy_matches(ps[0], req, ents));
    assert(ps[0].effect == Effect::Permit);
    assert(matching(ps, Effect::Permit, req, ents));
}

/// A principal viewing an order they placed is allowed, any other
/// principal is denied, under the demonstrated rules.
pub proof fn lemma_demo_view_order_decision(uid: int, oid: int, owner: int)
    ensures
        evaluate(
            demo_policies_v(),
            view_order_request_v(uid, oid),
            view_order_entities_v(uid, oid, owner),
        ) == (if owner == uid {
            Decision::Allow
        } else {
            Decision::Deny
        }),
{
    let ps = demo_policies_v();
    let req = view_order_request_v(uid, oid);
    let ents = view_order_entities_v(uid, oid, owner);
    lemma_demo_names_distinct();
    assert forall|i: int| 0 <= i < ps.len() implies (#[trigger] ps[i]).effect == Effect::Permit by {
        if i == 0 {
        } else {
            assert(i == 1);
        }
    }
    assert(!matching(ps, Effect::Forbid, req, ents));
    assert(action_uid_v(Action::PlaceOrder) != action_uid_v(Action::ViewOrder));
    assert(!policy_matches(ps[0], req, ents));
    reveal_with_fuel(find_entity_from, 4);
    assert(user_uid_v(uid) != order_uid_v(oid));
    assert(ents[1] == order_entity_v(oid, owner));
    assert(find_entity(ents, order_uid_v(oid)) == Some(order_entity_v(oid, owner)));
    reveal_with_fuel(attr_from, 3);
    assert(attr_of(order_entity_v(oid, owner).attrs, "placedBy"@) == Some(
        AttrValueV::EntityRef(user_uid_v(owner)),
    ));
    if owner == uid {
        assert(condition_holds(ps[1].when, req, ents));
        assert(policy_matches(ps[1], req, ents));
        assert(ps[1].effect == Effect::Permit);
        assert(matching(ps, Effect::Permit, req, ents));
    } else {
        assert(user_uid_v(owner) != user_uid_v(uid)) by {
            if user_uid_v(owner) == user_uid_v(uid) {
                lemma_dec_string_injective(owner, uid);
            }
        }
        assert(!condition_holds(ps[1].when, req, ents));
        assert(!policy_matches(ps[1], req, ents));
        assert(!matching(ps, Effect::Permit, req, ents)) by {
            assert forall|i: int|
                0 <= i < ps.len() implies !((#[trigger] ps[i]).effect == Effect::Permit
                && policy_matches(ps[i], req, ents)) by {
                if i == 0 {
                } else {
                    assert(i == 1);
                }
            }
        }
    }
}

/// Assembles and validates the place-order request for `user`: the user
/// as principal, the `PlaceOrder` action, no resource, empty context.
pub fn build_place_order_request(user: &User, schema: &Schema) -> (r: Result<
    Request,
    ValidationError,
>)
    ensures
        match r {
            Ok(req) => request_error(schema@, place_order_request_v(user.id as int)) is None
                && req@ == place_order_request_v(user.id as int),
            Err(e) => request_error(schema@, place_order_request_v(user.id as int)) == Some(e),
        },
{
    let user_entity = user.to_entity();
    let ctx = empty_context();
    proof {
        assert(RequestV {
            principal: user_entity.uid@,
            action: action_uid_v(Action::PlaceOrder),
            resource: opt_uid_view(None),
            context: ctx@.map_values(|p: (String, AttrValue)| (p.0@, p.1@)),
        } =~= place_order_request_v(user.id as int));
    }
    Request::new(user_entity.uid, Action::PlaceOrder.uid(), None, ctx, schema)
}

/// Assembles and validates the view-order request for `user` and `order`:
/// the user as principal, the `ViewOrder` action, the order as resource,
/// empty context.
pub fn build_view_order_request(user: &User, order: &Order, schema: &Schema) -> (r: Result<
    Request,
    ValidationError,
>)
    ensures
        match r {
            Ok(req) => request_error(
                schema@,
                view_order_request_v(user.id as int, order.id as int),
            ) is None && req@ == view_order_request_v(user.id as int, order.id as int),
            Err(e) => request_error(schema@, view_order_request_v(user.id as int, order.id as int))
                == Some(e),
        },
{
    let user_entity = user.to_entity();
    let order_entity = order.to_entity();
    let ctx = empty_context();
    proof {
        assert(RequestV {
            principal: user_entity.uid@,
            action: action_uid_v(Action::ViewOrder),
            resource: opt_uid_view(Some(order_entity.uid)),
            context: ctx@.map_values(|p: (String, AttrValue)| (p.0@, p.1@)),
        } =~= view_order_request_v(user.id as int, order.id as int));
    }
    Request::new(user_entity.uid, Action::ViewOrder.uid(), Some(order_entity.uid), ctx, schema)
}

/// Decides whether `user` may place an order: builds and validates the
/// request and the entity slice, then evaluates the rule set.  Under the
/// demonstrated schema and rules the answer is `Allow` for every user.
pub fn authorize_place_order(user: &User, policies: &PolicySet, schema: &Schema) -> (r: Result<
    Decision,
    ValidationError,
>)
    ensures
        r is Ok <==> request_conforms(schema@, place_order_request_v(user.id as int))
            && entities_ok(schema@, place_order_entities_v(user.id as int)),
        r is Ok ==> r->Ok_0 == evaluate(
            policies@,
            place_order_request_v(user.id as int),
            place_order_entities_v(user.id as int),
        ),
        policies@ == demo_policies_v() && schema@ == demo_schema_v() ==> r == Ok::<Decision, ValidationError>(Decision::Allow),
{
    let ghost uidv = user.id as int;
    let request = match build_place_order_request(user, schema) {
        Ok(rq) => rq,
        Err(e) => {
            proof {
                if schema@ == demo_schema_v() {
                    lemma_demo_place_order_request_ok(uidv);
                    assert(false);
                }
            }
            return Err(e);
        },
    };
    let mut list: Vec<Entity> = Vec::new();
    list.push(user.to_entity());
    proof {
        assert(entities_view(list@) =~= place_order_entities_v(uidv));
    }
    let ents = match Entities::from_entities(list, schema) {
        Ok(es) => es,
        Err(e) => {
            proof {
                if schema@ == demo_schema_v() {
                    lemma_demo_place_order_entities_ok(uidv);
                    assert(false);
                }
            }
            return Err(e);
        },
    };
    let d = authorize(&request, &ents, policies);
    proof {
        if policies@ == demo_policies_v() && schema@ == demo_schema_v() {
            lemma_demo_place_order_decision(uidv);
        }
    }
    Ok(d)
}

/// Decides whether `user` may view `order`: builds and validates the
/// request and the entity slice — including the owning principal's bare
/// entity when the order was placed by someone else, so the `placedBy`
/// reference always resolves — then evaluates the rule set.  Under the
/// demonstrated schema and rules the answer is `Allow` exactly when the
/// user placed the order.
pub fn authorize_view_order(
    user: &User,
    order: &Order,
    policies: &PolicySet,
    schema: &Schema,
) -> (r: Result<Decision, ValidationError>)
    ensures
        r is Ok <==> request_conforms(schema@, view_order_request_v(user.id as int, order.id as int))
            && entities_ok(
            schema@,
            view_order_entities_v(user.id as int, order.id as int, order.placed_by as int),
        ),
        r is Ok ==> r->Ok_0 == evaluate(
            policies@,
            view_order_request_v(user.id as int, order.id as int),
            view_order_entities_v(user.id as int, order.id as int, order.placed_by as int),
        ),
        policies@ == demo_policies_v() && schema@ == demo_schema_v() ==> r == Ok::<Decision, ValidationError>(
            if order.placed_by == user.id {
                Decision::Allow
            } else {
                Decision::Deny
            },
        ),
{
    let ghost uidv = user.id as int;
    let ghost oidv = order.id as int;
    let ghost ownerv = order.placed_by as int;
    let request = match build_view_order_request(user, order, schema) {
        Ok(rq) => rq,
        Err(e) => {
            proof {
                if schema@ == demo_schema_v() {
                    lemma_demo_view_order_request_ok(uidv, oidv);
                    assert(false);
                }
            }
            return Err(e);
        },
    };
    let mut list: Vec<Entity> = Vec::new();
    list.push(user.to_entity());
    list.push(order.to_entity());
    if order.placed_by != user.id {
        let owner = User { name: String::new(), id: order.placed_by };
        list.push(owner.to_entity());
    }
    proof {
        assert(entities_view(list@) =~= view_order_entities_v(uidv, oidv, ownerv));
    }
    let ents = match Entities::from_entities(list, schema) {
        Ok(es) => es,
        Err(e) => {
            proof {
                if schema@ == demo_schema_v() {
                    lemma_demo_view_order_entities_ok(uidv, oidv, ownerv);
                    assert(false);
                }
            }
            return Err(e);
        },
    };
    let d = authorize(&request, &ents, policies);
    proof {
        if policies@ == demo_policies_v() && schema@ == demo_schema_v() {
            lemma_demo_view_order_decision(uidv, oidv, ownerv);
        }
    }
    Ok(d)
}

} // verus!
