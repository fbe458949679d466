use pizza_authz::authorize::{authorize, Decision, Request};
use pizza_authz::entities::{Action, EntityUid, Order, User};
use pizza_authz::error::{ConfigError, ValidationError};
use pizza_authz::policy::{Effect, Policy, PolicySet, ScopePattern};
use pizza_authz::policy_text::load_policies;
use pizza_authz::schema::Entities;
use pizza_authz::surface::{
    authorize_place_order, authorize_view_order, build_place_order_request,
    build_view_order_request, demo_policies_from_text, demo_policy_set, demo_policy_text,
    demo_schema,
};

const DEMO_POLICY_TEXT: &str = "permit PlaceOrder\npermit ViewOrder when placedBy\n";

fn john() -> User {
    User { name: "John".to_owned(), id: 1 }
}

fn alice() -> User {
    User { name: "Alice".to_owned(), id: 2 }
}

fn johns_order() -> Order {
    Order { placed_by: 1, num_pizzas: 2, id: 10 }
}

#[test]
fn john_can_place_an_order() {
    let schema = demo_schema();
    let policies = demo_policy_set();
    let d = authorize_place_order(&john(), &policies, &schema).unwrap();
    assert!(matches!(d, Decision::Allow));
}

#[test]
fn john_can_view_his_own_order() {
    let schema = demo_schema();
    let policies = demo_policy_set();
    let d = authorize_view_order(&john(), &johns_order(), &policies, &schema).unwrap();
    assert!(matches!(d, Decision::Allow));
}

#[test]
fn alice_cannot_view_johns_order() {
    let schema = demo_schema();
    let policies = demo_policy_set();
    let d = authorize_view_order(&alice(), &johns_order(), &policies, &schema).unwrap();
    assert!(matches!(d, Decision::Deny));
}

#[test]
fn loaded_policy_text_gives_the_same_decisions() {
    let schema = demo_schema();
    let policies = load_policies(DEMO_POLICY_TEXT).unwrap();
    assert!(matches!(
        authorize_place_order(&john(), &policies, &schema).unwrap(),
        Decision::Allow
    ));
    assert!(matches!(
        authorize_view_order(&john(), &johns_order(), &policies, &schema).unwrap(),
        Decision::Allow
    ));
    assert!(matches!(
        authorize_view_order(&alice(), &johns_order(), &policies, &schema).unwrap(),
        Decision::Deny
    ));
}

#[test]
fn malformed_policy_text_is_a_configuration_error() {
    let r = load_policies("permit(principal, action, resource);\n");
    assert!(matches!(r, Err(ConfigError::MalformedPolicy)));
}

#[test]
fn policy_text_without_final_newline_is_rejected() {
    let r = load_policies("permit PlaceOrder");
    assert!(matches!(r, Err(ConfigError::MalformedPolicy)));
}

#[test]
fn the_canonical_text_loads_to_the_demonstrated_rules() {
    assert_eq!(demo_policy_text(), DEMO_POLICY_TEXT);
    let schema = demo_schema();
    let policies = demo_policies_from_text();
    assert_eq!(policies.policies.len(), 2);
    assert!(matches!(
        authorize_view_order(&john(), &johns_order(), &policies, &schema).unwrap(),
        Decision::Allow
    ));
}

#[test]
fn empty_policy_text_is_an_empty_rule_set() {
    let ps = load_policies("").unwrap();
    assert_eq!(ps.policies.len(), 0);
}

#[test]
fn forbid_overrides_permit() {
    let schema = demo_schema();
    let request = build_place_order_request(&john(), &schema).unwrap();
    let entities = Entities::from_entities(vec![john().to_entity()], &schema).unwrap();
    let policies = PolicySet {
        policies: vec![
            Policy {
                effect: Effect::Permit,
                principal: ScopePattern::Any,
                action: ScopePattern::Is(Action::PlaceOrder.uid()),
                resource: ScopePattern::Any,
                when: None,
            },
            Policy {
                effect: Effect::Forbid,
                principal: ScopePattern::Any,
                action: ScopePattern::Is(Action::PlaceOrder.uid()),
                resource: ScopePattern::Any,
                when: None,
            },
        ],
    };
    let d = authorize(&request, &entities, &policies);
    assert!(matches!(d, Decision::Deny));
}

#[test]
fn no_matching_rule_means_deny() {
    let schema = demo_schema();
    let request = build_place_order_request(&john(), &schema).unwrap();
    let entities = Entities::from_entities(vec![john().to_entity()], &schema).unwrap();
    let empty = PolicySet { policies: vec![] };
    assert!(matches!(authorize(&request, &entities, &empty), Decision::Deny));
    let unrelated = PolicySet {
        policies: vec![Policy {
            effect: Effect::Permit,
            principal: ScopePattern::Any,
            action: ScopePattern::Is(Action::ViewOrder.uid()),
            resource: ScopePattern::Any,
            when: None,
        }],
    };
    assert!(matches!(authorize(&request, &entities, &unrelated), Decision::Deny));
}

#[test]
fn repeated_evaluation_is_deterministic() {
    let schema = demo_schema();
    let policies = demo_policy_set();
    let first = authorize_view_order(&alice(), &johns_order(), &policies, &schema).unwrap();
    let second = authorize_view_order(&alice(), &johns_order(), &policies, &schema).unwrap();
    assert_eq!(first, second);
    assert!(matches!(first, Decision::Deny));
}

#[test]
fn dangling_order_reference_is_a_validation_error() {
    let schema = demo_schema();
    let r = Entities::from_entities(vec![johns_order().to_entity()], &schema);
    assert!(matches!(r, Err(ValidationError::UnresolvedReference)));
}

#[test]
fn duplicate_uids_are_a_validation_error() {
    let schema = demo_schema();
    let r = Entities::from_entities(vec![john().to_entity(), john().to_entity()], &schema);
    assert!(matches!(r, Err(ValidationError::DuplicateUid)));
}

#[test]
fn unknown_entity_type_is_a_validation_error() {
    let schema = demo_schema();
    let stray = pizza_authz::entities::Entity {
        uid: EntityUid { etype: "Pizza".to_owned(), eid: "1".to_owned() },
        attrs: vec![],
        parents: vec![],
    };
    let r = Entities::from_entities(vec![stray], &schema);
    assert!(r.is_err());
}

#[test]
fn unknown_action_is_a_validation_error() {
    let schema = demo_schema();
    let principal = EntityUid { etype: "UserPrincipal".to_owned(), eid: "1".to_owned() };
    let action = EntityUid { etype: "Action".to_owned(), eid: "EatPizza".to_owned() };
    let r = Request::new(principal, action, None, vec![], &schema);
    assert!(matches!(r, Err(ValidationError::UnknownAction)));
}

#[test]
fn place_order_refuses_a_resource() {
    let schema = demo_schema();
    let principal = EntityUid { etype: "UserPrincipal".to_owned(), eid: "1".to_owned() };
    let action = Action::PlaceOrder.uid();
    let resource = EntityUid { etype: "Order".to_owned(), eid: "10".to_owned() };
    let r = Request::new(principal, action, Some(resource), vec![], &schema);
    assert!(matches!(r, Err(ValidationError::ResourceNotApplicable)));
}

#[test]
fn view_order_requires_a_resource() {
    let schema = demo_schema();
    let principal = EntityUid { etype: "UserPrincipal".to_owned(), eid: "1".to_owned() };
    let action = Action::ViewOrder.uid();
    let r = Request::new(principal, action, None, vec![], &schema);
    assert!(matches!(r, Err(ValidationError::ResourceNotApplicable)));
}

#[test]
fn order_principals_may_not_act() {
    let schema = demo_schema();
    let principal = EntityUid { etype: "Order".to_owned(), eid: "10".to_owned() };
    let action = Action::PlaceOrder.uid();
    let r = Request::new(principal, action, None, vec![], &schema);
    assert!(matches!(r, Err(ValidationError::PrincipalNotApplicable)));
}

#[test]
fn a_rule_can_single_out_one_principal() {
    let schema = demo_schema();
    let only_john = PolicySet {
        policies: vec![Policy {
            effect: Effect::Permit,
            principal: ScopePattern::Is(EntityUid {
                etype: "UserPrincipal".to_owned(),
                eid: "1".to_owned(),
            }),
            action: ScopePattern::Is(Action::PlaceOrder.uid()),
            resource: ScopePattern::Any,
            when: None,
        }],
    };
    assert!(matches!(
        authorize_place_order(&john(), &only_john, &schema).unwrap(),
        Decision::Allow
    ));
    assert!(matches!(
        authorize_place_order(&alice(), &only_john, &schema).unwrap(),
        Decision::Deny
    ));
}

#[test]
fn a_condition_on_a_missing_attribute_never_matches() {
    let schema = demo_schema();
    let policies = load_policies("permit ViewOrder when owner\n").unwrap();
    assert!(matches!(
        authorize_view_order(&john(), &johns_order(), &policies, &schema).unwrap(),
        Decision::Deny
    ));
}

#[test]
fn sloppy_policy_lines_are_rejected() {
    assert!(load_policies("permit  PlaceOrder\n").is_err());
    assert!(load_policies("permit PlaceOrder extra\n").is_err());
    assert!(load_policies("permit ViewOrder when placedBy extra\n").is_err());
    assert!(load_policies("allow PlaceOrder\n").is_err());
    assert!(load_policies("permit\n").is_err());
    assert!(load_policies("\n").is_err());
}

#[test]
fn view_order_request_has_the_expected_shape() {
    let schema = demo_schema();
    let req = build_view_order_request(&john(), &johns_order(), &schema).unwrap();
    assert_eq!(req.principal.etype, "UserPrincipal");
    assert_eq!(req.principal.eid, "1");
    assert_eq!(req.action.etype, "Action");
    assert_eq!(req.action.eid, "ViewOrder");
    let resource = req.resource.unwrap();
    assert_eq!(resource.etype, "Order");
    assert_eq!(resource.eid, "10");
    assert!(req.context.is_empty());
}
