use pizza_authz::entities::{id_to_entity_id, Action, AttrValue, Order, User};
use pizza_authz::error::ValidationError;
use pizza_authz::greeting::{greeting, path_message, HelloQuery};

#[test]
fn uid_derivation_formats_the_id() {
    let uid = id_to_entity_id(42, "UserPrincipal").unwrap();
    assert_eq!(uid.etype, "UserPrincipal");
    assert_eq!(uid.eid, "42");
}

#[test]
fn uid_derivation_handles_negative_and_extreme_ids() {
    let uid = id_to_entity_id(-7, "UserPrincipal").unwrap();
    assert_eq!(uid.eid, "-7");
    let uid = id_to_entity_id(0, "Order").unwrap();
    assert_eq!(uid.eid, "0");
    let uid = id_to_entity_id(i64::MIN, "Order").unwrap();
    assert_eq!(uid.eid, "-9223372036854775808");
    let uid = id_to_entity_id(i64::MAX, "Order").unwrap();
    assert_eq!(uid.eid, "9223372036854775807");
}

#[test]
fn uid_derivation_rejects_a_malformed_type_name() {
    assert!(matches!(
        id_to_entity_id(1, "User Principal"),
        Err(ValidationError::MalformedIdentifier)
    ));
    assert!(matches!(id_to_entity_id(1, ""), Err(ValidationError::MalformedIdentifier)));
    assert!(matches!(id_to_entity_id(1, "9lives"), Err(ValidationError::MalformedIdentifier)));
}

#[test]
fn a_user_converts_to_a_bare_entity() {
    let user = User { name: "Alice".to_owned(), id: 1 };
    let e = user.to_entity();
    assert_eq!(e.uid.etype, "UserPrincipal");
    assert_eq!(e.uid.eid, "1");
    assert!(e.attrs.is_empty());
    assert!(e.parents.is_empty());
}

#[test]
fn an_order_converts_to_an_entity_with_its_owner() {
    let order = Order { id: 10, placed_by: 1, num_pizzas: 2 };
    let e = order.to_entity();
    assert_eq!(e.uid.etype, "Order");
    assert_eq!(e.uid.eid, "10");
    assert_eq!(e.attrs.len(), 1);
    assert_eq!(e.attrs[0].0, "placedBy");
    match &e.attrs[0].1 {
        AttrValue::EntityRef(owner) => {
            assert_eq!(owner.etype, "UserPrincipal");
            assert_eq!(owner.eid, "1");
        },
        AttrValue::Long(_) => panic!("placedBy must be an entity reference"),
    }
    let looked_up = e.attr(&"placedBy".to_owned());
    assert!(looked_up.is_some());
    assert!(e.attr(&"numPizzas".to_owned()).is_none());
}

#[test]
fn actions_convert_to_fixed_entities() {
    let e = Action::PlaceOrder.to_entity();
    assert_eq!(e.uid.etype, "Action");
    assert_eq!(e.uid.eid, "PlaceOrder");
    let e = Action::ViewOrder.to_entity();
    assert_eq!(e.uid.eid, "ViewOrder");
    assert!(e.attrs.is_empty());
    assert!(e.parents.is_empty());
}

#[test]
fn greetings_name_the_caller() {
    let named = HelloQuery { name: Some("John".to_owned()) };
    assert_eq!(greeting(&named), "Hello, John!");
    let nameless = HelloQuery { name: None };
    assert_eq!(greeting(&nameless), "Hello, anonymous!");
}

#[test]
fn path_messages_default_to_the_root() {
    assert_eq!(path_message(&Some("/orders".to_owned())), "Hello from /orders");
    assert_eq!(path_message(&None), "Hello from /");
}
