//! The entity model: domain records (users, orders, actions) and their
//! conversion into the generic, schema-agnostic entity form the decision
//! engine consumes.

use vstd::prelude::*;

use crate::error::ValidationError;
use crate::text::{check_ident, dec_string, ident_chars_from, is_ident, render_i64};

verus! {

/// A unique entity identifier: an entity type name plus an instance id.
pub struct EntityUid {
    pub etype: String,
    pub eid: String,
}

/// Mathematical form of an [`EntityUid`].
#[verifier::ext_equal]
pub struct EntityUidV {
    pub etype: Seq<char>,
    pub eid: Seq<char>,
}

impl View for EntityUid {
    type V = EntityUidV;

    open spec fn view(&self) -> EntityUidV {
        EntityUidV { etype: self.etype@, eid: self.eid@ }
    }
}

impl EntityUid {
    /// Decides whether two uids name the same entity.
    pub fn same_as(&self, other: &EntityUid) -> (r: bool)
        ensures
            r == (self@ == other@),
    {
        let r = self.etype == other.etype && self.eid == other.eid;
        proof {
            if self.etype@ == other.etype@ && self.eid@ == other.eid@ {
                assert(self@ =~= other@);
            }
        }
        r
    }

    /// A fresh uid naming the same entity.
    pub fn duplicate(&self) -> (r: EntityUid)
        ensures
            r@ == self@,
    {
        EntityUid { etype: self.etype.clone(), eid: self.eid.clone() }
    }
}

/// A restricted attribute value: a plain integer or a reference to another
/// entity.
pub enum AttrValue {
    Long(i64),
    EntityRef(EntityUid),
}

/// Mathematical form of an [`AttrValue`].
#[verifier::ext_equal]
pub enum AttrValueV {
    Long(i64),
    EntityRef(EntityUidV),
}

impl View for AttrValue {
    type V = AttrValueV;

    open spec fn view(&self) -> AttrValueV {
        match self {
            AttrValue::Long(n) => AttrValueV::Long(*n),
            AttrValue::EntityRef(u) => AttrValueV::EntityRef(u@),
        }
    }
}

impl AttrValue {
    /// A fresh value equal to this one.
    pub fn duplicate(&self) -> (r: AttrValue)
        ensures
            r@ == self@,
    {
        match self {
            AttrValue::Long(n) => AttrValue::Long(*n),
            AttrValue::EntityRef(u) => AttrValue::EntityRef(u.duplicate()),
        }
    }
}

/// A generic entity: a uid, named attribute values, and parent references
/// for hierarchical grouping (unused by the demonstrated rules, always
/// empty here).
pub struct Entity {
    pub uid: EntityUid,
    pub attrs: Vec<(String, AttrValue)>,
    pub parents: Vec<EntityUid>,
}

/// Mathematical form of an [`Entity`].
#[verifier::ext_equal]
pub struct EntityV {
    pub uid: EntityUidV,
    pub attrs: Seq<(Seq<char>, AttrValueV)>,
    pub parents: Seq<EntityUidV>,
}

impl View for Entity {
    type V = EntityV;

    open spec fn view(&self) -> EntityV {
        EntityV {
            uid: self.uid@,
            attrs: self.attrs@.map_values(|p: (String, AttrValue)| (p.0@, p.1@)),
            parents: self.parents@.map_values(|u: EntityUid| u@),
        }
    }
}

/// The value of the first attribute named `name`, searching from position
/// `i` on.
pub open spec fn attr_from(attrs: Seq<(Seq<char>, AttrValueV)>, name: Seq<char>, i: int) -> Option<
    AttrValueV,
>
    decreases attrs.len() - i,
{
    if i < 0 || i >= attrs.len() {
        None
    } else if attrs[i].0 == name {
        Some(attrs[i].1)
    } else {
        attr_from(attrs, name, i + 1)
    }
}

/// The value of the first attribute named `name`, if any.
pub open spec fn attr_of(attrs: Seq<(Seq<char>, AttrValueV)>, name: Seq<char>) -> Option<AttrValueV> {
    attr_from(attrs, name, 0)
}

impl Entity {
    /// Looks up the first attribute named `name`.
    pub fn attr(&self, name: &String) -> (r: Option<&AttrValue>)
        ensures
            match r {
                Some(v) => attr_of(self@.attrs, name@) == Some(v@),
                None => attr_of(self@.attrs, name@) is None,
            },
    {
        let n = self.attrs.len();
        let mut i: usize = 0;
        while i < n
            invariant
                0 <= i <= n,
                n == self.attrs.len(),
                attr_of(self@.attrs, name@) == attr_from(self@.attrs, name@, i as int),
            decreases n - i,
        {
            proof {
                assert(self@.attrs[i as int] == (self.attrs@[i as int].0@, self.attrs@[i as int].1@));
            }
            if self.attrs[i].0.eq(name) {
                return Some(&self.attrs[i].1);
            }
            i = i + 1;
        }
        None
    }
}

/// The view of a list of entities.
pub open spec fn entities_view(list: Seq<Entity>) -> Seq<EntityV> {
    list.map_values(|e: Entity| e@)
}

/// A principal: someone who may place and view orders.
pub struct User {
    pub name: String,
    pub id: i64,
}

/// A resource: one placed order.  Only `placed_by` takes part in
/// authorization; `num_pizzas` is payload.
pub struct Order {
    pub id: i64,
    pub placed_by: i64,
    pub num_pizzas: i8,
}

/// The closed set of actions a principal may attempt.
#[derive(Clone, Copy, Debug, PartialEq, Eq, Structural)]
pub enum Action {
    PlaceOrder,
    ViewOrder,
}

/// The uid of the user entity with instance id `id`.
pub open spec fn user_uid_v(id: int) -> EntityUidV {
    EntityUidV { etype: "UserPrincipal"@, eid: dec_string(id) }
}

/// The uid of the order entity with instance id `id`.
pub open spec fn order_uid_v(id: int) -> EntityUidV {
    EntityUidV { etype: "Order"@, eid: dec_string(id) }
}

/// The name of an action's entity.
pub open spec fn action_name_v(a: Action) -> Seq<char> {
    match a {
        Action::PlaceOrder => "PlaceOrder"@,
        Action::ViewOrder => "ViewOrder"@,
    }
}

/// The uid of an action's entity.
pub open spec fn action_uid_v(a: Action) -> EntityUidV {
    EntityUidV { etype: "Action"@, eid: action_name_v(a) }
}

/// Derives the canonical uid for instance `id` of type `entity_type`,
/// rejecting a type name that is not a well-formed identifier.
pub fn id_to_entity_id(id: i64, entity_type: &str) -> (r: Result<EntityUid, ValidationError>)
    ensures
        r is Ok <==> is_ident(entity_type@),
        r is Ok ==> r->Ok_0@ == (EntityUidV { etype: entity_type@, eid: dec_string(id as int) }),
        r is Err ==> r->Err_0 == ValidationError::MalformedIdentifier,
{
    if !check_ident(entity_type) {
        return Err(ValidationError::MalformedIdentifier);
    }
    let uid = EntityUid { etype: entity_type.to_owned(), eid: render_i64(id) };
    proof {
        assert(uid@ =~= EntityUidV { etype: entity_type@, eid: dec_string(id as int) });
    }
    Ok(uid)
}

/// `"UserPrincipal"` is a well-formed identifier.
pub proof fn lemma_user_type_ident()
    ensures
        is_ident("UserPrincipal"@),
{
    reveal_strlit("UserPrincipal");
    reveal_with_fuel(ident_chars_from, 20);
    assert(is_ident("UserPrincipal"@));
}

/// `"Order"` is a well-formed identifier.
pub proof fn lemma_order_type_ident()
    ensures
        is_ident("Order"@),
{
    reveal_strlit("Order");
    reveal_with_fuel(ident_chars_from, 10);
    assert(is_ident("Order"@));
}

/// The entity a user converts to: uid derived from the id, no attributes,
/// no parents.
pub open spec fn user_entity_v(id: int) -> EntityV {
    EntityV { uid: user_uid_v(id), attrs: seq![], parents: seq![] }
}

/// The entity an order converts to: uid derived from the id, one
/// `placedBy` attribute referencing the owning user's uid, no parents.
pub open spec fn order_entity_v(id: int, placed_by: int) -> EntityV {
    EntityV {
        uid: order_uid_v(id),
        attrs: seq![("placedBy"@, AttrValueV::EntityRef(user_uid_v(placed_by)))],
        parents: seq![],
    }
}

/// The entity an action converts to: a fixed uid named after the variant,
/// no attributes, no parents.
pub open spec fn action_entity_v(a: Action) -> EntityV {
    EntityV { uid: action_uid_v(a), attrs: seq![], parents: seq![] }
}

impl User {
    /// Converts this user into its generic entity form.
    pub fn to_entity(&self) -> (e: Entity)
        ensures
            e@ == user_entity_v(self.id as int),
    {
        proof {
            lemma_user_type_ident();
        }
        let uid = id_to_entity_id(self.id, "UserPrincipal").unwrap();
        let e = Entity { uid, attrs: Vec::new(), parents: Vec::new() };
        proof {
            assert(e@ =~= user_entity_v(self.id as int));
        }
        e
    }
}

impl Order {
    /// Converts this order into its generic entity form.
    pub fn to_entity(&self) -> (e: Entity)
        ensures
            e@ == order_entity_v(self.id as int, self.placed_by as int),
    {
        proof {
            lemma_user_type_ident();
            lemma_order_type_ident();
        }
        let uid = id_to_entity_id(self.id, "Order").unwrap();
        let owner = id_to_entity_id(self.placed_by, "UserPrincipal").unwrap();
        let mut attrs: Vec<(String, AttrValue)> = Vec::new();
        attrs.push((String::from_str("placedBy"), AttrValue::EntityRef(owner)));
        let e = Entity { uid, attrs, parents: Vec::new() };
        proof {
            assert(e@.attrs =~= order_entity_v(self.id as int, self.placed_by as int).attrs);
            assert(e@ =~= order_entity_v(self.id as int, self.placed_by as int));
        }
        e
    }
}

impl Action {
    /// The canonical name of this action's entity.
    pub fn name(&self) -> (r: &'static str)
        ensures
            r@ == action_name_v(*self),
    {
        match self {
            Action::PlaceOrder => "PlaceOrder",
            Action::ViewOrder => "ViewOrder",
        }
    }

    /// Converts this action into its generic entity form.
    pub fn to_entity(&self) -> (e: Entity)
        ensures
            e@ == action_entity_v(*self),
    {
        let uid = EntityUid {
            etype: String::from_str("Action"),
            eid: String::from_str(self.name()),
        };
        let e = Entity { uid, attrs: Vec::new(), parents: Vec::new() };
        proof {
            assert(e@ =~= action_entity_v(*self));
        }
        e
    }

    /// The uid of this action's entity, without the enclosing entity.
    pub fn uid(&self) -> (u: EntityUid)
        ensures
            u@ == action_uid_v(*self),
    {
        EntityUid { etype: String::from_str("Action"), eid: String::from_str(self.name()) }
    }
}

} // verus!
