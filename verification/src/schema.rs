//! The schema: the authoritative shape of entity types, their attributes,
//! and the principal/resource types each action applies to.  Entities and
//! requests are validated against it at construction time, so evaluation
//! never observes an ill-typed input.

use vstd::prelude::*;

use crate::entities::{
    entities_view, AttrValue, AttrValueV, Entity, EntityUid, EntityUidV, EntityV,
};
use crate::error::ValidationError;

verus! {

/// The declared type of one attribute value.
pub enum AttrType {
    /// A plain integer.
    Long,
    /// A reference to an entity of the named type.
    EntityRef(String),
}

/// Mathematical form of an [`AttrType`].
#[verifier::ext_equal]
pub enum AttrTypeV {
    Long,
    EntityRef(Seq<char>),
}

impl View for AttrType {
    type V = AttrTypeV;

    open spec fn view(&self) -> AttrTypeV {
        match self {
            AttrType::Long => AttrTypeV::Long,
            AttrType::EntityRef(t) => AttrTypeV::EntityRef(t@),
        }
    }
}

/// One declared attribute: its name and its value type.
pub struct AttrDecl {
    pub name: String,
    pub ty: AttrType,
}

/// Mathematical form of an [`AttrDecl`].
#[verifier::ext_equal]
pub struct AttrDeclV {
    pub name: Seq<char>,
    pub ty: AttrTypeV,
}

impl View for AttrDecl {
    type V = AttrDeclV;

    open spec fn view(&self) -> AttrDeclV {
        AttrDeclV { name: self.name@, ty: self.ty@ }
    }
}

/// One declared entity type: its name and the exact list of its
/// attributes, in canonical order.
pub struct EntityTypeDecl {
    pub name: String,
    pub attrs: Vec<AttrDecl>,
}

/// Mathematical form of an [`EntityTypeDecl`].
#[verifier::ext_equal]
pub struct EntityTypeDeclV {
    pub name: Seq<char>,
    pub attrs: Seq<AttrDeclV>,
}

impl View for EntityTypeDecl {
    type V = EntityTypeDeclV;

    open spec fn view(&self) -> EntityTypeDeclV {
        EntityTypeDeclV {
            name: self.name@,
            attrs: self.attrs@.map_values(|a: AttrDecl| a@),
        }
    }
}

/// One declared action: its name, the principal types it applies to, and
/// the resource types it applies to.  An empty resource list means the
/// action takes no resource.
pub struct ActionDecl {
    pub name: String,
    pub principal_types: Vec<String>,
    pub resource_types: Vec<String>,
}

/// Mathematical form of an [`ActionDecl`].
#[verifier::ext_equal]
pub struct ActionDeclV {
    pub name: Seq<char>,
    pub principal_types: Seq<Seq<char>>,
    pub resource_types: Seq<Seq<char>>,
}

impl View for ActionDecl {
    type V = ActionDeclV;

    open spec fn view(&self) -> ActionDeclV {
        ActionDeclV {
            name: self.name@,
            principal_types: self.principal_types@.map_values(|s: String| s@),
            resource_types: self.resource_types@.map_values(|s: String| s@),
        }
    }
}

/// The schema: declared entity types and declared actions.
pub struct Schema {
    pub entity_types: Vec<EntityTypeDecl>,
    pub actions: Vec<ActionDecl>,
}

/// Mathematical form of a [`Schema`].
#[verifier::ext_equal]
pub struct SchemaV {
    pub entity_types: Seq<EntityTypeDeclV>,
    pub actions: Seq<ActionDeclV>,
}

impl View for Schema {
    type V = SchemaV;

    open spec fn view(&self) -> SchemaV {
        SchemaV {
            entity_types: self.entity_types@.map_values(|d: EntityTypeDecl| d@),
            actions: self.actions@.map_values(|d: ActionDecl| d@),
        }
    }
}

/// The first declared entity type named `name`, searching from `i` on.
pub open spec fn find_etype_from(decls: Seq<EntityTypeDeclV>, name: Seq<char>, i: int) -> Option<
    EntityTypeDeclV,
>
    decreases decls.len() - i,
{
    if i < 0 || i >= decls.len() {
        None
    } else if decls[i].name == name {
        Some(decls[i])
    } else {
        find_etype_from(decls, name, i + 1)
    }
}

/// The declared entity type named `name`, if any.
pub open spec fn find_etype(s: SchemaV, name: Seq<char>) -> Option<EntityTypeDeclV> {
    find_etype_from(s.entity_types, name, 0)
}

/// The first declared action named `name`, searching from `i` on.
pub open spec fn find_action_from(decls: Seq<ActionDeclV>, name: Seq<char>, i: int) -> Option<
    ActionDeclV,
>
    decreases decls.len() - i,
{
    if i < 0 || i >= decls.len() {
        None
    } else if decls[i].name == name {
        Some(decls[i])
    } else {
        find_action_from(decls, name, i + 1)
    }
}

/// The declared action named `name`, if any.
pub open spec fn find_action(s: SchemaV, name: Seq<char>) -> Option<ActionDeclV> {
    find_action_from(s.actions, name, 0)
}

/// Whether `name` occurs in a list of names.
pub open spec fn has_name(names: Seq<Seq<char>>, name: Seq<char>) -> bool {
    exists|i: int| 0 <= i < names.len() && names[i] == name
}

/// Whether value `v` has declared type `t`.
pub open spec fn attr_type_ok(t: AttrTypeV, v: AttrValueV) -> bool {
    match (t, v) {
        (AttrTypeV::Long, AttrValueV::Long(_)) => true,
        (AttrTypeV::EntityRef(tn), AttrValueV::EntityRef(u)) => u.etype == tn,
        _ => false,
    }
}

/// Whether entity `e` conforms to the schema: its type is declared, its
/// attributes are exactly the declared ones in canonical order with values
/// of the declared types, and it carries no parent references (the schema
/// declares no hierarchy).
pub open spec fn entity_conforms(s: SchemaV, e: EntityV) -> bool {
    match find_etype(s, e.uid.etype) {
        None => false,
        Some(d) => {
            &&& e.attrs.len() == d.attrs.len()
            &&& forall|i: int|
                0 <= i < d.attrs.len() ==> (#[trigger] e.attrs[i]).0 == d.attrs[i].name
                    && attr_type_ok(d.attrs[i].ty, e.attrs[i].1)
            &&& e.parents.len() == 0
        },
    }
}

/// Whether every entity of the collection conforms to the schema.
pub open spec fn entities_conform(s: SchemaV, ents: Seq<EntityV>) -> bool {
    forall|i: int| 0 <= i < ents.len() ==> entity_conforms(s, #[trigger] ents[i])
}

/// Whether all uids of the collection are pairwise distinct.
pub open spec fn uids_unique(ents: Seq<EntityV>) -> bool {
    forall|i: int, j: int|
        0 <= i < j < ents.len() ==> (#[trigger] ents[i]).uid != (#[trigger] ents[j]).uid
}

/// Whether some entity of the collection carries uid `u`.
pub open spec fn uid_present(ents: Seq<EntityV>, u: EntityUidV) -> bool {
    exists|i: int| 0 <= i < ents.len() && (#[trigger] ents[i]).uid == u
}

/// Whether every entity-reference attribute value points at a uid present
/// in the collection.
pub open spec fn refs_resolve(ents: Seq<EntityV>) -> bool {
    forall|i: int, j: int|
        0 <= i < ents.len() && 0 <= j < ents[i].attrs.len() ==> match (
        #[trigger] ents[i].attrs[j]).1 {
            AttrValueV::EntityRef(u) => uid_present(ents, u),
            _ => true,
        }
}

/// A valid entity collection: conforming entities, pairwise distinct
/// uids, and resolvable references.
pub open spec fn entities_ok(s: SchemaV, ents: Seq<EntityV>) -> bool {
    entities_conform(s, ents) && uids_unique(ents) && refs_resolve(ents)
}

/// The first schema check entity `e` fails, if any: its type must be
/// declared, it must carry no parents, and its attributes must be exactly
/// the declared ones with values of the declared types.
pub open spec fn entity_error(s: SchemaV, e: EntityV) -> Option<ValidationError> {
    match find_etype(s, e.uid.etype) {
        None => Some(ValidationError::UnknownEntityType),
        Some(d) => if e.parents.len() != 0 {
            Some(ValidationError::UnexpectedParents)
        } else if !(e.attrs.len() == d.attrs.len() && (forall|i: int|
            0 <= i < d.attrs.len() ==> (#[trigger] e.attrs[i]).0 == d.attrs[i].name && attr_type_ok(
                d.attrs[i].ty,
                e.attrs[i].1,
            ))) {
            Some(ValidationError::AttributeMismatch)
        } else {
            None
        },
    }
}

/// The first failing entity's error, scanning the collection from `i` on.
pub open spec fn entities_error_from(s: SchemaV, ents: Seq<EntityV>, i: int) -> Option<
    ValidationError,
>
    decreases ents.len() - i,
{
    if i < 0 || i >= ents.len() {
        None
    } else {
        match entity_error(s, ents[i]) {
            Some(e) => Some(e),
            None => entities_error_from(s, ents, i + 1),
        }
    }
}

/// The first validation check the collection fails, if any: each entity
/// in order, then uid uniqueness, then reference resolution.
pub open spec fn entities_error(s: SchemaV, ents: Seq<EntityV>) -> Option<ValidationError> {
    match entities_error_from(s, ents, 0) {
        Some(e) => Some(e),
        None => if !uids_unique(ents) {
            Some(ValidationError::DuplicateUid)
        } else if !refs_resolve(ents) {
            Some(ValidationError::UnresolvedReference)
        } else {
            None
        },
    }
}

/// An entity passes every check exactly when it conforms to the schema.
pub proof fn lemma_entity_error_none(s: SchemaV, e: EntityV)
    ensures
        entity_error(s, e) is None <==> entity_conforms(s, e),
{
}

/// No entity fails a check exactly when all conform.
pub proof fn lemma_entities_error_from_none(s: SchemaV, ents: Seq<EntityV>, i: int)
    requires
        0 <= i <= ents.len(),
    ensures
        entities_error_from(s, ents, i) is None <==> (forall|j: int|
            i <= j < ents.len() ==> entity_conforms(s, #[trigger] ents[j])),
    decreases ents.len() - i,
{
    if i < ents.len() {
        lemma_entities_error_from_none(s, ents, i + 1);
        lemma_entity_error_none(s, ents[i]);
    }
}

/// The collection passes every check exactly when it is valid.
pub proof fn lemma_entities_error_none(s: SchemaV, ents: Seq<EntityV>)
    ensures
        entities_error(s, ents) is None <==> entities_ok(s, ents),
{
    lemma_entities_error_from_none(s, ents, 0);
}

/// Finds the declared entity type named `name`.
pub fn lookup_etype<'a>(schema: &'a Schema, name: &String) -> (r: Option<&'a EntityTypeDecl>)
    ensures
        match r {
            Some(d) => find_etype(schema@, name@) == Some(d@),
            None => find_etype(schema@, name@) is None,
        },
{
    let n = schema.entity_types.len();
    let mut i: usize = 0;
    while i < n
        invariant
            0 <= i <= n,
            n == schema.entity_types.len(),
            find_etype(schema@, name@) == find_etype_from(schema@.entity_types, name@, i as int),
        decreases n - i,
    {
        proof {
            assert(schema@.entity_types[i as int] == schema.entity_types@[i as int]@);
        }
        if schema.entity_types[i].name.eq(name) {
            return Some(&schema.entity_types[i]);
        }
        i = i + 1;
    }
    None
}

/// Finds the declared action named `name`.
pub fn lookup_action<'a>(schema: &'a Schema, name: &String) -> (r: Option<&'a ActionDecl>)
    ensures
        match r {
            Some(d) => find_action(schema@, name@) == Some(d@),
            None => find_action(schema@, name@) is None,
        },
{
    let n = schema.actions.len();
    let mut i: usize = 0;
    while i < n
        invariant
            0 <= i <= n,
            n == schema.actions.len(),
            find_action(schema@, name@) == find_action_from(schema@.actions, name@, i as int),
        decreases n - i,
    {
        proof {
            assert(schema@.actions[i as int] == schema.actions@[i as int]@);
        }
        if schema.actions[i].name.eq(name) {
            return Some(&schema.actions[i]);
        }
        i = i + 1;
    }
    None
}

/// Decides whether `name` occurs in `names`.
pub fn contains_name(names: &Vec<String>, name: &String) -> (r: bool)
    ensures
        r == has_name(names@.map_values(|s: String| s@), name@),
{
    let ghost namesv = names@.map_values(|s: String| s@);
    let n = names.len();
    let mut i: usize = 0;
    while i < n
        invariant
            0 <= i <= n,
            n == names.len(),
            namesv == names@.map_values(|s: String| s@),
            forall|j: int| 0 <= j < i ==> namesv[j] != name@,
        decreases n - i,
    {
        proof {
            assert(namesv[i as int] == names@[i as int]@);
        }
        if names[i].eq(name) {
            return true;
        }
        i = i + 1;
    }
    false
}

/// Decides whether value `v` has declared type `t`.
pub fn check_attr_type(t: &AttrType, v: &AttrValue) -> (r: bool)
    ensures
        r == attr_type_ok(t@, v@),
{
    match (t, v) {
        (AttrType::Long, AttrValue::Long(_)) => true,
        (AttrType::EntityRef(tn), AttrValue::EntityRef(u)) => u.etype.eq(tn),
        _ => false,
    }
}

/// Reports the first schema check entity `e` fails, if any.
pub fn check_entity(schema: &Schema, e: &Entity) -> (r: Option<ValidationError>)
    ensures
        r == entity_error(schema@, e@),
{
    let d = match lookup_etype(schema, &e.uid.etype) {
        Some(d) => d,
        None => {
            return Some(ValidationError::UnknownEntityType);
        },
    };
    if e.parents.len() != 0 {
        return Some(ValidationError::UnexpectedParents);
    }
    let n = d.attrs.len();
    if e.attrs.len() != n {
        return Some(ValidationError::AttributeMismatch);
    }
    let mut i: usize = 0;
    while i < n
        invariant
            0 <= i <= n,
            n == d.attrs.len(),
            e@.attrs.len() == n,
            e@.parents.len() == 0,
            find_etype(schema@, e@.uid.etype) == Some(d@),
            forall|j: int|
                0 <= j < i ==> (#[trigger] e@.attrs[j]).0 == d@.attrs[j].name && attr_type_ok(
                    d@.attrs[j].ty,
                    e@.attrs[j].1,
                ),
        decreases n - i,
    {
        proof {
            assert(e@.attrs[i as int] == (e.attrs@[i as int].0@, e.attrs@[i as int].1@));
            assert(d@.attrs[i as int] == d.attrs@[i as int]@);
        }
        if !e.attrs[i].0.eq(&d.attrs[i].name) {
            return Some(ValidationError::AttributeMismatch);
        }
        if !check_attr_type(&d.attrs[i].ty, &e.attrs[i].1) {
            return Some(ValidationError::AttributeMismatch);
        }
        i = i + 1;
    }
    None
}

/// Decides whether uid `u` is present in the entity list.
pub fn uid_in(list: &Vec<Entity>, u: &EntityUid) -> (r: bool)
    ensures
        r == uid_present(entities_view(list@), u@),
{
    let n = list.len();
    let mut i: usize = 0;
    while i < n
        invariant
            0 <= i <= n,
            n == list.len(),
            forall|j: int| 0 <= j < i ==> entities_view(list@)[j].uid != u@,
        decreases n - i,
    {
        proof {
            assert(entities_view(list@)[i as int] == list@[i as int]@);
        }
        if list[i].uid.same_as(u) {
            return true;
        }
        i = i + 1;
    }
    false
}

/// Decides whether all uids of the entity list are pairwise distinct.
pub fn check_unique(list: &Vec<Entity>) -> (r: bool)
    ensures
        r == uids_unique(entities_view(list@)),
{
    let ghost ents = entities_view(list@);
    let n = list.len();
    let mut i: usize = 0;
    while i < n
        invariant
            0 <= i <= n,
            n == list.len(),
            ents == entities_view(list@),
            forall|p: int, q: int| 0 <= p < q < i ==> ents[p].uid != ents[q].uid,
        decreases n - i,
    {
        let mut j: usize = 0;
        while j < i
            invariant
                0 <= j <= i < n,
                n == list.len(),
                ents == entities_view(list@),
                forall|p: int, q: int| 0 <= p < q < i ==> ents[p].uid != ents[q].uid,
                forall|q: int| 0 <= q < j ==> ents[q].uid != ents[i as int].uid,
            decreases i - j,
        {
            proof {
                assert(ents[i as int] == list@[i as int]@);
                assert(ents[j as int] == list@[j as int]@);
            }
            if list[j].uid.same_as(&list[i].uid) {
                proof {
                    assert(!uids_unique(ents));
                }
                return false;
            }
            j = j + 1;
        }
        i = i + 1;
    }
    true
}

/// Decides whether every entity-reference attribute of the list points at
/// a uid present in the list.
pub fn check_refs(list: &Vec<Entity>) -> (r: bool)
    ensures
        r == refs_resolve(entities_view(list@)),
{
    let ghost ents = entities_view(list@);
    let n = list.len();
    let mut i: usize = 0;
    while i < n
        invariant
            0 <= i <= n,
            n == list.len(),
            ents == entities_view(list@),
            forall|p: int, q: int|
                0 <= p < i && 0 <= q < ents[p].attrs.len() ==> match (
                #[trigger] ents[p].attrs[q]).1 {
                    AttrValueV::EntityRef(u) => uid_present(ents, u),
                    _ => true,
                },
        decreases n - i,
    {
        let m = list[i].attrs.len();
        let mut j: usize = 0;
        while j < m
            invariant
                0 <= j <= m,
                0 <= i < n,
                n == list.len(),
                m == list[i as int].attrs.len(),
                ents == entities_view(list@),
                forall|p: int, q: int|
                    0 <= p < i && 0 <= q < ents[p].attrs.len() ==> match (
                    #[trigger] ents[p].attrs[q]).1 {
                        AttrValueV::EntityRef(u) => uid_present(ents, u),
                        _ => true,
                    },
                forall|q: int|
                    0 <= q < j ==> match (#[trigger] ents[i as int].attrs[q]).1 {
                        AttrValueV::EntityRef(u) => uid_present(ents, u),
                        _ => true,
                    },
            decreases m - j,
        {
            proof {
                assert(ents[i as int] == list@[i as int]@);
                assert(ents[i as int].attrs[j as int] == (
                    list@[i as int].attrs@[j as int].0@,
                    list@[i as int].attrs@[j as int].1@,
                ));
            }
            match &list[i].attrs[j].1 {
                AttrValue::EntityRef(u) => {
                    if !uid_in(list, u) {
                        proof {
                            assert(!refs_resolve(ents));
                        }
                        return false;
                    }
                },
                AttrValue::Long(_) => {},
            }
            j = j + 1;
        }
        i = i + 1;
    }
    true
}

/// A validated entity collection: schema-conforming entities with
/// pairwise distinct uids and resolvable references.
pub struct Entities {
    list: Vec<Entity>,
}

impl View for Entities {
    type V = Seq<EntityV>;

    closed spec fn view(&self) -> Seq<EntityV> {
        entities_view(self.list@)
    }
}

impl Entities {
    /// Validates `list` against the schema and wraps it.  Returns the
    /// collection exactly when every entity conforms, uids are pairwise
    /// distinct and every entity reference resolves within the list;
    /// otherwise reports exactly the first check that failed.
    pub fn from_entities(list: Vec<Entity>, schema: &Schema) -> (r: Result<
        Entities,
        ValidationError,
    >)
        ensures
            r is Ok <==> entities_ok(schema@, entities_view(list@)),
            r is Ok ==> r->Ok_0@ == entities_view(list@),
            r is Err ==> entities_error(schema@, entities_view(list@)) == Some(r->Err_0),
    {
        let ghost ents = entities_view(list@);
        proof {
            lemma_entities_error_none(schema@, ents);
        }
        let n = list.len();
        let mut i: usize = 0;
        while i < n
            invariant
                0 <= i <= n,
                n == list.len(),
                ents == entities_view(list@),
                entities_error_from(schema@, ents, 0) == entities_error_from(
                    schema@,
                    ents,
                    i as int,
                ),
            decreases n - i,
        {
            proof {
                assert(ents[i as int] == list@[i as int]@);
            }
            match check_entity(schema, &list[i]) {
                Some(e) => {
                    return Err(e);
                },
                None => {},
            }
            i = i + 1;
        }
        if !check_unique(&list) {
            return Err(ValidationError::DuplicateUid);
        }
        if !check_refs(&list) {
            return Err(ValidationError::UnresolvedReference);
        }
        proof {
            lemma_entities_error_from_none(schema@, ents, 0);
        }
        Ok(Entities { list })
    }

    /// The entities of the collection, for evaluation.
    pub fn as_list(&self) -> (r: &Vec<Entity>)
        ensures
            entities_view(r@) == self@,
    {
        &self.list
    }
}

} // verus!
