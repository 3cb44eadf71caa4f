use vstd::prelude::*;

use crate::dynamic::Erase;

verus! {

/// Whether a component asks to be drawn again.
#[derive(Debug, Clone, Copy, PartialEq, Eq, Structural)]
pub enum ShouldRender {
    Yes,
    No,
}

/// The rectangle a component is laid out in.
#[derive(Debug, Clone, Copy, PartialEq, Eq, Structural)]
pub struct Rect {
    pub x: usize,
    pub y: usize,
    pub width: usize,
    pub height: usize,
}

/// A concrete component type: a tag that tells it apart from every other component
/// type, and a name for diagnostics.
///
/// Each component type must choose a tag that no other component type uses: ids
/// compare by tag, so two types sharing one would be taken for the same type.
pub trait ComponentType {
    spec fn spec_type_tag() -> u64;

    spec fn spec_kind_name() -> &'static str;

    fn type_tag() -> (r: u64)
        ensures
            r == Self::spec_type_tag(),
    ;

    fn kind_name() -> (r: &'static str)
        ensures
            r == Self::spec_kind_name(),
    ;
}

/// The identity of one live component: its type and an id derived from its place in
/// the tree. The type name serves diagnostics only and takes no part in equality.
#[derive(Debug, Clone, Copy)]
pub struct ComponentId {
    pub type_tag: u64,
    pub id: u64,
    pub kind_name: &'static str,
}

impl ComponentId {
    pub fn new<T: ComponentType>(id: u64) -> (r: ComponentId)
        ensures
            r.type_tag == T::spec_type_tag(),
            r.id == id,
            r.kind_name == T::spec_kind_name(),
    {
        ComponentId { type_tag: T::type_tag(), id, kind_name: T::kind_name() }
    }

    pub fn type_id(&self) -> (r: u64)
        ensures
            r == self.type_tag,
    {
        self.type_tag
    }

    pub fn kind_name(&self) -> (r: &'static str)
        ensures
            r == self.kind_name,
    {
        self.kind_name
    }
}

/// Two ids denote the same component: same type and same position id.
pub open spec fn same_component(a: ComponentId, b: ComponentId) -> bool {
    a.type_tag == b.type_tag && a.id == b.id
}

impl PartialEq for ComponentId {
    fn eq(&self, other: &ComponentId) -> (r: bool) {
        self.type_tag == other.type_tag && self.id == other.id
    }
}

impl vstd::std_specs::cmp::PartialEqSpecImpl for ComponentId {
    open spec fn obeys_eq_spec() -> bool {
        true
    }

    open spec fn eq_spec(&self, other: &ComponentId) -> bool {
        same_component(*self, *other)
    }
}

impl Eq for ComponentId {}

/// The position id of a definition: the position hash, with the explicit key, if
/// any, folded in by exclusive or.
pub open spec fn position_id(position_hash: u64, key: Option<u64>) -> u64 {
    match key {
        Some(k) => position_hash ^ k,
        None => position_hash,
    }
}

/// A declared component: an optional explicit key and the properties it is to be
/// built from, which can be taken out once.
#[derive(Debug)]
pub struct ComponentDef<P> {
    pub key: Option<u64>,
    pub type_tag: u64,
    pub kind_name: &'static str,
    pub properties: Option<P>,
}

/// `after` is `before` with its properties taken out, and `taken` is what was there.
pub open spec fn took<P>(before: ComponentDef<P>, after: ComponentDef<P>, taken: Option<P>) -> bool {
    &&& taken == before.properties
    &&& after.properties is None
    &&& after.key == before.key
    &&& after.type_tag == before.type_tag
    &&& after.kind_name == before.kind_name
}

impl<P> ComponentDef<P> {
    pub fn new<T: ComponentType>(key: Option<u64>, properties: P) -> (r: ComponentDef<P>)
        ensures
            r.key == key,
            r.type_tag == T::spec_type_tag(),
            r.kind_name == T::spec_kind_name(),
            r.properties == Some(properties),
    {
        ComponentDef { key, type_tag: T::type_tag(), kind_name: T::kind_name(), properties: Some(properties) }
    }

    pub fn key(&self) -> (r: Option<u64>)
        ensures
            r == self.key,
    {
        self.key
    }

    pub fn component_type_id(&self) -> (r: u64)
        ensures
            r == self.type_tag,
    {
        self.type_tag
    }

    /// The identity of this definition at the place with hash `position_hash`.
    pub fn generate_id(&self, position_hash: u64) -> (r: ComponentId)
        ensures
            r.type_tag == self.type_tag,
            r.id == position_id(position_hash, self.key),
            r.kind_name == self.kind_name,
    {
        let id = match self.key {
            Some(k) => position_hash ^ k,
            None => position_hash,
        };
        ComponentId { type_tag: self.type_tag, id, kind_name: self.kind_name }
    }

    /// Takes the properties out; `None` once they have been taken.
    pub fn take_properties(&mut self) -> (r: Option<P>)
        ensures
            took(*old(self), *final(self), r),
    {
        let mut properties = None;
        std::mem::swap(&mut properties, &mut self.properties);
        properties
    }

    /// Takes the properties out; they must not have been taken before.
    pub fn properties_unwrap(&mut self) -> (r: P)
        requires
            old(self).properties is Some,
        ensures
            r == old(self).properties->Some_0,
            final(self).properties is None,
            final(self).key == old(self).key,
            final(self).type_tag == old(self).type_tag,
            final(self).kind_name == old(self).kind_name,
    {
        self.take_properties().unwrap()
    }

    /// Takes the properties out behind the uniform type `D`, to be compared with
    /// those of a live component; they must not have been taken before.
    pub fn dynamic_properties<D>(&mut self) -> (r: D)
        where
            P: Erase<D>,
        requires
            old(self).properties is Some,
        ensures
            took(*old(self), *final(self), old(self).properties),
            r == old(self).properties->Some_0.spec_erase(),
    {
        self.properties_unwrap().erase()
    }
}

} // verus!
