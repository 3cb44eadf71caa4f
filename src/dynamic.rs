use vstd::prelude::*;

use crate::counter;
use crate::input;

verus! {

/// A message of any of the library's components, behind one type.
#[derive(Debug, Clone, Copy, PartialEq, Eq, Structural)]
pub enum DynamicMessage {
    Counter(counter::Message),
    Input(input::Message),
}

/// Properties of any of the library's components, behind one type.
#[derive(Debug, Clone, Copy, PartialEq, Eq, Structural)]
pub enum DynamicProperties {
    Counter(counter::Properties),
}

/// A concrete type whose values can be put behind the uniform type `D` and taken back
/// out by a checked downcast.
pub trait Erase<D>: Sized {
    spec fn spec_erase(self) -> D;

    spec fn spec_downcast(d: D) -> Option<Self>;

    fn erase(self) -> (r: D)
        ensures
            r == self.spec_erase(),
    ;

    fn downcast(d: D) -> (r: Option<Self>)
        ensures
            r == Self::spec_downcast(d),
    ;

    /// Downcasting an erased value to its own type gives it back.
    proof fn lemma_round_trip(x: Self)
        ensures
            Self::spec_downcast(x.spec_erase()) == Some(x),
    ;
}

impl Erase<DynamicMessage> for counter::Message {
    open spec fn spec_erase(self) -> DynamicMessage {
        DynamicMessage::Counter(self)
    }

    open spec fn spec_downcast(d: DynamicMessage) -> Option<counter::Message> {
        match d {
            DynamicMessage::Counter(m) => Some(m),
            _ => None,
        }
    }

    fn erase(self) -> (r: DynamicMessage) {
        DynamicMessage::Counter(self)
    }

    fn downcast(d: DynamicMessage) -> (r: Option<counter::Message>) {
        match d {
            DynamicMessage::Counter(m) => Some(m),
            _ => None,
        }
    }

    proof fn lemma_round_trip(x: counter::Message) {
    }
}

impl Erase<DynamicMessage> for input::Message {
    open spec fn spec_erase(self) -> DynamicMessage {
        DynamicMessage::Input(self)
    }

    open spec fn spec_downcast(d: DynamicMessage) -> Option<input::Message> {
        match d {
            DynamicMessage::Input(m) => Some(m),
            _ => None,
        }
    }

    fn erase(self) -> (r: DynamicMessage) {
        DynamicMessage::Input(self)
    }

    fn downcast(d: DynamicMessage) -> (r: Option<input::Message>) {
        match d {
            DynamicMessage::Input(m) => Some(m),
            _ => None,
        }
    }

    proof fn lemma_round_trip(x: input::Message) {
    }
}

impl Erase<DynamicProperties> for counter::Properties {
    open spec fn spec_erase(self) -> DynamicProperties {
        DynamicProperties::Counter(self)
    }

    open spec fn spec_downcast(d: DynamicProperties) -> Option<counter::Properties> {
        match d {
            DynamicProperties::Counter(p) => Some(p),
        }
    }

    fn erase(self) -> (r: DynamicProperties) {
        DynamicProperties::Counter(self)
    }

    fn downcast(d: DynamicProperties) -> (r: Option<counter::Properties>) {
        match d {
            DynamicProperties::Counter(p) => Some(p),
        }
    }

    proof fn lemma_round_trip(x: counter::Properties) {
    }
}

} // verus!
