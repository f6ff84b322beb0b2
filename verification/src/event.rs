//! Event descriptors: the named events a runtime declares.
use vstd::prelude::*;

verus! {

/// The name of an event.
#[derive(Debug, Clone, PartialEq, Eq, Hash)]
pub struct EventId(pub &'static str);

/// An event's name and a sentence describing it.
#[derive(Debug, Clone, PartialEq, Eq)]
pub struct EventDescriptor {
    pub id: EventId,
    pub detail: &'static str,
}

impl EventDescriptor {
    pub fn new(id: &'static str, detail: &'static str) -> (d: Self)
        ensures
            d.id.0@ == id@,
            d.detail@ == detail@,
    {
        Self { id: EventId(id), detail }
    }
}

} // verus!
