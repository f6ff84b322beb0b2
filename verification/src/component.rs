//! Component descriptors: the static shape of a runtime's component tree.
use vstd::prelude::*;

verus! {

/// The name of a component.
#[derive(Debug, Clone, PartialEq, Eq, Hash)]
pub struct ComponentId(pub &'static str);

/// A component's name, role and optional parent.
#[derive(Debug, Clone, PartialEq, Eq)]
pub struct ComponentDescriptor {
    pub id: ComponentId,
    pub role: &'static str,
    pub parent: Option<ComponentId>,
}

impl ComponentDescriptor {
    /// A component without a parent.
    pub fn root(id: &'static str, role: &'static str) -> (d: Self)
        ensures
            d.id.0@ == id@,
            d.role@ == role@,
            d.parent is None,
    {
        Self { id: ComponentId(id), role, parent: None }
    }

    /// A component whose parent is the component named `parent`.
    pub fn child(id: &'static str, role: &'static str, parent: &'static str) -> (d: Self)
        ensures
            d.id.0@ == id@,
            d.role@ == role@,
            d.parent matches Some(p) && p.0@ == parent@,
    {
        Self { id: ComponentId(id), role, parent: Some(ComponentId(parent)) }
    }
}

} // verus!
