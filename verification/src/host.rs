//! Hosts: the owners of surfaces, their close protocol, state and capabilities.
use vstd::prelude::*;
use crate::surface::SurfaceId;

verus! {

/// The name of a host.
#[derive(Debug, Clone, Copy, PartialEq, Eq, Hash)]
pub struct HostId(pub &'static str);

/// Who decides whether a close request ends the session.
#[derive(Debug, Clone, Copy, PartialEq, Eq, Structural)]
pub enum CloseBehavior {
    ManagedByRuntime,
    ManagedByHost,
}

/// Where a close request came from.
#[derive(Debug, Clone, Copy, PartialEq, Eq, Structural)]
pub enum CloseRequestSource {
    Host,
    DevelopmentShortcut,
}

/// A request to close the host.
#[derive(Debug, Clone, Copy, PartialEq, Eq, Structural)]
pub struct CloseRequest {
    pub source: CloseRequestSource,
}

impl CloseRequest {
    pub fn new(source: CloseRequestSource) -> (r: Self)
        ensures
            r.source == source,
    {
        Self { source }
    }
}

/// A host's name, role, close behaviour and primary surface.
#[derive(Debug, Clone, PartialEq, Eq)]
pub struct HostDescriptor {
    pub id: HostId,
    pub role: &'static str,
    pub close_behavior: CloseBehavior,
    pub primary_surface: SurfaceId,
}

impl HostDescriptor {
    pub fn new(
        id: &'static str,
        role: &'static str,
        close_behavior: CloseBehavior,
        primary_surface: SurfaceId,
    ) -> (d: Self)
        ensures
            d.id.0@ == id@,
            d.role@ == role@,
            d.close_behavior == close_behavior,
            d.primary_surface.0@ == primary_surface.0@,
    {
        Self { id: HostId(id), role, close_behavior, primary_surface }
    }
}

/// What is known of a host at one moment.
#[derive(Debug, Clone, Copy, PartialEq, Eq, Structural)]
pub struct HostState {
    pub visible: bool,
    pub close_requested: bool,
}

impl Default for HostState {
    /// A hidden host with no pending close request.
    fn default() -> (s: Self)
        ensures
            s == (HostState { visible: false, close_requested: false }),
    {
        Self { visible: false, close_requested: false }
    }
}

/// What a host can do beyond showing a rectangular surface.
#[derive(Debug, Clone, Copy, PartialEq, Eq, Structural)]
pub struct HostCapabilities {
    pub supports_repositioning: bool,
    pub supports_transparency: bool,
    pub supports_irregular_interaction: bool,
}

impl HostCapabilities {
    pub fn new(
        supports_repositioning: bool,
        supports_transparency: bool,
        supports_irregular_interaction: bool,
    ) -> (c: Self)
        ensures
            c == (HostCapabilities {
                supports_repositioning,
                supports_transparency,
                supports_irregular_interaction,
            }),
    {
        Self { supports_repositioning, supports_transparency, supports_irregular_interaction }
    }
}

/// The port through which a runtime inspects its host.
pub trait HostPort {
    fn descriptor(&self) -> &HostDescriptor;

    fn state(&self) -> HostState;

    fn capabilities(&self) -> HostCapabilities;
}

} // verus!
