//! Surfaces: where a host presents, their extent, state and capabilities.
use vstd::prelude::*;
use crate::render::PresentModel;

verus! {

/// The name of a surface.
#[derive(Debug, Clone, Copy, PartialEq, Eq, Hash)]
pub struct SurfaceId(pub &'static str);

/// A width and a height in pixels.
#[derive(Debug, Clone, Copy, PartialEq, Eq, Structural)]
pub struct Extent {
    pub width: u32,
    pub height: u32,
}

impl Extent {
    pub fn new(width: u32, height: u32) -> (e: Self)
        ensures
            e == (Extent { width, height }),
    {
        Self { width, height }
    }
}

/// A surface's name, role, initial extent and whether it is decorated.
#[derive(Debug, Clone, PartialEq, Eq)]
pub struct SurfaceDescriptor {
    pub id: SurfaceId,
    pub role: &'static str,
    pub initial_extent: Extent,
    pub decorated: bool,
}

impl SurfaceDescriptor {
    pub fn new(id: &'static str, role: &'static str, initial_extent: Extent, decorated: bool) -> (d:
        Self)
        ensures
            d.id.0@ == id@,
            d.role@ == role@,
            d.initial_extent == initial_extent,
            d.decorated == decorated,
    {
        Self { id: SurfaceId(id), role, initial_extent, decorated }
    }
}

/// What is known of a surface at one moment: its extent and visibility.
#[derive(Debug, Clone, Copy, PartialEq, Eq, Structural)]
pub struct SurfaceState {
    pub extent: Extent,
    pub visible: bool,
}

impl SurfaceState {
    pub fn new(extent: Extent, visible: bool) -> (s: Self)
        ensures
            s == (SurfaceState { extent, visible }),
    {
        Self { extent, visible }
    }
}

/// What a presenter can draw.
#[derive(Debug, Clone, Copy, PartialEq, Eq, Structural)]
pub struct PresentCapabilities {
    pub supports_transparency: bool,
    pub supports_irregular_shape: bool,
    pub supports_clear_solid: bool,
    pub supports_clear_inset: bool,
}

impl PresentCapabilities {
    pub fn new(
        supports_transparency: bool,
        supports_irregular_shape: bool,
        supports_clear_solid: bool,
        supports_clear_inset: bool,
    ) -> (c: Self)
        ensures
            c == (PresentCapabilities {
                supports_transparency,
                supports_irregular_shape,
                supports_clear_solid,
                supports_clear_inset,
            }),
    {
        Self {
            supports_transparency,
            supports_irregular_shape,
            supports_clear_solid,
            supports_clear_inset,
        }
    }
}

/// The port through which a runtime's present intents reach a surface.
pub trait PresentPort {
    type Error;

    fn descriptor(&self) -> &SurfaceDescriptor;

    fn state(&self) -> SurfaceState;

    fn capabilities(&self) -> PresentCapabilities;

    fn present(&mut self, model: PresentModel) -> Result<(), Self::Error>;
}

} // verus!
