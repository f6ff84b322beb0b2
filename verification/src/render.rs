use vstd::prelude::*;

verus! {

/// A 24-bit RGB colour.
#[derive(Debug, Clone, Copy, PartialEq, Eq, Structural)]
pub struct Rgb24 {
    pub red: u8,
    pub green: u8,
    pub blue: u8,
}

/// The packed `0x00RRGGBB` value of a colour.
pub open spec fn packed_rgb(red: u8, green: u8, blue: u8) -> int {
    red as int * 65536 + green as int * 256 + blue as int
}

impl Rgb24 {
    pub fn new(red: u8, green: u8, blue: u8) -> (c: Self)
        ensures
            c == (Rgb24 { red, green, blue }),
    {
        Self { red, green, blue }
    }

    /// Packs the colour as `0x00RRGGBB`.
    pub fn into_u32(self) -> (v: u32)
        ensures
            v as int == packed_rgb(self.red, self.green, self.blue),
    {
        let r = self.red as u32;
        let g = self.green as u32;
        let b = self.blue as u32;
        assert((b | (g << 8u32) | (r << 16u32)) == b + g * 256 + r * 65536) by (bit_vector)
            requires
                r < 256,
                g < 256,
                b < 256,
        ;
        b | (g << 8u32) | (r << 16u32)
    }
}

/// The compositing layer a present model belongs to.
#[derive(Debug, Clone, Copy, PartialEq, Eq, Structural)]
pub enum LayerRole {
    Background,
    Foreground,
    Overlay,
}

/// What a present should draw on the whole surface.
#[derive(Debug, Clone, Copy, PartialEq, Eq, Structural)]
pub enum RenderIntent {
    /// Fill the surface with one colour.
    ClearSolid { color: Rgb24 },
    /// Fill the surface with `background`, then the rectangle `margin`
    /// pixels in from every edge with `inset`.
    ClearInset { background: Rgb24, inset: Rgb24, margin: u32 },
}

/// A layer-tagged render intent.
#[derive(Debug, Clone, Copy, PartialEq, Eq, Structural)]
pub struct PresentModel {
    pub layer: LayerRole,
    pub intent: RenderIntent,
}

impl PresentModel {
    /// A solid fill in the foreground layer.
    pub fn clear_solid(color: Rgb24) -> (m: Self)
        ensures
            m == (PresentModel { layer: LayerRole::Foreground, intent: RenderIntent::ClearSolid { color } }),
    {
        Self::clear_solid_in_layer(LayerRole::Foreground, color)
    }

    pub fn clear_solid_in_layer(layer: LayerRole, color: Rgb24) -> (m: Self)
        ensures
            m == (PresentModel { layer, intent: RenderIntent::ClearSolid { color } }),
    {
        Self { layer, intent: RenderIntent::ClearSolid { color } }
    }

    /// An inset fill in the foreground layer.
    pub fn clear_inset(background: Rgb24, inset: Rgb24, margin: u32) -> (m: Self)
        ensures
            m == (PresentModel {
                layer: LayerRole::Foreground,
                intent: RenderIntent::ClearInset { background, inset, margin },
            }),
    {
        Self::clear_inset_in_layer(LayerRole::Foreground, background, inset, margin)
    }

    pub fn clear_inset_in_layer(layer: LayerRole, background: Rgb24, inset: Rgb24, margin: u32) -> (m:
        Self)
        ensures
            m == (PresentModel { layer, intent: RenderIntent::ClearInset { background, inset, margin } }),
    {
        Self { layer, intent: RenderIntent::ClearInset { background, inset, margin } }
    }
}

} // verus!
