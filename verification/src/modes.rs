//! The modes by which a renderer tells its compute pipelines and render passes
//! apart.

use crate::index::IndexType;
use crate::model::{stride, stride_of};
use gfx_hal::format::Format;
use vstd::prelude::*;

verus! {

/// The pixel format of an image, as `gfx_hal::format::Format` defines it. The
/// library carries formats around and never looks into one.
#[verifier::external_type_specification]
#[verifier::external_body]
pub struct ExFormat(Format);

/// Which of the pipelines that rebuild vertex attributes fits a model: one
/// for each index width, with and without skinning data in the records.
#[derive(Clone, Copy, Debug, Eq, Hash, PartialEq, Structural)]
pub struct CalcVertexAttrsComputeMode {
    pub idx_ty: IndexType,
    pub skin: bool,
}

impl CalcVertexAttrsComputeMode {
    /// The mode of a model with its index width and with or without skins.
    pub fn new(idx_ty: IndexType, skin: bool) -> (mode: Self)
        ensures
            mode == (Self { idx_ty, skin }),
    {
        Self { idx_ty, skin }
    }

    /// 16-bit indices, no skinning data.
    pub fn u16() -> (mode: Self)
        ensures
            mode == (Self { idx_ty: IndexType::U16, skin: false }),
    {
        Self { idx_ty: IndexType::U16, skin: false }
    }

    /// 16-bit indices, skinning data.
    pub fn u16_skin() -> (mode: Self)
        ensures
            mode == (Self { idx_ty: IndexType::U16, skin: true }),
    {
        Self { idx_ty: IndexType::U16, skin: true }
    }

    /// 32-bit indices, no skinning data.
    pub fn u32() -> (mode: Self)
        ensures
            mode == (Self { idx_ty: IndexType::U32, skin: false }),
    {
        Self { idx_ty: IndexType::U32, skin: false }
    }

    /// 32-bit indices, skinning data.
    pub fn u32_skin() -> (mode: Self)
        ensures
            mode == (Self { idx_ty: IndexType::U32, skin: true }),
    {
        Self { idx_ty: IndexType::U32, skin: true }
    }

    /// The bytes that one index of such a model takes.
    pub fn index_width(&self) -> (bytes: usize)
        ensures
            bytes == self.idx_ty.width(),
    {
        self.idx_ty.byte_width()
    }

    /// The bytes that one vertex record of such a model takes.
    pub fn vertex_stride(&self) -> (bytes: usize)
        ensures
            bytes == stride(self.skin),
    {
        stride_of(self.skin)
    }
}

/// A compute pipeline.
#[derive(Clone, Copy, Debug, Eq, Hash, PartialEq, Structural)]
pub enum ComputeMode {
    CalcVertexAttrs(CalcVertexAttrsComputeMode),
    DecodeRgbRgba,
}

/// The ways in which one image is blended onto another.
#[derive(Clone, Copy, Debug, Eq, Hash, PartialEq, Structural)]
pub enum BlendMode {
    Add,
    AlphaAdd,
    ColorBurn,
    ColorDodge,
    Color,
    Darken,
    DarkenColor,
    Difference,
    Divide,
    Exclusion,
    HardLight,
    HardMix,
    LinearBurn,
    Multiply,
    Normal,
    Overlay,
    Screen,
    Subtract,
    VividLight,
}

/// The ways in which one image masks another.
#[derive(Clone, Copy, Debug, Eq, Hash, PartialEq, Structural)]
pub enum MaskMode {
    Add,
    Darken,
    Difference,
    Intersect,
    Lighten,
    Subtract,
}

/// The ways in which one image serves as the matte of another.
#[derive(Clone, Copy, Debug, Eq, Hash, PartialEq, Structural)]
pub enum MatteMode {
    Alpha,
    AlphaInverted,
    Luminance,
    LuminanceInverted,
}

/// A graphics pipeline.
#[derive(Clone, Copy, Debug, Eq, Hash, PartialEq, Structural)]
pub enum GraphicsMode {
    Blend(BlendMode),
    Font,
    FontOutline,
    Gradient,
    GradientTransparency,
    DrawLine,
    DrawMesh,
    DrawPointLight,
    DrawRectLight,
    DrawSpotlight,
    DrawSunlight,
    Mask(MaskMode),
    Matte(MatteMode),
    Skydome,
    Texture,
}

/// A render pass that draws into one color image.
#[derive(Clone, Copy, Debug, Eq, Hash, PartialEq)]
pub struct ColorRenderPassMode {
    pub fmt: Format,
    pub preserve: bool,
}

/// A render pass that draws a scene.
#[derive(Clone, Copy, Debug, Eq, Hash, PartialEq)]
pub struct DrawRenderPassMode {
    pub depth: Format,
    pub geom_buf: Format,
    pub light: Format,
    pub output: Format,
    pub pre_fx: bool,
    pub post_fx: bool,
}

/// A render pass.
#[derive(Clone, Copy, Debug, Eq, Hash, PartialEq)]
pub enum RenderPassMode {
    Color(ColorRenderPassMode),
    Draw(DrawRenderPassMode),
}

} // verus!
