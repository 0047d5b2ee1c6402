//! Plain descriptions of the GPU state the pipelines ask for.
use vstd::prelude::*;

verus! {

/// Image and attribute formats in use.
#[derive(Clone, Copy, Debug, PartialEq, Eq, Structural)]
pub enum Format {
    R8Unorm,
    R8G8B8A8Unorm,
    R8G8B8A8Srgb,
    B8G8R8A8Unorm,
    B8G8R8A8Srgb,
    R8G8B8A8Snorm,
    R32Sfloat,
    R32Uint,
    R32G32Sfloat,
    R32G32B32Sfloat,
    R32G32B32A32Sfloat,
    Other,
}

/// Whether the swapchain stores blue first.
pub fn is_bgra(format: Format) -> (bgra: bool)
    ensures
        bgra == (format == Format::B8G8R8A8Srgb || format == Format::B8G8R8A8Unorm),
{
    match format {
        Format::B8G8R8A8Srgb | Format::B8G8R8A8Unorm => true,
        _ => false,
    }
}

/// Sizes of a descriptor pool: uniform buffers, sampled images, and the sets
/// that hold them.
#[derive(Clone, Copy, Debug, PartialEq, Eq, Structural)]
pub struct PoolPlan {
    pub uniforms: u32,
    pub samplers: u32,
    pub max_sets: u32,
}

/// A pool with one camera set per frame in flight and one set per texture.
pub fn camera_and_texture_pool(textures: u32) -> (plan: PoolPlan)
    requires
        textures <= 0xffff_0000,
    ensures
        plan == (PoolPlan { uniforms: 2, samplers: textures, max_sets: (textures + 2) as u32 }),
{
    PoolPlan { uniforms: 2, samplers: textures, max_sets: textures + 2 }
}

/// A pool with one uniform block and one set of textures, used by all frames.
pub fn single_set_pool(textures: u32) -> (plan: PoolPlan)
    ensures
        plan == (PoolPlan { uniforms: 1, samplers: textures, max_sets: 2 }),
{
    PoolPlan { uniforms: 1, samplers: textures, max_sets: 2 }
}

} // verus!
