use vstd::prelude::*;

verus! {

/// A size in physical pixels.
#[derive(Clone, Copy, Debug, PartialEq, Eq)]
pub struct PhysicalSize {
    pub width: u32,
    pub height: u32,
}

/// A size that a surface can be configured with: neither side is zero.
pub open spec fn is_drawable(size: PhysicalSize) -> bool {
    size.width > 0 && size.height > 0
}

impl PhysicalSize {
    /// Whether a surface can be configured with this size.
    pub fn is_drawable(&self) -> (b: bool)
        ensures
            b == is_drawable(*self),
    {
        self.width > 0 && self.height > 0
    }
}

/// Which of the adapter's choices the surface is configured with, and how.
#[derive(Clone, Copy, Debug, PartialEq, Eq)]
pub struct SurfacePlan {
    /// Index into the adapter's supported surface formats.
    pub format_index: usize,
    /// Index into the adapter's supported present modes.
    pub present_mode_index: usize,
    /// Index into the adapter's supported alpha modes.
    pub alpha_mode_index: usize,
    pub width: u32,
    pub height: u32,
    pub desired_maximum_frame_latency: u32,
}

/// The index of the first sRGB format, or of the first format when none is sRGB.
pub open spec fn preferred_format_index(srgb: Seq<bool>) -> int {
    if exists|i: int| 0 <= i < srgb.len() && srgb[i] {
        choose|i: int| 0 <= i < srgb.len() && srgb[i] && forall|j: int| 0 <= j < i ==> !srgb[j]
    } else {
        0
    }
}

/// Picks the surface format: the first one that is sRGB, else the first one.
/// `srgb[i]` tells whether the adapter's `i`-th format is an sRGB format.
pub fn choose_surface_format(srgb: &Vec<bool>) -> (index: usize)
    requires
        srgb@.len() > 0,
    ensures
        index < srgb@.len(),
        srgb@[index as int] ==> forall|j: int| 0 <= j < index ==> !srgb@[j],
        !srgb@[index as int] ==> index == 0 && forall|j: int| 0 <= j < srgb@.len() ==> !srgb@[j],
        index == preferred_format_index(srgb@),
{
    let mut i: usize = 0;
    while i < srgb.len()
        invariant
            i <= srgb@.len(),
            forall|j: int| 0 <= j < i ==> !srgb@[j],
        decreases srgb@.len() - i,
    {
        if srgb[i] {
            proof {
                let w = choose|k: int| 0 <= k < srgb@.len() && srgb@[k] && forall|j: int| 0 <= j < k ==> !srgb@[j];
                assert(0 <= w < srgb@.len() && srgb@[w] && forall|j: int| 0 <= j < w ==> !srgb@[j]);
                assert(w == i as int) by {
                    if w < i as int {
                        assert(!srgb@[w]);
                    } else if w > i as int {
                        assert(!srgb@[i as int]);
                    }
                }
            }
            return i;
        }
        i = i + 1;
    }
    0
}

/// Plans the surface configuration for a window of the given size, from the
/// adapter's formats (`srgb[i]` tells whether format `i` is sRGB) and the
/// numbers of present modes and alpha modes it offers: the preferred format,
/// the first present mode and alpha mode, and a latency of two frames.
pub fn plan_surface(size: PhysicalSize, srgb: &Vec<bool>, present_modes: usize, alpha_modes: usize) -> (plan: SurfacePlan)
    requires
        srgb@.len() > 0,
        present_modes > 0,
        alpha_modes > 0,
    ensures
        plan.format_index == preferred_format_index(srgb@),
        plan.format_index < srgb@.len(),
        plan.present_mode_index == 0,
        plan.alpha_mode_index == 0,
        plan.width == size.width,
        plan.height == size.height,
        plan.desired_maximum_frame_latency == 2,
{
    SurfacePlan {
        format_index: choose_surface_format(srgb),
        present_mode_index: 0,
        alpha_mode_index: 0,
        width: size.width,
        height: size.height,
        desired_maximum_frame_latency: 2,
    }
}

/// The one depth format the viewer uses: 32-bit float depth.
#[derive(Clone, Copy, Debug, PartialEq, Eq)]
pub enum DepthFormat {
    Depth32Float,
}

/// How the depth texture is laid out and used.
#[derive(Clone, Copy, Debug, PartialEq, Eq)]
pub struct DepthTextureDesc {
    pub width: u32,
    pub height: u32,
    pub depth_or_array_layers: u32,
    pub mip_level_count: u32,
    pub sample_count: u32,
    pub format: DepthFormat,
    /// The texture is a two-dimensional image.
    pub two_dimensional: bool,
    /// The texture can be rendered into.
    pub render_attachment: bool,
    /// The texture can be bound for sampling.
    pub texture_binding: bool,
}

/// The depth texture that goes with a surface of the given size: one layer,
/// one mip level, one sample, 32-bit float depth, two-dimensional, usable as
/// a render attachment and as a bound texture.
pub open spec fn depth_texture_for(width: u32, height: u32) -> DepthTextureDesc {
    DepthTextureDesc {
        width,
        height,
        depth_or_array_layers: 1,
        mip_level_count: 1,
        sample_count: 1,
        format: DepthFormat::Depth32Float,
        two_dimensional: true,
        render_attachment: true,
        texture_binding: true,
    }
}

/// Describes the depth texture for a surface configured at the given size.
pub fn depth_texture_desc(width: u32, height: u32) -> (desc: DepthTextureDesc)
    ensures
        desc == depth_texture_for(width, height),
{
    DepthTextureDesc {
        width,
        height,
        depth_or_array_layers: 1,
        mip_level_count: 1,
        sample_count: 1,
        format: DepthFormat::Depth32Float,
        two_dimensional: true,
        render_attachment: true,
        texture_binding: true,
    }
}

/// The depth texture matches the surface it goes with: the same width and
/// height, a single layer, mip level and sample, 32-bit float depth, usable
/// both as a render target and as a bound texture.
pub proof fn lemma_depth_texture_matches_surface(width: u32, height: u32)
    ensures
        depth_texture_for(width, height).width == width,
        depth_texture_for(width, height).height == height,
        depth_texture_for(width, height).depth_or_array_layers == 1,
        depth_texture_for(width, height).mip_level_count == 1,
        depth_texture_for(width, height).sample_count == 1,
        depth_texture_for(width, height).format == DepthFormat::Depth32Float,
        depth_texture_for(width, height).two_dimensional,
        depth_texture_for(width, height).render_attachment,
        depth_texture_for(width, height).texture_binding,
{
}

/// The chosen format is sRGB whenever any offered format is, and is the first
/// such; with no sRGB format it is the first format.
pub proof fn lemma_preferred_format(srgb: Seq<bool>)
    requires
        srgb.len() > 0,
    ensures
        0 <= preferred_format_index(srgb) < srgb.len(),
        (exists|i: int| 0 <= i < srgb.len() && srgb[i]) ==> srgb[preferred_format_index(srgb)]
            && forall|j: int| 0 <= j < preferred_format_index(srgb) ==> !srgb[j],
        !(exists|i: int| 0 <= i < srgb.len() && srgb[i]) ==> preferred_format_index(srgb) == 0,
{
    if exists|i: int| 0 <= i < srgb.len() && srgb[i] {
        let i = choose|i: int| 0 <= i < srgb.len() && srgb[i];
        // the first sRGB format exists
        assert(exists|w: int| 0 <= w < srgb.len() && srgb[w] && forall|j: int| 0 <= j < w ==> !srgb[j]) by {
            lemma_first_true(srgb, i);
        }
    }
}

proof fn lemma_first_true(s: Seq<bool>, i: int)
    requires
        0 <= i < s.len(),
        s[i],
    ensures
        exists|w: int| 0 <= w < s.len() && s[w] && forall|j: int| 0 <= j < w ==> !s[j],
    decreases i,
{
    if exists|j: int| 0 <= j < i && s[j] {
        let j = choose|j: int| 0 <= j < i && s[j];
        lemma_first_true(s, j);
    } else {
        assert(forall|j: int| 0 <= j < i ==> !s[j]);
    }
}

} // verus!
