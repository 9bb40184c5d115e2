//! The shared description of every shader pipeline: entry points, topology, data layout
//! and vertex count are the same on every backend.
use vstd::prelude::*;

verus! {

/// Shader-declared data that is uploaded without serialization.
///
/// Implementors have a stable C-compatible layout without padding that matches the
/// WGSL declaration named by `wgsl_type`.
pub trait BufferData: Sized {
    /// The name of the matching WGSL type.
    fn wgsl_type() -> &'static str;
}

/// The storage ABI of one uploaded type: its WGSL name and its host stride.
#[derive(Clone, Copy, Debug, PartialEq, Eq)]
pub struct StorageAbi {
    pub wgsl_type: &'static str,
    pub rust_stride: usize,
}

/// The storage ABI of `T`: its WGSL type and its size in bytes.
pub fn storage_abi<T: BufferData>() -> (r: StorageAbi)
    ensures
        r.rust_stride == vstd::layout::size_of::<T>(),
        call_ensures(T::wgsl_type, (), r.wgsl_type),
{
    StorageAbi { wgsl_type: T::wgsl_type(), rust_stride: core::mem::size_of::<T>() }
}

/// How a pipeline receives its per-draw data.
#[derive(Clone, Copy, Debug, PartialEq, Eq, Structural)]
pub enum DataLayout {
    Instances,
    TexturedInstances,
    MonochromeSprites,
    SubpixelSprites,
    NativeOnly,
    Surface,
    Blur,
}

/// How many vertices one draw of a pipeline emits.
#[derive(Clone, Copy, Debug, PartialEq, Eq, Structural)]
pub enum VertexCount {
    Rectangle,
    FullscreenTriangle,
    Dynamic,
}

/// How a pipeline assembles its vertices.
#[derive(Clone, Copy, Debug, PartialEq, Eq, Structural)]
pub enum PrimitiveTopology {
    TriangleList,
    TriangleStrip,
}

/// Vertices of a rectangle drawn as a triangle strip.
pub const RECTANGLE_VERTEX_COUNT: u32 = 4;
/// Vertices of a triangle that covers the whole target.
pub const FULLSCREEN_TRIANGLE_VERTEX_COUNT: u32 = 3;
pub const GLOBAL_BIND_GROUP: u32 = 0;
pub const DATA_BIND_GROUP: u32 = 1;
pub const GLOBAL_UNIFORMS_BINDING: u32 = 0;
pub const FONT_RASTERIZATION_BINDING: u32 = 1;
pub const DATA_BUFFER_BINDING: u32 = 0;
pub const PRIMARY_TEXTURE_BINDING: u32 = 1;
pub const SECONDARY_TEXTURE_BINDING: u32 = 2;
pub const PRIMARY_SAMPLER_BINDING: u32 = 2;
pub const SURFACE_SAMPLER_BINDING: u32 = 3;
/// D3D11 constant-buffer register of the per-draw instance base for instanced pipelines.
/// Group-0 constant buffers occupy b0 and b1, and the group-1 uniform lands on b2.
pub const DX11_DRAW_CONSTANTS_REGISTER: u32 = 3;

impl VertexCount {
    /// The fixed number of vertices per draw, if the pipeline has one.
    pub fn fixed(self) -> (r: Option<u32>)
        ensures
            r == match self {
                VertexCount::Rectangle => Some(RECTANGLE_VERTEX_COUNT),
                VertexCount::FullscreenTriangle => Some(FULLSCREEN_TRIANGLE_VERTEX_COUNT),
                VertexCount::Dynamic => None,
            },
    {
        match self {
            VertexCount::Rectangle => Some(RECTANGLE_VERTEX_COUNT),
            VertexCount::FullscreenTriangle => Some(FULLSCREEN_TRIANGLE_VERTEX_COUNT),
            VertexCount::Dynamic => None,
        }
    }
}

/// One shader pipeline, described identically for every backend.
#[derive(Clone, Copy, Debug)]
pub struct Pipeline {
    pub label: &'static str,
    pub vertex_entry: &'static str,
    pub fragment_entry: &'static str,
    pub topology: PrimitiveTopology,
    pub data_layout: DataLayout,
    pub vertex_count: VertexCount,
}

/// The pipelines shared by every backend.
#[derive(Clone, Copy, Debug, PartialEq, Eq, Structural)]
pub enum PipelineName {
    Quads,
    SmoothedQuads,
    Shadows,
    SmoothedShadows,
    PathRasterization,
    Paths,
    Underlines,
    MonochromeSprites,
    SubpixelSprites,
    PolychromeSprites,
    SmoothedPolychromeSprites,
    Surfaces,
    BlurDownsample,
    Blur,
    BlurComposite,
    SmoothedBlurComposite,
    EmojiRasterization,
}

/// The topology, data layout and vertex count of each pipeline.
pub open spec fn pipeline_shape(name: PipelineName) -> (PrimitiveTopology, DataLayout, VertexCount) {
    match name {
        PipelineName::Quads => (PrimitiveTopology::TriangleStrip, DataLayout::Instances, VertexCount::Rectangle),
        PipelineName::SmoothedQuads => (PrimitiveTopology::TriangleStrip, DataLayout::Instances, VertexCount::Rectangle),
        PipelineName::Shadows => (PrimitiveTopology::TriangleStrip, DataLayout::Instances, VertexCount::Rectangle),
        PipelineName::SmoothedShadows => (PrimitiveTopology::TriangleStrip, DataLayout::Instances, VertexCount::Rectangle),
        PipelineName::PathRasterization => (PrimitiveTopology::TriangleList, DataLayout::Instances, VertexCount::Dynamic),
        PipelineName::Paths => (PrimitiveTopology::TriangleStrip, DataLayout::TexturedInstances, VertexCount::Rectangle),
        PipelineName::Underlines => (PrimitiveTopology::TriangleStrip, DataLayout::Instances, VertexCount::Rectangle),
        PipelineName::MonochromeSprites => (PrimitiveTopology::TriangleStrip, DataLayout::MonochromeSprites, VertexCount::Rectangle),
        PipelineName::SubpixelSprites => (PrimitiveTopology::TriangleStrip, DataLayout::SubpixelSprites, VertexCount::Rectangle),
        PipelineName::PolychromeSprites => (PrimitiveTopology::TriangleStrip, DataLayout::TexturedInstances, VertexCount::Rectangle),
        PipelineName::SmoothedPolychromeSprites => (PrimitiveTopology::TriangleStrip, DataLayout::TexturedInstances, VertexCount::Rectangle),
        PipelineName::Surfaces => (PrimitiveTopology::TriangleStrip, DataLayout::Surface, VertexCount::Rectangle),
        PipelineName::BlurDownsample => (PrimitiveTopology::TriangleList, DataLayout::Blur, VertexCount::FullscreenTriangle),
        PipelineName::Blur => (PrimitiveTopology::TriangleList, DataLayout::Blur, VertexCount::FullscreenTriangle),
        PipelineName::BlurComposite => (PrimitiveTopology::TriangleStrip, DataLayout::Blur, VertexCount::Rectangle),
        PipelineName::SmoothedBlurComposite => (PrimitiveTopology::TriangleStrip, DataLayout::Blur, VertexCount::Rectangle),
        PipelineName::EmojiRasterization => (PrimitiveTopology::TriangleStrip, DataLayout::NativeOnly, VertexCount::Rectangle),
    }
}

/// The label and entry points of each pipeline.
pub open spec fn pipeline_names(name: PipelineName) -> (Seq<char>, Seq<char>, Seq<char>) {
    match name {
        PipelineName::Quads => ("quads"@, "vertex_quad"@, "fragment_quad"@),
        PipelineName::SmoothedQuads => ("smoothed_quads"@, "vertex_smoothed_quad"@, "fragment_smoothed_quad"@),
        PipelineName::Shadows => ("shadows"@, "vertex_shadow"@, "fragment_shadow"@),
        PipelineName::SmoothedShadows => ("smoothed_shadows"@, "vertex_smoothed_shadow"@, "fragment_smoothed_shadow"@),
        PipelineName::PathRasterization => ("path_rasterization"@, "vertex_path_rasterization"@, "fragment_path_rasterization"@),
        PipelineName::Paths => ("paths"@, "vertex_path"@, "fragment_path"@),
        PipelineName::Underlines => ("underlines"@, "vertex_underline"@, "fragment_underline"@),
        PipelineName::MonochromeSprites => ("monochrome_sprites"@, "vertex_monochrome_sprite"@, "fragment_monochrome_sprite"@),
        PipelineName::SubpixelSprites => ("subpixel_sprites"@, "vertex_subpixel_sprite"@, "fragment_subpixel_sprite"@),
        PipelineName::PolychromeSprites => ("polychrome_sprites"@, "vertex_polychrome_sprite"@, "fragment_polychrome_sprite"@),
        PipelineName::SmoothedPolychromeSprites => ("smoothed_polychrome_sprites"@, "vertex_smoothed_polychrome_sprite"@, "fragment_smoothed_polychrome_sprite"@),
        PipelineName::Surfaces => ("surfaces"@, "vertex_surface"@, "fragment_surface"@),
        PipelineName::BlurDownsample => ("blur_downsample"@, "vertex_blur_fullscreen"@, "fragment_blur_downsample"@),
        PipelineName::Blur => ("blur"@, "vertex_blur_fullscreen"@, "fragment_blur"@),
        PipelineName::BlurComposite => ("blur_composite"@, "vertex_blur_composite"@, "fragment_blur_composite"@),
        PipelineName::SmoothedBlurComposite => ("smoothed_blur_composite"@, "vertex_smoothed_blur_composite"@, "fragment_smoothed_blur_composite"@),
        PipelineName::EmojiRasterization => ("emoji_rasterization"@, "vertex_emoji_rasterization"@, "fragment_emoji_rasterization"@),
    }
}

/// The description of a pipeline.
pub fn pipeline(name: PipelineName) -> (r: Pipeline)
    ensures
        (r.topology, r.data_layout, r.vertex_count) == pipeline_shape(name),
        (r.label@, r.vertex_entry@, r.fragment_entry@) == pipeline_names(name),
{
    match name {
        PipelineName::Quads => Pipeline {
            label: "quads",
            vertex_entry: "vertex_quad",
            fragment_entry: "fragment_quad",
            topology: PrimitiveTopology::TriangleStrip,
            data_layout: DataLayout::Instances,
            vertex_count: VertexCount::Rectangle,
        },
        PipelineName::SmoothedQuads => Pipeline {
            label: "smoothed_quads",
            vertex_entry: "vertex_smoothed_quad",
            fragment_entry: "fragment_smoothed_quad",
            topology: PrimitiveTopology::TriangleStrip,
            data_layout: DataLayout::Instances,
            vertex_count: VertexCount::Rectangle,
        },
        PipelineName::Shadows => Pipeline {
            label: "shadows",
            vertex_entry: "vertex_shadow",
            fragment_entry: "fragment_shadow",
            topology: PrimitiveTopology::TriangleStrip,
            data_layout: DataLayout::Instances,
            vertex_count: VertexCount::Rectangle,
        },
        PipelineName::SmoothedShadows => Pipeline {
            label: "smoothed_shadows",
            vertex_entry: "vertex_smoothed_shadow",
            fragment_entry: "fragment_smoothed_shadow",
            topology: PrimitiveTopology::TriangleStrip,
            data_layout: DataLayout::Instances,
            vertex_count: VertexCount::Rectangle,
        },
        PipelineName::PathRasterization => Pipeline {
            label: "path_rasterization",
            vertex_entry: "vertex_path_rasterization",
            fragment_entry: "fragment_path_rasterization",
            topology: PrimitiveTopology::TriangleList,
            data_layout: DataLayout::Instances,
            vertex_count: VertexCount::Dynamic,
        },
        PipelineName::Paths => Pipeline {
            label: "paths",
            vertex_entry: "vertex_path",
            fragment_entry: "fragment_path",
            topology: PrimitiveTopology::TriangleStrip,
            data_layout: DataLayout::TexturedInstances,
            vertex_count: VertexCount::Rectangle,
        },
        PipelineName::Underlines => Pipeline {
            label: "underlines",
            vertex_entry: "vertex_underline",
            fragment_entry: "fragment_underline",
            topology: PrimitiveTopology::TriangleStrip,
            data_layout: DataLayout::Instances,
            vertex_count: VertexCount::Rectangle,
        },
        PipelineName::MonochromeSprites => Pipeline {
            label: "monochrome_sprites",
            vertex_entry: "vertex_monochrome_sprite",
            fragment_entry: "fragment_monochrome_sprite",
            topology: PrimitiveTopology::TriangleStrip,
            data_layout: DataLayout::MonochromeSprites,
            vertex_count: VertexCount::Rectangle,
        },
        PipelineName::SubpixelSprites => Pipeline {
            label: "subpixel_sprites",
            vertex_entry: "vertex_subpixel_sprite",
            fragment_entry: "fragment_subpixel_sprite",
            topology: PrimitiveTopology::TriangleStrip,
            data_layout: DataLayout::SubpixelSprites,
            vertex_count: VertexCount::Rectangle,
        },
        PipelineName::PolychromeSprites => Pipeline {
            label: "polychrome_sprites",
            vertex_entry: "vertex_polychrome_sprite",
            fragment_entry: "fragment_polychrome_sprite",
            topology: PrimitiveTopology::TriangleStrip,
            data_layout: DataLayout::TexturedInstances,
            vertex_count: VertexCount::Rectangle,
        },
        PipelineName::SmoothedPolychromeSprites => Pipeline {
            label: "smoothed_polychrome_sprites",
            vertex_entry: "vertex_smoothed_polychrome_sprite",
            fragment_entry: "fragment_smoothed_polychrome_sprite",
            topology: PrimitiveTopology::TriangleStrip,
            data_layout: DataLayout::TexturedInstances,
            vertex_count: VertexCount::Rectangle,
        },
        PipelineName::Surfaces => Pipeline {
            label: "surfaces",
            vertex_entry: "vertex_surface",
            fragment_entry: "fragment_surface",
            topology: PrimitiveTopology::TriangleStrip,
            data_layout: DataLayout::Surface,
            vertex_count: VertexCount::Rectangle,
        },
        PipelineName::BlurDownsample => Pipeline {
            label: "blur_downsample",
            vertex_entry: "vertex_blur_fullscreen",
            fragment_entry: "fragment_blur_downsample",
            topology: PrimitiveTopology::TriangleList,
            data_layout: DataLayout::Blur,
            vertex_count: VertexCount::FullscreenTriangle,
        },
        PipelineName::Blur => Pipeline {
            label: "blur",
            vertex_entry: "vertex_blur_fullscreen",
            fragment_entry: "fragment_blur",
            topology: PrimitiveTopology::TriangleList,
            data_layout: DataLayout::Blur,
            vertex_count: VertexCount::FullscreenTriangle,
        },
        PipelineName::BlurComposite => Pipeline {
            label: "blur_composite",
            vertex_entry: "vertex_blur_composite",
            fragment_entry: "fragment_blur_composite",
            topology: PrimitiveTopology::TriangleStrip,
            data_layout: DataLayout::Blur,
            vertex_count: VertexCount::Rectangle,
        },
        PipelineName::SmoothedBlurComposite => Pipeline {
            label: "smoothed_blur_composite",
            vertex_entry: "vertex_smoothed_blur_composite",
            fragment_entry: "fragment_smoothed_blur_composite",
            topology: PrimitiveTopology::TriangleStrip,
            data_layout: DataLayout::Blur,
            vertex_count: VertexCount::Rectangle,
        },
        PipelineName::EmojiRasterization => Pipeline {
            label: "emoji_rasterization",
            vertex_entry: "vertex_emoji_rasterization",
            fragment_entry: "fragment_emoji_rasterization",
            topology: PrimitiveTopology::TriangleStrip,
            data_layout: DataLayout::NativeOnly,
            vertex_count: VertexCount::Rectangle,
        },
    }
}

/// Every standard pipeline, in declaration order (emoji rasterization is native-only).
pub fn all_pipelines() -> (r: Vec<Pipeline>)
    ensures
        r@.len() == 16,
        forall|i: int| #![trigger r@[i]] 0 <= i < r@.len() ==> {
            &&& (r@[i].label@, r@[i].vertex_entry@, r@[i].fragment_entry@) == pipeline_names(standard_pipeline(i))
            &&& (r@[i].topology, r@[i].data_layout, r@[i].vertex_count) == pipeline_shape(standard_pipeline(i))
        },
{
    let mut r: Vec<Pipeline> = Vec::new();
    let mut i: usize = 0;
    while i < 16
        invariant
            i <= 16,
            r@.len() == i,
            forall|k: int| #![trigger r@[k]] 0 <= k < i ==> {
                &&& (r@[k].label@, r@[k].vertex_entry@, r@[k].fragment_entry@) == pipeline_names(standard_pipeline(k))
                &&& (r@[k].topology, r@[k].data_layout, r@[k].vertex_count) == pipeline_shape(standard_pipeline(k))
            },
        decreases 16 - i,
    {
        r.push(pipeline(standard_pipeline_name(i)));
        i = i + 1;
    }
    r
}

/// The name of the standard pipeline at position `i`.
fn standard_pipeline_name(i: usize) -> (r: PipelineName)
    requires
        i < 16,
    ensures
        r == standard_pipeline(i as int),
{
    if i == 0 {
        PipelineName::Quads
    } else if i == 1 {
        PipelineName::SmoothedQuads
    } else if i == 2 {
        PipelineName::Shadows
    } else if i == 3 {
        PipelineName::SmoothedShadows
    } else if i == 4 {
        PipelineName::PathRasterization
    } else if i == 5 {
        PipelineName::Paths
    } else if i == 6 {
        PipelineName::Underlines
    } else if i == 7 {
        PipelineName::MonochromeSprites
    } else if i == 8 {
        PipelineName::SubpixelSprites
    } else if i == 9 {
        PipelineName::PolychromeSprites
    } else if i == 10 {
        PipelineName::SmoothedPolychromeSprites
    } else if i == 11 {
        PipelineName::Surfaces
    } else if i == 12 {
        PipelineName::BlurDownsample
    } else if i == 13 {
        PipelineName::Blur
    } else if i == 14 {
        PipelineName::BlurComposite
    } else {
        PipelineName::SmoothedBlurComposite
    }
}

/// The standard pipeline at position `i` of `all_pipelines`.
pub open spec fn standard_pipeline(i: int) -> PipelineName {
    if i == 0 {
        PipelineName::Quads
    } else if i == 1 {
        PipelineName::SmoothedQuads
    } else if i == 2 {
        PipelineName::Shadows
    } else if i == 3 {
        PipelineName::SmoothedShadows
    } else if i == 4 {
        PipelineName::PathRasterization
    } else if i == 5 {
        PipelineName::Paths
    } else if i == 6 {
        PipelineName::Underlines
    } else if i == 7 {
        PipelineName::MonochromeSprites
    } else if i == 8 {
        PipelineName::SubpixelSprites
    } else if i == 9 {
        PipelineName::PolychromeSprites
    } else if i == 10 {
        PipelineName::SmoothedPolychromeSprites
    } else if i == 11 {
        PipelineName::Surfaces
    } else if i == 12 {
        PipelineName::BlurDownsample
    } else if i == 13 {
        PipelineName::Blur
    } else if i == 14 {
        PipelineName::BlurComposite
    } else {
        PipelineName::SmoothedBlurComposite
    }
}

/// Law: a pipeline that draws a rectangle per instance draws it as a four-vertex triangle
/// strip, and every other pipeline (full-screen triangles, rasterized path triangles) as a
/// triangle list.
pub proof fn law_rectangles_are_triangle_strips(name: PipelineName)
    ensures
        (pipeline_shape(name).2 == VertexCount::Rectangle) <==> (pipeline_shape(name).0 == PrimitiveTopology::TriangleStrip),
        pipeline_shape(name).2 == VertexCount::FullscreenTriangle ==> pipeline_shape(name).1 == DataLayout::Blur,
        pipeline_shape(name).2 == VertexCount::Dynamic ==> name == PipelineName::PathRasterization,
{
}

} // verus!
