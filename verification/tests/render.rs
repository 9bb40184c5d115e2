use gpui::render::artifacts::{Dx11DrawConstants, GlslShader, GlslShaderStage, Glsl330};
use gpui::render::blur::{downsampled_dimension, ScissorRectangle};
use gpui::render::instances::InstanceRange;
use gpui::render::interface::{
    all_pipelines, pipeline, storage_abi, BufferData, DataLayout, PipelineName,
    PrimitiveTopology, VertexCount,
};
use gpui::render::path_types::{rasterization_vertex_count, sprite_count};
use gpui::scene::primitives::{Path, PathId};

#[test]
fn converts_scene_slices_into_draw_arguments() {
    let range = InstanceRange::new(12..20).expect("small ranges convert");
    assert_eq!(range.first(), 12);
    assert_eq!(range.count(), 8);
    assert_eq!(range.end(), 20);
    assert_eq!(range.as_range(), 12..20);
    assert!(!range.is_empty());
    assert!(InstanceRange::new(3..3)
        .expect("empty ranges convert")
        .is_empty());
}

#[test]
fn rejects_ranges_the_gpu_cannot_address() {
    let (start, end) = (5, 4);
    assert!(InstanceRange::new(start..end).is_none());
    assert!(InstanceRange::new(0..u32::MAX as usize + 1).is_none());
}

#[test]
fn instance_ranges_at_the_address_limit() {
    let last = InstanceRange::new(0..u32::MAX as usize).expect("fits");
    assert_eq!(last.end(), u32::MAX);
    assert!(InstanceRange::new(1..u32::MAX as usize + 1).is_none());
    let single = InstanceRange::single();
    assert_eq!(single.as_range(), 0..1);
    assert_eq!(InstanceRange::from_start(4).map(|r| r.as_range()), Some(0..4));
    assert!(InstanceRange::from_start(u32::MAX as usize + 1).is_none());
}

#[test]
fn downsampled_dimensions_cover_odd_edges() {
    assert_eq!(downsampled_dimension(0), 1);
    assert_eq!(downsampled_dimension(1), 1);
    assert_eq!(downsampled_dimension(2), 1);
    assert_eq!(downsampled_dimension(3), 2);
    assert_eq!(downsampled_dimension(33), 17);
}

#[test]
fn downsampled_dimension_at_the_top_of_the_range() {
    assert_eq!(downsampled_dimension(u32::MAX), 1u32 << 31);
    assert_eq!(downsampled_dimension(u32::MAX - 1), (1u32 << 31) - 1);
}

#[test]
fn scissor_rectangles_clamp_inverted_edges() {
    let rect = ScissorRectangle::from_downsampled_edges(4, 6, 10, 3);
    assert_eq!((rect.x, rect.y, rect.width, rect.height), (4, 6, 6, 0));
    assert!(rect.is_empty());
    let rect = ScissorRectangle::from_downsampled_edges(1, 2, 5, 9);
    assert_eq!((rect.width, rect.height), (4, 7));
    assert!(!rect.is_empty());
}

#[test]
fn draw_constants_carry_the_instance_base() {
    let constants = Dx11DrawConstants::for_instances(41);
    assert_eq!(constants.first_instance, 41);
    assert_eq!(constants.first_vertex, 0);
    assert_eq!(Dx11DrawConstants::default().first_instance, 0);
}

#[test]
fn glsl_shaders_keep_their_stages() {
    let vertex = GlslShaderStage {
        source: "void vertex() {}",
    };
    let fragment = GlslShaderStage {
        source: "void fragment() {}",
    };
    let shader: GlslShader<Glsl330> = GlslShader::new(vertex, fragment);
    assert_eq!(shader.vertex.source, "void vertex() {}");
    assert_eq!(shader.fragment.source, "void fragment() {}");
}

#[test]
fn pipelines_share_one_description() {
    let quads = pipeline(PipelineName::Quads);
    assert_eq!(quads.label, "quads");
    assert_eq!(quads.vertex_entry, "vertex_quad");
    assert_eq!(quads.fragment_entry, "fragment_quad");
    assert_eq!(quads.topology, PrimitiveTopology::TriangleStrip);
    assert_eq!(quads.vertex_count.fixed(), Some(4));
    let blur = pipeline(PipelineName::Blur);
    assert_eq!(blur.data_layout, DataLayout::Blur);
    assert_eq!(blur.vertex_count, VertexCount::FullscreenTriangle);
    assert_eq!(blur.vertex_count.fixed(), Some(3));
    assert_eq!(pipeline(PipelineName::PathRasterization).vertex_count.fixed(), None);
    let all = all_pipelines();
    assert_eq!(all.len(), 16);
    assert_eq!(all[0].label, "quads");
    assert_eq!(all[15].label, "smoothed_blur_composite");
    assert!(all.iter().all(|p| p.data_layout != DataLayout::NativeOnly));
}

struct Sample {
    _a: u32,
    _b: u32,
}

impl BufferData for Sample {
    fn wgsl_type() -> &'static str {
        "Sample"
    }
}

#[test]
fn storage_abi_reports_the_host_stride() {
    let abi = storage_abi::<Sample>();
    assert_eq!(abi.wgsl_type, "Sample");
    assert_eq!(abi.rust_stride, 8);
}

#[test]
fn path_counts_sum_vertices_and_count_sprites() {
    let paths = [
        Path {
            id: PathId(0),
            order: 1,
            vertex_count: 3,
        },
        Path {
            id: PathId(1),
            order: 2,
            vertex_count: 12,
        },
    ];
    assert_eq!(rasterization_vertex_count(&paths), 15);
    // Paths of different orders share one combined sprite; equal orders get one each.
    assert_eq!(sprite_count(&paths), 1);
    let same = [paths[0], Path { order: 1, ..paths[1] }];
    assert_eq!(sprite_count(&same), 2);
    assert_eq!(rasterization_vertex_count(&[]), 0);
}

#[test]
fn instance_ranges_round_trip_through_their_range_form() {
    let range = InstanceRange::new(7..19).unwrap();
    let back = range.as_range();
    assert_eq!(
        InstanceRange::new(back.start as usize..back.end as usize),
        Some(range)
    );
}

#[test]
fn blurred_scissors_are_clamped_to_the_downsampled_target() {
    // A 33 by 10 target downsamples to 17 by 5 texels.
    let rect = ScissorRectangle::for_rounded_edges(2, 1, 40, 3, 33, 10);
    assert_eq!((rect.x, rect.y, rect.width, rect.height), (2, 1, 15, 2));
    let outside = ScissorRectangle::for_rounded_edges(20, 6, 30, 9, 33, 10);
    assert_eq!((outside.x, outside.y), (17, 5));
    assert!(outside.is_empty());
}
