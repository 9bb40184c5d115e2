use gpui::scene::batch::PrimitiveBatch;
use gpui::scene::plan::{FilterRenderTarget, FilterTargetIndex, RenderCommand, ScenePlan};
use gpui::scene::primitives::{
    AtlasTextureId, AtlasTextureKind, AtlasTile, BackdropFilter, DrawOrder, FilterBoundary, PaintSurface, Path,
    PathId, PolychromeSprite, Primitive, Quad, ShaderBool, Shadow, TileId,
};
use gpui::scene::store::{PaintOperation, Scene};

fn quad(order: DrawOrder) -> Primitive {
    Primitive::Quad(Quad {
        order,
        smoothed: false,
    })
}

fn shadow(order: DrawOrder, smoothed: bool) -> Primitive {
    Primitive::Shadow(Shadow { order, smoothed })
}

fn polychrome_sprite(order: DrawOrder, texture_index: u32, smoothed: bool) -> Primitive {
    Primitive::PolychromeSprite(PolychromeSprite {
        order,
        tile: AtlasTile {
            texture_id: AtlasTextureId {
                index: texture_index,
                kind: AtlasTextureKind::Polychrome,
            },
            tile_id: TileId(0),
        },
        smoothed,
    })
}

/// A filter marker; the scene gives it its order.
fn boundary(is_start: bool) -> Primitive {
    Primitive::FilterBoundary(FilterBoundary { order: 0, is_start })
}

fn backdrop(order: DrawOrder) -> Primitive {
    Primitive::BackdropFilter(BackdropFilter { order })
}

fn batches(scene: &mut Scene) -> Vec<PrimitiveBatch> {
    scene.finish();
    scene.batches()
}

fn batch_kinds(scene: &mut Scene) -> Vec<&'static str> {
    scene.finish();
    scene
        .batches()
        .into_iter()
        .map(|batch| match batch {
            PrimitiveBatch::Quads { .. } => "quad",
            PrimitiveBatch::BackdropFilters(_) => "backdrop",
            PrimitiveBatch::FilterBoundary(ix) => {
                if scene.filter_boundaries[ix].is_start {
                    "start"
                } else {
                    "end"
                }
            }
            _ => "other",
        })
        .collect()
}

#[test]
fn smoothing_and_texture_changes_define_batches() {
    let mut scene = Scene::default();
    let mut order: DrawOrder = 0;
    for smoothing in [0.0, 0.0, 0.5, 1.0, 0.0] {
        order += 1;
        scene.insert_primitive(Primitive::Quad(Quad {
            order,
            smoothed: smoothing > 0.0,
        }), false);
    }

    for smoothing in [0.0, 0.0, 0.5, 1.0, 0.0] {
        order += 1;
        scene.insert_primitive(shadow(order, smoothing > 0.0), false);
    }

    for (texture, smoothing) in [
        (0, 0.0),
        (0, 0.0),
        (0, 0.5),
        (0, 1.0),
        (1, 1.0),
        (1, 0.5),
        (1, 0.0),
    ] {
        order += 1;
        scene.insert_primitive(polychrome_sprite(order, texture, smoothing > 0.0), false);
    }

    let batch_signatures = batches(&mut scene)
        .into_iter()
        .map(|batch| match batch {
            PrimitiveBatch::Quads { range, smoothed } => ("quad", None, range, smoothed),
            PrimitiveBatch::Shadows { range, smoothed } => ("shadow", None, range, smoothed),
            PrimitiveBatch::PolychromeSprites {
                texture_id,
                range,
                smoothed,
            } => ("polychrome", Some(texture_id.index), range, smoothed),
            other => panic!("unexpected batch: {other:?}"),
        })
        .collect::<Vec<_>>();
    assert_eq!(
        batch_signatures,
        vec![
            ("quad", None, 0..2, false),
            ("quad", None, 2..4, true),
            ("quad", None, 4..5, false),
            ("shadow", None, 0..2, false),
            ("shadow", None, 2..4, true),
            ("shadow", None, 4..5, false),
            ("polychrome", Some(0), 0..2, false),
            ("polychrome", Some(0), 2..4, true),
            ("polychrome", Some(1), 4..6, true),
            ("polychrome", Some(1), 6..7, false),
        ]
    );
}

#[test]
fn content_filter_group_brackets_its_children() {
    let mut scene = Scene::default();
    // Background painted before the filtered element.
    scene.insert_primitive(quad(1), false);
    // A content-filtered element: start marker, its child, end marker.
    scene.insert_primitive(boundary(true), false);
    scene.insert_primitive(quad(3), false);
    scene.insert_primitive(boundary(false), false);

    assert_eq!(
        batch_kinds(&mut scene),
        vec!["quad", "start", "quad", "end"]
    );
}

#[test]
fn nested_content_filters_emit_well_nested_ordering() {
    let mut scene = Scene::default();
    scene.insert_primitive(boundary(true), false); // outer start
    scene.insert_primitive(quad(2), false); // outer child
    scene.insert_primitive(boundary(true), false); // inner start
    scene.insert_primitive(quad(4), false); // inner child
    scene.insert_primitive(boundary(false), false); // inner end
    scene.insert_primitive(boundary(false), false); // outer end

    assert_eq!(
        batch_kinds(&mut scene),
        vec!["start", "quad", "start", "quad", "end", "end"]
    );
}

#[test]
fn content_after_a_filter_group_sorts_above_it() {
    let mut scene = Scene::default();
    scene.insert_primitive(boundary(true), false);
    scene.insert_primitive(quad(2), false);
    scene.insert_primitive(boundary(false), false);
    // A sibling painted after the group that does not overlap it: its bounds receive the
    // lowest order, which ties with the start marker. The floor raised by the end marker
    // must lift it after the group instead of sweeping it into the group.
    scene.insert_primitive(quad(1), false);

    assert_eq!(
        batch_kinds(&mut scene),
        vec!["start", "quad", "end", "quad"]
    );
}

#[test]
fn backdrop_filter_sorts_before_a_later_overlapping_quad() {
    let mut scene = Scene::default();
    scene.insert_primitive(quad(1), false);
    scene.insert_primitive(backdrop(2), false);
    scene.insert_primitive(quad(3), false);

    assert_eq!(batch_kinds(&mut scene), vec!["quad", "backdrop", "quad"]);
}

fn command_names(scene: &Scene) -> Vec<String> {
    scene
        .render_commands()
        .iter()
        .map(|command| match command {
            RenderCommand::Batch(PrimitiveBatch::Quads { .. }) => "quad".to_string(),
            RenderCommand::BeginFilter {
                boundary_index,
                target,
            } => {
                let boundary = &scene.filter_boundaries[*boundary_index];
                assert!(boundary.is_start);
                format!("begin:{target:?}")
            }
            RenderCommand::EndFilter {
                boundary_index,
                target,
                ..
            } => {
                let boundary = &scene.filter_boundaries[*boundary_index];
                assert!(boundary.is_start);
                format!("end:{target:?}")
            }
            RenderCommand::Batch(other) => panic!("unexpected batch: {other:?}"),
        })
        .collect()
}

#[test]
fn render_commands_pair_nested_filters_and_bound_isolation_targets() {
    let mut scene = Scene::default();
    scene.insert_primitive(boundary(true), false);
    scene.insert_primitive(quad(2), false);
    scene.insert_primitive(boundary(true), false);
    scene.insert_primitive(quad(4), false);
    scene.insert_primitive(boundary(true), false);
    scene.insert_primitive(quad(6), false);
    scene.insert_primitive(boundary(false), false);
    scene.insert_primitive(boundary(false), false);
    scene.insert_primitive(boundary(false), false);
    scene.finish();

    assert_eq!(
        command_names(&scene),
        vec![
            "begin:Isolated(FilterTargetIndex(0))",
            "quad",
            "begin:Isolated(FilterTargetIndex(1))",
            "quad",
            "begin:Inline",
            "quad",
            "end:Inline",
            "end:Isolated(FilterTargetIndex(1))",
            "end:Isolated(FilterTargetIndex(0))",
        ]
    );
}

#[test]
fn render_commands_keep_later_content_outside_a_completed_filter() {
    let mut scene = Scene::default();
    scene.insert_primitive(boundary(true), false);
    scene.insert_primitive(quad(2), false);
    scene.insert_primitive(boundary(false), false);
    // A non-overlapping sibling whose bounds receive the lowest order.
    scene.insert_primitive(quad(1), false);
    scene.finish();

    assert_eq!(
        command_names(&scene),
        vec![
            "begin:Isolated(FilterTargetIndex(0))",
            "quad",
            "end:Isolated(FilterTargetIndex(0))",
            "quad"
        ]
    );
}

#[test]
fn unmatched_filter_start_renders_inline() {
    let mut scene = Scene::default();
    scene.insert_primitive(boundary(true), false);
    scene.insert_primitive(quad(2), false);
    scene.finish();

    let mut commands = scene.render_commands().iter();
    assert!(matches!(
        commands.next(),
        Some(RenderCommand::BeginFilter {
            target: FilterRenderTarget::Inline,
            ..
        })
    ));
    assert!(matches!(
        commands.next(),
        Some(RenderCommand::Batch(PrimitiveBatch::Quads { .. }))
    ));
    assert!(commands.next().is_none());
    assert!(!scene.requires_offscreen_rendering());
}

#[test]
fn finish_rebuilds_the_plan_after_direct_primitive_mutation() {
    let mut scene = Scene::default();
    scene.insert_primitive(quad(1), false);
    scene.finish();
    let commands = scene.render_commands().to_vec();

    // Primitive storage is public, so direct mutation must change the compiled plan.
    scene.quads.push(Quad {
        order: 0,
        smoothed: false,
    });
    scene.finish();
    assert_ne!(scene.render_commands(), commands);
    assert_eq!(scene.render_plan().requirements().instance_batch_count, 1);
}

#[test]
fn render_plan_reuses_its_command_allocation_across_frames() {
    let mut scene = Scene::default();
    for order in 1..=32 {
        scene.insert_primitive(quad(order), false);
    }
    scene.finish();
    let capacity = scene.render_plan.commands.capacity();
    assert!(capacity >= 32);

    scene.clear();
    assert_eq!(scene.render_plan.commands.capacity(), capacity);
    scene.insert_primitive(quad(1), false);
    scene.finish();
    assert_eq!(scene.render_plan.commands.capacity(), capacity);
}

#[test]
fn maximum_draw_order_is_not_treated_as_an_empty_batch_cursor() {
    let mut scene = Scene::default();
    scene.quads.push(Quad {
        order: DrawOrder::MAX,
        smoothed: false,
    });
    scene.finish();

    assert!(matches!(
        scene.render_commands(),
        [RenderCommand::Batch(PrimitiveBatch::Quads { range, smoothed: false })]
            if range == &(0..1)
    ));
}

#[test]
fn plan_requirements_are_collected_with_filter_pairing() {
    let mut scene = Scene::default();
    scene.insert_primitive(backdrop(1), false);
    scene.insert_primitive(boundary(true), false);
    scene.insert_primitive(quad(3), false);
    scene.insert_primitive(boundary(false), false);
    scene.finish();

    let requirements = scene.render_plan().requirements();
    assert_eq!(requirements.backdrop_filter_count, 1);
    assert_eq!(requirements.isolated_filter_count, 1);
    assert_eq!(requirements.isolated_target_count, 1);
    assert_eq!(requirements.instance_batch_count, 1);
    assert!(requirements.uses_offscreen_target);
}

#[test]
fn layers_give_their_order_to_the_primitives_inside_them() {
    let mut scene = Scene::default();
    scene.push_layer(7);
    scene.insert_primitive(quad(1), false);
    scene.insert_primitive(boundary(true), false);
    scene.pop_layer();
    scene.insert_primitive(quad(3), false);
    assert_eq!(scene.quads[0].order, 7);
    // A marker inside a layer still sorts above everything before it.
    assert_eq!(scene.filter_boundaries[0].order, 8);
    assert_eq!(scene.quads[1].order, 3);
    assert_eq!(scene.len(), 5);
    assert!(matches!(scene.paint_operations[0], PaintOperation::StartLayer(7)));
    assert!(matches!(scene.paint_operations[3], PaintOperation::EndLayer));
}

#[test]
fn paths_are_counted_and_batched_by_vertex_totals() {
    let mut scene = Scene::default();
    for (order, vertices) in [(1, 3), (2, 6)] {
        scene.insert_primitive(Primitive::Path(Path {
            id: PathId(0),
            order,
            vertex_count: vertices,
        }), false);
    }
    scene.finish();
    assert_eq!(
        scene.batches(),
        vec![PrimitiveBatch::Paths {
            range: 0..2,
            rasterization_vertex_count: 9,
            sprite_count: 1,
        }]
    );
    let requirements = scene.render_plan().requirements();
    assert_eq!(requirements.path_rasterization_vertex_count, 9);
    assert_eq!(requirements.path_sprite_count, 1);
    assert!(requirements.uses_path_target);
    assert_eq!(requirements.command_count, 1);
}

#[test]
fn equal_orders_keep_insertion_order_and_sort_by_kind() {
    let mut scene = Scene::default();
    scene.insert_primitive(quad(5), false);
    scene.insert_primitive(shadow(5, false), false);
    scene.insert_primitive(quad(2), false);
    scene.finish();
    assert_eq!(scene.quads[0].order, 2);
    assert_eq!(scene.quads[1].order, 5);
    // At equal order a shadow draws before a quad.
    assert_eq!(
        scene.batches(),
        vec![
            PrimitiveBatch::Quads {
                range: 0..1,
                smoothed: false
            },
            PrimitiveBatch::Shadows {
                range: 0..1,
                smoothed: false
            },
            PrimitiveBatch::Quads {
                range: 1..2,
                smoothed: false
            },
        ]
    );
}

#[test]
fn an_empty_scene_has_an_empty_plan() {
    let mut scene = Scene::new();
    assert_eq!(scene.len(), 0);
    scene.finish();
    assert!(scene.render_commands().is_empty());
    assert!(!scene.requires_offscreen_rendering());
    let plan = ScenePlan::empty();
    assert!(plan.commands().is_empty());
    assert_eq!(plan.requirements().command_count, 0);
}

#[test]
fn labels_describe_batches_and_filter_commands() {
    assert_eq!(
        PrimitiveBatch::Quads {
            range: 0..3,
            smoothed: true
        }
        .label(),
        "smoothed quads (3)"
    );
    assert_eq!(PrimitiveBatch::Underlines(2..7).label(), "underlines (5)");
    assert_eq!(
        PrimitiveBatch::MonochromeSprites {
            texture_id: AtlasTextureId {
                index: 12,
                kind: AtlasTextureKind::Monochrome
            },
            range: 0..1
        }
        .label(),
        "monochrome sprites (1) on atlas 12"
    );
    assert_eq!(
        PrimitiveBatch::FilterBoundary(40).label(),
        "filter boundary (40)"
    );
    assert_eq!(
        RenderCommand::BeginFilter {
            boundary_index: 0,
            target: FilterRenderTarget::Isolated(FilterTargetIndex(1))
        }
        .label(),
        "begin filter group (1)"
    );
    assert_eq!(
        RenderCommand::EndFilter {
            boundary_index: 0,
            closing_boundary_index: 1,
            target: FilterRenderTarget::Inline
        }
        .label(),
        "end inline filter group"
    );
}

#[test]
fn replaying_a_scene_reproduces_its_primitives() {
    let mut scene = Scene::default();
    scene.insert_primitive(quad(1), false);
    scene.push_layer(4);
    scene.insert_primitive(Shadow { order: 9, smoothed: true }.into(), false);
    scene.insert_primitive(
        Path {
            id: PathId(5),
            order: 2,
            vertex_count: 3,
        }
        .into(), false,
    );
    scene.insert_primitive(boundary(true), false);
    scene.pop_layer();
    scene.insert_primitive(boundary(false), false);

    let mut replay = Scene::default();
    replay.replay(0..scene.len(), &scene);
    assert_eq!(replay.paint_operations, scene.paint_operations);
    assert_eq!(replay.layer_stack, scene.layer_stack);
    assert_eq!(replay.quads, scene.quads);
    assert_eq!(replay.shadows, scene.shadows);
    assert_eq!(replay.paths, scene.paths);
    assert_eq!(replay.filter_boundaries, scene.filter_boundaries);
    assert_eq!(replay.shadows[0].order, 4);
    assert_eq!(replay.paths[0].order, 4);
    assert_eq!(replay.paths[0].id, PathId(0));

    replay.finish();
    scene.finish();
    assert_eq!(replay.render_commands(), scene.render_commands());
}

#[test]
fn replaying_part_of_a_record_appends_it() {
    let mut scene = Scene::default();
    scene.insert_primitive(quad(1), false);
    scene.insert_primitive(quad(2), false);
    scene.insert_primitive(quad(3), false);
    let mut replay = Scene::default();
    replay.insert_primitive(quad(10), false);
    replay.replay(1..3, &scene);
    let orders: Vec<DrawOrder> = replay.quads.iter().map(|q| q.order).collect();
    assert_eq!(orders, vec![10, 2, 3]);
    replay.replay(2..2, &scene);
    assert_eq!(replay.len(), 3);
}

#[test]
fn shader_flags_convert_from_booleans() {
    assert!(ShaderBool::from(true).is_enabled());
    assert!(!ShaderBool::from(false).is_enabled());
    assert_eq!(ShaderBool::from(false), ShaderBool::Disabled);
}

#[test]
fn popping_a_layer_right_after_pushing_it_restores_the_stack() {
    let mut scene = Scene::default();
    scene.push_layer(3);
    scene.push_layer(8);
    scene.pop_layer();
    assert_eq!(scene.layer_stack, vec![3]);
    scene.pop_layer();
    scene.pop_layer();
    assert!(scene.layer_stack.is_empty());
    assert_eq!(scene.len(), 5);
    assert!(scene.quads.is_empty());
}

#[test]
fn filter_markers_take_an_order_above_all_earlier_content() {
    let mut scene = Scene::default();
    scene.insert_primitive(quad(5), false);
    scene.insert_primitive(boundary(true), false);
    assert_eq!(scene.filter_boundaries[0].order, 6);
    scene.push_layer(3);
    scene.insert_primitive(boundary(false), false);
    assert_eq!(scene.filter_boundaries[1].order, 7);
    scene.pop_layer();
    // The end marker raised the floor: later content sorts after it.
    scene.insert_primitive(quad(2), false);
    assert_eq!(scene.quads[1].order, 8);
    scene.push_layer(1);
    scene.insert_primitive(quad(1), false);
    assert_eq!(scene.quads[2].order, 8);
    assert_eq!(scene.max_order, 8);
}

#[test]
fn raising_the_floor_lifts_later_content() {
    let mut scene = Scene::default();
    scene.insert_primitive(quad(4), false);
    scene.raise_order_floor();
    assert_eq!(scene.order_floor, 5);
    scene.insert_primitive(quad(1), false);
    assert_eq!(scene.quads[1].order, 5);
    scene.insert_primitive(quad(9), false);
    assert_eq!(scene.quads[2].order, 9);
}

#[test]
fn isolated_targets_lie_in_the_reserved_pool() {
    let mut scene = Scene::default();
    for _ in 0..3 {
        scene.insert_primitive(boundary(true), false);
        scene.insert_primitive(quad(1), false);
    }
    for _ in 0..3 {
        scene.insert_primitive(boundary(false), false);
    }
    scene.finish();
    let pool = scene.render_plan().requirements().isolated_target_count;
    assert_eq!(pool, 2);
    for command in scene.render_commands() {
        match command {
            RenderCommand::BeginFilter { target, .. } | RenderCommand::EndFilter { target, .. } => {
                if let FilterRenderTarget::Isolated(index) = target {
                    assert!(index.as_usize() < pool);
                }
            }
            RenderCommand::Batch(_) => {}
        }
    }
}

#[test]
fn primitives_with_empty_clipped_bounds_are_dropped_but_markers_stay() {
    let mut scene = Scene::default();
    scene.insert_primitive(quad(1), true);
    assert!(scene.quads.is_empty());
    assert_eq!(scene.len(), 0);
    scene.insert_primitive(boundary(true), true);
    scene.insert_primitive(boundary(false), true);
    assert_eq!(scene.filter_boundaries.len(), 2);
    assert_eq!(scene.len(), 2);
    scene.insert_primitive(quad(1), false);
    assert_eq!(scene.quads.len(), 1);
}

fn opacities(scene: &Scene) -> Vec<f32> {
    scene
        .surface_opacities()
        .iter()
        .map(|bits| f32::from_bits(*bits))
        .collect()
}

#[test]
fn surface_opacity_is_preserved_without_changing_paint_surface_layout() {
    let surface = || PaintSurface { order: 0 };
    let mut scene = Scene::default();
    scene.insert_surface(surface(), 0.25f32.to_bits(), false);
    scene.insert_primitive(Primitive::Surface(surface()), false);
    scene.finish();

    assert_eq!(opacities(&scene), vec![0.25, 1.0]);

    let mut replay = Scene::default();
    replay.replay(0..scene.paint_operations.len(), &scene);
    replay.finish();
    assert_eq!(opacities(&replay), vec![0.25, 1.0]);
}

#[test]
fn surface_opacities_follow_their_surfaces_through_the_sort() {
    let mut scene = Scene::default();
    scene.insert_surface(PaintSurface { order: 9 }, 0.5f32.to_bits(), false);
    scene.insert_surface(PaintSurface { order: 3 }, 0.75f32.to_bits(), false);
    scene.insert_surface(PaintSurface { order: 5 }, 0.1f32.to_bits(), true);
    scene.insert_primitive(Primitive::Surface(PaintSurface { order: 6 }), false);
    scene.finish();
    let orders: Vec<DrawOrder> = scene.surfaces.iter().map(|s| s.order).collect();
    assert_eq!(orders, vec![3, 6, 9]);
    assert_eq!(opacities(&scene), vec![0.75, 1.0, 0.5]);
    // Surfaces pushed directly get full opacity at finish.
    scene.surfaces.push(PaintSurface { order: 1 });
    scene.finish();
    assert_eq!(opacities(&scene), vec![1.0, 0.75, 1.0, 0.5]);
}

#[test]
fn offscreen_rendering_follows_backdrops_and_closed_groups() {
    let mut scene = Scene::default();
    scene.insert_primitive(quad(1), false);
    scene.insert_primitive(boundary(true), false);
    scene.finish();
    assert!(!scene.requires_offscreen_rendering());
    scene.insert_primitive(boundary(false), false);
    scene.finish();
    assert!(scene.requires_offscreen_rendering());
    let mut scene = Scene::default();
    scene.insert_primitive(backdrop(1), false);
    scene.finish();
    assert!(scene.requires_offscreen_rendering());
}
