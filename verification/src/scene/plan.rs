//! Compiling a finished scene into backend-neutral render commands.
//!
//! The plan keeps the batch order and pairs content-filter boundaries: each start opens a
//! group, each end closes the innermost open group and carries that group's start. The
//! first `MAX_FILTER_GROUP_DEPTH` nested groups whose start has a matching end render into
//! isolated offscreen targets numbered by their depth; deeper or unmatched groups render
//! inline.
use super::batch::{
    all_batches, batch_end, batch_start, batch_stream, emitted, lemma_emitted_monotone,
    lemma_vertex_sum_split, lemma_vertex_sum_within, path_sprite_count, vertex_sum,
    PrimitiveBatch, STREAM_COUNT,
};
use super::primitives::FilterBoundary;
use super::small_vec::{
    flag_at, flag_contents, flags_from_elem, group_contents, index_contents, new_groups,
    new_indices, pop_group, pop_index, push_group, push_index, set_flag, FlagBuffer,
};
use super::store::Scene;
use vstd::prelude::*;

verus! {

/// Nested content-filter groups with dedicated isolation targets; deeper ones render inline.
pub const MAX_FILTER_GROUP_DEPTH: usize = 2;

/// Index of an offscreen texture reserved for an isolated content-filter group.
#[derive(Clone, Copy, Debug, PartialEq, Eq, Structural)]
pub struct FilterTargetIndex(pub usize);

impl FilterTargetIndex {
    /// Returns the index into the renderer's content-filter target pool.
    pub fn as_usize(self) -> (r: usize)
        ensures
            r == self.0,
    {
        self.0
    }
}

/// Where the contents of a filter group are rendered.
#[derive(Clone, Copy, Debug, PartialEq, Eq, Structural)]
pub enum FilterRenderTarget {
    /// Render directly into the current target once isolation targets are exhausted.
    Inline,
    /// Render into a dedicated offscreen target and composite it into the parent.
    Isolated(FilterTargetIndex),
}

impl FilterRenderTarget {
    /// Whether the group renders into an offscreen target.
    pub fn is_isolated(self) -> (r: bool)
        ensures
            r == (self is Isolated),
    {
        match self {
            FilterRenderTarget::Isolated(_) => true,
            FilterRenderTarget::Inline => false,
        }
    }
}

/// Resource totals computed while a scene's render plan is compiled.
#[derive(Clone, Copy, Debug, PartialEq, Eq, Structural)]
pub struct ScenePlanRequirements {
    pub command_count: usize,
    pub instance_batch_count: usize,
    pub path_rasterization_vertex_count: usize,
    pub path_sprite_count: usize,
    pub surface_count: usize,
    pub backdrop_filter_count: usize,
    pub isolated_filter_count: usize,
    pub isolated_target_count: usize,
    pub uses_path_target: bool,
    pub uses_offscreen_target: bool,
}

/// Backend-neutral rendering work derived from a scene.
#[derive(Clone, Debug, PartialEq, Eq)]
pub enum RenderCommand {
    /// A normal primitive batch.
    Batch(PrimitiveBatch),
    /// Begin rendering a content-filter group.
    BeginFilter {
        /// Index of the opening boundary in the scene's filter boundaries.
        boundary_index: usize,
        /// Whether this group renders inline or into an isolated target.
        target: FilterRenderTarget,
    },
    /// Finish and composite a content-filter group.
    EndFilter {
        /// Index of the matched opening boundary.
        boundary_index: usize,
        /// Index of the closing marker.
        closing_boundary_index: usize,
        /// The same target selected by the matching begin command.
        target: FilterRenderTarget,
    },
}

/// The lengths of a scene's primitive lists when its plan was compiled.
#[derive(Clone, Copy, Debug, PartialEq, Eq, Structural)]
pub struct SceneLengths {
    pub shadows: usize,
    pub quads: usize,
    pub paths: usize,
    pub underlines: usize,
    pub monochrome_sprites: usize,
    pub subpixel_sprites: usize,
    pub polychrome_sprites: usize,
    pub surfaces: usize,
    pub backdrop_filters: usize,
    pub filter_boundaries: usize,
}

/// A compiled scene command stream, built by `Scene::finish` and shared by every renderer.
pub struct ScenePlan {
    pub commands: Vec<RenderCommand>,
    pub requirements: ScenePlanRequirements,
    pub scene_lengths: SceneLengths,
}

/// Nothing needed yet.
pub open spec fn no_requirements() -> ScenePlanRequirements {
    ScenePlanRequirements {
        command_count: 0,
        instance_batch_count: 0,
        path_rasterization_vertex_count: 0,
        path_sprite_count: 0,
        surface_count: 0,
        backdrop_filter_count: 0,
        isolated_filter_count: 0,
        isolated_target_count: 0,
        uses_path_target: false,
        uses_offscreen_target: false,
    }
}

/// The number of primitives in a range, zero when it is empty.
pub open spec fn range_len(range: core::ops::Range<usize>) -> int {
    if range.start < range.end {
        range.end - range.start
    } else {
        0
    }
}

impl ScenePlanRequirements {
    /// Nothing needed yet.
    pub fn new() -> (r: Self)
        ensures
            r == no_requirements(),
    {
        ScenePlanRequirements {
            command_count: 0,
            instance_batch_count: 0,
            path_rasterization_vertex_count: 0,
            path_sprite_count: 0,
            surface_count: 0,
            backdrop_filter_count: 0,
            isolated_filter_count: 0,
            isolated_target_count: 0,
            uses_path_target: false,
            uses_offscreen_target: false,
        }
    }

    /// The totals after drawing one more primitive batch: every non-empty instanced batch is
    /// one instanced draw, a path batch with vertices is two (rasterization and sprites) and
    /// needs the path target, surfaces and backdrop filters are counted one by one, and a
    /// non-empty backdrop batch needs the offscreen target.
    pub open spec fn with_batch(self, batch: PrimitiveBatch) -> ScenePlanRequirements {
        match batch {
            PrimitiveBatch::Shadows { range, .. }
            | PrimitiveBatch::Quads { range, .. }
            | PrimitiveBatch::Underlines(range)
            | PrimitiveBatch::MonochromeSprites { range, .. }
            | PrimitiveBatch::SubpixelSprites { range, .. }
            | PrimitiveBatch::PolychromeSprites { range, .. } => ScenePlanRequirements {
                instance_batch_count: (self.instance_batch_count + if range.start < range.end {
                    1int
                } else {
                    0int
                }) as usize,
                ..self
            },
            PrimitiveBatch::Paths { rasterization_vertex_count, sprite_count, .. } => {
                if rasterization_vertex_count > 0 {
                    ScenePlanRequirements {
                        path_rasterization_vertex_count: (self.path_rasterization_vertex_count
                            + rasterization_vertex_count) as usize,
                        path_sprite_count: (self.path_sprite_count + sprite_count) as usize,
                        uses_path_target: true,
                        instance_batch_count: (self.instance_batch_count + 2) as usize,
                        ..self
                    }
                } else {
                    self
                }
            },
            PrimitiveBatch::Surfaces(range) => ScenePlanRequirements {
                surface_count: (self.surface_count + range_len(range)) as usize,
                ..self
            },
            PrimitiveBatch::BackdropFilters(range) => ScenePlanRequirements {
                backdrop_filter_count: (self.backdrop_filter_count + range_len(range)) as usize,
                uses_offscreen_target: self.uses_offscreen_target || range.start < range.end,
                ..self
            },
            PrimitiveBatch::FilterBoundary(_) => self,
        }
    }

    /// Adding `batch` to these totals stays within `usize`.
    pub open spec fn fits_batch(self, batch: PrimitiveBatch) -> bool {
        match batch {
            PrimitiveBatch::Paths { rasterization_vertex_count, sprite_count, .. } => {
                &&& self.path_rasterization_vertex_count + rasterization_vertex_count <= usize::MAX
                &&& self.path_sprite_count + sprite_count <= usize::MAX
                &&& self.instance_batch_count + 2 <= usize::MAX
            },
            PrimitiveBatch::Surfaces(range) => self.surface_count + range_len(range) <= usize::MAX,
            PrimitiveBatch::BackdropFilters(range) => self.backdrop_filter_count + range_len(range)
                <= usize::MAX,
            _ => self.instance_batch_count + 1 <= usize::MAX,
        }
    }

    /// Adds the resources one primitive batch needs.
    pub fn include_batch(&mut self, batch: &PrimitiveBatch)
        requires
            !(*batch is FilterBoundary),
            old(self).fits_batch(*batch),
        ensures
            *final(self) == old(self).with_batch(*batch),
    {
        match batch {
            PrimitiveBatch::Shadows { range, .. }
            | PrimitiveBatch::Quads { range, .. }
            | PrimitiveBatch::Underlines(range)
            | PrimitiveBatch::MonochromeSprites { range, .. }
            | PrimitiveBatch::SubpixelSprites { range, .. }
            | PrimitiveBatch::PolychromeSprites { range, .. } => {
                if range.start < range.end {
                    self.instance_batch_count = self.instance_batch_count + 1;
                }
            },
            PrimitiveBatch::Paths { rasterization_vertex_count, sprite_count, .. } => {
                self.path_rasterization_vertex_count = self.path_rasterization_vertex_count
                    + *rasterization_vertex_count;
                if *rasterization_vertex_count > 0 {
                    self.path_sprite_count = self.path_sprite_count + *sprite_count;
                    self.uses_path_target = true;
                    self.instance_batch_count = self.instance_batch_count + 2;
                }
            },
            PrimitiveBatch::Surfaces(range) => {
                if range.start < range.end {
                    self.surface_count = self.surface_count + (range.end - range.start);
                }
            },
            PrimitiveBatch::BackdropFilters(range) => {
                if range.start < range.end {
                    self.backdrop_filter_count = self.backdrop_filter_count + (range.end
                        - range.start);
                    self.uses_offscreen_target = true;
                }
            },
            PrimitiveBatch::FilterBoundary(_) => {},
        }
    }
}

/// The filter starts still waiting for their end after the first `n` boundaries.
pub open spec fn pending_starts(bounds: Seq<FilterBoundary>, n: int) -> Seq<usize>
    decreases n,
{
    if n <= 0 {
        Seq::empty()
    } else {
        let pending = pending_starts(bounds, n - 1);
        if bounds[n - 1].is_start {
            pending.push((n - 1) as usize)
        } else if pending.len() > 0 {
            pending.drop_last()
        } else {
            pending
        }
    }
}

/// End boundary `n` closes the group opened by start boundary `i`.
pub open spec fn closes(bounds: Seq<FilterBoundary>, n: int, i: int) -> bool {
    &&& 0 <= n < bounds.len()
    &&& !bounds[n].is_start
    &&& pending_starts(bounds, n).len() > 0
    &&& pending_starts(bounds, n).last() == i
}

/// Some later end boundary closes the group opened by start boundary `i`.
pub open spec fn start_is_matched(bounds: Seq<FilterBoundary>, i: int) -> bool {
    exists|n: int| #[trigger] closes(bounds, n, i)
}

/// Pending starts are earlier boundaries, one per position at most.
proof fn lemma_pending_starts_bounded(bounds: Seq<FilterBoundary>, n: int)
    requires
        0 <= n <= bounds.len(),
    ensures
        pending_starts(bounds, n).len() <= n,
        forall|j: int| 0 <= j < pending_starts(bounds, n).len() ==> #[trigger] pending_starts(bounds, n)[j] < n,
    decreases n,
{
    if n > 0 {
        lemma_pending_starts_bounded(bounds, n - 1);
    }
}

/// Marks each filter start that a later end closes.
pub fn matched_filter_starts(bounds: &Vec<FilterBoundary>) -> (r: FlagBuffer)
    ensures
        flag_contents(r).len() == bounds@.len(),
        forall|i: int| 0 <= i < bounds@.len() ==> #[trigger] flag_contents(r)[i] == start_is_matched(bounds@, i),
{
    let n = bounds.len();
    let mut matched = flags_from_elem(false, n);
    let mut pending = new_indices();
    let mut index: usize = 0;
    while index < n
        invariant
            n == bounds@.len(),
            index <= n,
            index_contents(pending) == pending_starts(bounds@, index as int),
            flag_contents(matched).len() == n,
            forall|i: int| 0 <= i < n ==> #[trigger] flag_contents(matched)[i] == exists|m: int| 0 <= m < index && #[trigger] closes(bounds@, m, i),
        decreases n - index,
    {
        proof {
            lemma_pending_starts_bounded(bounds@, index as int);
        }
        let ghost before = flag_contents(matched);
        if bounds[index].is_start {
            push_index(&mut pending, index);
            assert forall|i: int| 0 <= i < n implies #[trigger] flag_contents(matched)[i] == exists|m: int| 0 <= m < index + 1 && #[trigger] closes(bounds@, m, i) by {
                if exists|m: int| 0 <= m < index + 1 && #[trigger] closes(bounds@, m, i) {
                    let m = choose|m: int| 0 <= m < index + 1 && #[trigger] closes(bounds@, m, i);
                    assert(m != index);
                }
            }
        } else {
            let ghost p = index_contents(pending);
            match pop_index(&mut pending) {
                Some(start_index) => {
                    proof {
                        assert(p[p.len() - 1] < index);
                    }
                    set_flag(&mut matched, start_index, true);
                    assert forall|i: int| 0 <= i < n implies #[trigger] flag_contents(matched)[i] == exists|m: int| 0 <= m < index + 1 && #[trigger] closes(bounds@, m, i) by {
                        if i == start_index {
                            assert(closes(bounds@, index as int, i));
                        } else {
                            assert(flag_contents(matched)[i] == before[i]);
                            if exists|m: int| 0 <= m < index + 1 && #[trigger] closes(bounds@, m, i) {
                                let m = choose|m: int| 0 <= m < index + 1 && #[trigger] closes(bounds@, m, i);
                                assert(m != index);
                            }
                        }
                    }
                },
                None => {
                    assert forall|i: int| 0 <= i < n implies #[trigger] flag_contents(matched)[i] == exists|m: int| 0 <= m < index + 1 && #[trigger] closes(bounds@, m, i) by {
                        if exists|m: int| 0 <= m < index + 1 && #[trigger] closes(bounds@, m, i) {
                            let m = choose|m: int| 0 <= m < index + 1 && #[trigger] closes(bounds@, m, i);
                            assert(m != index);
                        }
                    }
                },
            }
        }
        index = index + 1;
    }
    proof {
        assert forall|i: int| 0 <= i < bounds@.len() implies #[trigger] flag_contents(matched)[i] == start_is_matched(bounds@, i) by {
            if start_is_matched(bounds@, i) {
                let m = choose|m: int| #[trigger] closes(bounds@, m, i);
                assert(0 <= m < n && closes(bounds@, m, i));
            }
        }
    }
    matched
}

/// The batch a command stands for: a filter command stands for its boundary marker.
pub open spec fn command_batch(command: RenderCommand) -> PrimitiveBatch {
    match command {
        RenderCommand::Batch(batch) => batch,
        RenderCommand::BeginFilter { boundary_index, .. } => PrimitiveBatch::FilterBoundary(
            boundary_index,
        ),
        RenderCommand::EndFilter { closing_boundary_index, .. } => PrimitiveBatch::FilterBoundary(
            closing_boundary_index,
        ),
    }
}

/// The batches that a command list stands for.
pub open spec fn command_batches(commands: Seq<RenderCommand>) -> Seq<PrimitiveBatch> {
    Seq::new(commands.len(), |k: int| command_batch(commands[k]))
}

/// The filter groups still open after the first `k` commands, innermost last.
pub open spec fn open_groups(commands: Seq<RenderCommand>, k: int) -> Seq<(usize, FilterRenderTarget)>
    decreases k,
{
    if k <= 0 {
        Seq::empty()
    } else {
        let groups = open_groups(commands, k - 1);
        match commands[k - 1] {
            RenderCommand::BeginFilter { boundary_index, target } => groups.push(
                (boundary_index, target),
            ),
            RenderCommand::EndFilter { .. } => if groups.len() > 0 {
                groups.drop_last()
            } else {
                groups
            },
            RenderCommand::Batch(_) => groups,
        }
    }
}

/// The number of groups in `groups` that render into isolated targets.
pub open spec fn isolated_count(groups: Seq<(usize, FilterRenderTarget)>) -> int
    decreases groups.len(),
{
    if groups.len() == 0 {
        0
    } else {
        isolated_count(groups.drop_last()) + if groups.last().1 is Isolated {
            1int
        } else {
            0int
        }
    }
}

/// The target a group opened at start boundary `index` receives when `depth` isolated
/// groups are open around it.
pub open spec fn target_for(matched: bool, depth: int) -> FilterRenderTarget {
    if matched && depth < MAX_FILTER_GROUP_DEPTH {
        FilterRenderTarget::Isolated(FilterTargetIndex(depth as usize))
    } else {
        FilterRenderTarget::Inline
    }
}

impl Scene {
    /// Command `k` follows the pairing rules: a batch is not a boundary; a begin opens the
    /// group of a start boundary with the target its depth and matching allow; an end
    /// closes the innermost open group with that group's start and target, or, with no
    /// group open, stands alone and inline.
    pub open spec fn command_follows(&self, commands: Seq<RenderCommand>, k: int) -> bool {
        let groups = open_groups(commands, k);
        let bounds = self.filter_boundaries@;
        match commands[k] {
            RenderCommand::Batch(batch) => !(batch is FilterBoundary),
            RenderCommand::BeginFilter { boundary_index, target } => {
                &&& bounds[boundary_index as int].is_start
                &&& target == target_for(
                    start_is_matched(bounds, boundary_index as int),
                    isolated_count(groups),
                )
            },
            RenderCommand::EndFilter { boundary_index, closing_boundary_index, target } => {
                &&& !bounds[closing_boundary_index as int].is_start
                &&& groups.len() > 0 ==> (boundary_index, target) == groups.last()
                &&& groups.len() == 0 ==> boundary_index == closing_boundary_index && target
                    == FilterRenderTarget::Inline
            },
        }
    }
}

/// The resources needed by the first `k` commands: batches add what they draw, an
/// isolated begin needs the offscreen target and as many isolation targets as groups
/// are then open, an isolated end composites one isolated group.
pub open spec fn tally(commands: Seq<RenderCommand>, k: int) -> ScenePlanRequirements
    decreases k,
{
    if k <= 0 {
        no_requirements()
    } else {
        let r = tally(commands, k - 1);
        match commands[k - 1] {
            RenderCommand::Batch(batch) => r.with_batch(batch),
            RenderCommand::BeginFilter { target, .. } => if target is Isolated {
                let depth = isolated_count(open_groups(commands, k));
                ScenePlanRequirements {
                    uses_offscreen_target: true,
                    isolated_target_count: if r.isolated_target_count >= depth {
                        r.isolated_target_count
                    } else {
                        depth as usize
                    },
                    ..r
                }
            } else {
                r
            },
            RenderCommand::EndFilter { target, .. } => if target is Isolated {
                ScenePlanRequirements {
                    isolated_filter_count: (r.isolated_filter_count + 1) as usize,
                    ..r
                }
            } else {
                r
            },
        }
    }
}

/// Commands after the first `k` do not change what the first `k` open or need.
proof fn lemma_prefix_unchanged(commands: Seq<RenderCommand>, c: RenderCommand, k: int)
    requires
        0 <= k <= commands.len(),
    ensures
        open_groups(commands.push(c), k) == open_groups(commands, k),
        tally(commands.push(c), k) == tally(commands, k),
    decreases k,
{
    if k > 0 {
        lemma_prefix_unchanged(commands, c, k - 1);
        assert(commands.push(c)[k - 1] == commands[k - 1]);
    }
}

proof fn lemma_isolated_count_push(groups: Seq<(usize, FilterRenderTarget)>, g: (usize, FilterRenderTarget))
    ensures
        isolated_count(groups.push(g)) == isolated_count(groups) + if g.1 is Isolated {
            1int
        } else {
            0int
        },
{
    assert(groups.push(g).drop_last() == groups);
}

proof fn lemma_isolated_count_bounds(groups: Seq<(usize, FilterRenderTarget)>)
    ensures
        0 <= isolated_count(groups) <= groups.len(),
    decreases groups.len(),
{
    if groups.len() > 0 {
        lemma_isolated_count_bounds(groups.drop_last());
    }
}

impl Scene {
    /// The scene fits in memory: its primitives are at least four bytes each, so there are
    /// at most a quarter of `usize::MAX` of them, and all path vertices can be counted.
    pub open spec fn fits_in_memory(&self) -> bool {
        &&& self.primitive_total() <= usize::MAX / 4
        &&& self.path_vertices_fit()
    }
}

/// A copy of a batch.
pub fn copy_batch(batch: &PrimitiveBatch) -> (r: PrimitiveBatch)
    ensures
        r == *batch,
{
    match batch {
        PrimitiveBatch::Shadows { range, smoothed } => PrimitiveBatch::Shadows {
            range: range.start..range.end,
            smoothed: *smoothed,
        },
        PrimitiveBatch::Quads { range, smoothed } => PrimitiveBatch::Quads {
            range: range.start..range.end,
            smoothed: *smoothed,
        },
        PrimitiveBatch::Paths { range, rasterization_vertex_count, sprite_count } => {
            PrimitiveBatch::Paths {
                range: range.start..range.end,
                rasterization_vertex_count: *rasterization_vertex_count,
                sprite_count: *sprite_count,
            }
        },
        PrimitiveBatch::Underlines(range) => PrimitiveBatch::Underlines(range.start..range.end),
        PrimitiveBatch::MonochromeSprites { texture_id, range } => PrimitiveBatch::MonochromeSprites {
            texture_id: *texture_id,
            range: range.start..range.end,
        },
        PrimitiveBatch::SubpixelSprites { texture_id, range } => PrimitiveBatch::SubpixelSprites {
            texture_id: *texture_id,
            range: range.start..range.end,
        },
        PrimitiveBatch::PolychromeSprites { texture_id, range, smoothed } => {
            PrimitiveBatch::PolychromeSprites {
                texture_id: *texture_id,
                range: range.start..range.end,
                smoothed: *smoothed,
            }
        },
        PrimitiveBatch::Surfaces(range) => PrimitiveBatch::Surfaces(range.start..range.end),
        PrimitiveBatch::BackdropFilters(range) => PrimitiveBatch::BackdropFilters(
            range.start..range.end,
        ),
        PrimitiveBatch::FilterBoundary(index) => PrimitiveBatch::FilterBoundary(*index),
    }
}

impl Scene {
    /// The lengths of the primitive lists.
    pub open spec fn lengths_spec(&self) -> SceneLengths {
        SceneLengths {
            shadows: self.shadows@.len() as usize,
            quads: self.quads@.len() as usize,
            paths: self.paths@.len() as usize,
            underlines: self.underlines@.len() as usize,
            monochrome_sprites: self.monochrome_sprites@.len() as usize,
            subpixel_sprites: self.subpixel_sprites@.len() as usize,
            polychrome_sprites: self.polychrome_sprites@.len() as usize,
            surfaces: self.surfaces@.len() as usize,
            backdrop_filters: self.backdrop_filters@.len() as usize,
            filter_boundaries: self.filter_boundaries@.len() as usize,
        }
    }

    /// The plan's commands stand for a batching of this scene, follow the pairing rules,
    /// and the plan's totals are those the commands need.
    pub open spec fn plan_describes(&self, commands: Seq<RenderCommand>, requirements: ScenePlanRequirements) -> bool {
        let batches = command_batches(commands);
        &&& self.batches_partition(batches)
        &&& self.batches_maximal(batches)
        &&& self.streams_sorted() ==> self.batches_in_key_order(batches)
        &&& forall|k: int| 0 <= k < commands.len() ==> #[trigger] self.command_follows(commands, k)
        &&& requirements == (ScenePlanRequirements {
            command_count: commands.len() as usize,
            ..tally(commands, commands.len() as int)
        })
    }
}

impl SceneLengths {
    /// The lengths of a scene's primitive lists.
    pub fn for_scene(scene: &Scene) -> (r: Self)
        ensures
            r == scene.lengths_spec(),
    {
        SceneLengths {
            shadows: scene.shadows.len(),
            quads: scene.quads.len(),
            paths: scene.paths.len(),
            underlines: scene.underlines.len(),
            monochrome_sprites: scene.monochrome_sprites.len(),
            subpixel_sprites: scene.subpixel_sprites.len(),
            polychrome_sprites: scene.polychrome_sprites.len(),
            surfaces: scene.surfaces.len(),
            backdrop_filters: scene.backdrop_filters.len(),
            filter_boundaries: scene.filter_boundaries.len(),
        }
    }
}

impl ScenePlan {
    /// Compiles `scene` into commands, reusing the allocation of `commands`.
    pub fn build(scene: &Scene, commands: Vec<RenderCommand>) -> (plan: Self)
        requires
            scene.fits_in_memory(),
        ensures
            scene.plan_describes(plan.commands@, plan.requirements),
            plan.scene_lengths == scene.lengths_spec(),
    {
        let mut commands = commands;
        commands.clear();
        commands.reserve(scene.paint_operations.len());
        let matched = matched_filter_starts(&scene.filter_boundaries);
        let batches = all_batches(scene);
        let mut filter_stack = new_groups();
        let mut isolated_depth: usize = 0;
        let mut requirements = ScenePlanRequirements::new();
        let ghost bs = batches@;
        let mut k: usize = 0;
        while k < batches.len()
            invariant
                scene.fits_in_memory(),
                bs == batches@,
                scene.batches_partition(bs),
                scene.batches_maximal(bs),
                scene.streams_sorted() ==> scene.batches_in_key_order(bs),
                bs.len() <= scene.primitive_total(),
                flag_contents(matched).len() == scene.filter_boundaries@.len(),
                forall|i: int|
                    0 <= i < scene.filter_boundaries@.len() ==> #[trigger] flag_contents(matched)[i]
                        == start_is_matched(scene.filter_boundaries@, i),
                k <= bs.len(),
                commands@.len() == k,
                forall|j: int| 0 <= j < k ==> #[trigger] command_batch(commands@[j]) == bs[j],
                forall|j: int| 0 <= j < k ==> #[trigger] scene.command_follows(commands@, j),
                group_contents(filter_stack) == open_groups(commands@, k as int),
                isolated_depth == isolated_count(open_groups(commands@, k as int)),
                isolated_depth <= MAX_FILTER_GROUP_DEPTH,
                open_groups(commands@, k as int).len() <= k,
                requirements == tally(commands@, k as int),
                requirements.instance_batch_count <= 2 * k,
                requirements.path_rasterization_vertex_count == vertex_sum(scene.paths@, 0, emitted(bs, k as int, 2)),
                requirements.path_sprite_count <= emitted(bs, k as int, 2),
                requirements.surface_count == emitted(bs, k as int, 7),
                requirements.backdrop_filter_count == emitted(bs, k as int, 8),
                requirements.isolated_filter_count <= k,
                requirements.isolated_target_count <= MAX_FILTER_GROUP_DEPTH,
            decreases bs.len() - k,
        {
            let batch = copy_batch(&batches[k]);
            let ghost old_commands = commands@;
            let ghost groups = open_groups(commands@, k as int);
            proof {
                assert(scene.batch_placed(bs, k as int));
                lemma_emitted_monotone(scene, bs, k as int + 1, bs.len() as int, batch_stream(batch));
                lemma_emitted_monotone(scene, bs, k as int, k as int + 1, 2);
                lemma_emitted_monotone(scene, bs, k as int + 1, bs.len() as int, 2);
                scene.lemma_stream_len_bounded(batch_stream(batch));
                lemma_isolated_count_bounds(groups);
            }
            match batch {
                PrimitiveBatch::FilterBoundary(boundary_index) => {
                    if scene.filter_boundaries[boundary_index].is_start {
                        let target = if flag_at(&matched, boundary_index) && isolated_depth
                            < MAX_FILTER_GROUP_DEPTH {
                            FilterRenderTarget::Isolated(FilterTargetIndex(isolated_depth))
                        } else {
                            FilterRenderTarget::Inline
                        };
                        if target.is_isolated() {
                            isolated_depth = isolated_depth + 1;
                            requirements.uses_offscreen_target = true;
                            if requirements.isolated_target_count < isolated_depth {
                                requirements.isolated_target_count = isolated_depth;
                            }
                        }
                        push_group(&mut filter_stack, (boundary_index, target));
                        commands.push(RenderCommand::BeginFilter { boundary_index, target });
                        proof {
                            lemma_prefix_unchanged(old_commands, commands@[k as int], k as int);
                            lemma_isolated_count_push(groups, (boundary_index, target));
                        }
                    } else {
                        match pop_group(&mut filter_stack) {
                            Some((start_index, target)) => {
                                proof {
                                    lemma_isolated_count_bounds(groups.drop_last());
                                }
                                if target.is_isolated() {
                                    isolated_depth = isolated_depth - 1;
                                    requirements.isolated_filter_count = requirements.isolated_filter_count + 1;
                                }
                                commands.push(
                                    RenderCommand::EndFilter {
                                        boundary_index: start_index,
                                        closing_boundary_index: boundary_index,
                                        target,
                                    },
                                );
                            },
                            None => {
                                commands.push(
                                    RenderCommand::EndFilter {
                                        boundary_index,
                                        closing_boundary_index: boundary_index,
                                        target: FilterRenderTarget::Inline,
                                    },
                                );
                            },
                        }
                        proof {
                            lemma_prefix_unchanged(old_commands, commands@[k as int], k as int);
                        }
                    }
                },
                _ => {
                    proof {
                        let s = batch_stream(batch);
                        let a = batch_start(batch);
                        let e = batch_end(batch);
                        assert(batch == bs[k as int]);
                        assert(a == emitted(bs, k as int, s));
                        assert(emitted(bs, k as int + 1, s) == e);
                        assert(e <= scene.stream_len(s));
                        if s == 2 {
                            lemma_vertex_sum_split(scene.paths@, 0, a, e);
                            lemma_vertex_sum_within(scene.paths@, 0, e, 0, scene.paths@.len() as int);
                            lemma_vertex_sum_within(scene.paths@, a, e, 0, scene.paths@.len() as int);
                            assert(batch == scene.batch_for(2, a, e));
                        }
                        assert(requirements.fits_batch(batch));
                    }
                    requirements.include_batch(&batch);
                    commands.push(RenderCommand::Batch(batch));
                    proof {
                        lemma_prefix_unchanged(old_commands, commands@[k as int], k as int);
                    }
                },
            }
            proof {
                assert forall|j: int| 0 <= j < k + 1 implies #[trigger] command_batch(commands@[j]) == bs[j] by {
                    if j < k {
                        assert(commands@[j] == old_commands[j]);
                    }
                }
                assert forall|j: int| 0 <= j < k + 1 implies #[trigger] scene.command_follows(commands@, j) by {
                    if j < k {
                        assert(commands@[j] == old_commands[j]);
                        assert(scene.command_follows(old_commands, j));
                        lemma_prefix_unchanged(old_commands, commands@[k as int], j);
                    }
                }
            }
            k = k + 1;
        }
        requirements.command_count = commands.len();
        proof {
            assert(command_batches(commands@) == bs);
        }
        ScenePlan { commands, requirements, scene_lengths: SceneLengths::for_scene(scene) }
    }
}

/// Every open group was opened by a start boundary, and its isolated target, if any, is
/// numbered by the isolated groups open around it and lies in the target pool.
pub open spec fn groups_numbered(scene: &Scene, groups: Seq<(usize, FilterRenderTarget)>) -> bool {
    forall|j: int|
        0 <= j < groups.len() ==> {
            &&& (#[trigger] groups[j]).0 < scene.filter_boundaries@.len()
            &&& scene.filter_boundaries@[groups[j].0 as int].is_start
            &&& groups[j].1 is Isolated ==> {
                &&& groups[j].1 == FilterRenderTarget::Isolated(
                    FilterTargetIndex(isolated_count(groups.take(j)) as usize),
                )
                &&& isolated_count(groups.take(j)) < MAX_FILTER_GROUP_DEPTH
            }
        }
}

/// A filter command's boundary markers are boundaries of the scene.
proof fn lemma_command_boundary_in_scene(scene: &Scene, commands: Seq<RenderCommand>, k: int)
    requires
        scene.batches_partition(command_batches(commands)),
        0 <= k < commands.len(),
    ensures
        command_batch(commands[k]) matches PrimitiveBatch::FilterBoundary(i) ==> i < scene.filter_boundaries@.len(),
{
    let bs = command_batches(commands);
    assert(scene.batch_placed(bs, k));
    assert(bs[k] == command_batch(commands[k]));
    if command_batch(commands[k]) is FilterBoundary {
        lemma_emitted_monotone(scene, bs, k + 1, bs.len() as int, 9);
        assert(emitted(bs, bs.len() as int, 9) == scene.stream_len(9));
        assert(emitted(bs, k + 1, 9) == batch_end(bs[k]));
    }
}

proof fn lemma_groups_numbered(scene: &Scene, commands: Seq<RenderCommand>, k: int)
    requires
        scene.batches_partition(command_batches(commands)),
        forall|j: int| 0 <= j < commands.len() ==> #[trigger] scene.command_follows(commands, j),
        0 <= k <= commands.len(),
    ensures
        groups_numbered(scene, open_groups(commands, k)),
        isolated_count(open_groups(commands, k)) <= MAX_FILTER_GROUP_DEPTH,
    decreases k,
{
    if k > 0 {
        lemma_groups_numbered(scene, commands, k - 1);
        lemma_command_boundary_in_scene(scene, commands, k - 1);
        let g = open_groups(commands, k - 1);
        assert(scene.command_follows(commands, k - 1));
        lemma_isolated_count_bounds(g);
        match commands[k - 1] {
            RenderCommand::BeginFilter { boundary_index, target } => {
                let h = g.push((boundary_index, target));
                lemma_isolated_count_push(g, (boundary_index, target));
                assert forall|j: int| 0 <= j < h.len() implies {
                    &&& (#[trigger] h[j]).0 < scene.filter_boundaries@.len()
                    &&& scene.filter_boundaries@[h[j].0 as int].is_start
                    &&& h[j].1 is Isolated ==> {
                        &&& h[j].1 == FilterRenderTarget::Isolated(
                            FilterTargetIndex(isolated_count(h.take(j)) as usize),
                        )
                        &&& isolated_count(h.take(j)) < MAX_FILTER_GROUP_DEPTH
                    }
                } by {
                    if j < g.len() {
                        assert(h.take(j) == g.take(j));
                        assert(h[j] == g[j]);
                    } else {
                        assert(h.take(j) == g);
                    }
                }
            },
            RenderCommand::EndFilter { .. } => {
                if g.len() > 0 {
                    let h = g.drop_last();
                    assert forall|j: int| 0 <= j < h.len() implies {
                        &&& (#[trigger] h[j]).0 < scene.filter_boundaries@.len()
                        &&& scene.filter_boundaries@[h[j].0 as int].is_start
                        &&& h[j].1 is Isolated ==> {
                            &&& h[j].1 == FilterRenderTarget::Isolated(
                                FilterTargetIndex(isolated_count(h.take(j)) as usize),
                            )
                            &&& isolated_count(h.take(j)) < MAX_FILTER_GROUP_DEPTH
                        }
                    } by {
                        assert(h.take(j) == g.take(j));
                        assert(h[j] == g[j]);
                    }
                    lemma_isolated_count_bounds(h);
                }
            },
            RenderCommand::Batch(_) => {},
        }
    }
}

/// Law: at every point of a plan, the open filter groups were opened by start boundaries,
/// and the open isolated groups use the offscreen targets 0, 1, ... in nesting order: no
/// two open groups share a target, and every target lies below `MAX_FILTER_GROUP_DEPTH`.
pub proof fn law_open_groups_use_distinct_targets(
    scene: &Scene,
    commands: Seq<RenderCommand>,
    requirements: ScenePlanRequirements,
    k: int,
)
    requires
        scene.plan_describes(commands, requirements),
        0 <= k <= commands.len(),
    ensures
        groups_numbered(scene, open_groups(commands, k)),
        isolated_count(open_groups(commands, k)) <= MAX_FILTER_GROUP_DEPTH,
{
    lemma_groups_numbered(scene, commands, k);
}

/// Law: every filter command of a plan names a target in the pool, and an end command
/// closes the innermost open group: it carries that group's start boundary and target;
/// only an end with no open group stands alone, inline.
pub proof fn law_end_closes_innermost_group(
    scene: &Scene,
    commands: Seq<RenderCommand>,
    requirements: ScenePlanRequirements,
    k: int,
)
    requires
        scene.plan_describes(commands, requirements),
        0 <= k < commands.len(),
    ensures
        match commands[k] {
            RenderCommand::BeginFilter { boundary_index, target } => {
                &&& boundary_index < scene.filter_boundaries@.len()
                &&& scene.filter_boundaries@[boundary_index as int].is_start
                &&& target matches FilterRenderTarget::Isolated(index) ==> index.0
                    < MAX_FILTER_GROUP_DEPTH
                &&& !start_is_matched(scene.filter_boundaries@, boundary_index as int) ==> target
                    == FilterRenderTarget::Inline
            },
            RenderCommand::EndFilter { boundary_index, closing_boundary_index, target } => {
                &&& boundary_index < scene.filter_boundaries@.len()
                &&& closing_boundary_index < scene.filter_boundaries@.len()
                &&& !scene.filter_boundaries@[closing_boundary_index as int].is_start
                &&& target matches FilterRenderTarget::Isolated(index) ==> index.0
                    < MAX_FILTER_GROUP_DEPTH
                &&& open_groups(commands, k).len() > 0 ==> {
                    &&& (boundary_index, target) == open_groups(commands, k).last()
                    &&& scene.filter_boundaries@[boundary_index as int].is_start
                }
                &&& open_groups(commands, k).len() == 0 ==> boundary_index == closing_boundary_index
                    && target == FilterRenderTarget::Inline
            },
            RenderCommand::Batch(batch) => !(batch is FilterBoundary),
        },
{
    assert(scene.command_follows(commands, k));
    lemma_groups_numbered(scene, commands, k);
    lemma_command_boundary_in_scene(scene, commands, k);
    let g = open_groups(commands, k);
    lemma_isolated_count_bounds(g);
    if g.len() > 0 {
        assert(g[g.len() - 1] == g.last());
        lemma_isolated_count_bounds(g.take(g.len() - 1));
    }
}

/// Law: every isolated target that a filter command names is a slot of the reserved pool:
/// below `MAX_FILTER_GROUP_DEPTH` and below the plan's isolation target count.
pub proof fn law_targets_lie_in_reserved_pool(
    scene: &Scene,
    commands: Seq<RenderCommand>,
    requirements: ScenePlanRequirements,
    k: int,
)
    requires
        scene.plan_describes(commands, requirements),
        0 <= k < commands.len(),
    ensures
        match commands[k] {
            RenderCommand::BeginFilter { target, .. } => target matches FilterRenderTarget::Isolated(index)
                ==> index.0 < MAX_FILTER_GROUP_DEPTH && index.0 < requirements.isolated_target_count,
            RenderCommand::EndFilter { target, .. } => target matches FilterRenderTarget::Isolated(index)
                ==> index.0 < MAX_FILTER_GROUP_DEPTH && index.0 < requirements.isolated_target_count,
            RenderCommand::Batch(_) => true,
        },
{
    law_end_closes_innermost_group(scene, commands, requirements, k);
    law_plan_reserves_enough_targets(scene, commands, requirements);
    assert(scene.command_follows(commands, k));
    let g = open_groups(commands, k);
    lemma_isolated_count_bounds(g);
    if g.len() > 0 {
        lemma_isolated_count_bounds(g.take(g.len() - 1));
    }
    assert(isolated_count(open_groups(commands, k + 1)) <= requirements.isolated_target_count);
    assert(isolated_count(open_groups(commands, k)) <= requirements.isolated_target_count);
    match commands[k] {
        RenderCommand::BeginFilter { boundary_index, target } => {
            if target is Isolated {
                assert(open_groups(commands, k + 1) == g.push((boundary_index, target)));
                assert(open_groups(commands, k + 1).drop_last() =~= g);
                assert(isolated_count(open_groups(commands, k + 1)) == isolated_count(g) + 1);
                assert(target == FilterRenderTarget::Isolated(FilterTargetIndex(isolated_count(g) as usize)));
            }
        },
        RenderCommand::EndFilter { .. } => {
            if g.len() > 0 {
                lemma_groups_numbered(scene, commands, k);
                let n = g.len() - 1;
                assert(g[n] == g.last());
                assert(g.take(n) =~= g.drop_last());
                if g.last().1 is Isolated {
                    assert(isolated_count(g) == isolated_count(g.take(n)) + 1);
                }
            }
        },
        RenderCommand::Batch(_) => {},
    }
}

proof fn lemma_tally_targets(commands: Seq<RenderCommand>, k: int)
    requires
        0 <= k <= commands.len(),
        isolated_count(open_groups(commands, k)) <= MAX_FILTER_GROUP_DEPTH,
        forall|j: int| 0 <= j <= commands.len() ==> #[trigger] isolated_count(open_groups(commands, j)) <= MAX_FILTER_GROUP_DEPTH,
    ensures
        tally(commands, k).isolated_target_count <= MAX_FILTER_GROUP_DEPTH,
        forall|j: int| 0 <= j <= k ==> #[trigger] isolated_count(open_groups(commands, j)) <= tally(commands, k).isolated_target_count,
        tally(commands, k).uses_offscreen_target == exists|j: int| 0 <= j < k && #[trigger] needs_offscreen(commands[j]),
    decreases k,
{
    if k > 0 {
        assert(isolated_count(open_groups(commands, k - 1)) <= MAX_FILTER_GROUP_DEPTH);
        lemma_tally_targets(commands, k - 1);
        let g = open_groups(commands, k - 1);
        lemma_isolated_count_bounds(g);
        match commands[k - 1] {
            RenderCommand::BeginFilter { boundary_index, target } => {
                lemma_isolated_count_push(g, (boundary_index, target));
            },
            RenderCommand::EndFilter { .. } => {
                if g.len() > 0 {
                    lemma_isolated_count_bounds(g.drop_last());
                }
            },
            RenderCommand::Batch(_) => {},
        }
        if exists|j: int| 0 <= j < k && #[trigger] needs_offscreen(commands[j]) {
            let j = choose|j: int| 0 <= j < k && #[trigger] needs_offscreen(commands[j]);
            if j < k - 1 {
                assert(exists|j: int| 0 <= j < k - 1 && #[trigger] needs_offscreen(commands[j]));
            }
        }
        if needs_offscreen(commands[k - 1]) {
            assert(tally(commands, k).uses_offscreen_target);
        } else {
            assert(tally(commands, k).uses_offscreen_target == tally(commands, k - 1).uses_offscreen_target);
        }
    }
}

/// The command needs the offscreen scene target: an isolated group, or a batch of
/// backdrop filters.
pub open spec fn needs_offscreen(command: RenderCommand) -> bool {
    match command {
        RenderCommand::BeginFilter { target, .. } => target is Isolated,
        RenderCommand::Batch(PrimitiveBatch::BackdropFilters(range)) => range.start < range.end,
        _ => false,
    }
}

/// Law: a plan reserves enough isolation targets for the deepest nesting of isolated
/// groups it reaches, never more than the pool holds, and needs the offscreen target
/// exactly when some command renders an isolated group or a backdrop filter.
pub proof fn law_plan_reserves_enough_targets(
    scene: &Scene,
    commands: Seq<RenderCommand>,
    requirements: ScenePlanRequirements,
)
    requires
        scene.plan_describes(commands, requirements),
    ensures
        requirements.isolated_target_count <= MAX_FILTER_GROUP_DEPTH,
        forall|k: int| 0 <= k <= commands.len() ==> #[trigger] isolated_count(open_groups(commands, k)) <= requirements.isolated_target_count,
        requirements.uses_offscreen_target == exists|k: int| 0 <= k < commands.len() && #[trigger] needs_offscreen(commands[k]),
{
    assert forall|j: int| 0 <= j <= commands.len() implies #[trigger] isolated_count(open_groups(commands, j)) <= MAX_FILTER_GROUP_DEPTH by {
        lemma_groups_numbered(scene, commands, j);
    }
    lemma_groups_numbered(scene, commands, commands.len() as int);
    lemma_tally_targets(commands, commands.len() as int);
}

impl RenderCommand {
    /// The opening boundary index carried by a filter command.
    pub open spec fn opening_boundary(self) -> Option<usize> {
        match self {
            RenderCommand::BeginFilter { boundary_index, .. } => Some(boundary_index),
            RenderCommand::EndFilter { boundary_index, .. } => Some(boundary_index),
            RenderCommand::Batch(_) => None,
        }
    }

    /// Returns the opening filter boundary carried by a filter command.
    pub fn boundary<'a>(&self, scene: &'a Scene) -> (r: Option<&'a FilterBoundary>)
        requires
            self.opening_boundary() matches Some(index) ==> index < scene.filter_boundaries@.len(),
        ensures
            match self.opening_boundary() {
                Some(index) => r == Some(&scene.filter_boundaries@[index as int]),
                None => r is None,
            },
    {
        match self {
            RenderCommand::BeginFilter { boundary_index, .. } => Some(
                &scene.filter_boundaries[*boundary_index],
            ),
            RenderCommand::EndFilter { boundary_index, .. } => Some(
                &scene.filter_boundaries[*boundary_index],
            ),
            RenderCommand::Batch(_) => None,
        }
    }
}

/// Every primitive of a stream lies in some batch of a partition.
proof fn lemma_batches_cover(scene: &Scene, bs: Seq<PrimitiveBatch>, n: int, s: int, i: int)
    requires
        forall|k: int| 0 <= k < bs.len() ==> #[trigger] scene.batch_placed(bs, k),
        0 <= n <= bs.len(),
        0 <= i < emitted(bs, n, s),
    ensures
        exists|k: int| 0 <= k < n && batch_stream(#[trigger] bs[k]) == s && batch_start(bs[k]) <= i < batch_end(bs[k]),
    decreases n,
{
    if n > 0 {
        assert(scene.batch_placed(bs, n - 1));
        if batch_stream(bs[n - 1]) == s && batch_start(bs[n - 1]) <= i {
            assert(batch_stream(bs[n - 1]) == s && batch_start(bs[n - 1]) <= i < batch_end(bs[n - 1]));
        } else {
            lemma_batches_cover(scene, bs, n - 1, s, i);
            let k = choose|k: int| 0 <= k < n - 1 && batch_stream(#[trigger] bs[k]) == s && batch_start(bs[k]) <= i < batch_end(bs[k]);
            assert(0 <= k < n && batch_stream(bs[k]) == s && batch_start(bs[k]) <= i < batch_end(bs[k]));
        }
    }
}

/// Every open group was opened by an earlier begin command with its boundary and target.
proof fn lemma_open_groups_opened(commands: Seq<RenderCommand>, k: int, g: int)
    requires
        0 <= k <= commands.len(),
        0 <= g < open_groups(commands, k).len(),
    ensures
        exists|j: int| 0 <= j < k && #[trigger] commands[j] == (RenderCommand::BeginFilter {
            boundary_index: open_groups(commands, k)[g].0,
            target: open_groups(commands, k)[g].1,
        }),
    decreases k,
{
    if k > 0 {
        let before = open_groups(commands, k - 1);
        match commands[k - 1] {
            RenderCommand::BeginFilter { boundary_index, target } => {
                if g < before.len() {
                    lemma_open_groups_opened(commands, k - 1, g);
                } else {
                    assert(commands[k - 1] == (RenderCommand::BeginFilter {
                        boundary_index: open_groups(commands, k)[g].0,
                        target: open_groups(commands, k)[g].1,
                    }));
                }
            },
            _ => {
                lemma_open_groups_opened(commands, k - 1, g);
            },
        }
    }
}

/// Groups with a positive isolated count hold an isolated group.
proof fn lemma_isolated_member(groups: Seq<(usize, FilterRenderTarget)>)
    requires
        isolated_count(groups) > 0,
    ensures
        exists|g: int| 0 <= g < groups.len() && (#[trigger] groups[g]).1 is Isolated,
    decreases groups.len(),
{
    if !(groups.last().1 is Isolated) {
        lemma_isolated_member(groups.drop_last());
        let g = choose|g: int| 0 <= g < groups.drop_last().len() && (#[trigger] groups.drop_last()[g]).1 is Isolated;
        assert(groups[g] == groups.drop_last()[g]);
    } else {
        assert(groups[groups.len() - 1] == groups.last());
    }
}

/// Law: a plan needs the offscreen target exactly when the scene has a backdrop filter or
/// a filter start that a later end closes.
pub proof fn law_offscreen_needed_for_backdrops_and_closed_groups(
    scene: &Scene,
    commands: Seq<RenderCommand>,
    requirements: ScenePlanRequirements,
)
    requires
        scene.plan_describes(commands, requirements),
    ensures
        requirements.uses_offscreen_target == (scene.backdrop_filters@.len() > 0 || exists|i: int|
            0 <= i < scene.filter_boundaries@.len() && scene.filter_boundaries@[i].is_start
                && #[trigger] start_is_matched(scene.filter_boundaries@, i)),
{
    law_plan_reserves_enough_targets(scene, commands, requirements);
    let bs = command_batches(commands);
    let n = bs.len() as int;
    let bounds = scene.filter_boundaries@;
    assert forall|k: int| 0 <= k < n implies #[trigger] bs[k] == command_batch(commands[k]) by {}
    if scene.backdrop_filters@.len() > 0 {
        assert(emitted(bs, n, 8) == scene.stream_len(8));
        lemma_batches_cover(scene, bs, n, 8, 0);
        let k = choose|k: int| 0 <= k < n && batch_stream(#[trigger] bs[k]) == 8 && batch_start(bs[k]) <= 0 < batch_end(bs[k]);
        assert(scene.batch_placed(bs, k));
        assert(needs_offscreen(commands[k]));
    }
    if exists|i: int| 0 <= i < bounds.len() && bounds[i].is_start && #[trigger] start_is_matched(bounds, i) {
        let i = choose|i: int| 0 <= i < bounds.len() && bounds[i].is_start && #[trigger] start_is_matched(bounds, i);
        assert(emitted(bs, n, 9) == scene.stream_len(9));
        lemma_batches_cover(scene, bs, n, 9, i);
        let k = choose|k: int| 0 <= k < n && batch_stream(#[trigger] bs[k]) == 9 && batch_start(bs[k]) <= i < batch_end(bs[k]);
        assert(scene.batch_placed(bs, k));
        assert(scene.command_follows(commands, k));
        match commands[k] {
            RenderCommand::BeginFilter { boundary_index, target } => {
                assert(boundary_index == i);
                if !(target is Isolated) {
                    let groups = open_groups(commands, k);
                    lemma_open_groups_use_distinct_targets_at(scene, commands, requirements, k);
                    lemma_isolated_member(groups);
                    let g = choose|g: int| 0 <= g < groups.len() && (#[trigger] groups[g]).1 is Isolated;
                    lemma_open_groups_opened(commands, k, g);
                    let j = choose|j: int| 0 <= j < k && #[trigger] commands[j] == (RenderCommand::BeginFilter {
                        boundary_index: groups[g].0,
                        target: groups[g].1,
                    });
                    assert(needs_offscreen(commands[j]));
                } else {
                    assert(needs_offscreen(commands[k]));
                }
            },
            RenderCommand::EndFilter { closing_boundary_index, .. } => {
                assert(closing_boundary_index == i);
            },
            RenderCommand::Batch(_) => {},
        }
    }
    if requirements.uses_offscreen_target {
        let k = choose|k: int| 0 <= k < commands.len() && #[trigger] needs_offscreen(commands[k]);
        assert(scene.command_follows(commands, k));
        law_end_closes_innermost_group(scene, commands, requirements, k);
        assert(scene.batch_placed(bs, k));
        match commands[k] {
            RenderCommand::BeginFilter { boundary_index, target } => {
                assert(target is Isolated);
                assert(start_is_matched(bounds, boundary_index as int));
                assert(0 <= boundary_index < bounds.len() && bounds[boundary_index as int].is_start);
            },
            RenderCommand::Batch(b) => {
                assert(b is BackdropFilters);
                lemma_emitted_monotone(scene, bs, k + 1, n, 8);
                lemma_emitted_monotone(scene, bs, k, n, 8);
                assert(emitted(bs, k + 1, 8) == batch_end(bs[k]));
                assert(batch_end(bs[k]) <= scene.stream_len(8));
                assert(batch_start(bs[k]) < batch_end(bs[k]));
            },
            _ => {},
        }
    }
}

/// With depth at least the pool size at a begin command, some open group is isolated.
proof fn lemma_open_groups_use_distinct_targets_at(
    scene: &Scene,
    commands: Seq<RenderCommand>,
    requirements: ScenePlanRequirements,
    k: int,
)
    requires
        scene.plan_describes(commands, requirements),
        0 <= k < commands.len(),
        commands[k] matches RenderCommand::BeginFilter { boundary_index, target } && !(target is Isolated)
            && start_is_matched(scene.filter_boundaries@, boundary_index as int),
    ensures
        isolated_count(open_groups(commands, k)) > 0,
{
    assert(scene.command_follows(commands, k));
}

/// The number of the first `k` commands that draw a non-empty batch of shadows, quads,
/// underlines or sprites.
pub open spec fn instanced_batches(commands: Seq<RenderCommand>, k: int) -> int
    decreases k,
{
    if k <= 0 {
        0
    } else {
        instanced_batches(commands, k - 1) + match commands[k - 1] {
            RenderCommand::Batch(PrimitiveBatch::Shadows { range, .. })
            | RenderCommand::Batch(PrimitiveBatch::Quads { range, .. })
            | RenderCommand::Batch(PrimitiveBatch::Underlines(range))
            | RenderCommand::Batch(PrimitiveBatch::MonochromeSprites { range, .. })
            | RenderCommand::Batch(PrimitiveBatch::SubpixelSprites { range, .. })
            | RenderCommand::Batch(PrimitiveBatch::PolychromeSprites { range, .. }) => if range.start < range.end {
                1int
            } else {
                0int
            },
            _ => 0int,
        }
    }
}

/// The number of the first `k` commands that draw a batch of paths with vertices.
pub open spec fn rasterized_path_batches(commands: Seq<RenderCommand>, k: int) -> int
    decreases k,
{
    if k <= 0 {
        0
    } else {
        rasterized_path_batches(commands, k - 1) + match commands[k - 1] {
            RenderCommand::Batch(PrimitiveBatch::Paths { rasterization_vertex_count, .. }) => if rasterization_vertex_count > 0 {
                1int
            } else {
                0int
            },
            _ => 0int,
        }
    }
}

/// Law: a plan counts one instanced draw per non-empty batch of shadows, quads, underlines
/// or sprites, and two per batch of paths with vertices (their rasterization and their
/// sprites), where the total fits a `usize`.
pub proof fn law_instance_batches_count_draws(commands: Seq<RenderCommand>, k: int)
    requires
        0 <= k <= commands.len(),
        instanced_batches(commands, k) + 2 * rasterized_path_batches(commands, k) <= usize::MAX,
    ensures
        tally(commands, k).instance_batch_count == instanced_batches(commands, k) + 2 * rasterized_path_batches(
            commands,
            k,
        ),
    decreases k,
{
    if k > 0 {
        lemma_draw_counts_nonneg(commands, k - 1);
        assert(instanced_batches(commands, k - 1) <= instanced_batches(commands, k));
        assert(rasterized_path_batches(commands, k - 1) <= rasterized_path_batches(commands, k));
        law_instance_batches_count_draws(commands, k - 1);
    }
}

/// Law: the requirements of a plan count one instanced draw per non-empty batch of shadows,
/// quads, underlines or sprites, and two per batch of paths with vertices.
pub proof fn law_plan_counts_instance_draws(scene: &Scene, commands: Seq<RenderCommand>, requirements: ScenePlanRequirements)
    requires
        scene.plan_describes(commands, requirements),
        instanced_batches(commands, commands.len() as int) + 2 * rasterized_path_batches(commands, commands.len() as int)
            <= usize::MAX,
    ensures
        requirements.instance_batch_count == instanced_batches(commands, commands.len() as int) + 2
            * rasterized_path_batches(commands, commands.len() as int),
{
    law_instance_batches_count_draws(commands, commands.len() as int);
}

proof fn lemma_draw_counts_nonneg(commands: Seq<RenderCommand>, k: int)
    ensures
        instanced_batches(commands, k) >= 0,
        rasterized_path_batches(commands, k) >= 0,
    decreases k,
{
    if k > 0 {
        lemma_draw_counts_nonneg(commands, k - 1);
    }
}

} // verus!
