//! The scene: every primitive painted in a frame, grouped by kind.
use super::batch::{vertex_sum, PrimitiveBatch, STREAM_COUNT};
use super::plan::{
    command_batch, command_batches, no_requirements, RenderCommand, SceneLengths, ScenePlan,
    ScenePlanRequirements,
};
use super::primitives::{
    key_lt, BackdropFilter, DrawOrder, FilterBoundary, MonochromeSprite, PaintSurface, Path,
    PathId, PolychromeSprite, Primitive, Quad, Shadow, SubpixelSprite, Underline,
};
use super::sort::{is_stable_sort_of, keys_ascend, lemma_stable_sort_ascends, sort_by_key_stable, stable_permutation, SortKey};
use super::painted::Painted;
use vstd::prelude::*;

verus! {

/// One recorded paint operation, in the order the frame painted them.
#[derive(Clone, Copy, Debug, PartialEq, Eq, Structural)]
pub enum PaintOperation {
    /// A primitive, as it was inserted.
    Primitive(Primitive),
    /// A surface inserted with an opacity, kept as the bit pattern of an `f32`.
    Surface { surface: PaintSurface, opacity: u32 },
    /// The start of a layer whose primitives share one draw order.
    StartLayer(DrawOrder),
    /// The end of the innermost layer.
    EndLayer,
}

/// The bit pattern of the `f32` opacity 1.0: fully opaque.
pub const OPAQUE: u32 = 0x3f80_0000;

/// A surface together with its opacity, so that the two are sorted as one.
#[derive(Clone, Copy, Debug, PartialEq, Eq, Structural)]
pub struct SurfaceWithOpacity {
    pub surface: PaintSurface,
    pub opacity: u32,
}

impl SortKey for SurfaceWithOpacity {
    open spec fn key_spec(&self) -> int {
        self.surface.order as int
    }

    fn sort_key(&self) -> (k: u64) {
        self.surface.order as u64
    }
}

/// The opacities of `n` surfaces: those given, and fully opaque for the rest.
pub open spec fn padded_opacities(n: nat, opacities: Seq<u32>) -> Seq<u32> {
    Seq::new(n, |i: int| if i < opacities.len() { opacities[i] } else { OPAQUE })
}

/// Each surface paired with the opacity at the same position.
pub open spec fn paired(surfaces: Seq<PaintSurface>, opacities: Seq<u32>) -> Seq<SurfaceWithOpacity> {
    Seq::new(surfaces.len(), |i: int| SurfaceWithOpacity { surface: surfaces[i], opacity: opacities[i] })
}

/// The surfaces of paired surfaces.
pub open spec fn surfaces_of(pairs: Seq<SurfaceWithOpacity>) -> Seq<PaintSurface> {
    Seq::new(pairs.len(), |i: int| pairs[i].surface)
}

/// The opacities of paired surfaces.
pub open spec fn opacities_of(pairs: Seq<SurfaceWithOpacity>) -> Seq<u32> {
    Seq::new(pairs.len(), |i: int| pairs[i].opacity)
}

/// Sorting surfaces with their opacities sorts the surfaces.
proof fn lemma_pairs_sort_surfaces(sorted: Seq<SurfaceWithOpacity>, unsorted: Seq<SurfaceWithOpacity>)
    requires
        is_stable_sort_of(sorted, unsorted),
    ensures
        is_stable_sort_of(surfaces_of(sorted), surfaces_of(unsorted)),
{
    let p = choose|p: Seq<int>| stable_permutation(p, sorted, unsorted);
    assert(stable_permutation(p, surfaces_of(sorted), surfaces_of(unsorted)));
}

/// Every primitive painted in one frame, one list per kind, plus the compiled render plan.
///
/// The paint record, layer stack, plan and finished flag are maintained by the methods
/// below; the primitive lists may be edited directly before `finish`.
pub struct Scene {
    pub paint_operations: Vec<PaintOperation>,
    pub layer_stack: Vec<DrawOrder>,
    pub shadows: Vec<Shadow>,
    pub quads: Vec<Quad>,
    pub paths: Vec<Path>,
    pub underlines: Vec<Underline>,
    pub monochrome_sprites: Vec<MonochromeSprite>,
    pub subpixel_sprites: Vec<SubpixelSprite>,
    pub polychrome_sprites: Vec<PolychromeSprite>,
    pub surfaces: Vec<PaintSurface>,
    /// The opacity of each surface, as the bit pattern of an `f32`.
    pub surface_opacities: Vec<u32>,
    pub backdrop_filters: Vec<BackdropFilter>,
    pub filter_boundaries: Vec<FilterBoundary>,
    /// The largest draw order handed out so far; 0 before any.
    pub max_order: DrawOrder,
    /// The least order that content placed from now on outside layers may take.
    pub order_floor: DrawOrder,
    pub render_plan: ScenePlan,
    pub is_finished: bool,
}

/// The vertex total of a path list, as a fold.
pub open spec fn add_vertices(total: int, path: Path) -> int {
    total + path.vertex_count
}

proof fn lemma_vertex_sum_is_fold(paths: Seq<Path>, n: int)
    requires
        0 <= n <= paths.len(),
    ensures
        vertex_sum(paths, 0, n) == paths.take(n).fold_left(0int, |t: int, p: Path| add_vertices(t, p)),
    decreases n,
{
    if n > 0 {
        lemma_vertex_sum_is_fold(paths, n - 1);
        assert(paths.take(n).drop_last() == paths.take(n - 1));
    }
}

/// Reordering paths keeps their vertex total.
proof fn lemma_vertex_total_permutation(sorted: Seq<Path>, unsorted: Seq<Path>)
    requires
        sorted.to_multiset() == unsorted.to_multiset(),
    ensures
        vertex_sum(sorted, 0, sorted.len() as int) == vertex_sum(unsorted, 0, unsorted.len() as int),
{
    let f = |t: int, p: Path| add_vertices(t, p);
    vstd::seq_lib::lemma_multiset_commutative(sorted, unsorted);
    sorted.to_multiset_ensures();
    unsorted.to_multiset_ensures();
    assert(sorted.len() == unsorted.len()) by {
        vstd::seq_lib::to_multiset_len(sorted);
        vstd::seq_lib::to_multiset_len(unsorted);
    }
    lemma_vertex_sum_is_fold(sorted, sorted.len() as int);
    lemma_vertex_sum_is_fold(unsorted, unsorted.len() as int);
    assert(sorted.take(sorted.len() as int) == sorted);
    assert(unsorted.take(unsorted.len() as int) == unsorted);
    vstd::seq_lib::lemma_fold_left_permutation(sorted, unsorted, f, 0int);
}

/// A stream sorted by its list key is sorted by batching key.
proof fn lemma_sorted_stream(scene: &Scene, s: int)
    requires
        0 <= s < STREAM_COUNT,
        s == 0 ==> keys_ascend(scene.shadows@),
        s == 1 ==> keys_ascend(scene.quads@),
        s == 2 ==> keys_ascend(scene.paths@),
        s == 3 ==> keys_ascend(scene.underlines@),
        s == 4 ==> keys_ascend(scene.monochrome_sprites@),
        s == 5 ==> keys_ascend(scene.subpixel_sprites@),
        s == 6 ==> keys_ascend(scene.polychrome_sprites@),
        s == 7 ==> keys_ascend(scene.surfaces@),
        s == 8 ==> keys_ascend(scene.backdrop_filters@),
        s == 9 ==> keys_ascend(scene.filter_boundaries@),
    ensures
        forall|i: int, j: int|
            0 <= i <= j < scene.stream_len(s) ==> !key_lt(
                #[trigger] scene.key_at(s, j),
                #[trigger] scene.key_at(s, i),
            ),
{
    assert forall|i: int, j: int| 0 <= i <= j < scene.stream_len(s) implies !key_lt(
        #[trigger] scene.key_at(s, j),
        #[trigger] scene.key_at(s, i),
    ) by {
        if s == 0 {
            assert(scene.shadows@[i].key_spec() <= scene.shadows@[j].key_spec());
        } else if s == 1 {
            assert(scene.quads@[i].key_spec() <= scene.quads@[j].key_spec());
        } else if s == 2 {
            assert(scene.paths@[i].key_spec() <= scene.paths@[j].key_spec());
        } else if s == 3 {
            assert(scene.underlines@[i].key_spec() <= scene.underlines@[j].key_spec());
        } else if s == 4 {
            assert(scene.monochrome_sprites@[i].key_spec() <= scene.monochrome_sprites@[j].key_spec());
        } else if s == 5 {
            assert(scene.subpixel_sprites@[i].key_spec() <= scene.subpixel_sprites@[j].key_spec());
        } else if s == 6 {
            assert(scene.polychrome_sprites@[i].key_spec() <= scene.polychrome_sprites@[j].key_spec());
        } else if s == 7 {
            assert(scene.surfaces@[i].key_spec() <= scene.surfaces@[j].key_spec());
        } else if s == 8 {
            assert(scene.backdrop_filters@[i].key_spec() <= scene.backdrop_filters@[j].key_spec());
        } else {
            assert(scene.filter_boundaries@[i].key_spec() <= scene.filter_boundaries@[j].key_spec());
        }
    }
}

/// Whether a plan describes a scene depends on the scene's primitive lists alone.
proof fn lemma_plan_describes_primitives(a: Scene, b: Scene, commands: Seq<RenderCommand>, requirements: ScenePlanRequirements)
    requires
        a.same_primitives(b),
        a.plan_describes(commands, requirements),
    ensures
        b.plan_describes(commands, requirements),
{
    assert forall|s: int, i: int|
        #![trigger b.key_at(s, i)]
        #![trigger a.key_at(s, i)]
        b.key_at(s, i) == a.key_at(s, i) by {}
    assert forall|s: int|
        #![trigger b.stream_len(s)]
        #![trigger a.stream_len(s)]
        b.stream_len(s) == a.stream_len(s) by {}
    assert forall|s: int, x: int, y: int| #[trigger] b.joins(s, x, y) == a.joins(s, x, y) && b.batch_for(s, x, y) == a.batch_for(s, x, y) by {}
    let bs = command_batches(commands);
    assert forall|k: int| 0 <= k < bs.len() implies #[trigger] b.batch_placed(bs, k) by {
        assert(a.batch_placed(bs, k));
    }
    assert forall|k: int| 0 <= k < commands.len() implies #[trigger] b.command_follows(commands, k) by {
        assert(a.command_follows(commands, k));
    }
    assert(b.streams_sorted() == a.streams_sorted());
    assert(b.batches_partition(bs));
    assert(b.batches_maximal(bs) == a.batches_maximal(bs));
    assert(b.batches_in_key_order(bs) == a.batches_in_key_order(bs));
}

/// An empty render plan.
pub open spec fn empty_plan_spec(plan: ScenePlan) -> bool {
    &&& plan.commands@.len() == 0
    &&& plan.requirements == no_requirements()
    &&& plan.scene_lengths == SceneLengths {
        shadows: 0,
        quads: 0,
        paths: 0,
        underlines: 0,
        monochrome_sprites: 0,
        subpixel_sprites: 0,
        polychrome_sprites: 0,
        surfaces: 0,
        backdrop_filters: 0,
        filter_boundaries: 0,
    }
}

impl ScenePlan {
    /// An empty plan.
    pub fn empty() -> (r: Self)
        ensures
            empty_plan_spec(r),
    {
        ScenePlan {
            commands: Vec::new(),
            requirements: ScenePlanRequirements::new(),
            scene_lengths: SceneLengths {
                shadows: 0,
                quads: 0,
                paths: 0,
                underlines: 0,
                monochrome_sprites: 0,
                subpixel_sprites: 0,
                polychrome_sprites: 0,
                surfaces: 0,
                backdrop_filters: 0,
                filter_boundaries: 0,
            },
        }
    }

    /// Forgets every command and total, keeping the command allocation.
    pub fn clear(&mut self)
        ensures
            empty_plan_spec(*final(self)),
    {
        self.commands.clear();
        self.requirements = ScenePlanRequirements::new();
        self.scene_lengths = SceneLengths {
            shadows: 0,
            quads: 0,
            paths: 0,
            underlines: 0,
            monochrome_sprites: 0,
            subpixel_sprites: 0,
            polychrome_sprites: 0,
            surfaces: 0,
            backdrop_filters: 0,
            filter_boundaries: 0,
        };
    }

    /// Returns the ordered rendering commands.
    pub fn commands(&self) -> (r: &[RenderCommand])
        ensures
            r@ == self.commands@,
    {
        self.commands.as_slice()
    }

    /// Returns the resource totals collected while compiling this plan.
    pub fn requirements(&self) -> (r: &ScenePlanRequirements)
        ensures
            *r == self.requirements,
    {
        &self.requirements
    }
}

impl Scene {
    /// Nothing painted, no layer open, an empty unfinished plan.
    pub open spec fn is_empty_spec(&self) -> bool {
        &&& self.paint_operations@.len() == 0
        &&& self.layer_stack@.len() == 0
        &&& self.shadows@.len() == 0
        &&& self.quads@.len() == 0
        &&& self.paths@.len() == 0
        &&& self.underlines@.len() == 0
        &&& self.monochrome_sprites@.len() == 0
        &&& self.subpixel_sprites@.len() == 0
        &&& self.polychrome_sprites@.len() == 0
        &&& self.surfaces@.len() == 0
        &&& self.surface_opacities@.len() == 0
        &&& self.backdrop_filters@.len() == 0
        &&& self.filter_boundaries@.len() == 0
        &&& self.max_order == 0
        &&& self.order_floor == 0
        &&& empty_plan_spec(self.render_plan)
        &&& !self.is_finished
    }

    /// An empty scene.
    pub fn new() -> (r: Self)
        ensures
            r.is_empty_spec(),
    {
        Scene {
            paint_operations: Vec::new(),
            layer_stack: Vec::new(),
            shadows: Vec::new(),
            quads: Vec::new(),
            paths: Vec::new(),
            underlines: Vec::new(),
            monochrome_sprites: Vec::new(),
            subpixel_sprites: Vec::new(),
            polychrome_sprites: Vec::new(),
            surfaces: Vec::new(),
            surface_opacities: Vec::new(),
            backdrop_filters: Vec::new(),
            filter_boundaries: Vec::new(),
            render_plan: ScenePlan::empty(),
            max_order: 0,
            order_floor: 0,
            is_finished: false,
        }
    }

    /// Forgets everything painted, keeping the plan's command allocation for the next frame.
    pub fn clear(&mut self)
        ensures
            final(self).is_empty_spec(),
    {
        self.paint_operations.clear();
        self.layer_stack.clear();
        self.paths.clear();
        self.shadows.clear();
        self.quads.clear();
        self.underlines.clear();
        self.monochrome_sprites.clear();
        self.subpixel_sprites.clear();
        self.polychrome_sprites.clear();
        self.surfaces.clear();
        self.surface_opacities.clear();
        self.backdrop_filters.clear();
        self.filter_boundaries.clear();
        self.render_plan.clear();
        self.max_order = 0;
        self.order_floor = 0;
        self.is_finished = false;
    }

    /// Raises the floor so that every primitive inserted afterwards outside layers, and every
    /// layer opened afterwards, sorts above everything inserted before.
    pub fn raise_order_floor(&mut self)
        requires
            old(self).max_order < DrawOrder::MAX,
        ensures
            final(self).painted() == old(self).painted().raise_floor(),
            final(self).order_floor == old(self).max_order + 1,
            final(self).render_plan == old(self).render_plan,
            !final(self).is_finished,
    {
        self.is_finished = false;
        self.order_floor = self.max_order + 1;
    }

    /// The number of recorded paint operations.
    pub fn len(&self) -> (r: usize)
        ensures
            r == self.paint_operations@.len(),
    {
        self.paint_operations.len()
    }

    /// Opens a layer: until it is popped, every primitive except filter boundaries is
    /// drawn at the layer's order: `order`, the order its bounds received, but never below
    /// the floor.
    pub fn push_layer(&mut self, order: DrawOrder)
        ensures
            final(self).painted() == old(self).painted().push_layer(order),
            !final(self).is_finished,
            final(self).same_primitives(*old(self)),
            final(self).render_plan == old(self).render_plan,
    {
        self.is_finished = false;
        let order = if order < self.order_floor {
            self.order_floor
        } else {
            order
        };
        self.layer_stack.push(order);
        if self.max_order < order {
            self.max_order = order;
        }
        self.paint_operations.push(PaintOperation::StartLayer(order));
    }

    /// Closes the innermost layer, if any.
    pub fn pop_layer(&mut self)
        ensures
            final(self).painted() == old(self).painted().pop_layer(),
            !final(self).is_finished,
            final(self).same_primitives(*old(self)),
            final(self).render_plan == old(self).render_plan,
    {
        self.is_finished = false;
        let _ = self.layer_stack.pop();
        self.paint_operations.push(PaintOperation::EndLayer);
    }

    /// What painting has built up in this scene.
    pub open spec fn painted(&self) -> Painted {
        Painted {
            operations: self.paint_operations@,
            layers: self.layer_stack@,
            max_order: self.max_order,
            floor: self.order_floor,
            shadows: self.shadows@,
            quads: self.quads@,
            paths: self.paths@,
            underlines: self.underlines@,
            monochrome_sprites: self.monochrome_sprites@,
            subpixel_sprites: self.subpixel_sprites@,
            polychrome_sprites: self.polychrome_sprites@,
            surfaces: self.surfaces@,
            surface_opacities: self.surface_opacities@,
            backdrop_filters: self.backdrop_filters@,
            filter_boundaries: self.filter_boundaries@,
        }
    }

    /// The primitive lists of two scenes agree.
    pub open spec fn same_primitives(&self, other: Scene) -> bool {
        &&& self.shadows@ == other.shadows@
        &&& self.quads@ == other.quads@
        &&& self.paths@ == other.paths@
        &&& self.underlines@ == other.underlines@
        &&& self.monochrome_sprites@ == other.monochrome_sprites@
        &&& self.subpixel_sprites@ == other.subpixel_sprites@
        &&& self.polychrome_sprites@ == other.polychrome_sprites@
        &&& self.surfaces@ == other.surfaces@
        &&& self.backdrop_filters@ == other.backdrop_filters@
        &&& self.filter_boundaries@ == other.filter_boundaries@
    }

    /// Records a primitive. A primitive whose bounds clipped to its content mask are empty
    /// draws nothing and is dropped, unless it is a filter boundary: boundaries always come
    /// in pairs. A filter boundary takes the order one above the largest handed out so far,
    /// above all earlier content, and an end marker raises the floor above itself. Anything
    /// else shares the order of the innermost open layer or, outside layers, takes the
    /// order its bounds received, but never below the floor.
    pub fn insert_primitive(&mut self, primitive: Primitive, clipped_bounds_empty: bool)
        requires
            old(self).painted().fits(PaintOperation::Primitive(primitive)),
        ensures
            final(self).painted() == old(self).painted().insert_clipped(primitive, clipped_bounds_empty),
            primitive matches Primitive::FilterBoundary(b) ==> {
                &&& final(self).max_order == old(self).max_order + 1
                &&& final(self).filter_boundaries@.last().order == old(self).max_order + 1
                &&& final(self).order_floor == (if b.is_start {
                    old(self).order_floor as int
                } else {
                    old(self).max_order + 2
                })
            },
            final(self).render_plan == old(self).render_plan,
            !final(self).is_finished,
    {
        self.insert_with_opacity(primitive, None, clipped_bounds_empty);
    }

    /// Records a surface drawn at `opacity` (the bit pattern of an `f32`), which is kept
    /// beside it and in the paint record; dropped when its clipped bounds are empty.
    pub fn insert_surface(&mut self, surface: PaintSurface, opacity: u32, clipped_bounds_empty: bool)
        ensures
            final(self).painted() == old(self).painted().insert_clipped_with_opacity(
                Primitive::Surface(surface),
                Some(opacity),
                clipped_bounds_empty,
            ),
            final(self).render_plan == old(self).render_plan,
            !final(self).is_finished,
    {
        self.insert_with_opacity(Primitive::Surface(surface), Some(opacity), clipped_bounds_empty);
    }

    /// The opacity of each surface, as the bit pattern of an `f32`; surfaces inserted
    /// without one are fully opaque.
    pub fn surface_opacities(&self) -> (r: &[u32])
        ensures
            r@ == self.surface_opacities@,
    {
        self.surface_opacities.as_slice()
    }

    fn insert_with_opacity(&mut self, primitive: Primitive, opacity: Option<u32>, clipped_bounds_empty: bool)
        requires
            old(self).painted().fits(PaintOperation::Primitive(primitive)),
        ensures
            final(self).painted() == old(self).painted().insert_clipped_with_opacity(primitive, opacity, clipped_bounds_empty),
            primitive matches Primitive::FilterBoundary(b) ==> {
                &&& final(self).max_order == old(self).max_order + 1
                &&& final(self).filter_boundaries@.last().order == old(self).max_order + 1
                &&& final(self).order_floor == (if b.is_start {
                    old(self).order_floor as int
                } else {
                    old(self).max_order + 2
                })
            },
            final(self).render_plan == old(self).render_plan,
            !final(self).is_finished,
    {
        self.is_finished = false;
        let depth = self.layer_stack.len();
        let is_boundary = match primitive {
            Primitive::FilterBoundary(_) => true,
            _ => false,
        };
        if clipped_bounds_empty && !is_boundary {
            return;
        }
        let order = match primitive {
            Primitive::FilterBoundary(_) => self.max_order + 1,
            _ => {
                if depth > 0 {
                    self.layer_stack[depth - 1]
                } else {
                    let given = primitive.order();
                    if given < self.order_floor {
                        self.order_floor
                    } else {
                        given
                    }
                }
            },
        };
        let placed = match primitive {
            Primitive::Shadow(p) => {
                let p = Shadow { order, ..p };
                self.shadows.push(p);
                Primitive::Shadow(p)
            },
            Primitive::Quad(p) => {
                let p = Quad { order, ..p };
                self.quads.push(p);
                Primitive::Quad(p)
            },
            Primitive::Path(p) => {
                let p = Path { order, id: PathId(self.paths.len()), ..p };
                self.paths.push(p);
                Primitive::Path(p)
            },
            Primitive::Underline(p) => {
                let p = Underline { order, ..p };
                self.underlines.push(p);
                Primitive::Underline(p)
            },
            Primitive::MonochromeSprite(p) => {
                let p = MonochromeSprite { order, ..p };
                self.monochrome_sprites.push(p);
                Primitive::MonochromeSprite(p)
            },
            Primitive::SubpixelSprite(p) => {
                let p = SubpixelSprite { order, ..p };
                self.subpixel_sprites.push(p);
                Primitive::SubpixelSprite(p)
            },
            Primitive::PolychromeSprite(p) => {
                let p = PolychromeSprite { order, ..p };
                self.polychrome_sprites.push(p);
                Primitive::PolychromeSprite(p)
            },
            Primitive::Surface(p) => {
                let p = PaintSurface { order, ..p };
                self.surfaces.push(p);
                self.surface_opacities.push(
                    match opacity {
                        Some(o) => o,
                        None => OPAQUE,
                    },
                );
                Primitive::Surface(p)
            },
            Primitive::BackdropFilter(p) => {
                let p = BackdropFilter { order, ..p };
                self.backdrop_filters.push(p);
                Primitive::BackdropFilter(p)
            },
            Primitive::FilterBoundary(p) => {
                let p = FilterBoundary { order, ..p };
                self.filter_boundaries.push(p);
                if !p.is_start {
                    self.order_floor = order + 1;
                }
                Primitive::FilterBoundary(p)
            },
        };
        if depth == 0 || is_boundary {
            if self.max_order < order {
                self.max_order = order;
            }
        }
        let recorded = match (placed, opacity) {
            (Primitive::Surface(surface), Some(o)) => PaintOperation::Surface { surface, opacity: o },
            _ => PaintOperation::Primitive(placed),
        };
        self.paint_operations.push(recorded);
        assert(self.painted() =~= old(self).painted().insert_with_opacity(primitive, opacity));
    }

    /// Performs again the operations that `previous` recorded in `range`, in order.
    pub fn replay(&mut self, range: core::ops::Range<usize>, previous: &Scene)
        requires
            range.start <= range.end <= previous.paint_operations@.len(),
            old(self).painted().replay_fits(previous.paint_operations@.subrange(range.start as int, range.end as int)),
        ensures
            final(self).painted() == old(self).painted().replay(
                previous.paint_operations@.subrange(range.start as int, range.end as int),
            ),
            final(self).render_plan == old(self).render_plan,
            range.start < range.end ==> !final(self).is_finished,
            range.start == range.end ==> final(self).is_finished == old(self).is_finished,
    {
        let ghost recorded = previous.paint_operations@.subrange(range.start as int, range.end as int);
        let mut i: usize = range.start;
        while i < range.end
            invariant
                range.start <= i <= range.end <= previous.paint_operations@.len(),
                recorded == previous.paint_operations@.subrange(range.start as int, range.end as int),
                self.painted() == old(self).painted().replay(recorded.take(i - range.start)),
                old(self).painted().replay_fits(recorded),
                self.render_plan == old(self).render_plan,
                i > range.start ==> !self.is_finished,
                i == range.start ==> self.is_finished == old(self).is_finished,
            decreases range.end - i,
        {
            let operation = previous.paint_operations[i];
            proof {
                super::painted::lemma_replay_fits_step(old(self).painted(), recorded, i - range.start);
            }
            match operation {
                PaintOperation::Primitive(primitive) => self.insert_primitive(primitive, false),
                PaintOperation::Surface { surface, opacity } => self.insert_surface(surface, opacity, false),
                PaintOperation::StartLayer(order) => self.push_layer(order),
                PaintOperation::EndLayer => self.pop_layer(),
            }
            proof {
                assert(recorded.take(i + 1 - range.start).drop_last() =~= recorded.take(i - range.start));
            }
            i = i + 1;
        }
        proof {
            assert(recorded.take(range.end - range.start) =~= recorded);
        }
    }
}

/// The batch a command stands for.
pub fn batch_of_command(command: &RenderCommand) -> (r: PrimitiveBatch)
    ensures
        r == command_batch(*command),
{
    match command {
        RenderCommand::Batch(batch) => super::plan::copy_batch(batch),
        RenderCommand::BeginFilter { boundary_index, .. } => PrimitiveBatch::FilterBoundary(
            *boundary_index,
        ),
        RenderCommand::EndFilter { closing_boundary_index, .. } => PrimitiveBatch::FilterBoundary(
            *closing_boundary_index,
        ),
    }
}

impl Scene {
    /// The plan was compiled by `finish` from the primitive lists as they are now (by
    /// length: editing a list directly after `finish` calls for another `finish`).
    pub open spec fn plan_is_current(&self) -> bool {
        &&& self.is_finished
        &&& self.render_plan.scene_lengths == self.lengths_spec()
    }

    /// Sorts every primitive list into drawing order and compiles the render plan.
    ///
    /// Each list is stably sorted by draw order (sprites then by tile, and a filter start
    /// before an end of the same order); the plan is then built from the sorted lists.
    pub fn finish(&mut self)
        requires
            old(self).fits_in_memory(),
        ensures
            is_stable_sort_of(final(self).shadows@, old(self).shadows@),
            is_stable_sort_of(final(self).quads@, old(self).quads@),
            is_stable_sort_of(final(self).paths@, old(self).paths@),
            is_stable_sort_of(final(self).underlines@, old(self).underlines@),
            is_stable_sort_of(final(self).monochrome_sprites@, old(self).monochrome_sprites@),
            is_stable_sort_of(final(self).subpixel_sprites@, old(self).subpixel_sprites@),
            is_stable_sort_of(final(self).polychrome_sprites@, old(self).polychrome_sprites@),
            is_stable_sort_of(final(self).surfaces@, old(self).surfaces@),
            is_stable_sort_of(
                paired(final(self).surfaces@, final(self).surface_opacities@),
                paired(old(self).surfaces@, padded_opacities(old(self).surfaces@.len(), old(self).surface_opacities@)),
            ),
            final(self).surface_opacities@.len() == final(self).surfaces@.len(),
            is_stable_sort_of(final(self).backdrop_filters@, old(self).backdrop_filters@),
            is_stable_sort_of(final(self).filter_boundaries@, old(self).filter_boundaries@),
            final(self).streams_sorted(),
            final(self).plan_describes(final(self).render_plan.commands@, final(self).render_plan.requirements),
            final(self).plan_is_current(),
            final(self).paint_operations@ == old(self).paint_operations@,
            final(self).layer_stack@ == old(self).layer_stack@,
    {
        sort_by_key_stable(&mut self.shadows);
        sort_by_key_stable(&mut self.quads);
        sort_by_key_stable(&mut self.paths);
        sort_by_key_stable(&mut self.underlines);
        sort_by_key_stable(&mut self.monochrome_sprites);
        sort_by_key_stable(&mut self.subpixel_sprites);
        sort_by_key_stable(&mut self.polychrome_sprites);
        self.sort_surfaces_with_opacities();
        sort_by_key_stable(&mut self.backdrop_filters);
        sort_by_key_stable(&mut self.filter_boundaries);
        proof {
            lemma_stable_sort_ascends(self.shadows@, old(self).shadows@);
            lemma_stable_sort_ascends(self.quads@, old(self).quads@);
            lemma_stable_sort_ascends(self.paths@, old(self).paths@);
            lemma_stable_sort_ascends(self.underlines@, old(self).underlines@);
            lemma_stable_sort_ascends(self.monochrome_sprites@, old(self).monochrome_sprites@);
            lemma_stable_sort_ascends(self.subpixel_sprites@, old(self).subpixel_sprites@);
            lemma_stable_sort_ascends(self.polychrome_sprites@, old(self).polychrome_sprites@);
            lemma_stable_sort_ascends(self.surfaces@, old(self).surfaces@);
            lemma_stable_sort_ascends(self.backdrop_filters@, old(self).backdrop_filters@);
            lemma_stable_sort_ascends(self.filter_boundaries@, old(self).filter_boundaries@);
            lemma_vertex_total_permutation(self.paths@, old(self).paths@);
            assert forall|s: int, i: int, j: int|
                0 <= s < STREAM_COUNT && 0 <= i <= j < self.stream_len(s) implies !key_lt(
                #[trigger] self.key_at(s, j),
                #[trigger] self.key_at(s, i),
            ) by {
                lemma_sorted_stream(self, s);
            }
        }
        let mut commands: Vec<RenderCommand> = Vec::new();
        std::mem::swap(&mut commands, &mut self.render_plan.commands);
        let plan = ScenePlan::build(&*self, commands);
        let ghost before = *self;
        self.render_plan = plan;
        self.is_finished = true;
        proof {
            lemma_plan_describes_primitives(before, *self, self.render_plan.commands@, self.render_plan.requirements);
        }
    }

    /// Sorts the surfaces by order, carrying each one's opacity along; surfaces without an
    /// opacity are fully opaque, and opacities without a surface are dropped.
    fn sort_surfaces_with_opacities(&mut self)
        ensures
            is_stable_sort_of(final(self).surfaces@, old(self).surfaces@),
            is_stable_sort_of(
                paired(final(self).surfaces@, final(self).surface_opacities@),
                paired(old(self).surfaces@, padded_opacities(old(self).surfaces@.len(), old(self).surface_opacities@)),
            ),
            final(self).surface_opacities@.len() == final(self).surfaces@.len(),
            final(self).shadows@ == old(self).shadows@,
            final(self).quads@ == old(self).quads@,
            final(self).paths@ == old(self).paths@,
            final(self).underlines@ == old(self).underlines@,
            final(self).monochrome_sprites@ == old(self).monochrome_sprites@,
            final(self).subpixel_sprites@ == old(self).subpixel_sprites@,
            final(self).polychrome_sprites@ == old(self).polychrome_sprites@,
            final(self).backdrop_filters@ == old(self).backdrop_filters@,
            final(self).filter_boundaries@ == old(self).filter_boundaries@,
            final(self).paint_operations@ == old(self).paint_operations@,
            final(self).layer_stack@ == old(self).layer_stack@,
            final(self).render_plan == old(self).render_plan,
            final(self).max_order == old(self).max_order,
            final(self).order_floor == old(self).order_floor,
            final(self).is_finished == old(self).is_finished,
    {
        let mut surfaces: Vec<PaintSurface> = Vec::new();
        std::mem::swap(&mut surfaces, &mut self.surfaces);
        let mut opacities: Vec<u32> = Vec::new();
        std::mem::swap(&mut opacities, &mut self.surface_opacities);
        let ghost unsorted = paired(surfaces@, padded_opacities(surfaces@.len(), opacities@));
        let mut pairs: Vec<SurfaceWithOpacity> = Vec::new();
        let mut i: usize = 0;
        while i < surfaces.len()
            invariant
                i <= surfaces@.len(),
                unsorted == paired(surfaces@, padded_opacities(surfaces@.len(), opacities@)),
                pairs@ == unsorted.take(i as int),
            decreases surfaces@.len() - i,
        {
            let opacity = if i < opacities.len() {
                opacities[i]
            } else {
                OPAQUE
            };
            pairs.push(SurfaceWithOpacity { surface: surfaces[i], opacity });
            i = i + 1;
            assert(pairs@ =~= unsorted.take(i as int));
        }
        assert(pairs@ =~= unsorted);
        sort_by_key_stable(&mut pairs);
        let ghost sorted = pairs@;
        proof {
            lemma_stable_sort_ascends(sorted, unsorted);
        }
        let mut sorted_surfaces: Vec<PaintSurface> = Vec::new();
        let mut sorted_opacities: Vec<u32> = Vec::new();
        let mut j: usize = 0;
        while j < pairs.len()
            invariant
                pairs@ == sorted,
                j <= sorted.len(),
                sorted_surfaces@ == surfaces_of(sorted).take(j as int),
                sorted_opacities@ == opacities_of(sorted).take(j as int),
            decreases sorted.len() - j,
        {
            sorted_surfaces.push(pairs[j].surface);
            sorted_opacities.push(pairs[j].opacity);
            j = j + 1;
            assert(sorted_surfaces@ =~= surfaces_of(sorted).take(j as int));
            assert(sorted_opacities@ =~= opacities_of(sorted).take(j as int));
        }
        self.surfaces = sorted_surfaces;
        self.surface_opacities = sorted_opacities;
        proof {
            assert(self.surfaces@ =~= surfaces_of(sorted));
            assert(self.surface_opacities@ =~= opacities_of(sorted));
            assert(paired(self.surfaces@, self.surface_opacities@) =~= sorted);
            assert(surfaces_of(unsorted) =~= old(self).surfaces@);
            lemma_pairs_sort_surfaces(sorted, unsorted);
        }
    }

    /// Returns the compiled render plan for this finished scene.
    pub fn render_plan(&self) -> (r: &ScenePlan)
        requires
            self.plan_is_current(),
        ensures
            *r == self.render_plan,
    {
        &self.render_plan
    }

    /// Returns the backend-neutral sequence of work needed to render this scene.
    pub fn render_commands(&self) -> (r: &[RenderCommand])
        requires
            self.plan_is_current(),
        ensures
            r@ == self.render_plan.commands@,
    {
        self.render_plan.commands()
    }

    /// The batch each render command stands for, in order: a filter command stands for its
    /// own boundary marker.
    pub fn batches(&self) -> (r: Vec<PrimitiveBatch>)
        requires
            self.plan_is_current(),
        ensures
            r@ == command_batches(self.render_plan.commands@),
    {
        let commands = self.render_commands();
        let mut batches: Vec<PrimitiveBatch> = Vec::new();
        let mut k: usize = 0;
        while k < commands.len()
            invariant
                commands@ == self.render_plan.commands@,
                k <= commands@.len(),
                batches@ == command_batches(commands@).take(k as int),
            decreases commands@.len() - k,
        {
            batches.push(batch_of_command(&commands[k]));
            k = k + 1;
            assert(batches@ == command_batches(commands@).take(k as int));
        }
        assert(command_batches(commands@).take(k as int) == command_batches(commands@));
        batches
    }

    /// Whether rendering needs an offscreen scene target for backdrop or content filters.
    pub fn requires_offscreen_rendering(&self) -> (r: bool)
        requires
            self.plan_is_current(),
        ensures
            r == self.render_plan.requirements.uses_offscreen_target,
    {
        self.render_plan.requirements.uses_offscreen_target
    }
}

impl Default for Scene {
    /// An empty scene.
    fn default() -> (r: Self)
        ensures
            r.is_empty_spec(),
    {
        Scene::new()
    }
}

} // verus!
