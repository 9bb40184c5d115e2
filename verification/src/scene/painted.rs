//! What painting records: the paint operations, the open layers and the primitive lists,
//! and how each operation changes them. Replaying a recorded operation performs it again.
use super::primitives::{
    BackdropFilter, DrawOrder, FilterBoundary, MonochromeSprite, PaintSurface, Path, PathId,
    PolychromeSprite, Primitive, Quad, Shadow, SubpixelSprite, Underline,
};
use super::store::{PaintOperation, OPAQUE};
use vstd::prelude::*;

verus! {

/// The state that painting builds up in a scene.
#[verifier::ext_equal]
pub struct Painted {
    pub operations: Seq<PaintOperation>,
    pub layers: Seq<DrawOrder>,
    /// The largest draw order handed out so far; 0 before any.
    pub max_order: DrawOrder,
    /// The least order that content placed from now on outside layers may take.
    pub floor: DrawOrder,
    pub shadows: Seq<Shadow>,
    pub quads: Seq<Quad>,
    pub paths: Seq<Path>,
    pub underlines: Seq<Underline>,
    pub monochrome_sprites: Seq<MonochromeSprite>,
    pub subpixel_sprites: Seq<SubpixelSprite>,
    pub polychrome_sprites: Seq<PolychromeSprite>,
    pub surfaces: Seq<PaintSurface>,
    /// The opacity of each surface, as the bit pattern of an `f32`.
    pub surface_opacities: Seq<u32>,
    pub backdrop_filters: Seq<BackdropFilter>,
    pub filter_boundaries: Seq<FilterBoundary>,
}

impl Painted {
    /// The order `primitive` is drawn at. A filter boundary takes an order above all earlier
    /// content; anything else takes the order of the innermost open layer or, outside
    /// layers, the order its bounds received but never below the floor.
    pub open spec fn placement_order(self, primitive: Primitive) -> DrawOrder {
        if primitive is FilterBoundary {
            (self.max_order + 1) as DrawOrder
        } else if self.layers.len() > 0 {
            self.layers.last()
        } else {
            at_least(primitive.order_spec(), self.floor)
        }
    }

    /// The order a layer opened at `order` takes: never below the floor.
    pub open spec fn layer_order(self, order: DrawOrder) -> DrawOrder {
        at_least(order, self.floor)
    }

    /// Whether performing `operation` keeps every order within `DrawOrder`: a start marker
    /// needs one order above the largest, an end marker one more for the floor it raises.
    pub open spec fn fits(self, operation: PaintOperation) -> bool {
        match operation {
            PaintOperation::Primitive(Primitive::FilterBoundary(b)) =>
                self.max_order + (if b.is_start { 1int } else { 2int }) <= DrawOrder::MAX,
            _ => true,
        }
    }

    /// Whether every operation of a replay fits.
    pub open spec fn replay_fits(self, operations: Seq<PaintOperation>) -> bool
        decreases operations.len(),
    {
        if operations.len() == 0 {
            true
        } else {
            self.replay_fits(operations.drop_last()) && self.replay(operations.drop_last()).fits(
                operations.last(),
            )
        }
    }

    /// Raising the floor above everything so far, so that later content sorts above it.
    pub open spec fn raise_floor(self) -> Painted {
        Painted { floor: (self.max_order + 1) as DrawOrder, ..self }
    }

    /// `primitive` as it is recorded: at its placement order, and a path identified by its
    /// position in the path list.
    pub open spec fn placed(self, primitive: Primitive) -> Primitive {
        let order = self.placement_order(primitive);
        match primitive {
            Primitive::Path(p) => Primitive::Path(Path { order, id: PathId(self.paths.len() as usize), ..p }),
            _ => primitive.with_order_spec(order),
        }
    }

    /// The state with `primitive` appended to the list of its kind.
    pub open spec fn with_primitive(self, primitive: Primitive) -> Painted {
        match primitive {
            Primitive::Shadow(p) => Painted { shadows: self.shadows.push(p), ..self },
            Primitive::Quad(p) => Painted { quads: self.quads.push(p), ..self },
            Primitive::Path(p) => Painted { paths: self.paths.push(p), ..self },
            Primitive::Underline(p) => Painted { underlines: self.underlines.push(p), ..self },
            Primitive::MonochromeSprite(p) => Painted { monochrome_sprites: self.monochrome_sprites.push(p), ..self },
            Primitive::SubpixelSprite(p) => Painted { subpixel_sprites: self.subpixel_sprites.push(p), ..self },
            Primitive::PolychromeSprite(p) => Painted { polychrome_sprites: self.polychrome_sprites.push(p), ..self },
            Primitive::Surface(p) => Painted { surfaces: self.surfaces.push(p), ..self },
            Primitive::BackdropFilter(p) => Painted { backdrop_filters: self.backdrop_filters.push(p), ..self },
            Primitive::FilterBoundary(p) => Painted { filter_boundaries: self.filter_boundaries.push(p), ..self },
        }
    }

    /// Inserting a primitive: it is placed, stored, and recorded. The largest order grows
    /// to cover it, and an end marker raises the floor above itself, so that content
    /// painted after a closed group sorts after the group.
    pub open spec fn insert(self, primitive: Primitive) -> Painted {
        self.insert_with_opacity(primitive, None)
    }

    /// Inserting a primitive, with the opacity given for a surface if any: a surface's
    /// opacity is kept beside it (fully opaque when none is given), and a surface given an
    /// opacity is recorded with it.
    pub open spec fn insert_with_opacity(self, primitive: Primitive, opacity: Option<u32>) -> Painted {
        let placed = self.placed(primitive);
        let order = placed.order_spec();
        let stored = self.with_primitive(placed);
        Painted {
            operations: self.operations.push(
                match (placed, opacity) {
                    (Primitive::Surface(surface), Some(o)) => PaintOperation::Surface { surface, opacity: o },
                    _ => PaintOperation::Primitive(placed),
                },
            ),
            surface_opacities: if placed is Surface {
                self.surface_opacities.push(
                    match opacity {
                        Some(o) => o,
                        None => OPAQUE,
                    },
                )
            } else {
                self.surface_opacities
            },
            max_order: if primitive is FilterBoundary || self.layers.len() == 0 {
                at_least(self.max_order, order)
            } else {
                self.max_order
            },
            floor: match primitive {
                Primitive::FilterBoundary(b) => if b.is_start {
                    self.floor
                } else {
                    (order + 1) as DrawOrder
                },
                _ => self.floor,
            },
            ..stored
        }
    }

    /// Inserting a primitive whose bounds clipped to its content mask are empty or not: an
    /// empty one draws nothing and is dropped, unless it is a filter boundary.
    pub open spec fn insert_clipped(self, primitive: Primitive, clipped_bounds_empty: bool) -> Painted {
        self.insert_clipped_with_opacity(primitive, None, clipped_bounds_empty)
    }

    /// Inserting a primitive, with a surface opacity if any, whose clipped bounds are empty
    /// or not: an empty one is dropped, unless it is a filter boundary.
    pub open spec fn insert_clipped_with_opacity(self, primitive: Primitive, opacity: Option<u32>, clipped_bounds_empty: bool) -> Painted {
        if clipped_bounds_empty && !(primitive is FilterBoundary) {
            self
        } else {
            self.insert_with_opacity(primitive, opacity)
        }
    }

    /// Opening a layer whose bounds received `order`.
    pub open spec fn push_layer(self, order: DrawOrder) -> Painted {
        let order = self.layer_order(order);
        Painted {
            operations: self.operations.push(PaintOperation::StartLayer(order)),
            layers: self.layers.push(order),
            max_order: at_least(self.max_order, order),
            ..self
        }
    }

    /// Closing the innermost layer, if any.
    pub open spec fn pop_layer(self) -> Painted {
        Painted {
            operations: self.operations.push(PaintOperation::EndLayer),
            layers: if self.layers.len() > 0 {
                self.layers.drop_last()
            } else {
                self.layers
            },
            ..self
        }
    }

    /// Performing one recorded operation.
    pub open spec fn apply(self, operation: PaintOperation) -> Painted {
        match operation {
            PaintOperation::Primitive(p) => self.insert(p),
            PaintOperation::Surface { surface, opacity } => self.insert_with_opacity(
                Primitive::Surface(surface),
                Some(opacity),
            ),
            PaintOperation::StartLayer(order) => self.push_layer(order),
            PaintOperation::EndLayer => self.pop_layer(),
        }
    }

    /// Performing recorded operations in turn.
    pub open spec fn replay(self, operations: Seq<PaintOperation>) -> Painted
        decreases operations.len(),
    {
        if operations.len() == 0 {
            self
        } else {
            self.replay(operations.drop_last()).apply(operations.last())
        }
    }
}

/// The larger of two orders.
pub open spec fn at_least(order: DrawOrder, floor: DrawOrder) -> DrawOrder {
    if order < floor {
        floor
    } else {
        order
    }
}

/// Every step of a replay that fits fits.
pub proof fn lemma_replay_fits_step(state: Painted, operations: Seq<PaintOperation>, k: int)
    requires
        state.replay_fits(operations),
        0 <= k < operations.len(),
    ensures
        state.replay(operations.take(k)).fits(operations[k]),
    decreases operations.len(),
{
    if k == operations.len() - 1 {
        assert(operations.take(k) =~= operations.drop_last());
    } else {
        lemma_replay_fits_step(state, operations.drop_last(), k);
        assert(operations.drop_last().take(k) =~= operations.take(k));
    }
}

/// A primitive that has been placed is placed where it already is.
proof fn lemma_placed_is_stable(state: Painted, primitive: Primitive)
    ensures
        state.placed(state.placed(primitive)) == state.placed(primitive),
{
}

/// Performing an operation records it, and performing the recorded operation instead has
/// the same effect.
proof fn lemma_apply_recorded(state: Painted, operation: PaintOperation)
    ensures
        state.apply(operation).operations.len() == state.operations.len() + 1,
        state.apply(operation).operations.drop_last() == state.operations,
        state.apply(state.apply(operation).operations.last()) == state.apply(operation),
{
    match operation {
        PaintOperation::Primitive(p) => {
            lemma_placed_is_stable(state, p);
            assert(state.apply(operation).operations.drop_last() =~= state.operations);
        },
        PaintOperation::Surface { surface, opacity } => {
            lemma_placed_is_stable(state, Primitive::Surface(surface));
            assert(state.apply(operation).operations.drop_last() =~= state.operations);
        },
        _ => {
            assert(state.apply(operation).operations.drop_last() =~= state.operations);
        },
    }
}

/// Replaying never forgets what was recorded before it.
proof fn lemma_replay_extends(state: Painted, operations: Seq<PaintOperation>)
    ensures
        state.replay(operations).operations.len() == state.operations.len() + operations.len(),
        state.replay(operations).operations.take(state.operations.len() as int) == state.operations,
    decreases operations.len(),
{
    if operations.len() > 0 {
        let before = state.replay(operations.drop_last());
        lemma_replay_extends(state, operations.drop_last());
        lemma_apply_recorded(before, operations.last());
        let after = state.replay(operations);
        assert(after.operations.take(state.operations.len() as int) =~= before.operations.take(
            state.operations.len() as int,
        ));
    }
}

/// Replaying what a state recorded while it performed `operations`, from where it started,
/// reproduces that state: the same paint record, open layers and primitive lists.
pub proof fn law_replay_reproduces(start: Painted, operations: Seq<PaintOperation>)
    ensures
        ({
            let end = start.replay(operations);
            start.replay(end.operations.skip(start.operations.len() as int)) == end
        }),
    decreases operations.len(),
{
    lemma_replay_extends(start, operations);
    if operations.len() > 0 {
        let before = start.replay(operations.drop_last());
        let end = start.replay(operations);
        let n = start.operations.len() as int;
        law_replay_reproduces(start, operations.drop_last());
        lemma_replay_extends(start, operations.drop_last());
        lemma_apply_recorded(before, operations.last());
        let recorded = end.operations.skip(n);
        assert(recorded.drop_last() =~= before.operations.skip(n));
        assert(recorded.last() == end.operations.last());
    }
}

/// Closing a layer right after opening it restores the open layers, the floor and the
/// primitive lists; only the paint record and the largest order handed out grow.
pub proof fn law_pop_layer_undoes_push_layer(state: Painted, order: DrawOrder)
    ensures
        ({
            let after = state.push_layer(order).pop_layer();
            &&& after.layers == state.layers
            &&& after == Painted { operations: after.operations, max_order: after.max_order, ..state }
            &&& after.operations == state.operations.push(PaintOperation::StartLayer(state.layer_order(order))).push(
                PaintOperation::EndLayer,
            )
        }),
{
    assert(state.layers.push(order).drop_last() =~= state.layers);
}

impl Painted {
    /// Every open layer and every stored primitive has an order of at most `bound`.
    pub open spec fn orders_at_most(self, bound: int) -> bool {
        &&& forall|i: int| 0 <= i < self.layers.len() ==> #[trigger] self.layers[i] <= bound
        &&& forall|i: int| 0 <= i < self.shadows.len() ==> #[trigger] self.shadows[i].order <= bound
        &&& forall|i: int| 0 <= i < self.quads.len() ==> #[trigger] self.quads[i].order <= bound
        &&& forall|i: int| 0 <= i < self.paths.len() ==> #[trigger] self.paths[i].order <= bound
        &&& forall|i: int| 0 <= i < self.underlines.len() ==> #[trigger] self.underlines[i].order <= bound
        &&& forall|i: int| 0 <= i < self.monochrome_sprites.len() ==> #[trigger] self.monochrome_sprites[i].order <= bound
        &&& forall|i: int| 0 <= i < self.subpixel_sprites.len() ==> #[trigger] self.subpixel_sprites[i].order <= bound
        &&& forall|i: int| 0 <= i < self.polychrome_sprites.len() ==> #[trigger] self.polychrome_sprites[i].order <= bound
        &&& forall|i: int| 0 <= i < self.surfaces.len() ==> #[trigger] self.surfaces[i].order <= bound
        &&& forall|i: int| 0 <= i < self.backdrop_filters.len() ==> #[trigger] self.backdrop_filters[i].order <= bound
        &&& forall|i: int| 0 <= i < self.filter_boundaries.len() ==> #[trigger] self.filter_boundaries[i].order <= bound
    }

    /// The largest order handed out covers every layer and stored primitive, and the floor
    /// is at most one above it.
    pub open spec fn orders_bounded(self) -> bool {
        &&& self.orders_at_most(self.max_order as int)
        &&& self.floor <= self.max_order + 1
    }
}

/// An operation that fits keeps the orders bounded, and never lowers the largest order or
/// the floor.
proof fn lemma_apply_bounded(state: Painted, operation: PaintOperation)
    requires
        state.orders_bounded(),
        state.fits(operation),
    ensures
        state.apply(operation).orders_bounded(),
        state.apply(operation).max_order >= state.max_order,
        state.apply(operation).floor >= state.floor,
{
    let after = state.apply(operation);
    assert(after.orders_at_most(after.max_order as int));
}

/// A replay that fits keeps the orders bounded.
pub proof fn lemma_replay_bounded(state: Painted, operations: Seq<PaintOperation>)
    requires
        state.orders_bounded(),
        state.replay_fits(operations),
    ensures
        state.replay(operations).orders_bounded(),
    decreases operations.len(),
{
    if operations.len() > 0 {
        lemma_replay_bounded(state, operations.drop_last());
        lemma_apply_bounded(state.replay(operations.drop_last()), operations.last());
    }
}

/// A filter marker sorts above all earlier content: its order is above every stored
/// primitive and every open layer.
pub proof fn law_marker_sorts_above_earlier_content(state: Painted, marker: FilterBoundary)
    requires
        state.orders_bounded(),
        state.fits(PaintOperation::Primitive(Primitive::FilterBoundary(marker))),
    ensures
        state.orders_at_most(state.placement_order(Primitive::FilterBoundary(marker)) - 1),
        state.placement_order(Primitive::FilterBoundary(marker)) == state.max_order + 1,
{
}

/// The fewest layers open at any point while `operations` are replayed from `state`:
/// every open layer at a depth of at least this many was opened during the replay.
pub open spec fn lowest_depth(state: Painted, operations: Seq<PaintOperation>) -> int
    decreases operations.len(),
{
    if operations.len() == 0 {
        state.layers.len() as int
    } else {
        let before = lowest_depth(state, operations.drop_last());
        let now = state.replay(operations).layers.len() as int;
        if now < before {
            now
        } else {
            before
        }
    }
}

/// What holds after an end marker at order `e`, from the state `closed` just after it,
/// once `operations` have been replayed.
pub open spec fn stays_after_group(closed: Painted, operations: Seq<PaintOperation>, e: int) -> bool {
    let current = closed.replay(operations);
    &&& current.orders_bounded()
    &&& current.floor > e
    &&& current.max_order >= e
    &&& 0 <= lowest_depth(closed, operations) <= current.layers.len()
    &&& forall|i: int| lowest_depth(closed, operations) <= i < current.layers.len() ==> #[trigger] current.layers[i] > e
}

proof fn lemma_stays_after_group(closed: Painted, operations: Seq<PaintOperation>, e: int)
    requires
        stays_after_group(closed, Seq::empty(), e),
        closed.replay_fits(operations),
    ensures
        stays_after_group(closed, operations, e),
    decreases operations.len(),
{
    if operations.len() > 0 {
        let earlier = operations.drop_last();
        lemma_stays_after_group(closed, earlier, e);
        let before = closed.replay(earlier);
        lemma_apply_bounded(before, operations.last());
        let after = closed.replay(operations);
        assert(after == before.apply(operations.last()));
        let low = lowest_depth(closed, operations);
        assert(low <= lowest_depth(closed, earlier));
        assert forall|i: int| low <= i < after.layers.len() implies #[trigger] after.layers[i] > e by {
            if i < before.layers.len() {
                match operations.last() {
                    PaintOperation::EndLayer => {
                        assert(after.layers[i] == before.layers[i]);
                    },
                    _ => {
                        assert(after.layers[i] == before.layers[i]);
                    },
                }
                if low < lowest_depth(closed, earlier) {
                    assert(low == after.layers.len());
                }
            }
        }
    }
}

/// Content painted after a closed filter group sorts after the group's end marker: a later
/// marker, anything outside layers, and anything in a layer opened after the group closed
/// (at any depth) takes an order above it, however much is painted in between.
pub proof fn law_content_after_closed_group_sorts_after_it(
    state: Painted,
    end: FilterBoundary,
    operations: Seq<PaintOperation>,
    later: Primitive,
)
    requires
        state.orders_bounded(),
        !end.is_start,
        state.fits(PaintOperation::Primitive(Primitive::FilterBoundary(end))),
        state.insert(Primitive::FilterBoundary(end)).replay_fits(operations),
        state.insert(Primitive::FilterBoundary(end)).replay(operations).fits(PaintOperation::Primitive(later)),
    ensures
        ({
            let closed = state.insert(Primitive::FilterBoundary(end));
            let e = state.placement_order(Primitive::FilterBoundary(end)) as int;
            let current = closed.replay(operations);
            let low = lowest_depth(closed, operations);
            &&& forall|i: int| low <= i < current.layers.len() ==> #[trigger] current.layers[i] > e
            &&& later is FilterBoundary ==> current.placement_order(later) > e
            &&& !(later is FilterBoundary) && (current.layers.len() == 0 || current.layers.len() > low)
                ==> current.placement_order(later) > e
        }),
{
    let closed = state.insert(Primitive::FilterBoundary(end));
    let e = state.placement_order(Primitive::FilterBoundary(end)) as int;
    lemma_apply_bounded(state, PaintOperation::Primitive(Primitive::FilterBoundary(end)));
    assert(closed == state.apply(PaintOperation::Primitive(Primitive::FilterBoundary(end))));
    assert(closed.replay(Seq::empty()) == closed);
    lemma_stays_after_group(closed, operations, e);
}

} // verus!
