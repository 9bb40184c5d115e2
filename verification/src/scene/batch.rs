//! Splitting a finished scene into draw batches.
//!
//! The scene keeps one list per primitive kind (ten streams). Batching merges the streams
//! by `(draw order, kind rank)` and cuts the merged sequence into maximal runs that one
//! pipeline invocation can draw: same stream, same smoothing flag, same atlas texture.
//! Filter boundaries are never merged.
use super::primitives::{key_lt, precedes_limit, AtlasTextureId, DrawOrder, Path, PrimitiveKind};
use super::store::Scene;
use core::ops::Range;
use vstd::prelude::*;

verus! {

/// Clones a range field by field.
///
/// Specifies the derived `Clone` of `core::ops::Range`, which clones `start` and `end`.
pub assume_specification<Idx: Clone>[ <Range<Idx> as Clone>::clone ](range: &Range<Idx>) -> (r:
    Range<Idx>)
    ensures
        cloned(range.start, r.start),
        cloned(range.end, r.end),
;

/// The number of primitive streams of a scene.
pub const STREAM_COUNT: usize = 10;

/// A contiguous range of one primitive type drawn by a single pipeline invocation.
#[derive(Clone, Debug, PartialEq, Eq)]
pub enum PrimitiveBatch {
    Shadows { range: Range<usize>, smoothed: bool },
    Quads { range: Range<usize>, smoothed: bool },
    Paths { range: Range<usize>, rasterization_vertex_count: usize, sprite_count: usize },
    Underlines(Range<usize>),
    MonochromeSprites { texture_id: AtlasTextureId, range: Range<usize> },
    SubpixelSprites { texture_id: AtlasTextureId, range: Range<usize> },
    PolychromeSprites { texture_id: AtlasTextureId, range: Range<usize>, smoothed: bool },
    Surfaces(Range<usize>),
    BackdropFilters(Range<usize>),
    FilterBoundary(usize),
}

/// The stream a batch draws from.
pub open spec fn batch_stream(b: PrimitiveBatch) -> int {
    match b {
        PrimitiveBatch::Shadows { .. } => 0,
        PrimitiveBatch::Quads { .. } => 1,
        PrimitiveBatch::Paths { .. } => 2,
        PrimitiveBatch::Underlines(_) => 3,
        PrimitiveBatch::MonochromeSprites { .. } => 4,
        PrimitiveBatch::SubpixelSprites { .. } => 5,
        PrimitiveBatch::PolychromeSprites { .. } => 6,
        PrimitiveBatch::Surfaces(_) => 7,
        PrimitiveBatch::BackdropFilters(_) => 8,
        PrimitiveBatch::FilterBoundary(_) => 9,
    }
}

/// The first index of the batch in its stream.
pub open spec fn batch_start(b: PrimitiveBatch) -> int {
    match b {
        PrimitiveBatch::Shadows { range, .. } => range.start as int,
        PrimitiveBatch::Quads { range, .. } => range.start as int,
        PrimitiveBatch::Paths { range, .. } => range.start as int,
        PrimitiveBatch::Underlines(range) => range.start as int,
        PrimitiveBatch::MonochromeSprites { range, .. } => range.start as int,
        PrimitiveBatch::SubpixelSprites { range, .. } => range.start as int,
        PrimitiveBatch::PolychromeSprites { range, .. } => range.start as int,
        PrimitiveBatch::Surfaces(range) => range.start as int,
        PrimitiveBatch::BackdropFilters(range) => range.start as int,
        PrimitiveBatch::FilterBoundary(index) => index as int,
    }
}

/// One past the last index of the batch in its stream.
pub open spec fn batch_end(b: PrimitiveBatch) -> int {
    match b {
        PrimitiveBatch::Shadows { range, .. } => range.end as int,
        PrimitiveBatch::Quads { range, .. } => range.end as int,
        PrimitiveBatch::Paths { range, .. } => range.end as int,
        PrimitiveBatch::Underlines(range) => range.end as int,
        PrimitiveBatch::MonochromeSprites { range, .. } => range.end as int,
        PrimitiveBatch::SubpixelSprites { range, .. } => range.end as int,
        PrimitiveBatch::PolychromeSprites { range, .. } => range.end as int,
        PrimitiveBatch::Surfaces(range) => range.end as int,
        PrimitiveBatch::BackdropFilters(range) => range.end as int,
        PrimitiveBatch::FilterBoundary(index) => index + 1,
    }
}

/// The number of rasterization vertices of `paths[a..e]`.
pub open spec fn vertex_sum(paths: Seq<Path>, a: int, e: int) -> int
    decreases e - a,
{
    if e <= a {
        0
    } else {
        vertex_sum(paths, a, e - 1) + paths[e - 1].vertex_count
    }
}

/// A sub-range holds no more vertices than a range around it.
pub proof fn lemma_vertex_sum_within(paths: Seq<Path>, a: int, e: int, outer_a: int, outer_e: int)
    requires
        outer_a <= a <= e <= outer_e,
    ensures
        0 <= vertex_sum(paths, a, e) <= vertex_sum(paths, outer_a, outer_e),
    decreases outer_e - outer_a,
{
    if outer_e > e {
        lemma_vertex_sum_within(paths, a, e, outer_a, outer_e - 1);
    } else if a > outer_a {
        lemma_vertex_sum_drop_front(paths, outer_a, outer_e);
        lemma_vertex_sum_within(paths, a, e, outer_a + 1, outer_e);
    } else {
        lemma_vertex_sum_nonneg(paths, a, e);
    }
}

/// Vertex sums over adjacent ranges add up.
pub proof fn lemma_vertex_sum_split(paths: Seq<Path>, a: int, m: int, e: int)
    requires
        a <= m <= e,
    ensures
        vertex_sum(paths, a, m) + vertex_sum(paths, m, e) == vertex_sum(paths, a, e),
    decreases e - m,
{
    if e > m {
        lemma_vertex_sum_split(paths, a, m, e - 1);
    }
}

proof fn lemma_vertex_sum_nonneg(paths: Seq<Path>, a: int, e: int)
    ensures
        vertex_sum(paths, a, e) >= 0,
    decreases e - a,
{
    if e > a {
        lemma_vertex_sum_nonneg(paths, a, e - 1);
    }
}

proof fn lemma_vertex_sum_drop_front(paths: Seq<Path>, a: int, e: int)
    requires
        a < e,
    ensures
        vertex_sum(paths, a, e) == paths[a].vertex_count + vertex_sum(paths, a + 1, e),
    decreases e - a,
{
    if e > a + 1 {
        lemma_vertex_sum_drop_front(paths, a, e - 1);
    } else {
        assert(vertex_sum(paths, a, a) == 0);
        assert(vertex_sum(paths, a + 1, e) == 0);
    }
}

/// The number of path sprites of a path batch: one per path when all share one order,
/// else one sprite covering them all.
pub open spec fn path_sprite_count(paths: Seq<Path>, a: int, e: int) -> int {
    if e <= a {
        0
    } else if paths[e - 1].order == paths[a].order {
        e - a
    } else {
        1
    }
}

impl Scene {
    /// The length of stream `s`.
    pub open spec fn stream_len(&self, s: int) -> int {
        if s == 0 {
            self.shadows@.len() as int
        } else if s == 1 {
            self.quads@.len() as int
        } else if s == 2 {
            self.paths@.len() as int
        } else if s == 3 {
            self.underlines@.len() as int
        } else if s == 4 {
            self.monochrome_sprites@.len() as int
        } else if s == 5 {
            self.subpixel_sprites@.len() as int
        } else if s == 6 {
            self.polychrome_sprites@.len() as int
        } else if s == 7 {
            self.surfaces@.len() as int
        } else if s == 8 {
            self.backdrop_filters@.len() as int
        } else if s == 9 {
            self.filter_boundaries@.len() as int
        } else {
            0
        }
    }

    /// The draw order of element `i` of stream `s`.
    pub open spec fn order_at(&self, s: int, i: int) -> int {
        if s == 0 {
            self.shadows@[i].order as int
        } else if s == 1 {
            self.quads@[i].order as int
        } else if s == 2 {
            self.paths@[i].order as int
        } else if s == 3 {
            self.underlines@[i].order as int
        } else if s == 4 {
            self.monochrome_sprites@[i].order as int
        } else if s == 5 {
            self.subpixel_sprites@[i].order as int
        } else if s == 6 {
            self.polychrome_sprites@[i].order as int
        } else if s == 7 {
            self.surfaces@[i].order as int
        } else if s == 8 {
            self.backdrop_filters@[i].order as int
        } else {
            self.filter_boundaries@[i].order as int
        }
    }

    /// The kind of element `i` of stream `s`.
    pub open spec fn kind_at(&self, s: int, i: int) -> PrimitiveKind {
        if s == 0 {
            PrimitiveKind::Shadow
        } else if s == 1 {
            PrimitiveKind::Quad
        } else if s == 2 {
            PrimitiveKind::Path
        } else if s == 3 {
            PrimitiveKind::Underline
        } else if s == 4 {
            PrimitiveKind::MonochromeSprite
        } else if s == 5 {
            PrimitiveKind::SubpixelSprite
        } else if s == 6 {
            PrimitiveKind::PolychromeSprite
        } else if s == 7 {
            PrimitiveKind::Surface
        } else if s == 8 {
            PrimitiveKind::BackdropFilter
        } else if self.filter_boundaries@[i].is_start {
            PrimitiveKind::FilterBoundaryStart
        } else {
            PrimitiveKind::FilterBoundaryEnd
        }
    }

    /// The batching key of element `i` of stream `s`.
    pub open spec fn key_at(&self, s: int, i: int) -> (int, int) {
        (self.order_at(s, i), self.kind_at(s, i).rank())
    }

    /// Whether element `j` of stream `s` can be drawn in one call with element `a`.
    pub open spec fn joins(&self, s: int, a: int, j: int) -> bool {
        if s == 0 {
            self.shadows@[j].smoothed == self.shadows@[a].smoothed
        } else if s == 1 {
            self.quads@[j].smoothed == self.quads@[a].smoothed
        } else if s == 4 {
            self.monochrome_sprites@[j].tile.texture_id == self.monochrome_sprites@[a].tile.texture_id
        } else if s == 5 {
            self.subpixel_sprites@[j].tile.texture_id == self.subpixel_sprites@[a].tile.texture_id
        } else if s == 6 {
            self.polychrome_sprites@[j].tile.texture_id
                == self.polychrome_sprites@[a].tile.texture_id
                && self.polychrome_sprites@[j].smoothed == self.polychrome_sprites@[a].smoothed
        } else if s == 9 {
            false
        } else {
            true
        }
    }

    /// The batch that draws elements `a..e` of stream `s`.
    pub open spec fn batch_for(&self, s: int, a: int, e: int) -> PrimitiveBatch {
        let range = Range { start: a as usize, end: e as usize };
        if s == 0 {
            PrimitiveBatch::Shadows { range, smoothed: self.shadows@[a].smoothed }
        } else if s == 1 {
            PrimitiveBatch::Quads { range, smoothed: self.quads@[a].smoothed }
        } else if s == 2 {
            PrimitiveBatch::Paths {
                range,
                rasterization_vertex_count: vertex_sum(self.paths@, a, e) as usize,
                sprite_count: path_sprite_count(self.paths@, a, e) as usize,
            }
        } else if s == 3 {
            PrimitiveBatch::Underlines(range)
        } else if s == 4 {
            PrimitiveBatch::MonochromeSprites {
                texture_id: self.monochrome_sprites@[a].tile.texture_id,
                range,
            }
        } else if s == 5 {
            PrimitiveBatch::SubpixelSprites {
                texture_id: self.subpixel_sprites@[a].tile.texture_id,
                range,
            }
        } else if s == 6 {
            PrimitiveBatch::PolychromeSprites {
                texture_id: self.polychrome_sprites@[a].tile.texture_id,
                range,
                smoothed: self.polychrome_sprites@[a].smoothed,
            }
        } else if s == 7 {
            PrimitiveBatch::Surfaces(range)
        } else if s == 8 {
            PrimitiveBatch::BackdropFilters(range)
        } else {
            PrimitiveBatch::FilterBoundary(a as usize)
        }
    }

    /// Stream lengths are lengths of vectors.
    pub proof fn lemma_stream_len_bounded(&self, s: int)
        ensures
            0 <= self.stream_len(s) <= usize::MAX,
    {
        assert(self.shadows@.len() == self.shadows.len());
        assert(self.quads@.len() == self.quads.len());
        assert(self.paths@.len() == self.paths.len());
        assert(self.underlines@.len() == self.underlines.len());
        assert(self.monochrome_sprites@.len() == self.monochrome_sprites.len());
        assert(self.subpixel_sprites@.len() == self.subpixel_sprites.len());
        assert(self.polychrome_sprites@.len() == self.polychrome_sprites.len());
        assert(self.surfaces@.len() == self.surfaces.len());
        assert(self.backdrop_filters@.len() == self.backdrop_filters.len());
        assert(self.filter_boundaries@.len() == self.filter_boundaries.len());
    }

    /// The rasterization vertices of all paths fit a `usize`.
    pub open spec fn path_vertices_fit(&self) -> bool {
        vertex_sum(self.paths@, 0, self.paths@.len() as int) <= usize::MAX
    }

    /// Every stream is ordered by batching key.
    pub open spec fn streams_sorted(&self) -> bool {
        forall|s: int, i: int, j: int|
            0 <= s < STREAM_COUNT && 0 <= i <= j < self.stream_len(s) ==> !key_lt(
                #[trigger] self.key_at(s, j),
                #[trigger] self.key_at(s, i),
            )
    }

    /// Cursor `t` has not reached the end of its stream.
    pub open spec fn live(&self, cur: Seq<usize>, t: int) -> bool {
        (cur[t] as int) < self.stream_len(t)
    }

    /// One cursor per stream, none past its end.
    pub open spec fn valid_cursors(&self, cur: Seq<usize>) -> bool {
        &&& cur.len() == STREAM_COUNT
        &&& forall|t: int| 0 <= t < STREAM_COUNT ==> cur[t] as int <= #[trigger] self.stream_len(t)
    }

    /// `k` sorts strictly before the next element of every other unfinished stream.
    pub open spec fn below_other_heads(&self, cur: Seq<usize>, s: int, k: (int, int)) -> bool {
        forall|t: int|
            0 <= t < STREAM_COUNT && t != s && #[trigger] self.live(cur, t) ==> key_lt(
                k,
                self.key_at(t, cur[t] as int),
            )
    }

    /// Stream `s` holds the lowest next element of all streams.
    pub open spec fn is_lowest(&self, cur: Seq<usize>, s: int) -> bool {
        &&& 0 <= s < STREAM_COUNT
        &&& self.live(cur, s)
        &&& self.below_other_heads(cur, s, self.key_at(s, cur[s] as int))
    }

    /// The batch that starts at cursor `s` ends at `e`: every element before `e` sorts
    /// below the other streams and joins the first, and the element at `e` does not.
    pub open spec fn run_ends_at(&self, cur: Seq<usize>, s: int, e: int) -> bool {
        let a = cur[s] as int;
        &&& a < e <= self.stream_len(s)
        &&& forall|j: int|
            a < j < e ==> self.below_other_heads(cur, s, #[trigger] self.key_at(s, j))
                && self.joins(s, a, j)
        &&& e < self.stream_len(s) ==> !(self.below_other_heads(cur, s, self.key_at(s, e))
            && self.joins(s, a, e))
    }

    /// The length of stream `s`.
    pub fn stream_len_exec(&self, s: usize) -> (r: usize)
        requires
            s < STREAM_COUNT,
        ensures
            r == self.stream_len(s as int),
    {
        if s == 0 {
            self.shadows.len()
        } else if s == 1 {
            self.quads.len()
        } else if s == 2 {
            self.paths.len()
        } else if s == 3 {
            self.underlines.len()
        } else if s == 4 {
            self.monochrome_sprites.len()
        } else if s == 5 {
            self.subpixel_sprites.len()
        } else if s == 6 {
            self.polychrome_sprites.len()
        } else if s == 7 {
            self.surfaces.len()
        } else if s == 8 {
            self.backdrop_filters.len()
        } else {
            self.filter_boundaries.len()
        }
    }

    /// The order and kind of element `i` of stream `s`.
    fn head_at(&self, s: usize, i: usize) -> (r: (DrawOrder, PrimitiveKind))
        requires
            s < STREAM_COUNT,
            i < self.stream_len(s as int),
        ensures
            r.0 == self.order_at(s as int, i as int),
            r.1 == self.kind_at(s as int, i as int),
    {
        if s == 0 {
            (self.shadows[i].order, PrimitiveKind::Shadow)
        } else if s == 1 {
            (self.quads[i].order, PrimitiveKind::Quad)
        } else if s == 2 {
            (self.paths[i].order, PrimitiveKind::Path)
        } else if s == 3 {
            (self.underlines[i].order, PrimitiveKind::Underline)
        } else if s == 4 {
            (self.monochrome_sprites[i].order, PrimitiveKind::MonochromeSprite)
        } else if s == 5 {
            (self.subpixel_sprites[i].order, PrimitiveKind::SubpixelSprite)
        } else if s == 6 {
            (self.polychrome_sprites[i].order, PrimitiveKind::PolychromeSprite)
        } else if s == 7 {
            (self.surfaces[i].order, PrimitiveKind::Surface)
        } else if s == 8 {
            (self.backdrop_filters[i].order, PrimitiveKind::BackdropFilter)
        } else if self.filter_boundaries[i].is_start {
            (self.filter_boundaries[i].order, PrimitiveKind::FilterBoundaryStart)
        } else {
            (self.filter_boundaries[i].order, PrimitiveKind::FilterBoundaryEnd)
        }
    }

    /// Whether element `j` of stream `s` can be drawn in one call with element `a`.
    fn joins_exec(&self, s: usize, a: usize, j: usize) -> (r: bool)
        requires
            s < STREAM_COUNT,
            a < self.stream_len(s as int),
            j < self.stream_len(s as int),
        ensures
            r == self.joins(s as int, a as int, j as int),
    {
        if s == 0 {
            self.shadows[j].smoothed == self.shadows[a].smoothed
        } else if s == 1 {
            self.quads[j].smoothed == self.quads[a].smoothed
        } else if s == 4 {
            self.monochrome_sprites[j].tile.texture_id == self.monochrome_sprites[a].tile.texture_id
        } else if s == 5 {
            self.subpixel_sprites[j].tile.texture_id == self.subpixel_sprites[a].tile.texture_id
        } else if s == 6 {
            self.polychrome_sprites[j].tile.texture_id == self.polychrome_sprites[a].tile.texture_id
                && self.polychrome_sprites[j].smoothed == self.polychrome_sprites[a].smoothed
        } else if s == 9 {
            false
        } else {
            true
        }
    }

    /// The batch that draws elements `a..e` of stream `s`.
    fn batch_for_exec(&self, s: usize, a: usize, e: usize) -> (r: PrimitiveBatch)
        requires
            s < STREAM_COUNT,
            a < e <= self.stream_len(s as int),
            self.path_vertices_fit(),
        ensures
            r == self.batch_for(s as int, a as int, e as int),
    {
        let range = a..e;
        if s == 0 {
            PrimitiveBatch::Shadows { range, smoothed: self.shadows[a].smoothed }
        } else if s == 1 {
            PrimitiveBatch::Quads { range, smoothed: self.quads[a].smoothed }
        } else if s == 2 {
            let mut total: usize = 0;
            let mut j = a;
            while j < e
                invariant
                    a <= j <= e <= self.paths@.len(),
                    self.path_vertices_fit(),
                    total == vertex_sum(self.paths@, a as int, j as int),
                decreases e - j,
            {
                proof {
                    lemma_vertex_sum_within(
                        self.paths@,
                        a as int,
                        j + 1,
                        0,
                        self.paths@.len() as int,
                    );
                }
                total = total + self.paths[j].vertex_count;
                j = j + 1;
            }
            let sprite_count = if self.paths[e - 1].order == self.paths[a].order {
                e - a
            } else {
                1
            };
            PrimitiveBatch::Paths { range, rasterization_vertex_count: total, sprite_count }
        } else if s == 3 {
            PrimitiveBatch::Underlines(range)
        } else if s == 4 {
            PrimitiveBatch::MonochromeSprites {
                texture_id: self.monochrome_sprites[a].tile.texture_id,
                range,
            }
        } else if s == 5 {
            PrimitiveBatch::SubpixelSprites {
                texture_id: self.subpixel_sprites[a].tile.texture_id,
                range,
            }
        } else if s == 6 {
            PrimitiveBatch::PolychromeSprites {
                texture_id: self.polychrome_sprites[a].tile.texture_id,
                range,
                smoothed: self.polychrome_sprites[a].smoothed,
            }
        } else if s == 7 {
            PrimitiveBatch::Surfaces(range)
        } else if s == 8 {
            PrimitiveBatch::BackdropFilters(range)
        } else {
            PrimitiveBatch::FilterBoundary(a)
        }
    }
}

/// Whether a batch bounded by `limit` may take an element with key `k`.
pub open spec fn limit_admits(limit: Option<(DrawOrder, PrimitiveKind)>, k: (int, int)) -> bool {
    match limit {
        None => true,
        Some((order, kind)) => key_lt(k, (order as int, kind.rank())),
    }
}

impl Scene {
    /// `limit` is the lowest next element of the streams other than `s`, if any.
    pub open spec fn limit_matches(
        &self,
        cur: Seq<usize>,
        s: int,
        limit: Option<(DrawOrder, PrimitiveKind)>,
    ) -> bool {
        forall|k: (int, int)|
            #![trigger self.below_other_heads(cur, s, k)]
            self.below_other_heads(cur, s, k) == limit_admits(limit, k)
    }

    /// Keys of different streams never coincide: the kind rank tells the stream apart.
    proof fn lemma_keys_name_their_stream(&self, s: int, i: int, t: int, j: int)
        requires
            0 <= s < STREAM_COUNT,
            0 <= t < STREAM_COUNT,
            s != t,
        ensures
            self.key_at(s, i) != self.key_at(t, j),
    {
    }

    /// Finds the stream with the lowest next element, and the lowest next element of all
    /// other streams, which bounds the batch that starts there.
    fn lowest_stream(&self, cur: &Vec<usize>) -> (r: Option<(usize, Option<(DrawOrder, PrimitiveKind)>)>)
        requires
            self.valid_cursors(cur@),
        ensures
            r is None <==> forall|t: int| 0 <= t < STREAM_COUNT ==> !#[trigger] self.live(cur@, t),
            r matches Some((s, limit)) ==> self.is_lowest(cur@, s as int) && self.limit_matches(
                cur@,
                s as int,
                limit,
            ),
    {
        let mut first: Option<(usize, DrawOrder, PrimitiveKind)> = None;
        let mut second: Option<(usize, DrawOrder, PrimitiveKind)> = None;
        let mut t: usize = 0;
        while t < STREAM_COUNT
            invariant
                self.valid_cursors(cur@),
                t <= STREAM_COUNT,
                first is None ==> second is None,
                first is None <==> forall|u: int| 0 <= u < t ==> !#[trigger] self.live(cur@, u),
                first matches Some((fs, fo, fk)) ==> {
                    &&& fs < t
                    &&& self.live(cur@, fs as int)
                    &&& self.key_at(fs as int, cur@[fs as int] as int) == (fo as int, fk.rank())
                    &&& forall|u: int|
                        0 <= u < t && #[trigger] self.live(cur@, u) ==> !key_lt(
                            self.key_at(u, cur@[u] as int),
                            (fo as int, fk.rank()),
                        )
                },
                first matches Some((fs, fo, fk)) ==> match second {
                    None => forall|u: int|
                        0 <= u < t && u != fs ==> !#[trigger] self.live(cur@, u),
                    Some((ss, so, sk)) => {
                        &&& ss < t
                        &&& ss != fs
                        &&& self.live(cur@, ss as int)
                        &&& self.key_at(ss as int, cur@[ss as int] as int) == (so as int, sk.rank())
                        &&& forall|u: int|
                            0 <= u < t && u != fs && #[trigger] self.live(cur@, u) ==> !key_lt(
                                self.key_at(u, cur@[u] as int),
                                (so as int, sk.rank()),
                            )
                    },
                },
            decreases STREAM_COUNT - t,
        {
            if cur[t] < self.stream_len_exec(t) {
                let (order, kind) = self.head_at(t, cur[t]);
                let below_first = match first {
                    None => true,
                    Some((_, fo, fk)) => precedes_limit(order, kind, Some((fo, fk))),
                };
                if below_first {
                    second = first;
                    first = Some((t, order, kind));
                } else {
                    let below_second = match second {
                        None => true,
                        Some((_, so, sk)) => precedes_limit(order, kind, Some((so, sk))),
                    };
                    if below_second {
                        second = Some((t, order, kind));
                    }
                }
            } else {
                assert(!self.live(cur@, t as int));
            }
            proof {
                if let Some((fs, _, _)) = first {
                    assert(self.live(cur@, fs as int));
                }
            }
            t = t + 1;
        }
        match first {
            None => None,
            Some((fs, fo, fk)) => {
                let limit = match second {
                    None => None,
                    Some((_, so, sk)) => Some((so, sk)),
                };
                proof {
                    assert forall|u: int|
                        0 <= u < STREAM_COUNT && u != fs && #[trigger] self.live(cur@, u) implies key_lt(
                        self.key_at(fs as int, cur@[fs as int] as int),
                        self.key_at(u, cur@[u] as int),
                    ) by {
                        self.lemma_keys_name_their_stream(
                            fs as int,
                            cur@[fs as int] as int,
                            u,
                            cur@[u] as int,
                        );
                    }
                    assert forall|k: (int, int)|
                        #![trigger self.below_other_heads(cur@, fs as int, k)]
                        self.below_other_heads(cur@, fs as int, k) == limit_admits(limit, k) by {
                        match second {
                            None => {},
                            Some((ss, so, sk)) => {
                                if self.below_other_heads(cur@, fs as int, k) {
                                    assert(self.live(cur@, ss as int));
                                }
                            },
                        }
                    }
                }
                Some((fs, limit))
            },
        }
    }
}

impl Scene {
    /// A batch records its stream and range.
    pub proof fn lemma_batch_for_shape(&self, s: int, a: int, e: int)
        requires
            0 <= s < STREAM_COUNT,
            0 <= a < e <= usize::MAX,
        ensures
            batch_stream(self.batch_for(s, a, e)) == s,
            batch_start(self.batch_for(s, a, e)) == a,
            s != 9 ==> batch_end(self.batch_for(s, a, e)) == e,
            s == 9 ==> batch_end(self.batch_for(s, a, e)) == a + 1,
    {
    }

    /// Extends the batch that starts at the cursor of `s` as far as `limit` and the
    /// joining rules allow.
    fn run_end(&self, cur: &Vec<usize>, s: usize, limit: Option<(DrawOrder, PrimitiveKind)>) -> (e:
        usize)
        requires
            self.valid_cursors(cur@),
            self.is_lowest(cur@, s as int),
            self.limit_matches(cur@, s as int, limit),
        ensures
            self.run_ends_at(cur@, s as int, e as int),
    {
        let a = cur[s];
        let len = self.stream_len_exec(s);
        let mut e = a + 1;
        let mut stopped = false;
        while !stopped && e < len
            invariant
                self.valid_cursors(cur@),
                s < STREAM_COUNT,
                a == cur@[s as int],
                len == self.stream_len(s as int),
                self.limit_matches(cur@, s as int, limit),
                a < e <= len,
                forall|j: int|
                    a < j < e ==> self.below_other_heads(cur@, s as int, #[trigger] self.key_at(s as int, j))
                        && self.joins(s as int, a as int, j),
                stopped ==> e < len && !(self.below_other_heads(cur@, s as int, self.key_at(s as int, e as int))
                    && self.joins(s as int, a as int, e as int)),
            decreases len - e, if stopped { 0int } else { 1int },
        {
            let (order, kind) = self.head_at(s, e);
            let below = precedes_limit(order, kind, limit);
            assert(below == self.below_other_heads(cur@, s as int, self.key_at(s as int, e as int)));
            if below && self.joins_exec(s, a, e) {
                e = e + 1;
            } else {
                stopped = true;
            }
        }
        e
    }
}

/// Walks the streams of a scene and hands out its batches in drawing order.
pub struct BatchIterator {
    starts: Vec<usize>,
}

impl BatchIterator {
    /// The next unbatched index of each stream.
    pub closed spec fn cursors(&self) -> Seq<usize> {
        self.starts@
    }

    /// Starts at the first primitive of every stream.
    pub fn new(scene: &Scene) -> (r: Self)
        ensures
            r.cursors() == Seq::new(STREAM_COUNT as nat, |t: int| 0usize),
            scene.valid_cursors(r.cursors()),
    {
        let mut starts: Vec<usize> = Vec::new();
        let mut t: usize = 0;
        while t < STREAM_COUNT
            invariant
                t <= STREAM_COUNT,
                starts@ == Seq::new(t as nat, |u: int| 0usize),
            decreases STREAM_COUNT - t,
        {
            starts.push(0);
            t = t + 1;
        }
        assert(starts@ == Seq::new(STREAM_COUNT as nat, |t: int| 0usize));
        BatchIterator { starts }
    }

    /// The next batch: the longest run, starting at the lowest next element of all
    /// streams, of elements of that stream that sort below every other stream's next
    /// element and can be drawn with the first one. `None` once every stream is done.
    pub fn next(&mut self, scene: &Scene) -> (r: Option<PrimitiveBatch>)
        requires
            scene.valid_cursors(old(self).cursors()),
            scene.path_vertices_fit(),
        ensures
            scene.valid_cursors(final(self).cursors()),
            r is None <==> forall|t: int|
                0 <= t < STREAM_COUNT ==> !#[trigger] scene.live(old(self).cursors(), t),
            r is None ==> final(self).cursors() == old(self).cursors(),
            r matches Some(b) ==> {
                let s = batch_stream(b);
                &&& scene.is_lowest(old(self).cursors(), s)
                &&& batch_start(b) == old(self).cursors()[s]
                &&& scene.run_ends_at(old(self).cursors(), s, batch_end(b))
                &&& b == scene.batch_for(s, batch_start(b), batch_end(b))
                &&& final(self).cursors() == old(self).cursors().update(s, batch_end(b) as usize)
            },
    {
        match scene.lowest_stream(&self.starts) {
            None => None,
            Some((s, limit)) => {
                let a = self.starts[s];
                let ghost cur = self.starts@;
                let e = scene.run_end(&self.starts, s, limit);
                let batch = scene.batch_for_exec(s, a, e);
                self.starts.set(s, e);
                proof {
                    scene.lemma_batch_for_shape(s as int, a as int, e as int);
                    if s == 9 && e > a + 1 {
                        assert(scene.below_other_heads(cur, 9, scene.key_at(9, a + 1)) && scene.joins(9, a as int, a + 1));
                        assert(false);
                    }
                    assert forall|t: int| 0 <= t < STREAM_COUNT implies self.starts@[t] as int
                        <= #[trigger] scene.stream_len(t) by {
                        if t == s as int {
                        } else {
                            assert(old(self).starts@[t] as int <= scene.stream_len(t));
                        }
                    }
                }
                Some(batch)
            },
        }
    }
}

/// How far the first `k` batches of `bs` have advanced through stream `s`.
pub open spec fn emitted(bs: Seq<PrimitiveBatch>, k: int, s: int) -> int
    decreases k,
{
    if k <= 0 {
        0
    } else if batch_stream(bs[k - 1]) == s {
        batch_end(bs[k - 1])
    } else {
        emitted(bs, k - 1, s)
    }
}

/// Appending a batch leaves the progress of the earlier ones unchanged.
pub proof fn lemma_emitted_push(bs: Seq<PrimitiveBatch>, b: PrimitiveBatch, k: int, s: int)
    requires
        0 <= k <= bs.len(),
    ensures
        emitted(bs.push(b), k, s) == emitted(bs, k, s),
    decreases k,
{
    if k > 0 {
        lemma_emitted_push(bs, b, k - 1, s);
    }
}

impl Scene {
    /// Batch `k` is drawn from a stream at the place where the earlier batches of that
    /// stream stopped, is not empty, and carries the attributes of its first element.
    pub open spec fn batch_placed(&self, bs: Seq<PrimitiveBatch>, k: int) -> bool {
        let b = bs[k];
        &&& 0 <= batch_stream(b) < STREAM_COUNT
        &&& batch_start(b) == emitted(bs, k, batch_stream(b))
        &&& batch_start(b) < batch_end(b)
        &&& b == self.batch_for(batch_stream(b), batch_start(b), batch_end(b))
    }

    /// Every stream is cut into consecutive non-empty batches that together cover it.
    pub open spec fn batches_partition(&self, bs: Seq<PrimitiveBatch>) -> bool {
        &&& forall|k: int| 0 <= k < bs.len() ==> #[trigger] self.batch_placed(bs, k)
        &&& forall|s: int|
            0 <= s < STREAM_COUNT ==> emitted(bs, bs.len() as int, s) == #[trigger] self.stream_len(s)
    }

    /// Every batch can be drawn in one call, and two batches of one stream that follow each
    /// other could not have been merged.
    pub open spec fn batches_maximal(&self, bs: Seq<PrimitiveBatch>) -> bool {
        &&& forall|k: int, j: int|
            0 <= k < bs.len() && batch_start(bs[k]) < j < batch_end(bs[k]) ==> #[trigger] self.joins(
                batch_stream(bs[k]),
                batch_start(bs[k]),
                j,
            )
        &&& forall|k1: int, k2: int|
            0 <= k1 && k2 == k1 + 1 && k2 < bs.len() && batch_stream(#[trigger] bs[k1])
                == batch_stream(#[trigger] bs[k2]) ==> !self.joins(
                batch_stream(bs[k1]),
                batch_start(bs[k1]),
                batch_start(bs[k2]),
            )
    }

    /// No primitive of a later batch sorts before a primitive of an earlier batch.
    pub open spec fn batches_in_key_order(&self, bs: Seq<PrimitiveBatch>) -> bool {
        forall|k1: int, k2: int, i: int, j: int|
            0 <= k1 < k2 < bs.len() && batch_start(bs[k1]) <= i < batch_end(bs[k1])
                && batch_start(bs[k2]) <= j < batch_end(bs[k2]) ==> !key_lt(
                #[trigger] self.key_at(batch_stream(bs[k2]), j),
                #[trigger] self.key_at(batch_stream(bs[k1]), i),
            )
    }

    /// Every primitive of the first batches sorts no later than any primitive not yet
    /// batched.
    pub open spec fn batched_before_rest(&self, bs: Seq<PrimitiveBatch>, cur: Seq<usize>) -> bool {
        forall|k: int, i: int, t: int, j: int|
            0 <= k < bs.len() && batch_start(bs[k]) <= i < batch_end(bs[k]) && 0 <= t
                < STREAM_COUNT && cur[t] <= j < self.stream_len(t) ==> !key_lt(
                #[trigger] self.key_at(t, j),
                #[trigger] self.key_at(batch_stream(bs[k]), i),
            )
    }

    /// The total number of primitives.
    pub open spec fn primitive_total(&self) -> int {
        self.stream_len(0) + self.stream_len(1) + self.stream_len(2) + self.stream_len(3)
            + self.stream_len(4) + self.stream_len(5) + self.stream_len(6) + self.stream_len(7)
            + self.stream_len(8) + self.stream_len(9)
    }

    /// The number of primitives at or after the cursors.
    pub open spec fn unbatched(&self, cur: Seq<usize>) -> int {
        (self.stream_len(0) - cur[0]) + (self.stream_len(1) - cur[1]) + (self.stream_len(2)
            - cur[2]) + (self.stream_len(3) - cur[3]) + (self.stream_len(4) - cur[4]) + (
        self.stream_len(5) - cur[5]) + (self.stream_len(6) - cur[6]) + (self.stream_len(7)
            - cur[7]) + (self.stream_len(8) - cur[8]) + (self.stream_len(9) - cur[9])
    }
}

/// Every batch of a scene, in drawing order.
///
/// The batches partition each stream; each can be drawn in one call and is as long as the
/// merge order allows; and when every stream is sorted, the batches list the primitives
/// in `(draw order, kind rank)` order.
pub fn all_batches(scene: &Scene) -> (bs: Vec<PrimitiveBatch>)
    requires
        scene.path_vertices_fit(),
    ensures
        scene.batches_partition(bs@),
        scene.batches_maximal(bs@),
        scene.streams_sorted() ==> scene.batches_in_key_order(bs@),
        bs@.len() <= scene.primitive_total(),
{
    let mut it = BatchIterator::new(scene);
    assert(scene.unbatched(it.cursors()) == scene.primitive_total());
    let mut bs: Vec<PrimitiveBatch> = Vec::new();
    let mut done = false;
    while !done
        invariant
            scene.path_vertices_fit(),
            scene.valid_cursors(it.cursors()),
            forall|t: int| 0 <= t < STREAM_COUNT ==> it.cursors()[t] == #[trigger] emitted(bs@, bs@.len() as int, t),
            forall|k: int| 0 <= k < bs@.len() ==> #[trigger] scene.batch_placed(bs@, k),
            done ==> forall|t: int| 0 <= t < STREAM_COUNT ==> !#[trigger] scene.live(it.cursors(), t),
            scene.batches_maximal(bs@),
            bs@.len() > 0 ==> {
                let last = bs@[bs@.len() - 1];
                let s = batch_stream(last);
                scene.live(it.cursors(), s) ==> !(scene.below_other_heads(
                    it.cursors(),
                    s,
                    scene.key_at(s, it.cursors()[s] as int),
                ) && scene.joins(s, batch_start(last), it.cursors()[s] as int))
            },
            scene.streams_sorted() ==> scene.batched_before_rest(bs@, it.cursors()),
            scene.streams_sorted() ==> scene.batches_in_key_order(bs@),
            bs@.len() + scene.unbatched(it.cursors()) <= scene.primitive_total(),
        decreases scene.unbatched(it.cursors()), if done { 0int } else { 1int },
    {
        let ghost cur = it.cursors();
        let ghost old_bs = bs@;
        match it.next(scene) {
            None => {
                done = true;
            },
            Some(b) => {
                bs.push(b);
                proof {
                    lemma_batch_step(scene, old_bs, b, cur, it.cursors());
                }
            },
        }
    }
    proof {
        assert forall|s: int| 0 <= s < STREAM_COUNT implies emitted(bs@, bs@.len() as int, s)
            == #[trigger] scene.stream_len(s) by {
            assert(!scene.live(it.cursors(), s));
        }
    }
    bs
}

/// The progress through a stream never goes back.
pub proof fn lemma_emitted_monotone(scene: &Scene, bs: Seq<PrimitiveBatch>, k1: int, k2: int, t: int)
    requires
        forall|k: int| 0 <= k < bs.len() ==> #[trigger] scene.batch_placed(bs, k),
        0 <= k1 <= k2 <= bs.len(),
    ensures
        0 <= emitted(bs, k1, t) <= emitted(bs, k2, t),
    decreases k2 - k1,
{
    if k1 < k2 {
        lemma_emitted_monotone(scene, bs, k1, k2 - 1, t);
        assert(scene.batch_placed(bs, k2 - 1));
    } else {
        lemma_emitted_nonneg(scene, bs, k1, t);
    }
}

proof fn lemma_emitted_nonneg(scene: &Scene, bs: Seq<PrimitiveBatch>, k: int, t: int)
    requires
        forall|k: int| 0 <= k < bs.len() ==> #[trigger] scene.batch_placed(bs, k),
        0 <= k <= bs.len(),
    ensures
        0 <= emitted(bs, k, t),
    decreases k,
{
    if k > 0 {
        lemma_emitted_nonneg(scene, bs, k - 1, t);
        assert(scene.batch_placed(bs, k - 1));
    }
}

/// One step of the batch iterator keeps the invariants of `all_batches`.
proof fn lemma_batch_step(
    scene: &Scene,
    old_bs: Seq<PrimitiveBatch>,
    b: PrimitiveBatch,
    cur: Seq<usize>,
    new_cur: Seq<usize>,
)
    requires
        scene.path_vertices_fit(),
        scene.valid_cursors(cur),
        forall|t: int| 0 <= t < STREAM_COUNT ==> cur[t] == #[trigger] emitted(old_bs, old_bs.len() as int, t),
        forall|k: int| 0 <= k < old_bs.len() ==> #[trigger] scene.batch_placed(old_bs, k),
        scene.batches_maximal(old_bs),
        old_bs.len() > 0 ==> {
            let last = old_bs[old_bs.len() - 1];
            let s = batch_stream(last);
            scene.live(cur, s) ==> !(scene.below_other_heads(
                cur,
                s,
                scene.key_at(s, cur[s] as int),
            ) && scene.joins(s, batch_start(last), cur[s] as int))
        },
        scene.streams_sorted() ==> scene.batched_before_rest(old_bs, cur),
        scene.streams_sorted() ==> scene.batches_in_key_order(old_bs),
        ({
            let s = batch_stream(b);
            &&& scene.is_lowest(cur, s)
            &&& batch_start(b) == cur[s]
            &&& scene.run_ends_at(cur, s, batch_end(b))
            &&& b == scene.batch_for(s, batch_start(b), batch_end(b))
            &&& new_cur == cur.update(s, batch_end(b) as usize)
        }),
        scene.valid_cursors(new_cur),
    ensures
        forall|t: int|
            0 <= t < STREAM_COUNT ==> new_cur[t] == #[trigger] emitted(old_bs.push(b), old_bs.len() as int + 1, t),
        forall|k: int| 0 <= k < old_bs.len() as int + 1 ==> #[trigger] scene.batch_placed(old_bs.push(b), k),
        scene.batches_maximal(old_bs.push(b)),
        ({
            let s = batch_stream(b);
            scene.live(new_cur, s) ==> !(scene.below_other_heads(
                new_cur,
                s,
                scene.key_at(s, new_cur[s] as int),
            ) && scene.joins(s, batch_start(b), new_cur[s] as int))
        }),
        scene.streams_sorted() ==> scene.batched_before_rest(old_bs.push(b), new_cur),
        scene.streams_sorted() ==> scene.batches_in_key_order(old_bs.push(b)),
        scene.unbatched(new_cur) < scene.unbatched(cur),
{
    let bs = old_bs.push(b);
    let n = old_bs.len() as int;
    let s = batch_stream(b);
    let a = batch_start(b);
    let e = batch_end(b);
    scene.lemma_stream_len_bounded(s);
    assert(new_cur[s] == e);
    assert(bs[n] == b);
    assert forall|t: int| 0 <= t < STREAM_COUNT implies new_cur[t] == #[trigger] emitted(bs, n + 1, t) by {
        lemma_emitted_push(old_bs, b, n, t);
    }
    assert forall|k: int| 0 <= k < n + 1 implies #[trigger] scene.batch_placed(bs, k) by {
        if k < n {
            assert(scene.batch_placed(old_bs, k));
            assert(bs[k] == old_bs[k]);
            lemma_emitted_push(old_bs, b, k, batch_stream(bs[k]));
        } else {
            lemma_emitted_push(old_bs, b, n, s);
            assert(cur[s] == emitted(old_bs, n, s));
        }
    }
    // below_other_heads ignores the cursor of `s` itself
    assert forall|k: (int, int)| #[trigger] scene.below_other_heads(new_cur, s, k) == scene.below_other_heads(cur, s, k) by {
        if scene.below_other_heads(cur, s, k) {
            assert forall|t: int| 0 <= t < STREAM_COUNT && t != s && #[trigger] scene.live(new_cur, t) implies key_lt(k, scene.key_at(t, new_cur[t] as int)) by {
                assert(scene.live(cur, t));
            }
        }
        if scene.below_other_heads(new_cur, s, k) {
            assert forall|t: int| 0 <= t < STREAM_COUNT && t != s && #[trigger] scene.live(cur, t) implies key_lt(k, scene.key_at(t, cur[t] as int)) by {
                assert(scene.live(new_cur, t));
            }
        }
    }
    assert(scene.batches_maximal(bs)) by {
        assert forall|k: int, j: int|
            0 <= k < bs.len() && batch_start(bs[k]) < j < batch_end(bs[k]) implies #[trigger] scene.joins(
                batch_stream(bs[k]),
                batch_start(bs[k]),
                j,
            ) by {
            if k < n {
                assert(bs[k] == old_bs[k]);
            } else {
                assert(bs[k] == b);
                assert(scene.run_ends_at(cur, s, e));
                assert(a == cur[s] as int);
                assert(a < j < e);
                assert(scene.below_other_heads(cur, s, scene.key_at(s, j)));
                assert(scene.below_other_heads(cur, s, scene.key_at(s, j)) && scene.joins(s, a, j));
            }
        }
        assert forall|k1: int, k2: int|
            0 <= k1 && k2 == k1 + 1 && k2 < bs.len() && batch_stream(#[trigger] bs[k1])
                == batch_stream(#[trigger] bs[k2]) implies !scene.joins(
                batch_stream(bs[k1]),
                batch_start(bs[k1]),
                batch_start(bs[k2]),
            ) by {
            if k2 < n {
                assert(bs[k1] == old_bs[k1]);
                assert(bs[k2] == old_bs[k2]);
            } else {
                assert(bs[k1] == old_bs[n - 1]);
                assert(scene.live(cur, s));
            }
        }
    }
    if e < scene.stream_len(s) {
        assert(!(scene.below_other_heads(cur, s, scene.key_at(s, e)) && scene.joins(s, a, e)));
    }
    if scene.streams_sorted() {
        assert forall|k: int, i: int, t: int, j: int|
            0 <= k < bs.len() && batch_start(bs[k]) <= i < batch_end(bs[k]) && 0 <= t
                < STREAM_COUNT && new_cur[t] <= j < scene.stream_len(t) implies !key_lt(
                #[trigger] scene.key_at(t, j),
                #[trigger] scene.key_at(batch_stream(bs[k]), i),
            ) by {
            if k < n {
                assert(bs[k] == old_bs[k]);
                assert(cur[t] <= new_cur[t]);
            } else if t == s {
                assert(!key_lt(scene.key_at(s, j), scene.key_at(s, i)));
            } else {
                assert(scene.live(cur, t));
                assert(!key_lt(scene.key_at(t, j), scene.key_at(t, cur[t] as int)));
                if i == a {
                } else {
                    assert(scene.below_other_heads(cur, s, scene.key_at(s, i)));
                }
                assert(key_lt(scene.key_at(s, i), scene.key_at(t, cur[t] as int)));
            }
        }
        assert forall|k1: int, k2: int, i: int, j: int|
            0 <= k1 < k2 < bs.len() && batch_start(bs[k1]) <= i < batch_end(bs[k1])
                && batch_start(bs[k2]) <= j < batch_end(bs[k2]) implies !key_lt(
                #[trigger] scene.key_at(batch_stream(bs[k2]), j),
                #[trigger] scene.key_at(batch_stream(bs[k1]), i),
            ) by {
            assert(bs[k1] == old_bs[k1]);
            if k2 < n {
                assert(bs[k2] == old_bs[k2]);
            } else {
                assert(cur[s] <= j < scene.stream_len(s));
            }
        }
    }
}

/// Law: every batch draws a uniform run. Each element of a sprite batch lies on the atlas
/// texture the batch names (a polychrome one also shares its smoothing), and each element of
/// a quad or shadow batch has the batch's smoothing.
pub proof fn law_batches_draw_uniform_runs(scene: &Scene, bs: Seq<PrimitiveBatch>, k: int, j: int)
    requires
        scene.batches_partition(bs),
        scene.batches_maximal(bs),
        0 <= k < bs.len(),
        batch_start(bs[k]) <= j < batch_end(bs[k]),
    ensures
        bs[k] matches PrimitiveBatch::MonochromeSprites { texture_id, .. } ==> scene.monochrome_sprites@[j].tile.texture_id
            == texture_id,
        bs[k] matches PrimitiveBatch::SubpixelSprites { texture_id, .. } ==> scene.subpixel_sprites@[j].tile.texture_id
            == texture_id,
        bs[k] matches PrimitiveBatch::PolychromeSprites { texture_id, smoothed, .. } ==> scene.polychrome_sprites@[j].tile.texture_id
            == texture_id && scene.polychrome_sprites@[j].smoothed == smoothed,
        bs[k] matches PrimitiveBatch::Quads { smoothed, .. } ==> scene.quads@[j].smoothed == smoothed,
        bs[k] matches PrimitiveBatch::Shadows { smoothed, .. } ==> scene.shadows@[j].smoothed == smoothed,
{
    assert(scene.batch_placed(bs, k));
    let s = batch_stream(bs[k]);
    let a = batch_start(bs[k]);
    if a < j {
        assert(scene.joins(s, a, j));
    }
}

/// Law: two batches of one kind that follow each other differ in what a draw call binds:
/// sprite batches in their atlas texture (polychrome ones, or in smoothing), quad and
/// shadow batches in smoothing; batches of paths, underlines, surfaces, backdrop filters
/// or filter boundaries never follow one of their own kind.
pub proof fn law_neighbouring_batches_differ(scene: &Scene, bs: Seq<PrimitiveBatch>, k: int)
    requires
        scene.batches_partition(bs),
        scene.batches_maximal(bs),
        0 <= k,
        k + 1 < bs.len(),
    ensures
        bs[k] matches PrimitiveBatch::MonochromeSprites { texture_id: first, .. } ==> (bs[k + 1] matches PrimitiveBatch::MonochromeSprites { texture_id: next, .. } ==> first != next),
        bs[k] matches PrimitiveBatch::SubpixelSprites { texture_id: first, .. } ==> (bs[k + 1] matches PrimitiveBatch::SubpixelSprites { texture_id: next, .. } ==> first != next),
        bs[k] matches PrimitiveBatch::PolychromeSprites { texture_id: first, smoothed: a, .. } ==> (bs[k + 1] matches PrimitiveBatch::PolychromeSprites { texture_id: next, smoothed: b, .. } ==> first != next || a != b),
        bs[k] matches PrimitiveBatch::Quads { smoothed: a, .. } ==> (bs[k + 1] matches PrimitiveBatch::Quads { smoothed: b, .. } ==> a != b),
        bs[k] matches PrimitiveBatch::Shadows { smoothed: a, .. } ==> (bs[k + 1] matches PrimitiveBatch::Shadows { smoothed: b, .. } ==> a != b),
        batch_stream(bs[k]) == batch_stream(bs[k + 1]) ==> !(bs[k] is Paths || bs[k] is Underlines || bs[k] is Surfaces || bs[k] is BackdropFilters),
{
    assert(scene.batch_placed(bs, k));
    assert(scene.batch_placed(bs, k + 1));
    if batch_stream(bs[k]) == batch_stream(bs[k + 1]) {
        assert(!scene.joins(batch_stream(bs[k]), batch_start(bs[k]), batch_start(bs[k + 1])));
    }
}

} // verus!
