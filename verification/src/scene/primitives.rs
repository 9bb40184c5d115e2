//! The primitives of a scene, as ordering and batching read them.
//!
//! Each primitive keeps its draw order and the attributes that decide whether two
//! neighbours of the same kind can share one draw call: corner smoothing (as the flag
//! `corner_smoothing > 0`), the atlas texture, the sprite tile, and the number of
//! rasterization vertices of a path.
use vstd::prelude::*;

verus! {

/// The position of a primitive in painter's order; lower orders are drawn first.
pub type DrawOrder = u32;

/// The kind of atlas a texture lives in.
#[derive(Clone, Copy, Debug, PartialEq, Eq, Structural)]
pub enum AtlasTextureKind {
    Monochrome,
    Polychrome,
    Subpixel,
}

/// Identifies one texture of the sprite atlas.
#[derive(Clone, Copy, Debug, PartialEq, Eq, Structural)]
pub struct AtlasTextureId {
    pub index: u32,
    pub kind: AtlasTextureKind,
}

/// Identifies one tile inside an atlas texture.
#[derive(Clone, Copy, Debug, PartialEq, Eq, Structural)]
pub struct TileId(pub u32);

/// The place of a sprite inside the atlas.
#[derive(Clone, Copy, Debug, PartialEq, Eq, Structural)]
pub struct AtlasTile {
    pub texture_id: AtlasTextureId,
    pub tile_id: TileId,
}

/// A boolean with the same four-byte representation in Rust and WGSL.
#[derive(Clone, Copy, Debug, PartialEq, Eq, Structural)]
pub enum ShaderBool {
    /// The flag is disabled.
    Disabled,
    /// The flag is enabled.
    Enabled,
}

impl ShaderBool {
    /// Returns this flag as a regular Rust boolean.
    pub fn is_enabled(self) -> (r: bool)
        ensures
            r == (self == ShaderBool::Enabled),
    {
        match self {
            ShaderBool::Enabled => true,
            ShaderBool::Disabled => false,
        }
    }
}

impl From<bool> for ShaderBool {
    /// `true` enables the flag.
    fn from(value: bool) -> (r: Self) {
        if value {
            ShaderBool::Enabled
        } else {
            ShaderBool::Disabled
        }
    }
}

impl vstd::std_specs::convert::FromSpecImpl<bool> for ShaderBool {
    open spec fn obeys_from_spec() -> bool {
        true
    }

    open spec fn from_spec(v: bool) -> ShaderBool {
        if v {
            ShaderBool::Enabled
        } else {
            ShaderBool::Disabled
        }
    }
}

/// The style of a border.
#[derive(Clone, Copy, Debug, PartialEq, Eq, Structural)]
pub enum BorderStyle {
    /// A solid border.
    Solid,
    /// A dashed border.
    Dashed,
}

/// A shadow: its order and whether its corners are smoothed.
#[derive(Clone, Copy, Debug, PartialEq, Eq, Structural)]
pub struct Shadow {
    pub order: DrawOrder,
    pub smoothed: bool,
}

/// A quad: its order and whether its corners are smoothed.
#[derive(Clone, Copy, Debug, PartialEq, Eq, Structural)]
pub struct Quad {
    pub order: DrawOrder,
    pub smoothed: bool,
}

/// Index of a path in the scene's path list at the time it was inserted.
#[derive(Clone, Copy, Debug, PartialEq, Eq, Structural)]
pub struct PathId(pub usize);

/// A path: its id, its order and the number of its rasterization vertices.
#[derive(Clone, Copy, Debug, PartialEq, Eq, Structural)]
pub struct Path {
    pub id: PathId,
    pub order: DrawOrder,
    pub vertex_count: usize,
}

/// An underline: its order.
#[derive(Clone, Copy, Debug, PartialEq, Eq, Structural)]
pub struct Underline {
    pub order: DrawOrder,
}

/// A monochrome sprite: its order and atlas tile.
#[derive(Clone, Copy, Debug, PartialEq, Eq, Structural)]
pub struct MonochromeSprite {
    pub order: DrawOrder,
    pub tile: AtlasTile,
}

/// A subpixel sprite: its order and atlas tile.
#[derive(Clone, Copy, Debug, PartialEq, Eq, Structural)]
pub struct SubpixelSprite {
    pub order: DrawOrder,
    pub tile: AtlasTile,
}

/// A polychrome sprite: its order, atlas tile and whether its corners are smoothed.
#[derive(Clone, Copy, Debug, PartialEq, Eq, Structural)]
pub struct PolychromeSprite {
    pub order: DrawOrder,
    pub tile: AtlasTile,
    pub smoothed: bool,
}

/// A painted surface: its order.
#[derive(Clone, Copy, Debug, PartialEq, Eq, Structural)]
pub struct PaintSurface {
    pub order: DrawOrder,
}

/// A backdrop filter: its order.
#[derive(Clone, Copy, Debug, PartialEq, Eq, Structural)]
pub struct BackdropFilter {
    pub order: DrawOrder,
}

/// The start (`is_start`) or end marker of a content-filter isolation group.
#[derive(Clone, Copy, Debug, PartialEq, Eq, Structural)]
pub struct FilterBoundary {
    pub order: DrawOrder,
    pub is_start: bool,
}

/// Any primitive that can be inserted into a scene.
#[derive(Clone, Copy, Debug, PartialEq, Eq, Structural)]
pub enum Primitive {
    Shadow(Shadow),
    Quad(Quad),
    Path(Path),
    Underline(Underline),
    MonochromeSprite(MonochromeSprite),
    SubpixelSprite(SubpixelSprite),
    PolychromeSprite(PolychromeSprite),
    Surface(PaintSurface),
    BackdropFilter(BackdropFilter),
    FilterBoundary(FilterBoundary),
}

impl Primitive {
    /// The draw order carried by the primitive.
    pub open spec fn order_spec(self) -> DrawOrder {
        match self {
            Primitive::Shadow(p) => p.order,
            Primitive::Quad(p) => p.order,
            Primitive::Path(p) => p.order,
            Primitive::Underline(p) => p.order,
            Primitive::MonochromeSprite(p) => p.order,
            Primitive::SubpixelSprite(p) => p.order,
            Primitive::PolychromeSprite(p) => p.order,
            Primitive::Surface(p) => p.order,
            Primitive::BackdropFilter(p) => p.order,
            Primitive::FilterBoundary(p) => p.order,
        }
    }

    /// The draw order carried by the primitive.
    pub fn order(&self) -> (r: DrawOrder)
        ensures
            r == self.order_spec(),
    {
        match self {
            Primitive::Shadow(p) => p.order,
            Primitive::Quad(p) => p.order,
            Primitive::Path(p) => p.order,
            Primitive::Underline(p) => p.order,
            Primitive::MonochromeSprite(p) => p.order,
            Primitive::SubpixelSprite(p) => p.order,
            Primitive::PolychromeSprite(p) => p.order,
            Primitive::Surface(p) => p.order,
            Primitive::BackdropFilter(p) => p.order,
            Primitive::FilterBoundary(p) => p.order,
        }
    }

    /// The same primitive with its draw order replaced.
    pub open spec fn with_order_spec(self, order: DrawOrder) -> Primitive {
        match self {
            Primitive::Shadow(p) => Primitive::Shadow(Shadow { order, ..p }),
            Primitive::Quad(p) => Primitive::Quad(Quad { order, ..p }),
            Primitive::Path(p) => Primitive::Path(Path { order, ..p }),
            Primitive::Underline(p) => Primitive::Underline(Underline { order, ..p }),
            Primitive::MonochromeSprite(p) => Primitive::MonochromeSprite(
                MonochromeSprite { order, ..p },
            ),
            Primitive::SubpixelSprite(p) => Primitive::SubpixelSprite(SubpixelSprite { order, ..p }),
            Primitive::PolychromeSprite(p) => Primitive::PolychromeSprite(
                PolychromeSprite { order, ..p },
            ),
            Primitive::Surface(p) => Primitive::Surface(PaintSurface { order, ..p }),
            Primitive::BackdropFilter(p) => Primitive::BackdropFilter(BackdropFilter { order, ..p }),
            Primitive::FilterBoundary(p) => Primitive::FilterBoundary(FilterBoundary { order, ..p }),
        }
    }
}

/// The kinds of primitives in the order in which they are drawn at an equal draw order.
///
/// A content-filter start sorts before everything of its order and an end after
/// everything of its order, so a group brackets its own content.
#[derive(Clone, Copy, Debug, PartialEq, Eq, Structural)]
pub enum PrimitiveKind {
    FilterBoundaryStart,
    Shadow,
    Quad,
    Path,
    Underline,
    MonochromeSprite,
    SubpixelSprite,
    PolychromeSprite,
    Surface,
    BackdropFilter,
    FilterBoundaryEnd,
}

impl PrimitiveKind {
    /// The position of the kind in the tie-break order.
    pub open spec fn rank(self) -> int {
        match self {
            PrimitiveKind::FilterBoundaryStart => 0,
            PrimitiveKind::Shadow => 1,
            PrimitiveKind::Quad => 2,
            PrimitiveKind::Path => 3,
            PrimitiveKind::Underline => 4,
            PrimitiveKind::MonochromeSprite => 5,
            PrimitiveKind::SubpixelSprite => 6,
            PrimitiveKind::PolychromeSprite => 7,
            PrimitiveKind::Surface => 8,
            PrimitiveKind::BackdropFilter => 9,
            PrimitiveKind::FilterBoundaryEnd => 10,
        }
    }

    /// The position of the kind in the tie-break order.
    pub fn rank_exec(self) -> (r: u8)
        ensures
            r == self.rank(),
    {
        match self {
            PrimitiveKind::FilterBoundaryStart => 0,
            PrimitiveKind::Shadow => 1,
            PrimitiveKind::Quad => 2,
            PrimitiveKind::Path => 3,
            PrimitiveKind::Underline => 4,
            PrimitiveKind::MonochromeSprite => 5,
            PrimitiveKind::SubpixelSprite => 6,
            PrimitiveKind::PolychromeSprite => 7,
            PrimitiveKind::Surface => 8,
            PrimitiveKind::BackdropFilter => 9,
            PrimitiveKind::FilterBoundaryEnd => 10,
        }
    }
}

/// Law: at an equal draw order, kinds draw in one fixed order, from a filter start through
/// shadows, quads, paths, underlines, monochrome, subpixel and polychrome sprites, surfaces
/// and backdrop filters to a filter end; the ranks are exactly 0 to 10 in that order.
pub proof fn law_kinds_draw_in_declaration_order()
    ensures
        PrimitiveKind::FilterBoundaryStart.rank() == 0,
        PrimitiveKind::FilterBoundaryStart.rank() < PrimitiveKind::Shadow.rank(),
        PrimitiveKind::Shadow.rank() < PrimitiveKind::Quad.rank(),
        PrimitiveKind::Quad.rank() < PrimitiveKind::Path.rank(),
        PrimitiveKind::Path.rank() < PrimitiveKind::Underline.rank(),
        PrimitiveKind::Underline.rank() < PrimitiveKind::MonochromeSprite.rank(),
        PrimitiveKind::MonochromeSprite.rank() < PrimitiveKind::SubpixelSprite.rank(),
        PrimitiveKind::SubpixelSprite.rank() < PrimitiveKind::PolychromeSprite.rank(),
        PrimitiveKind::PolychromeSprite.rank() < PrimitiveKind::Surface.rank(),
        PrimitiveKind::Surface.rank() < PrimitiveKind::BackdropFilter.rank(),
        PrimitiveKind::BackdropFilter.rank() < PrimitiveKind::FilterBoundaryEnd.rank(),
        PrimitiveKind::FilterBoundaryEnd.rank() == 10,
        forall|a: PrimitiveKind, b: PrimitiveKind| a.rank() == b.rank() ==> a == b,
{
}

/// The batching key of a primitive: its draw order, then the rank of its kind.
pub open spec fn key_lt(a: (int, int), b: (int, int)) -> bool {
    a.0 < b.0 || (a.0 == b.0 && a.1 < b.1)
}

/// Whether a primitive of `order` and `kind` sorts strictly before `limit`; everything
/// precedes an absent limit.
pub fn precedes_limit(
    order: DrawOrder,
    kind: PrimitiveKind,
    limit: Option<(DrawOrder, PrimitiveKind)>,
) -> (r: bool)
    ensures
        r == match limit {
            None => true,
            Some((limit_order, limit_kind)) => key_lt(
                (order as int, kind.rank()),
                (limit_order as int, limit_kind.rank()),
            ),
        },
{
    match limit {
        None => true,
        Some((limit_order, limit_kind)) => order < limit_order || (order == limit_order
            && kind.rank_exec() < limit_kind.rank_exec()),
    }
}

impl From<Shadow> for Primitive {
    fn from(primitive: Shadow) -> (r: Self) {
        Primitive::Shadow(primitive)
    }
}

impl vstd::std_specs::convert::FromSpecImpl<Shadow> for Primitive {
    open spec fn obeys_from_spec() -> bool {
        true
    }

    open spec fn from_spec(v: Shadow) -> Primitive {
        Primitive::Shadow(v)
    }
}

impl From<Quad> for Primitive {
    fn from(primitive: Quad) -> (r: Self) {
        Primitive::Quad(primitive)
    }
}

impl vstd::std_specs::convert::FromSpecImpl<Quad> for Primitive {
    open spec fn obeys_from_spec() -> bool {
        true
    }

    open spec fn from_spec(v: Quad) -> Primitive {
        Primitive::Quad(v)
    }
}

impl From<Path> for Primitive {
    fn from(primitive: Path) -> (r: Self) {
        Primitive::Path(primitive)
    }
}

impl vstd::std_specs::convert::FromSpecImpl<Path> for Primitive {
    open spec fn obeys_from_spec() -> bool {
        true
    }

    open spec fn from_spec(v: Path) -> Primitive {
        Primitive::Path(v)
    }
}

impl From<Underline> for Primitive {
    fn from(primitive: Underline) -> (r: Self) {
        Primitive::Underline(primitive)
    }
}

impl vstd::std_specs::convert::FromSpecImpl<Underline> for Primitive {
    open spec fn obeys_from_spec() -> bool {
        true
    }

    open spec fn from_spec(v: Underline) -> Primitive {
        Primitive::Underline(v)
    }
}

impl From<MonochromeSprite> for Primitive {
    fn from(primitive: MonochromeSprite) -> (r: Self) {
        Primitive::MonochromeSprite(primitive)
    }
}

impl vstd::std_specs::convert::FromSpecImpl<MonochromeSprite> for Primitive {
    open spec fn obeys_from_spec() -> bool {
        true
    }

    open spec fn from_spec(v: MonochromeSprite) -> Primitive {
        Primitive::MonochromeSprite(v)
    }
}

impl From<SubpixelSprite> for Primitive {
    fn from(primitive: SubpixelSprite) -> (r: Self) {
        Primitive::SubpixelSprite(primitive)
    }
}

impl vstd::std_specs::convert::FromSpecImpl<SubpixelSprite> for Primitive {
    open spec fn obeys_from_spec() -> bool {
        true
    }

    open spec fn from_spec(v: SubpixelSprite) -> Primitive {
        Primitive::SubpixelSprite(v)
    }
}

impl From<PolychromeSprite> for Primitive {
    fn from(primitive: PolychromeSprite) -> (r: Self) {
        Primitive::PolychromeSprite(primitive)
    }
}

impl vstd::std_specs::convert::FromSpecImpl<PolychromeSprite> for Primitive {
    open spec fn obeys_from_spec() -> bool {
        true
    }

    open spec fn from_spec(v: PolychromeSprite) -> Primitive {
        Primitive::PolychromeSprite(v)
    }
}

impl From<PaintSurface> for Primitive {
    fn from(primitive: PaintSurface) -> (r: Self) {
        Primitive::Surface(primitive)
    }
}

impl vstd::std_specs::convert::FromSpecImpl<PaintSurface> for Primitive {
    open spec fn obeys_from_spec() -> bool {
        true
    }

    open spec fn from_spec(v: PaintSurface) -> Primitive {
        Primitive::Surface(v)
    }
}

impl From<BackdropFilter> for Primitive {
    fn from(primitive: BackdropFilter) -> (r: Self) {
        Primitive::BackdropFilter(primitive)
    }
}

impl vstd::std_specs::convert::FromSpecImpl<BackdropFilter> for Primitive {
    open spec fn obeys_from_spec() -> bool {
        true
    }

    open spec fn from_spec(v: BackdropFilter) -> Primitive {
        Primitive::BackdropFilter(v)
    }
}

impl From<FilterBoundary> for Primitive {
    fn from(primitive: FilterBoundary) -> (r: Self) {
        Primitive::FilterBoundary(primitive)
    }
}

impl vstd::std_specs::convert::FromSpecImpl<FilterBoundary> for Primitive {
    open spec fn obeys_from_spec() -> bool {
        true
    }

    open spec fn from_spec(v: FilterBoundary) -> Primitive {
        Primitive::FilterBoundary(v)
    }
}

} // verus!
