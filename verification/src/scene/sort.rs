//! Stable sorting of primitive lists by their draw-order keys.
use super::primitives::{
    BackdropFilter, FilterBoundary, MonochromeSprite, PaintSurface, Path, PolychromeSprite, Quad,
    Shadow, SubpixelSprite, Underline,
};
use vstd::prelude::*;

verus! {

/// A primitive list element with a totally ordered sort key.
pub trait SortKey {
    /// The key by which the element is sorted.
    spec fn key_spec(&self) -> int;

    /// The key by which the element is sorted.
    fn sort_key(&self) -> (k: u64)
        ensures
            k == self.key_spec(),
    ;
}

/// `p` maps each position of `sorted` to the position in `unsorted` that it came from;
/// keys ascend, and equal keys keep their relative order.
pub open spec fn stable_permutation<T: SortKey>(p: Seq<int>, sorted: Seq<T>, unsorted: Seq<T>) -> bool {
    &&& sorted.len() == unsorted.len()
    &&& p.len() == sorted.len()
    &&& forall|i: int| 0 <= i < p.len() ==> 0 <= #[trigger] p[i] < p.len() && sorted[i] == unsorted[p[i]]
    &&& forall|i: int, j: int|
        0 <= i < j < p.len() ==> (#[trigger] sorted[i]).key_spec() < (#[trigger] sorted[j]).key_spec() || (
        sorted[i].key_spec() == sorted[j].key_spec() && p[i] < p[j])
}

/// `sorted` is the stable sort of `unsorted` by key.
pub open spec fn is_stable_sort_of<T: SortKey>(sorted: Seq<T>, unsorted: Seq<T>) -> bool {
    exists|p: Seq<int>| stable_permutation(p, sorted, unsorted)
}

/// The keys of `s` never descend.
pub open spec fn keys_ascend<T: SortKey>(s: Seq<T>) -> bool {
    forall|i: int, j: int|
        0 <= i <= j < s.len() ==> (#[trigger] s[i]).key_spec() <= (#[trigger] s[j]).key_spec()
}

/// A stable sort orders the keys.
pub proof fn lemma_stable_sort_ascends<T: SortKey>(sorted: Seq<T>, unsorted: Seq<T>)
    requires
        is_stable_sort_of(sorted, unsorted),
    ensures
        keys_ascend(sorted),
        sorted.len() == unsorted.len(),
{
    let p = choose|p: Seq<int>| stable_permutation(p, sorted, unsorted);
    assert forall|i: int, j: int| 0 <= i <= j < sorted.len() implies (
    #[trigger] sorted[i]).key_spec() <= (#[trigger] sorted[j]).key_spec() by {
        if i < j {
        }
    }
}

/// Sorts `v` by `sort_key` with the standard library's stable sort.
///
/// Calls `slice::sort_by_key`, whose documentation promises a stable sort: afterwards the
/// elements are a rearrangement of the old ones (same multiset) with ascending keys, and
/// elements with equal keys keep their old relative order. The contract states exactly
/// that.
#[verifier::external_body]
pub(crate) fn sort_by_key_stable<T: SortKey>(v: &mut Vec<T>)
    ensures
        is_stable_sort_of(final(v)@, old(v)@),
        final(v)@.to_multiset() == old(v)@.to_multiset(),
{
    v.sort_by_key(|element| element.sort_key());
}

impl SortKey for Shadow {
    open spec fn key_spec(&self) -> int {
        self.order as int
    }

    fn sort_key(&self) -> (k: u64) {
        self.order as u64
    }
}

impl SortKey for Quad {
    open spec fn key_spec(&self) -> int {
        self.order as int
    }

    fn sort_key(&self) -> (k: u64) {
        self.order as u64
    }
}

impl SortKey for Path {
    open spec fn key_spec(&self) -> int {
        self.order as int
    }

    fn sort_key(&self) -> (k: u64) {
        self.order as u64
    }
}

impl SortKey for Underline {
    open spec fn key_spec(&self) -> int {
        self.order as int
    }

    fn sort_key(&self) -> (k: u64) {
        self.order as u64
    }
}

impl SortKey for PaintSurface {
    open spec fn key_spec(&self) -> int {
        self.order as int
    }

    fn sort_key(&self) -> (k: u64) {
        self.order as u64
    }
}

impl SortKey for BackdropFilter {
    open spec fn key_spec(&self) -> int {
        self.order as int
    }

    fn sort_key(&self) -> (k: u64) {
        self.order as u64
    }
}

/// Sprites sort by order, then by tile.
impl SortKey for MonochromeSprite {
    open spec fn key_spec(&self) -> int {
        self.order as int * 0x1_0000_0000 + self.tile.tile_id.0 as int
    }

    fn sort_key(&self) -> (k: u64) {
        self.order as u64 * 0x1_0000_0000 + self.tile.tile_id.0 as u64
    }
}

impl SortKey for SubpixelSprite {
    open spec fn key_spec(&self) -> int {
        self.order as int * 0x1_0000_0000 + self.tile.tile_id.0 as int
    }

    fn sort_key(&self) -> (k: u64) {
        self.order as u64 * 0x1_0000_0000 + self.tile.tile_id.0 as u64
    }
}

impl SortKey for PolychromeSprite {
    open spec fn key_spec(&self) -> int {
        self.order as int * 0x1_0000_0000 + self.tile.tile_id.0 as int
    }

    fn sort_key(&self) -> (k: u64) {
        self.order as u64 * 0x1_0000_0000 + self.tile.tile_id.0 as u64
    }
}

/// Filter boundaries sort by order, a start before an end of the same order.
impl SortKey for FilterBoundary {
    open spec fn key_spec(&self) -> int {
        self.order as int * 2 + if self.is_start {
            0int
        } else {
            1int
        }
    }

    fn sort_key(&self) -> (k: u64) {
        self.order as u64 * 2 + if self.is_start {
            0
        } else {
            1
        }
    }
}

} // verus!
