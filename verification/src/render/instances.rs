//! Batch addressing shared by every GPU backend.
use vstd::prelude::*;

verus! {

/// A contiguous run of instances inside one pipeline's whole-frame instance buffer.
///
/// The render plan hands out `usize` ranges of the scene arrays; backends draw them with
/// 32-bit GPU indices. Building this once at the boundary keeps every draw call working
/// from the same validated base and count. The end never overflows a `u32`.
#[derive(Clone, Copy, Debug, PartialEq, Eq, Structural)]
pub struct InstanceRange {
    first: u32,
    count: u32,
}

impl InstanceRange {
    /// The index of the first instance.
    pub closed spec fn first_spec(self) -> int {
        self.first as int
    }

    /// The number of instances.
    pub closed spec fn count_spec(self) -> int {
        self.count as int
    }

    /// A range is determined by its first index and its count.
    pub proof fn lemma_determined_by_first_and_count(a: Self, b: Self)
        requires
            a.first_spec() == b.first_spec(),
            a.count_spec() == b.count_spec(),
        ensures
            a == b,
    {
    }

    /// The end of every instance range fits a 32-bit index.
    #[verifier::type_invariant]
    closed spec fn end_fits(self) -> bool {
        self.first + self.count <= u32::MAX
    }

    /// A single instance at index zero, for draws that pull all their data per vertex.
    pub fn single() -> (r: Self)
        ensures
            r.first_spec() == 0,
            r.count_spec() == 1,
    {
        Self { first: 0, count: 1 }
    }

    /// Converts a scene slice into GPU draw arguments.
    ///
    /// Returns `None` exactly when the range is descending or its end does not fit a
    /// 32-bit instance index.
    pub fn new(range: core::ops::Range<usize>) -> (r: Option<Self>)
        ensures
            r is Some <==> (range.start <= range.end && range.end <= u32::MAX),
            r matches Some(ir) ==> ir.first_spec() == range.start && ir.count_spec()
                == range.end - range.start,
    {
        if range.end > u32::MAX as usize || range.start > range.end {
            return None;
        }
        let first = range.start as u32;
        let end = range.end as u32;
        Some(Self { first, count: end - first })
    }

    /// The first `count` instances of a freshly uploaded batch.
    pub fn from_start(count: usize) -> (r: Option<Self>)
        ensures
            r is Some <==> count <= u32::MAX,
            r matches Some(ir) ==> ir.first_spec() == 0 && ir.count_spec() == count,
    {
        Self::new(0..count)
    }

    /// Index of the first instance, relative to the bound buffer.
    pub fn first(self) -> (r: u32)
        ensures
            r == self.first_spec(),
    {
        self.first
    }

    /// Number of instances to draw.
    pub fn count(self) -> (r: u32)
        ensures
            r == self.count_spec(),
    {
        self.count
    }

    /// One past the last instance; never overflows because construction checked it.
    pub fn end(self) -> (r: u32)
        ensures
            r == self.first_spec() + self.count_spec(),
    {
        proof {
            use_type_invariant(self);
        }
        self.first + self.count
    }

    /// Whether the draw would touch no instances at all.
    pub fn is_empty(self) -> (r: bool)
        ensures
            r == (self.count_spec() == 0),
    {
        self.count == 0
    }

    /// The equivalent `first..end` range for APIs that take one directly.
    pub fn as_range(self) -> (r: core::ops::Range<u32>)
        ensures
            r.start == self.first_spec(),
            r.end == self.first_spec() + self.count_spec(),
    {
        let end = self.end();
        self.first..end
    }
}


} // verus!
