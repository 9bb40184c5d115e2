//! The inline-capacity vectors that render planning keeps its scratch state in.
//!
//! Render planning runs every frame and its stacks are almost always tiny, so they live
//! in `smallvec::SmallVec` buffers with inline storage. Each buffer's contents are named
//! below and every operation the planner uses states what it does to them.
use super::plan::FilterRenderTarget;
use smallvec::SmallVec;
use vstd::prelude::*;

verus! {

/// Per-boundary flags in a `SmallVec<[bool; 8]>`.
#[verifier::external_body]
pub struct FlagBuffer {
    inner: SmallVec<[bool; 8]>,
}

/// A stack of pending filter starts in a `SmallVec<[usize; 4]>`.
#[verifier::external_body]
pub struct IndexStack {
    inner: SmallVec<[usize; 4]>,
}

/// A stack of open filter groups in a `SmallVec<[(usize, FilterRenderTarget); 4]>`.
#[verifier::external_body]
pub struct GroupStack {
    inner: SmallVec<[(usize, FilterRenderTarget); 4]>,
}

/// The flags held by a buffer of per-boundary flags.
pub uninterp spec fn flag_contents(v: FlagBuffer) -> Seq<bool>;

/// The indices held by a buffer of pending filter starts.
pub uninterp spec fn index_contents(v: IndexStack) -> Seq<usize>;

/// The groups held by a buffer of open filter groups.
pub uninterp spec fn group_contents(v: GroupStack) -> Seq<(usize, FilterRenderTarget)>;

/// `SmallVec::from_elem(elem, n)`: a buffer of `n` copies of `elem`.
#[verifier::external_body]
pub(crate) fn flags_from_elem(elem: bool, n: usize) -> (v: FlagBuffer)
    ensures
        flag_contents(v) == Seq::new(n as nat, |i: int| elem),
{
    FlagBuffer { inner: SmallVec::from_elem(elem, n) }
}

/// Indexing a `SmallVec` (`v[i]`): the flag at position `i`.
#[verifier::external_body]
pub(crate) fn flag_at(v: &FlagBuffer, i: usize) -> (r: bool)
    requires
        i < flag_contents(*v).len(),
    ensures
        r == flag_contents(*v)[i as int],
{
    v.inner[i]
}

/// Assigning through `IndexMut` of a `SmallVec` (`v[i] = value`).
#[verifier::external_body]
pub(crate) fn set_flag(v: &mut FlagBuffer, i: usize, value: bool)
    requires
        i < flag_contents(*old(v)).len(),
    ensures
        flag_contents(*final(v)) == flag_contents(*old(v)).update(i as int, value),
{
    v.inner[i] = value;
}

/// `SmallVec::new()`: an empty buffer of indices.
#[verifier::external_body]
pub(crate) fn new_indices() -> (v: IndexStack)
    ensures
        index_contents(v) == Seq::<usize>::empty(),
{
    IndexStack { inner: SmallVec::new() }
}

/// `SmallVec::push` on a buffer of indices: appends `value`.
#[verifier::external_body]
pub(crate) fn push_index(v: &mut IndexStack, value: usize)
    requires
        index_contents(*old(v)).len() < usize::MAX,
    ensures
        index_contents(*final(v)) == index_contents(*old(v)).push(value),
{
    v.inner.push(value);
}

/// `SmallVec::pop` on a buffer of indices: removes and returns the last one.
#[verifier::external_body]
pub(crate) fn pop_index(v: &mut IndexStack) -> (r: Option<usize>)
    ensures
        index_contents(*old(v)).len() == 0 ==> r is None && index_contents(*final(v))
            == index_contents(*old(v)),
        index_contents(*old(v)).len() > 0 ==> r == Some(index_contents(*old(v)).last())
            && index_contents(*final(v)) == index_contents(*old(v)).drop_last(),
{
    v.inner.pop()
}

/// `SmallVec::new()`: an empty buffer of open groups.
#[verifier::external_body]
pub(crate) fn new_groups() -> (v: GroupStack)
    ensures
        group_contents(v) == Seq::<(usize, FilterRenderTarget)>::empty(),
{
    GroupStack { inner: SmallVec::new() }
}

/// `SmallVec::push` on a buffer of open groups: appends `value`.
#[verifier::external_body]
pub(crate) fn push_group(v: &mut GroupStack, value: (usize, FilterRenderTarget))
    requires
        group_contents(*old(v)).len() < usize::MAX,
    ensures
        group_contents(*final(v)) == group_contents(*old(v)).push(value),
{
    v.inner.push(value);
}

/// `SmallVec::pop` on a buffer of open groups: removes and returns the last one.
#[verifier::external_body]
pub(crate) fn pop_group(v: &mut GroupStack) -> (r: Option<(usize, FilterRenderTarget)>)
    ensures
        group_contents(*old(v)).len() == 0 ==> r is None && group_contents(*final(v))
            == group_contents(*old(v)),
        group_contents(*old(v)).len() > 0 ==> r == Some(group_contents(*old(v)).last())
            && group_contents(*final(v)) == group_contents(*old(v)).drop_last(),
{
    v.inner.pop()
}

} // verus!
