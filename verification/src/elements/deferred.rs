//! Deferred drawing: an element whose child is painted after all of its ancestors.
use vstd::prelude::*;

verus! {

/// Describes how the priority of a deferred element is calculated.
#[derive(Clone, Copy, Debug, PartialEq, Eq, Structural)]
pub enum DeferredPriority {
    /// One more than the priority of the deferred element that caused this one, or 1 for
    /// the first deferred element of a rendering stack.
    Auto,
    /// An explicit priority.
    Value(usize),
}

impl From<usize> for DeferredPriority {
    /// An explicit priority.
    fn from(value: usize) -> (r: Self) {
        DeferredPriority::Value(value)
    }
}

impl vstd::std_specs::convert::FromSpecImpl<usize> for DeferredPriority {
    open spec fn obeys_from_spec() -> bool {
        true
    }

    open spec fn from_spec(v: usize) -> DeferredPriority {
        DeferredPriority::Value(v)
    }
}

/// The stack of priorities of the deferred elements being prepainted, innermost last.
pub struct DeferredPriorityStackCache(pub Vec<usize>);

impl DeferredPriorityStackCache {
    /// An empty stack.
    pub fn new() -> (r: Self)
        ensures
            r.0@ == Seq::<usize>::empty(),
    {
        DeferredPriorityStackCache(Vec::new())
    }

    /// Enters the prepaint of a deferred element of `priority`.
    pub fn push(&mut self, priority: usize)
        ensures
            final(self).0@ == old(self).0@.push(priority),
    {
        self.0.push(priority);
    }

    /// Leaves the prepaint of the innermost deferred element.
    pub fn pop(&mut self)
        ensures
            old(self).0@.len() > 0 ==> final(self).0@ == old(self).0@.drop_last(),
            old(self).0@.len() == 0 ==> final(self).0@ == old(self).0@,
    {
        let _ = self.0.pop();
    }

    /// The priority of the innermost deferred element being prepainted, if any; an absent
    /// stack has none.
    pub fn current_depth(cache: Option<&DeferredPriorityStackCache>) -> (r: Option<usize>)
        ensures
            r == current_depth_spec(cache),
    {
        match cache {
            None => None,
            Some(cache) => {
                let n = cache.0.len();
                if n == 0 {
                    None
                } else {
                    Some(cache.0[n - 1])
                }
            },
        }
    }
}

/// The innermost priority on an optional stack.
pub open spec fn current_depth_spec(cache: Option<&DeferredPriorityStackCache>) -> Option<usize> {
    match cache {
        None => None,
        Some(cache) => if cache.0@.len() == 0 {
            None
        } else {
            Some(cache.0@.last())
        },
    }
}

impl DeferredPriority {
    /// The priority this description yields when `current_depth` is the priority of the
    /// deferred element being prepainted, if any.
    pub open spec fn evaluate_spec(self, current_depth: Option<usize>) -> usize {
        match self {
            DeferredPriority::Value(value) => value,
            DeferredPriority::Auto => match current_depth {
                None => 1,
                Some(previous) => if previous == usize::MAX {
                    usize::MAX
                } else {
                    (previous + 1) as usize
                },
            },
        }
    }

    /// Calculates the priority from the stack of deferred prepaints: an explicit value as
    /// is, `Auto` as one above the innermost priority (saturating), or 1 with none.
    pub fn evaluate(&self, cache: Option<&DeferredPriorityStackCache>) -> (r: usize)
        ensures
            r == self.evaluate_spec(current_depth_spec(cache)),
    {
        match self {
            DeferredPriority::Value(value) => *value,
            DeferredPriority::Auto => match DeferredPriorityStackCache::current_depth(cache) {
                None => 1,
                Some(previous) => previous.saturating_add(1),
            },
        }
    }
}

/// An element which delays the painting of its child until after all of its ancestors,
/// while keeping its layout as part of the current element tree.
pub struct Deferred<E, M> {
    child: Option<E>,
    priority: DeferredPriority,
    content_mask: Option<M>,
}

/// Builds a `Deferred` element of priority 0 without a content mask.
pub fn deferred<E, M>(child: E) -> (r: Deferred<E, M>)
    ensures
        r.child_spec() == Some(child),
        r.priority_spec() == DeferredPriority::Value(0),
        r.content_mask_spec() == None::<M>,
{
    Deferred { child: Some(child), priority: DeferredPriority::Value(0), content_mask: None }
}

impl<E, M> Deferred<E, M> {
    /// The child still waiting to be deferred.
    pub closed spec fn child_spec(&self) -> Option<E> {
        self.child
    }

    /// How the priority is calculated.
    pub closed spec fn priority_spec(&self) -> DeferredPriority {
        self.priority
    }

    /// The region the child is clipped to, if any.
    pub closed spec fn content_mask_spec(&self) -> Option<M> {
        self.content_mask
    }

}

impl<E, M: Copy> Deferred<E, M> {
    /// Sets a priority: a higher priority paints on top of deferred draws with a lower one.
    pub fn priority(self, priority: DeferredPriority) -> (r: Self)
        ensures
            r.priority_spec() == priority,
            r.child_spec() == self.child_spec(),
            r.content_mask_spec() == self.content_mask_spec(),
    {
        let mut this = self;
        this.priority = priority;
        this
    }

    /// Paints one above the deferred element that caused this one, or at 1 without one.
    pub fn priority_auto(self) -> (r: Self)
        ensures
            r.priority_spec() == DeferredPriority::Auto,
            r.child_spec() == self.child_spec(),
            r.content_mask_spec() == self.content_mask_spec(),
    {
        let mut this = self;
        this.priority = DeferredPriority::Auto;
        this
    }

    /// Clips the child to `mask` during both prepaint and paint.
    pub fn content_mask(self, mask: M) -> (r: Self)
        ensures
            r.content_mask_spec() == Some(mask),
            r.child_spec() == self.child_spec(),
            r.priority_spec() == self.priority_spec(),
    {
        let mut this = self;
        this.content_mask = Some(mask);
        this
    }

    /// The deferred draw made at prepaint: the child, taken out of the element, with the
    /// priority evaluated against the stack of deferred prepaints, and the content mask.
    pub fn prepaint(&mut self, cache: Option<&DeferredPriorityStackCache>) -> (r: (E, usize, Option<M>))
        requires
            old(self).child_spec() is Some,
        ensures
            r.0 == old(self).child_spec()->0,
            r.1 == old(self).priority_spec().evaluate_spec(current_depth_spec(cache)),
            r.2 == old(self).content_mask_spec(),
            final(self).child_spec() is None,
            final(self).priority_spec() == old(self).priority_spec(),
            final(self).content_mask_spec() == old(self).content_mask_spec(),
    {
        let child = self.child.take().unwrap();
        let priority = self.priority.evaluate(cache);
        (child, priority, self.content_mask)
    }
}

/// Law: the current depth is the priority pushed last (the innermost deferred prepaint),
/// whatever was pushed before it; an empty or absent stack has none; and an automatic
/// priority is one above the priority pushed last (saturating), or 1 with none.
pub proof fn law_current_depth_is_innermost(before: DeferredPriorityStackCache, after: DeferredPriorityStackCache, priority: usize)
    requires
        after.0@ == before.0@.push(priority),
    ensures
        current_depth_spec(Some(&after)) == Some(priority),
        DeferredPriority::Auto.evaluate_spec(current_depth_spec(Some(&after))) == (if priority == usize::MAX {
            usize::MAX as int
        } else {
            priority + 1
        }),
        before.0@.len() == 0 ==> current_depth_spec(Some(&before)) is None,
        current_depth_spec(None) is None,
        DeferredPriority::Auto.evaluate_spec(None) == 1,
{
}

} // verus!
