use gpui::elements::deferred::{deferred, DeferredPriority, DeferredPriorityStackCache};

#[test]
fn auto_priority_is_one_above_the_innermost_deferred_draw() {
    let mut cache = DeferredPriorityStackCache::new();
    assert_eq!(DeferredPriority::Auto.evaluate(None), 1);
    assert_eq!(DeferredPriority::Auto.evaluate(Some(&cache)), 1);
    cache.push(4);
    cache.push(9);
    assert_eq!(DeferredPriorityStackCache::current_depth(Some(&cache)), Some(9));
    assert_eq!(DeferredPriority::Auto.evaluate(Some(&cache)), 10);
    cache.pop();
    assert_eq!(DeferredPriority::Auto.evaluate(Some(&cache)), 5);
    assert_eq!(DeferredPriority::from(7).evaluate(Some(&cache)), 7);
}

#[test]
fn auto_priority_saturates() {
    let mut cache = DeferredPriorityStackCache::new();
    cache.push(usize::MAX);
    assert_eq!(DeferredPriority::Auto.evaluate(Some(&cache)), usize::MAX);
}

#[test]
fn prepaint_hands_out_the_child_once() {
    let mut cache = DeferredPriorityStackCache::new();
    cache.push(2);
    let mut element = deferred::<&str, u8>("child").priority_auto().content_mask(5);
    let (child, priority, mask) = element.prepaint(Some(&cache));
    assert_eq!(child, "child");
    assert_eq!(priority, 3);
    assert_eq!(mask, Some(5));
    let mut plain = deferred::<&str, u8>("other").priority(DeferredPriority::Value(11));
    let (_, priority, mask) = plain.prepaint(None);
    assert_eq!(priority, 11);
    assert_eq!(mask, None);
}
