use gpui::platform::callbacks::{
    menu_will_open, on_keyboard_layout_change, should_handle_reopen, take_for_menu_item,
    will_terminate, CallbackSlot, SystemWakeObserver,
};
use gpui::platform::haptics::MacHaptics;

#[test]
fn test_supported() {
    let haptics = MacHaptics::new(false);
    assert!(haptics.supported());
}

#[test]
fn test_headless_is_unsupported() {
    let haptics = MacHaptics::new(true);
    assert!(!haptics.supported());
}

#[test]
fn reopen_with_open_windows_leaves_the_callback_in_place() {
    let mut slot = CallbackSlot::new();
    slot.register(1u32);
    let (handled, taken) = should_handle_reopen(&mut slot, true);
    assert!(handled);
    assert_eq!(taken, None);
    assert_eq!(slot.take(), Some(1));
}

#[test]
fn reopen_without_windows_runs_the_callback_and_puts_it_back() {
    let mut slot = CallbackSlot::new();
    slot.register(1u32);
    let (handled, taken) = should_handle_reopen(&mut slot, false);
    assert!(handled);
    assert_eq!(taken, Some(1));
    slot.restore(taken.unwrap());
    assert_eq!(slot.take(), Some(1));
    let (handled, taken) = should_handle_reopen(&mut slot, false);
    assert!(handled);
    assert_eq!(taken, None);
}

#[test]
fn a_callback_registered_while_running_wins() {
    let mut slot = CallbackSlot::new();
    slot.register("quit");
    let running = will_terminate(&mut slot).unwrap();
    slot.register("replacement");
    slot.restore(running);
    assert_eq!(slot.take(), Some("replacement"));
}

#[test]
fn notifications_take_their_callbacks() {
    let mut layout = CallbackSlot::new();
    layout.register(2u8);
    assert_eq!(on_keyboard_layout_change(&mut layout), Some(2));
    assert_eq!(on_keyboard_layout_change(&mut layout), None);
    let mut menu: CallbackSlot<u8> = CallbackSlot::new();
    assert_eq!(menu_will_open(&mut menu), None);
    menu.register(3);
    assert_eq!(menu_will_open(&mut menu), Some(3));
}

#[test]
fn menu_items_take_the_command_and_name_their_action() {
    let mut slot: CallbackSlot<u8> = CallbackSlot::new();
    assert!(take_for_menu_item(&mut slot, 0, 3).is_none());
    slot.register(1);
    assert_eq!(take_for_menu_item(&mut slot, 2, 3), Some((1, Some(2))));
    slot.restore(1);
    assert_eq!(take_for_menu_item(&mut slot, 3, 3), Some((1, None)));
    slot.restore(1);
    assert_eq!(take_for_menu_item(&mut slot, -1, 3), Some((1, None)));
    assert_eq!(slot.take(), None);
}

#[test]
fn the_wake_observer_is_registered_once() {
    let mut observer = SystemWakeObserver::new();
    assert!(!observer.did_finish_launching(false));
    assert!(!observer.on_system_wake(false));
    assert!(observer.on_system_wake(true));
    assert!(!observer.on_system_wake(true));
    assert!(!observer.did_finish_launching(true));
    let mut observer = SystemWakeObserver::new();
    assert!(observer.did_finish_launching(true));
    assert!(!observer.on_system_wake(true));
}
