//! The slots that hold the application's callbacks, and what each notification does to them.
//!
//! A callback is taken out of its slot while it runs, so that it may register callbacks of
//! its own; whoever runs it puts it back with `restore`, which keeps a callback registered
//! meanwhile.
use vstd::prelude::*;

verus! {

/// A place for at most one callback.
pub struct CallbackSlot<F> {
    callback: Option<F>,
}

impl<F> CallbackSlot<F> {
    /// The callback held, if any.
    pub closed spec fn held(&self) -> Option<F> {
        self.callback
    }

    /// An empty slot.
    pub fn new() -> (r: Self)
        ensures
            r.held() is None,
    {
        CallbackSlot { callback: None }
    }

    /// Registers `callback`, replacing the one held.
    pub fn register(&mut self, callback: F)
        ensures
            final(self).held() == Some(callback),
    {
        self.callback = Some(callback);
    }

    /// Takes the callback out, leaving the slot empty.
    pub fn take(&mut self) -> (r: Option<F>)
        ensures
            r == old(self).held(),
            final(self).held() is None,
    {
        self.callback.take()
    }

    /// Puts a callback that has run back, unless another was registered while it ran.
    pub fn restore(&mut self, callback: F)
        ensures
            final(self).held() == after_restore(old(self).held(), callback),
    {
        if self.callback.is_none() {
            self.callback = Some(callback);
        }
    }
}

/// The application is asked to reopen. It always handles the request; when no window is
/// open, the reopen callback is taken out to be run.
pub fn should_handle_reopen<F>(reopen: &mut CallbackSlot<F>, has_open_windows: bool) -> (r: (bool, Option<F>))
    ensures
        r.0,
        has_open_windows ==> r.1 is None && final(reopen).held() == old(reopen).held(),
        !has_open_windows ==> r.1 == old(reopen).held() && final(reopen).held() is None,
{
    if has_open_windows {
        (true, None)
    } else {
        (true, reopen.take())
    }
}

/// The application is about to terminate: the quit callback is taken out to be run.
pub fn will_terminate<F>(quit: &mut CallbackSlot<F>) -> (r: Option<F>)
    ensures
        r == old(quit).held(),
        final(quit).held() is None,
{
    quit.take()
}

/// The keyboard layout changed: the layout callback is taken out to be run.
pub fn on_keyboard_layout_change<F>(layout_changed: &mut CallbackSlot<F>) -> (r: Option<F>)
    ensures
        r == old(layout_changed).held(),
        final(layout_changed).held() is None,
{
    layout_changed.take()
}

/// A menu is about to open: the menu callback is taken out to be run.
pub fn menu_will_open<F>(will_open_menu: &mut CallbackSlot<F>) -> (r: Option<F>)
    ensures
        r == old(will_open_menu).held(),
        final(will_open_menu).held() is None,
{
    will_open_menu.take()
}

/// A menu item tagged `tag` was chosen or is being validated, with `action_count` menu
/// actions known. When a menu callback is registered it is taken out to be run, together
/// with the index of the item's action when the tag names one (a negative tag names none).
pub fn take_for_menu_item<F>(command: &mut CallbackSlot<F>, tag: isize, action_count: usize) -> (r: Option<(F, Option<usize>)>)
    ensures
        final(command).held() is None,
        old(command).held() is None ==> r is None,
        old(command).held() matches Some(callback) ==> r matches Some((taken, action)) && taken == callback
            && action == (if 0 <= tag && tag < action_count {
                Some(tag as usize)
            } else {
                None::<usize>
            }),
{
    match command.take() {
        None => None,
        Some(callback) => {
            let action = if 0 <= tag && (tag as usize) < action_count {
                Some(tag as usize)
            } else {
                None
            };
            Some((callback, action))
        },
    }
}

/// Whether the observer of system-wake notifications has been registered with the
/// application delegate. It is registered once, as soon as both a wake callback and the
/// delegate exist.
pub struct SystemWakeObserver {
    registered: bool,
}

impl SystemWakeObserver {
    /// Whether the observer is registered.
    pub closed spec fn is_registered(&self) -> bool {
        self.registered
    }

    /// Not registered yet.
    pub fn new() -> (r: Self)
        ensures
            !r.is_registered(),
    {
        SystemWakeObserver { registered: false }
    }

    /// A wake callback was set: the observer is to be registered now if it is not yet and
    /// the application delegate exists.
    pub fn on_system_wake(&mut self, delegate_exists: bool) -> (register: bool)
        ensures
            register == (!old(self).is_registered() && delegate_exists),
            final(self).is_registered() == (old(self).is_registered() || register),
    {
        let register = !self.registered && delegate_exists;
        if register {
            self.registered = true;
        }
        register
    }

    /// Launching finished: the observer is to be registered now if it is not yet and a
    /// wake callback is set.
    pub fn did_finish_launching(&mut self, has_wake_callback: bool) -> (register: bool)
        ensures
            register == (!old(self).is_registered() && has_wake_callback),
            final(self).is_registered() == (old(self).is_registered() || register),
    {
        let register = !self.registered && has_wake_callback;
        if register {
            self.registered = true;
        }
        register
    }
}

/// What a slot holds after a callback that ran is put back into it, when it held `held`.
pub open spec fn after_restore<F>(held: Option<F>, callback: F) -> Option<F> {
    if held is Some {
        held
    } else {
        Some(callback)
    }
}

/// Taking a callback out and putting it back, with nothing registered meanwhile, leaves the
/// slot as it was; a callback registered meanwhile stays in place of the one that ran.
pub proof fn law_take_then_restore<F>(held: Option<F>, registered_meanwhile: Option<F>)
    requires
        held is Some,
    ensures
        after_restore(None, held->0) == held,
        registered_meanwhile is Some ==> after_restore(registered_meanwhile, held->0) == registered_meanwhile,
{
}

} // verus!
