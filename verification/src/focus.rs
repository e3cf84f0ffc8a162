use vstd::prelude::*;

verus! {

/// Clearing keyboard focus publishes the transition to the seat's
/// listeners exactly when a focus existed and the keyboard let it go; a
/// replacement is already reported by the seat itself.
pub fn clear_keyboard_focus_notifies(had_focus: bool, focused_after_clear: bool) -> (r: bool)
    ensures
        r == (had_focus && !focused_after_clear),
{
    had_focus && !focused_after_clear
}

/// What suspending the keyboard for the shell does after a clear.
#[derive(Clone, Copy, Debug, PartialEq, Eq, Structural)]
pub enum FocusClearStep {
    /// The keyboard has no focus left, or the grab was already retired.
    Done,
    /// A popup grab refused the clear: retire the grab and clear again.
    ReleaseGrabAndClear,
}

/// The shell capture is a compositor focus transfer: when a focus survives
/// the first clear, a popup grab refused it, so the grab is retired and the
/// focus cleared once more. After that second clear nothing more is done.
pub fn suspend_clear_next_step(focus_survived_clear: bool, grab_released: bool) -> (r: FocusClearStep)
    ensures
        r == spec_suspend_clear_next_step(focus_survived_clear, grab_released),
        r == FocusClearStep::ReleaseGrabAndClear <==> (focus_survived_clear && !grab_released),
{
    if focus_survived_clear && !grab_released {
        FocusClearStep::ReleaseGrabAndClear
    } else {
        FocusClearStep::Done
    }
}

/// Once the grab has been retired, suspending ends after the next clear:
/// the keyboard focus is cleared at most twice.
pub proof fn lemma_suspend_clears_at_most_twice(focus_survived_clear: bool)
    ensures
        spec_suspend_clear_next_step(focus_survived_clear, true) == FocusClearStep::Done,
{
}

/// The step after a clear while suspending for the shell.
pub open spec fn spec_suspend_clear_next_step(focus_survived_clear: bool, grab_released: bool) -> FocusClearStep {
    if focus_survived_clear && !grab_released {
        FocusClearStep::ReleaseGrabAndClear
    } else {
        FocusClearStep::Done
    }
}

/// The keyboard target retained while the shell captures the keyboard.
pub struct ShellFocusHandoff<T> {
    pub stashed: Option<T>,
}

/// The focus to keep for the shell's handoff: the current one while it is
/// alive.
pub open spec fn spec_suspended_focus<T>(current: Option<T>, current_alive: bool) -> Option<T> {
    if current_alive {
        current
    } else {
        None
    }
}

/// The target restored after the shell releases the keyboard: the stashed
/// one while it is alive.
pub open spec fn spec_restored_focus<T>(stashed: Option<T>, stashed_alive: bool) -> Option<T> {
    if stashed_alive {
        stashed
    } else {
        None
    }
}

impl<T> ShellFocusHandoff<T> {
    pub fn new() -> (r: Self)
        ensures
            r.stashed is None,
    {
        ShellFocusHandoff { stashed: None }
    }

    /// Request a client keyboard target without violating shell ownership.
    /// While the shell captures the keyboard the newest request is kept for
    /// the handoff and `None` is returned; otherwise the target to give the
    /// keyboard is returned and the stash is left alone.
    pub fn request_keyboard_focus(&mut self, focus: Option<T>, shell_captures_keyboard: bool) -> (r: Option<Option<T>>)
        ensures
            shell_captures_keyboard ==> r is None && final(self).stashed == focus,
            !shell_captures_keyboard ==> r == Some(focus) && final(self).stashed == old(self).stashed,
    {
        if shell_captures_keyboard {
            self.stashed = focus;
            return None;
        }
        Some(focus)
    }

    /// The shell takes the keyboard: keep the current target, when it is
    /// alive, for the handoff. The keyboard focus is then cleared, with
    /// `clear_keyboard_focus_notifies` deciding the notification and
    /// `suspend_clear_next_step` whether a popup grab must be retired.
    pub fn suspend_keyboard_focus_for_shell(&mut self, current: Option<T>, current_alive: bool)
        ensures
            final(self).stashed == spec_suspended_focus(current, current_alive),
    {
        self.stashed = if current_alive {
            current
        } else {
            None
        };
    }

    /// The shell releases the keyboard: the stash is emptied, and when the
    /// keyboard has no focus the stashed target, if still alive, is
    /// requested again. Returns the target to give the keyboard, as
    /// `request_keyboard_focus` does.
    pub fn restore_shell_keyboard_focus(
        &mut self,
        stashed_alive: bool,
        keyboard_focused: bool,
        shell_captures_keyboard: bool,
    ) -> (r: Option<Option<T>>)
        ensures
            keyboard_focused ==> r is None && final(self).stashed is None,
            !keyboard_focused && shell_captures_keyboard ==> r is None && final(self).stashed == spec_restored_focus(
                old(self).stashed,
                stashed_alive,
            ),
            !keyboard_focused && !shell_captures_keyboard ==> r == Some(
                spec_restored_focus(old(self).stashed, stashed_alive),
            ) && final(self).stashed is None,
    {
        let taken = self.stashed.take();
        let focus = if stashed_alive {
            taken
        } else {
            None
        };
        if !keyboard_focused {
            return self.request_keyboard_focus(focus, shell_captures_keyboard);
        }
        None
    }
}

/// Suspending for the shell and restoring afterwards hands the keyboard
/// back the target it had, provided the target is still alive, the keyboard
/// gained no other focus meanwhile, and the shell no longer captures it.
pub proof fn lemma_shell_handoff_round_trip<T>(current: T)
    ensures
        spec_restored_focus(spec_suspended_focus(Some(current), true), true) == Some(current),
{
}

} // verus!
