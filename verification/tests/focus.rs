use denial_compositor::focus::{clear_keyboard_focus_notifies, suspend_clear_next_step, FocusClearStep, ShellFocusHandoff};

#[test]
fn clearing_focus_is_published_only_when_focus_was_released() {
    assert!(clear_keyboard_focus_notifies(true, false));
    assert!(!clear_keyboard_focus_notifies(true, true));
    assert!(!clear_keyboard_focus_notifies(false, false));
}

#[test]
fn requests_are_held_while_the_shell_captures_the_keyboard() {
    let mut handoff: ShellFocusHandoff<u64> = ShellFocusHandoff::new();
    assert_eq!(handoff.request_keyboard_focus(Some(4), true), None);
    assert_eq!(handoff.stashed, Some(4));
    assert_eq!(handoff.request_keyboard_focus(Some(5), false), Some(Some(5)));
    assert_eq!(handoff.stashed, Some(4));
}

#[test]
fn the_shell_handoff_returns_the_previous_focus() {
    let mut handoff: ShellFocusHandoff<u64> = ShellFocusHandoff::new();
    handoff.suspend_keyboard_focus_for_shell(Some(9), true);
    assert_eq!(handoff.stashed, Some(9));
    assert_eq!(handoff.restore_shell_keyboard_focus(true, false, false), Some(Some(9)));
    assert_eq!(handoff.stashed, None);
}

#[test]
fn dead_or_superseded_targets_are_not_restored() {
    let mut handoff: ShellFocusHandoff<u64> = ShellFocusHandoff::new();
    handoff.suspend_keyboard_focus_for_shell(Some(9), false);
    assert_eq!(handoff.stashed, None);
    handoff.suspend_keyboard_focus_for_shell(Some(9), true);
    assert_eq!(handoff.restore_shell_keyboard_focus(false, false, false), Some(None));
    handoff.suspend_keyboard_focus_for_shell(Some(9), true);
    assert_eq!(handoff.restore_shell_keyboard_focus(true, true, false), None);
    assert_eq!(handoff.stashed, None);
    handoff.suspend_keyboard_focus_for_shell(Some(9), true);
    assert_eq!(handoff.restore_shell_keyboard_focus(true, false, true), None);
    assert_eq!(handoff.stashed, Some(9));
}

#[test]
fn a_popup_grab_that_keeps_focus_is_retired_once() {
    assert_eq!(suspend_clear_next_step(false, false), FocusClearStep::Done);
    assert_eq!(suspend_clear_next_step(true, false), FocusClearStep::ReleaseGrabAndClear);
    assert_eq!(suspend_clear_next_step(true, true), FocusClearStep::Done);
}
