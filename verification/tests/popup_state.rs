use kitsupin::popup_state::{PopupAction, PopupEvent, PopupState, PopupStateMachine};

#[test]
fn test_hidden_super_v_starts_opening() {
    let mut sm = PopupStateMachine::new(3);
    assert_eq!(sm.state(), &PopupState::Hidden);

    let action = sm.handle_event(PopupEvent::ToggleRequested);
    assert_eq!(action, PopupAction::ShowAndRequestFocus { generation: 1 });
    assert_eq!(
        sm.state(),
        &PopupState::Opening {
            generation: 1,
            attempts: 1,
            focused_once: false,
        }
    );
}

#[test]
fn test_intermediate_focus_lost_during_opening_is_ignored() {
    let mut sm = PopupStateMachine::new(3);
    sm.handle_event(PopupEvent::ToggleRequested);

    // Intermediate blur before focus_gained or confirmed focus check
    let action = sm.handle_event(PopupEvent::FocusLost);
    assert_eq!(action, PopupAction::NoAction);
    assert_eq!(
        sm.state(),
        &PopupState::Opening {
            generation: 1,
            attempts: 1,
            focused_once: false,
        }
    );
    assert!(sm.is_visible());
}

#[test]
fn test_focus_gained_confirms_activation() {
    let mut sm = PopupStateMachine::new(3);
    sm.handle_event(PopupEvent::ToggleRequested);

    let action = sm.handle_event(PopupEvent::FocusGained);
    assert_eq!(action, PopupAction::NotifyFrontendFocused { generation: 1 });
    assert_eq!(sm.state(), &PopupState::VisibleAndFocused { generation: 1 });
}

#[test]
fn test_focus_lost_after_confirmed_focus_hides_window() {
    let mut sm = PopupStateMachine::new(3);
    sm.handle_event(PopupEvent::ToggleRequested);
    sm.handle_event(PopupEvent::FocusGained);

    let action = sm.handle_event(PopupEvent::FocusLost);
    assert_eq!(action, PopupAction::HideWindow);
    assert_eq!(sm.state(), &PopupState::Hidden);
}

#[test]
fn test_repeat_super_v_while_visible_hides_window() {
    let mut sm = PopupStateMachine::new(3);
    sm.handle_event(PopupEvent::ToggleRequested);
    assert!(sm.is_visible());

    let action = sm.handle_event(PopupEvent::ToggleRequested);
    assert_eq!(action, PopupAction::HideWindow);
    assert_eq!(sm.state(), &PopupState::Hidden);
}

#[test]
fn test_multiple_focus_gained_do_not_duplicate_notification() {
    let mut sm = PopupStateMachine::new(3);
    sm.handle_event(PopupEvent::ToggleRequested);

    let first = sm.handle_event(PopupEvent::FocusGained);
    assert_eq!(first, PopupAction::NotifyFrontendFocused { generation: 1 });

    let second = sm.handle_event(PopupEvent::FocusGained);
    assert_eq!(second, PopupAction::NoAction);
}

#[test]
fn test_failed_first_focus_check_triggers_retry() {
    let mut sm = PopupStateMachine::new(3);
    sm.handle_event(PopupEvent::ToggleRequested);

    let action = sm.handle_event(PopupEvent::FocusCheckResult {
        generation: 1,
        is_focused: false,
    });
    assert_eq!(
        action,
        PopupAction::RetryFocus {
            generation: 1,
            attempt: 2,
        }
    );
    assert_eq!(
        sm.state(),
        &PopupState::Opening {
            generation: 1,
            attempts: 2,
            focused_once: false,
        }
    );
}

#[test]
fn test_max_attempts_reached_prevents_infinite_loop() {
    let mut sm = PopupStateMachine::new(3);
    sm.handle_event(PopupEvent::ToggleRequested);

    // Attempt 1 -> failed -> Retry attempt 2
    sm.handle_event(PopupEvent::FocusCheckResult {
        generation: 1,
        is_focused: false,
    });
    // Attempt 2 -> failed -> Retry attempt 3
    sm.handle_event(PopupEvent::FocusCheckResult {
        generation: 1,
        is_focused: false,
    });
    // Attempt 3 -> failed -> NoAction (stopped)
    let action = sm.handle_event(PopupEvent::FocusCheckResult {
        generation: 1,
        is_focused: false,
    });
    assert_eq!(action, PopupAction::NoAction);
    assert_eq!(
        sm.state(),
        &PopupState::Opening {
            generation: 1,
            attempts: 3,
            focused_once: false,
        }
    );

    // Subsequent check results still return NoAction
    let action2 = sm.handle_event(PopupEvent::FocusCheckResult {
        generation: 1,
        is_focused: false,
    });
    assert_eq!(action2, PopupAction::NoAction);
}

#[test]
fn test_stale_event_from_previous_generation_is_ignored() {
    let mut sm = PopupStateMachine::new(3);
    sm.handle_event(PopupEvent::ToggleRequested); // gen 1
    sm.handle_event(PopupEvent::ToggleRequested); // hide -> Hidden
    sm.handle_event(PopupEvent::ToggleRequested); // gen 2

    // Stale check result for gen 1 received during gen 2 opening
    let action = sm.handle_event(PopupEvent::FocusCheckResult {
        generation: 1,
        is_focused: true,
    });
    assert_eq!(action, PopupAction::NoAction);
    assert_eq!(
        sm.state(),
        &PopupState::Opening {
            generation: 2,
            attempts: 1,
            focused_once: false,
        }
    );
}

#[test]
fn test_hide_requested_resets_state_to_hidden() {
    let mut sm = PopupStateMachine::new(3);
    sm.handle_event(PopupEvent::ToggleRequested);
    sm.handle_event(PopupEvent::FocusGained);
    assert_eq!(sm.state(), &PopupState::VisibleAndFocused { generation: 1 });

    let action = sm.handle_event(PopupEvent::HideRequested);
    assert_eq!(action, PopupAction::HideWindow);
    assert_eq!(sm.state(), &PopupState::Hidden);
}
