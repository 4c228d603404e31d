//! The popup window's life cycle: opening, acquiring system focus, hiding.

use vstd::prelude::*;

verus! {

/// Represents the current state of the popup window.
#[derive(Debug, Clone, Copy, PartialEq, Eq, Structural)]
pub enum PopupState {
    /// Window is completely hidden.
    Hidden,
    /// Window is in the process of opening and acquiring system focus.
    Opening { generation: u64, attempts: u32, focused_once: bool },
    /// Window is visible and system focus has been confirmed at least once for this generation.
    VisibleAndFocused { generation: u64 },
}

/// Inputs received by the popup state machine.
#[derive(Debug, Clone, Copy, PartialEq, Eq, Structural)]
pub enum PopupEvent {
    /// User requested toggle (global shortcut or tray click).
    ToggleRequested,
    /// System window focus gained.
    FocusGained,
    /// System window focus lost.
    FocusLost,
    /// Delayed focus check result.
    FocusCheckResult { generation: u64, is_focused: bool },
    /// Explicit request to hide the window (Escape key, clip copied, explicit command).
    HideRequested,
}

/// Side effects asked for by the popup state machine.
#[derive(Debug, Clone, Copy, PartialEq, Eq, Structural)]
pub enum PopupAction {
    /// Center, show, unminimize, set focus, notify the frontend that the popup opened.
    ShowAndRequestFocus { generation: u64 },
    /// Try to focus the window again.
    RetryFocus { generation: u64, attempt: u32 },
    /// Hide the window.
    HideWindow,
    /// Notify the frontend that system focus is confirmed.
    NotifyFrontendFocused { generation: u64 },
    /// Nothing to do.
    NoAction,
}

/// Core state machine for popup lifecycle and focus acquisition logic.
pub struct PopupStateMachine {
    state: PopupState,
    next_generation: u64,
    max_attempts: u32,
}

/// What a [`PopupStateMachine`] holds.
pub struct PopupView {
    pub state: PopupState,
    pub next_generation: u64,
    pub max_attempts: u32,
}

impl View for PopupStateMachine {
    type V = PopupView;

    closed spec fn view(&self) -> PopupView {
        PopupView {
            state: self.state,
            next_generation: self.next_generation,
            max_attempts: self.max_attempts,
        }
    }
}

impl PopupView {
    pub open spec fn visible(self) -> bool {
        self.state !is Hidden
    }

    /// Holds of a new machine and after every event: the attempts of an opening are counted
    /// from one and never exceed the limit (a limit of zero still allows the first), and an
    /// opening has not been focused yet.
    pub open spec fn wf(self) -> bool {
        self.state matches PopupState::Opening { attempts, focused_once, .. } ==> !focused_once
            && 1 <= attempts && (attempts == 1 || attempts <= self.max_attempts)
    }

    pub open spec fn with_state(self, state: PopupState) -> PopupView {
        PopupView { state, ..self }
    }

    /// The generation that follows, counting on from zero after the largest.
    pub open spec fn generation_after(self) -> u64 {
        if self.next_generation == u64::MAX {
            0
        } else {
            (self.next_generation + 1) as u64
        }
    }

    /// Focus has been confirmed for the opening of this generation.
    pub open spec fn confirmed(self, generation: u64, focused_once: bool) -> (PopupView, PopupAction) {
        (
            self.with_state(PopupState::VisibleAndFocused { generation }),
            if focused_once {
                PopupAction::NoAction
            } else {
                PopupAction::NotifyFrontendFocused { generation }
            },
        )
    }

    pub open spec fn hidden(self) -> (PopupView, PopupAction) {
        (self.with_state(PopupState::Hidden), PopupAction::HideWindow)
    }

    pub open spec fn unchanged(self) -> (PopupView, PopupAction) {
        (self, PopupAction::NoAction)
    }

    /// The next state and the action that an event asks for.
    pub open spec fn step(self, event: PopupEvent) -> (PopupView, PopupAction) {
        match event {
            PopupEvent::ToggleRequested => if self.visible() {
                self.hidden()
            } else {
                (
                    PopupView {
                        state: PopupState::Opening {
                            generation: self.next_generation,
                            attempts: 1,
                            focused_once: false,
                        },
                        next_generation: self.generation_after(),
                        ..self
                    },
                    PopupAction::ShowAndRequestFocus { generation: self.next_generation },
                )
            },
            PopupEvent::HideRequested => if self.visible() {
                self.hidden()
            } else {
                self.unchanged()
            },
            PopupEvent::FocusGained => match self.state {
                PopupState::Opening { generation, focused_once, .. } => self.confirmed(
                    generation,
                    focused_once,
                ),
                _ => self.unchanged(),
            },
            PopupEvent::FocusLost => match self.state {
                PopupState::Opening { focused_once: false, .. } => self.unchanged(),
                PopupState::Hidden => self.unchanged(),
                _ => self.hidden(),
            },
            PopupEvent::FocusCheckResult { generation: checked, is_focused } => match self.state {
                PopupState::Opening { generation, attempts, focused_once } => if checked
                    != generation {
                    self.unchanged()
                } else if is_focused {
                    self.confirmed(generation, focused_once)
                } else if attempts < self.max_attempts {
                    (
                        self.with_state(
                            PopupState::Opening {
                                generation,
                                attempts: (attempts + 1) as u32,
                                focused_once,
                            },
                        ),
                        PopupAction::RetryFocus { generation, attempt: (attempts + 1) as u32 },
                    )
                } else {
                    self.unchanged()
                },
                _ => self.unchanged(),
            },
        }
    }
}

impl Default for PopupStateMachine {
    fn default() -> (machine: Self)
        ensures
            machine@ == (PopupView {
                state: PopupState::Hidden,
                next_generation: 1,
                max_attempts: 3,
            }),
    {
        Self::new(3)
    }
}

impl PopupStateMachine {
    pub fn new(max_attempts: u32) -> (machine: Self)
        ensures
            machine@ == (PopupView { state: PopupState::Hidden, next_generation: 1, max_attempts }),
            machine@.wf(),
    {
        Self { state: PopupState::Hidden, next_generation: 1, max_attempts }
    }

    pub fn state(&self) -> (state: &PopupState)
        ensures
            *state == self@.state,
    {
        &self.state
    }

    pub fn is_visible(&self) -> (visible: bool)
        ensures
            visible == self@.visible(),
    {
        !matches!(self.state, PopupState::Hidden)
    }

    pub fn handle_event(&mut self, event: PopupEvent) -> (action: PopupAction)
        ensures
            (final(self)@, action) == old(self)@.step(event),
            old(self)@.wf() ==> final(self)@.wf(),
    {
        match (self.state, event) {
            (PopupState::Hidden, PopupEvent::ToggleRequested) => {
                let generation = self.next_generation;
                self.next_generation = self.next_generation.wrapping_add(1);
                self.state = PopupState::Opening { generation, attempts: 1, focused_once: false };
                PopupAction::ShowAndRequestFocus { generation }
            },
            (
                PopupState::Opening { .. } | PopupState::VisibleAndFocused { .. },
                PopupEvent::ToggleRequested,
            ) => {
                self.state = PopupState::Hidden;
                PopupAction::HideWindow
            },
            (
                PopupState::Opening { generation, focused_once, .. },
                PopupEvent::FocusGained,
            ) => {
                self.state = PopupState::VisibleAndFocused { generation };
                if focused_once {
                    PopupAction::NoAction
                } else {
                    PopupAction::NotifyFrontendFocused { generation }
                }
            },
            (PopupState::Opening { focused_once, .. }, PopupEvent::FocusLost) => {
                if focused_once {
                    self.state = PopupState::Hidden;
                    PopupAction::HideWindow
                } else {
                    // A blur before the first confirmed focus belongs to the opening itself.
                    PopupAction::NoAction
                }
            },
            (PopupState::VisibleAndFocused { .. }, PopupEvent::FocusLost) => {
                self.state = PopupState::Hidden;
                PopupAction::HideWindow
            },
            (
                PopupState::Opening { generation, attempts, focused_once },
                PopupEvent::FocusCheckResult { generation: checked, is_focused },
            ) => {
                if checked != generation {
                    // Left over from an earlier opening.
                    PopupAction::NoAction
                } else if is_focused {
                    self.state = PopupState::VisibleAndFocused { generation };
                    if focused_once {
                        PopupAction::NoAction
                    } else {
                        PopupAction::NotifyFrontendFocused { generation }
                    }
                } else if attempts < self.max_attempts {
                    let attempt: u32 = attempts + 1;
                    self.state =
                    PopupState::Opening { generation, attempts: attempt, focused_once };
                    PopupAction::RetryFocus { generation, attempt }
                } else {
                    PopupAction::NoAction
                }
            },
            (PopupState::Hidden, PopupEvent::HideRequested) => PopupAction::NoAction,
            (_, PopupEvent::HideRequested) => {
                self.state = PopupState::Hidden;
                PopupAction::HideWindow
            },
            _ => PopupAction::NoAction,
        }
    }
}

/// A toggle flips visibility, whatever the state.
pub proof fn toggle_flips_visibility(popup: PopupView)
    ensures
        popup.step(PopupEvent::ToggleRequested).0.visible() == !popup.visible(),
{
}

/// A blur before focus was confirmed changes nothing and asks for nothing.
pub proof fn blur_before_confirmation_is_ignored(popup: PopupView)
    requires
        popup.wf(),
        popup.state is Opening,
    ensures
        popup.step(PopupEvent::FocusLost) == popup.unchanged(),
{
}

/// A blur after focus was confirmed hides the window.
pub proof fn blur_after_confirmation_hides(popup: PopupView)
    requires
        popup.state is VisibleAndFocused,
    ensures
        popup.step(PopupEvent::FocusLost) == popup.hidden(),
{
}

/// The result of a focus check made for another opening changes nothing.
pub proof fn stale_check_is_ignored(popup: PopupView, checked: u64, is_focused: bool)
    requires
        popup.state matches PopupState::Opening { generation, .. } ==> checked != generation,
    ensures
        popup.step(PopupEvent::FocusCheckResult { generation: checked, is_focused })
            == popup.unchanged(),
{
}

/// A retry counts one attempt more and stays within the limit, so there are fewer retries
/// than allowed attempts in one opening.
pub proof fn retries_are_bounded(popup: PopupView, event: PopupEvent)
    requires
        popup.step(event).1 is RetryFocus,
    ensures
        popup.step(event).1->attempt <= popup.max_attempts,
        popup.state is Opening,
        popup.step(event).0.state is Opening,
        popup.step(event).1->attempt == popup.state->attempts + 1,
        popup.step(event).0.state->attempts == popup.step(event).1->attempt,
        popup.step(event).0.state->Opening_generation == popup.state->Opening_generation,
{
}

/// The frontend is told of focus exactly when an opening is confirmed; once confirmed, no
/// event tells it again before a new opening.
pub proof fn focus_is_notified_once(popup: PopupView, event: PopupEvent)
    requires
        popup.wf(),
    ensures
        popup.step(event).1 is NotifyFrontendFocused <==> (popup.state is Opening && popup.step(
            event,
        ).0.state is VisibleAndFocused),
        popup.state is VisibleAndFocused ==> popup.step(event).1 !is NotifyFrontendFocused,
{
}

/// Hiding on request always ends hidden, and a second request has nothing left to do.
pub proof fn hide_request_is_idempotent(popup: PopupView)
    ensures
        popup.step(PopupEvent::HideRequested).0.state is Hidden,
        popup.step(PopupEvent::HideRequested).0.step(PopupEvent::HideRequested) == popup.step(
            PopupEvent::HideRequested,
        ).0.unchanged(),
{
}

/// Every opening gets the next generation, and only an opening uses one up.
pub proof fn generations_are_used_once(popup: PopupView, event: PopupEvent)
    ensures
        popup.step(event).1 matches PopupAction::ShowAndRequestFocus { generation } ==> generation
            == popup.next_generation,
        popup.step(event).1 is ShowAndRequestFocus ==> popup.step(event).0.next_generation
            == popup.generation_after(),
        popup.step(event).1 !is ShowAndRequestFocus ==> popup.step(event).0.next_generation
            == popup.next_generation,
        popup.step(event).0.max_attempts == popup.max_attempts,
{
}

/// The window is asked to hide exactly when it stops being visible, and to show exactly when
/// it becomes visible.
pub proof fn actions_follow_visibility(popup: PopupView, event: PopupEvent)
    ensures
        popup.step(event).1 is HideWindow <==> (popup.visible() && !popup.step(event).0.visible()),
        popup.step(event).1 is ShowAndRequestFocus <==> (!popup.visible() && popup.step(
            event,
        ).0.visible()),
{
}

} // verus!
