//! The application shell's decisions: which action each incoming message
//! triggers, and how the window's visibility changes. The host performs
//! the actions (running a tick, hiding or showing the window, exiting);
//! the decisions themselves are pure.

use vstd::prelude::*;

verus! {

/// A window event, reduced to what the decisions depend on.
#[derive(Clone, Copy, Debug, PartialEq, Eq, Structural)]
pub enum WindowEventKind {
    CloseRequested,
    Other,
}

/// A tray-icon event, reduced to what the decisions depend on.
#[derive(Clone, Copy, Debug, PartialEq, Eq, Structural)]
pub enum TrayEventKind {
    Click,
    Other,
}

/// One message delivered to the application shell.
#[derive(Clone, Copy, Debug, PartialEq, Eq, Structural)]
pub enum UiMessage {
    Tick,
    Quit,
    WindowEvent(WindowEventKind),
    TrayEvent(TrayEventKind),
    WindowHidden,
    WindowShown,
}

/// What the host must do in response to a message.
#[derive(Clone, Copy, Debug, PartialEq, Eq, Structural)]
pub enum UiAction {
    /// Run one sampling tick.
    RunTick,
    /// Terminate the application.
    Exit,
    /// Hide the window into the tray.
    HideWindow,
    /// Bring the window back from the tray.
    ShowWindow,
    /// Do nothing.
    Nothing,
}

/// The new visibility and the action for one message: ticks run a frame,
/// quitting exits, a close request hides into the tray, and a tray click
/// restores a hidden window.
pub open spec fn update_spec(visible: bool, message: UiMessage) -> (bool, UiAction) {
    match message {
        UiMessage::Tick => (visible, UiAction::RunTick),
        UiMessage::Quit => (visible, UiAction::Exit),
        UiMessage::WindowEvent(kind) => match kind {
            WindowEventKind::CloseRequested => (false, UiAction::HideWindow),
            WindowEventKind::Other => (visible, UiAction::Nothing),
        },
        UiMessage::TrayEvent(kind) => match kind {
            TrayEventKind::Click => if !visible {
                (true, UiAction::ShowWindow)
            } else {
                (visible, UiAction::Nothing)
            },
            TrayEventKind::Other => (visible, UiAction::Nothing),
        },
        UiMessage::WindowHidden => (visible, UiAction::Nothing),
        UiMessage::WindowShown => (visible, UiAction::Nothing),
    }
}

/// The application shell's mutable state.
pub struct AppControl {
    pub is_visible: bool,
}

impl AppControl {
    /// A fresh shell starts with the window visible.
    pub fn new() -> (c: AppControl)
        ensures
            c.is_visible,
    {
        AppControl { is_visible: true }
    }

    /// Decides the action for one message and tracks visibility, exactly
    /// as `update_spec` states.
    pub fn update(&mut self, message: &UiMessage) -> (a: UiAction)
        ensures
            (final(self).is_visible, a) == update_spec(old(self).is_visible, *message),
    {
        match message {
            UiMessage::Tick => UiAction::RunTick,
            UiMessage::Quit => UiAction::Exit,
            UiMessage::WindowEvent(kind) => match kind {
                WindowEventKind::CloseRequested => {
                    self.is_visible = false;
                    UiAction::HideWindow
                },
                WindowEventKind::Other => UiAction::Nothing,
            },
            UiMessage::TrayEvent(kind) => match kind {
                TrayEventKind::Click => {
                    if !self.is_visible {
                        self.is_visible = true;
                        UiAction::ShowWindow
                    } else {
                        UiAction::Nothing
                    }
                },
                TrayEventKind::Other => UiAction::Nothing,
            },
            UiMessage::WindowHidden => UiAction::Nothing,
            UiMessage::WindowShown => UiAction::Nothing,
        }
    }
}

} // verus!
