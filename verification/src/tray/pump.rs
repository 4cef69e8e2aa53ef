//! Decisions of the tray message pump: what to do with a tray-icon
//! notification and with a command from the application, given whether the
//! icon is currently shown.
use vstd::prelude::*;
use crate::tray::event::{TrayCommand, TrayEvent};

verus! {

/// Window message of a left button release, as reported for the tray icon.
pub const WM_LBUTTONUP: u32 = 0x0202;

/// Window message of a right button release, as reported for the tray icon.
pub const WM_RBUTTONUP: u32 = 0x0205;

/// What a tray-icon notification asks for.
#[derive(Clone, Copy, Debug, PartialEq, Eq, Structural)]
pub enum IconClick {
    /// Report this event to the application.
    Report(TrayEvent),
    /// Show the context menu at the cursor.
    OpenMenu,
    /// Nothing to do.
    Ignore,
}

/// The reaction to a tray-icon notification whose low word is `mouse_msg`:
/// a left click shows the window, a right click opens the menu.
pub fn icon_click(mouse_msg: u32) -> (c: IconClick)
    ensures
        mouse_msg == WM_LBUTTONUP ==> c == IconClick::Report(TrayEvent::Show),
        mouse_msg == WM_RBUTTONUP ==> c == IconClick::OpenMenu,
        mouse_msg != WM_LBUTTONUP && mouse_msg != WM_RBUTTONUP ==> c == IconClick::Ignore,
{
    if mouse_msg == WM_LBUTTONUP {
        IconClick::Report(TrayEvent::Show)
    } else if mouse_msg == WM_RBUTTONUP {
        IconClick::OpenMenu
    } else {
        IconClick::Ignore
    }
}

/// What the pump found on its command channel.
#[derive(Clone, Copy, Debug, PartialEq, Eq, Structural)]
pub enum CommandPoll {
    Received(TrayCommand),
    Empty,
    Disconnected,
}

/// What the pump does next.
#[derive(Clone, Copy, Debug, PartialEq, Eq, Structural)]
pub enum PumpAction {
    /// Leave the loop, removing the icon first when `remove_icon`.
    Exit { remove_icon: bool },
    /// Add the icon to the notification area, then report the outcome with
    /// [`icon_added`].
    AddIcon,
    /// Answer the pending icon request with this readiness.
    ReplyReady(bool),
    /// Remove the icon from the notification area.
    RemoveIcon,
    /// Nothing to do.
    Idle,
}

/// The pump's decision, as a value (the contract of [`pump_command`]).
pub open spec fn pump_command_spec(icon_loaded: bool, has_icon: bool, poll: CommandPoll) -> (PumpAction, bool) {
    match poll {
        CommandPoll::Received(TrayCommand::Shutdown) | CommandPoll::Disconnected =>
            (PumpAction::Exit { remove_icon: icon_loaded }, icon_loaded),
        CommandPoll::Received(TrayCommand::CreateIcon) =>
            if icon_loaded {
                (PumpAction::ReplyReady(true), true)
            } else if has_icon {
                (PumpAction::AddIcon, false)
            } else {
                (PumpAction::ReplyReady(false), false)
            },
        CommandPoll::Received(TrayCommand::RemoveIcon) =>
            if icon_loaded { (PumpAction::RemoveIcon, false) } else { (PumpAction::Idle, false) },
        CommandPoll::Empty => (PumpAction::Idle, icon_loaded),
    }
}

/// The pump's response to what it polled from its command channel, with
/// `icon_loaded` telling whether the icon is shown and `has_icon` whether an
/// icon image could be loaded. Returns the action and whether the icon is
/// shown afterwards (an `AddIcon` keeps it hidden until [`icon_added`]).
pub fn pump_command(icon_loaded: bool, has_icon: bool, poll: CommandPoll) -> (r: (PumpAction, bool))
    ensures
        r == pump_command_spec(icon_loaded, has_icon, poll),
{
    match poll {
        CommandPoll::Received(TrayCommand::Shutdown) | CommandPoll::Disconnected => {
            (PumpAction::Exit { remove_icon: icon_loaded }, icon_loaded)
        },
        CommandPoll::Received(TrayCommand::CreateIcon) => {
            if icon_loaded {
                (PumpAction::ReplyReady(true), true)
            } else if has_icon {
                (PumpAction::AddIcon, false)
            } else {
                (PumpAction::ReplyReady(false), false)
            }
        },
        CommandPoll::Received(TrayCommand::RemoveIcon) => {
            if icon_loaded {
                (PumpAction::RemoveIcon, false)
            } else {
                (PumpAction::Idle, false)
            }
        },
        CommandPoll::Empty => (PumpAction::Idle, icon_loaded),
    }
}

/// After an `AddIcon`: the icon is shown exactly when adding it succeeded,
/// and that outcome is the answer to the pending request.
pub fn icon_added(ok: bool) -> (r: (PumpAction, bool))
    ensures
        r == (PumpAction::ReplyReady(ok), ok),
{
    (PumpAction::ReplyReady(ok), ok)
}

/// Law: whatever the pump is asked, the icon is never reported ready unless
/// it is shown afterwards, and it is never shown after a removal or a
/// request that finds it hidden without an image.
pub proof fn lemma_ready_only_when_shown(icon_loaded: bool, has_icon: bool, poll: CommandPoll, ok: bool)
    ensures
        ({
            let (a, loaded) = pump_command_spec(icon_loaded, has_icon, poll);
            &&& (a == PumpAction::ReplyReady(true) ==> loaded)
            &&& (poll == CommandPoll::Received(TrayCommand::RemoveIcon) ==> !loaded)
            &&& (a is Exit ==> a->remove_icon == icon_loaded)
        }),
{
}

} // verus!
