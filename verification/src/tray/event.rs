//! Messages exchanged with the tray message pump.
use vstd::prelude::*;

verus! {

/// What the tray reports to the application.
#[derive(Clone, Copy, Debug, PartialEq, Eq, Structural)]
pub enum TrayEvent {
    Show,
    MenuShow,
    MenuQuit,
    PowerResumed,
}

/// What the application asks of the tray.
#[derive(Clone, Copy, Debug, PartialEq, Eq, Structural)]
pub enum TrayCommand {
    CreateIcon,
    RemoveIcon,
    Shutdown,
}

/// Menu item identifier of "Show".
pub const ID_SHOW: u32 = 1;

/// Menu item identifier of "Quit".
pub const ID_QUIT: u32 = 2;

/// The tray event that a menu item identifier stands for.
pub fn menu_event(id: u32) -> (e: Option<TrayEvent>)
    ensures
        id == ID_SHOW ==> e == Some(TrayEvent::MenuShow),
        id == ID_QUIT ==> e == Some(TrayEvent::MenuQuit),
        id != ID_SHOW && id != ID_QUIT ==> e is None,
{
    if id == ID_SHOW {
        Some(TrayEvent::MenuShow)
    } else if id == ID_QUIT {
        Some(TrayEvent::MenuQuit)
    } else {
        None
    }
}

} // verus!
