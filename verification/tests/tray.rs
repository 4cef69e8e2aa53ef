use framework_crate::tray::event::{menu_event, TrayCommand, TrayEvent, ID_QUIT, ID_SHOW};
use framework_crate::tray::pump::{
    icon_added, icon_click, pump_command, CommandPoll, IconClick, PumpAction, WM_LBUTTONUP,
    WM_RBUTTONUP,
};

#[test]
fn tray_event_equality() {
    assert_eq!(TrayEvent::Show, TrayEvent::Show);
    assert_eq!(TrayEvent::MenuShow, TrayEvent::MenuShow);
    assert_eq!(TrayEvent::MenuQuit, TrayEvent::MenuQuit);
    assert_ne!(TrayEvent::Show, TrayEvent::MenuShow);
    assert_ne!(TrayEvent::Show, TrayEvent::MenuQuit);
    assert_ne!(TrayEvent::MenuShow, TrayEvent::MenuQuit);
}

#[test]
fn tray_event_clone() {
    let e = TrayEvent::Show;
    let e2 = e;
    assert_eq!(e, e2);
}

#[test]
fn tray_command_equality() {
    assert_eq!(TrayCommand::CreateIcon, TrayCommand::CreateIcon);
    assert_eq!(TrayCommand::RemoveIcon, TrayCommand::RemoveIcon);
    assert_eq!(TrayCommand::Shutdown, TrayCommand::Shutdown);
    assert_ne!(TrayCommand::CreateIcon, TrayCommand::RemoveIcon);
    assert_ne!(TrayCommand::CreateIcon, TrayCommand::Shutdown);
    assert_ne!(TrayCommand::RemoveIcon, TrayCommand::Shutdown);
}

#[test]
fn tray_command_clone() {
    let c = TrayCommand::Shutdown;
    let c2 = c;
    assert_eq!(c, c2);
}

#[test]
fn tray_constants() {
    assert_eq!(ID_SHOW, 1);
    assert_eq!(ID_QUIT, 2);
}

// --- Further cases -------------------------------------------------------

#[test]
fn menu_ids_map_to_events() {
    assert_eq!(menu_event(ID_SHOW), Some(TrayEvent::MenuShow));
    assert_eq!(menu_event(ID_QUIT), Some(TrayEvent::MenuQuit));
    assert_eq!(menu_event(0), None);
    assert_eq!(menu_event(3), None);
}

#[test]
fn icon_clicks() {
    assert_eq!(icon_click(WM_LBUTTONUP), IconClick::Report(TrayEvent::Show));
    assert_eq!(icon_click(WM_RBUTTONUP), IconClick::OpenMenu);
    assert_eq!(icon_click(0x0200), IconClick::Ignore);
}

#[test]
fn pump_create_icon() {
    assert_eq!(pump_command(false, true, CommandPoll::Received(TrayCommand::CreateIcon)), (PumpAction::AddIcon, false));
    assert_eq!(pump_command(false, false, CommandPoll::Received(TrayCommand::CreateIcon)), (PumpAction::ReplyReady(false), false));
    assert_eq!(pump_command(true, true, CommandPoll::Received(TrayCommand::CreateIcon)), (PumpAction::ReplyReady(true), true));
    assert_eq!(icon_added(true), (PumpAction::ReplyReady(true), true));
    assert_eq!(icon_added(false), (PumpAction::ReplyReady(false), false));
}

#[test]
fn pump_remove_and_exit() {
    assert_eq!(pump_command(true, true, CommandPoll::Received(TrayCommand::RemoveIcon)), (PumpAction::RemoveIcon, false));
    assert_eq!(pump_command(false, true, CommandPoll::Received(TrayCommand::RemoveIcon)), (PumpAction::Idle, false));
    assert_eq!(pump_command(true, true, CommandPoll::Received(TrayCommand::Shutdown)), (PumpAction::Exit { remove_icon: true }, true));
    assert_eq!(pump_command(false, true, CommandPoll::Disconnected), (PumpAction::Exit { remove_icon: false }, false));
    assert_eq!(pump_command(true, false, CommandPoll::Empty), (PumpAction::Idle, true));
}
