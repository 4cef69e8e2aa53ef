use framework_crate::tray::event::TrayEvent;
use framework_crate::types::FanControlMode;
use framework_crate::ui_state::{
    iconic_check, interaction_after, ui_tick_interval, MessageSource, UiAction, UiEvent, UiFlags,
};

#[test]
fn settings_toggle_flips_flag() {
    let mut ui = UiFlags::new();
    assert!(!ui.show_settings);
    ui.step(UiEvent::SettingsToggled);
    assert!(ui.show_settings);
    ui.step(UiEvent::SettingsToggled);
    assert!(!ui.show_settings);
}

#[test]
fn sensor_settings_toggle_flips_flag() {
    let mut ui = UiFlags::new();
    assert!(!ui.show_sensor_settings);
    ui.step(UiEvent::ToggleSensorSettings);
    assert!(ui.show_sensor_settings);
    ui.step(UiEvent::ToggleSensorSettings);
    assert!(!ui.show_sensor_settings);
}

#[test]
fn battery_details_toggle_flips_flag() {
    let mut ui = UiFlags::new();
    assert!(!ui.show_battery_details);
    ui.step(UiEvent::ToggleBatteryDetails);
    assert!(ui.show_battery_details);
    ui.step(UiEvent::ToggleBatteryDetails);
    assert!(!ui.show_battery_details);
}

#[test]
fn close_request_in_non_manual_does_not_show_warning() {
    let mut ui = UiFlags::new();
    assert_eq!(ui.step(UiEvent::CloseRequested), UiAction::RequestMinimize);
    assert!(!ui.show_quit_warning);
}

#[test]
fn quit_cancel_hides_warning() {
    let mut ui = UiFlags::new();
    ui.step(UiEvent::QuitCanceled);
    assert!(!ui.show_quit_warning);
}

#[test]
fn quit_duty_changes_clamped() {
    let mut ui = UiFlags::new();
    ui.step(UiEvent::QuitDutyChanged(5));
    assert_eq!(ui.quit_duty_value, 10);
    ui.step(UiEvent::QuitDutyChanged(150));
    assert_eq!(ui.quit_duty_value, 100);
    ui.step(UiEvent::QuitDutyChanged(50));
    assert_eq!(ui.quit_duty_value, 50);
}

#[test]
fn tray_quit_depends_on_fan_mode() {
    let mut ui = UiFlags::new();
    assert_eq!(
        ui.step(UiEvent::TrayQuit { mode: FanControlMode::Disabled, manual_duty: Some(70) }),
        UiAction::RestoreShutdownAndClose
    );
    assert!(!ui.show_quit_warning);
    assert_eq!(
        ui.step(UiEvent::TrayQuit { mode: FanControlMode::Manual, manual_duty: Some(70) }),
        UiAction::Restore
    );
    assert!(ui.show_quit_warning);
    assert_eq!(ui.quit_duty_value, 70);
    assert_eq!(ui.step(UiEvent::QuitWithDuty), UiAction::WriteDutyThenQuit(70));
    assert!(!ui.show_quit_warning);
    ui.step(UiEvent::TrayQuit { mode: FanControlMode::Curve, manual_duty: None });
    assert_eq!(ui.quit_duty_value, 45);
    assert_eq!(ui.step(UiEvent::QuitWithRestore), UiAction::RestoreFansThenQuit);
    assert_eq!(ui.step(UiEvent::QuitShutdown), UiAction::Close);
}

#[test]
fn minimize_and_restore() {
    let mut ui = UiFlags::new();
    // No window yet: nothing can be done.
    assert_eq!(
        ui.step(UiEvent::MinimizeToTray { window_found: false, icon_ready: false }),
        UiAction::Minimize { init_tray: false, show_icon: false, hide_window: false }
    );
    assert!(!ui.tray_initialized);
    // Window found, icon not ready: set up the tray and start the icon.
    assert_eq!(
        ui.step(UiEvent::MinimizeToTray { window_found: true, icon_ready: false }),
        UiAction::Minimize { init_tray: true, show_icon: true, hide_window: false }
    );
    assert!(ui.tray_initialized && ui.icon_create_in_flight && ui.pending_minimize_to_tray);
    // Asked again while the icon is being created: do not start it twice.
    assert_eq!(
        ui.step(UiEvent::MinimizeToTray { window_found: true, icon_ready: false }),
        UiAction::Minimize { init_tray: false, show_icon: false, hide_window: false }
    );
    // Icon ready: hide.
    assert_eq!(
        ui.step(UiEvent::MinimizeToTray { window_found: true, icon_ready: true }),
        UiAction::Minimize { init_tray: false, show_icon: false, hide_window: true }
    );
    assert!(!ui.icon_create_in_flight);
    assert_eq!(ui.step(UiEvent::RestoreFromTray), UiAction::Restore);
    assert!(!ui.pending_minimize_to_tray);
}

#[test]
fn tray_events_map_to_requests() {
    let mut ui = UiFlags::new();
    assert_eq!(ui.step(UiEvent::Tray(TrayEvent::Show)), UiAction::RequestRestore);
    assert_eq!(ui.step(UiEvent::Tray(TrayEvent::MenuShow)), UiAction::RequestRestore);
    assert_eq!(ui.step(UiEvent::Tray(TrayEvent::MenuQuit)), UiAction::RequestQuit);
    assert_eq!(ui.step(UiEvent::Tray(TrayEvent::PowerResumed)), UiAction::NoteResume);
}

#[test]
fn tick_intervals() {
    assert_eq!(ui_tick_interval(false, 0, 0, 200), 500);
    assert_eq!(ui_tick_interval(true, 20_000, 0, 200), 1000);
    assert_eq!(ui_tick_interval(true, 5_000, 0, 200), 200);
}

#[test]
fn iconic_checks() {
    assert_eq!(iconic_check(0, false), (0, false));
    assert_eq!(iconic_check(0, true), (1, false));
    assert_eq!(iconic_check(1, true), (0, true));
    assert_eq!(iconic_check(1, false), (0, false));
}

#[test]
fn only_user_messages_count_as_interaction() {
    assert_eq!(interaction_after(MessageSource::User, 9000, 1000), 9000);
    assert_eq!(interaction_after(MessageSource::Tick, 9000, 1000), 1000);
    assert_eq!(interaction_after(MessageSource::WindowResized, 9000, 1000), 1000);
    assert_eq!(interaction_after(MessageSource::CpuPowerSyncStopped, 9000, 1000), 1000);
}
