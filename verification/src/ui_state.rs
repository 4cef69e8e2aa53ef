//! The window's interaction state: which panels are open, the quit
//! dialog, and minimizing to and restoring from the tray. Each user or tray
//! event moves the state and names what the window has to do; the window
//! itself (drawing, tray calls, EC writes) stays with the application.
use vstd::prelude::*;
use crate::background::elapsed;
use crate::limits::{IDLE_THRESHOLD_MS, UI_HIDDEN_INTERVAL_MS, UI_IDLE_INTERVAL_MS};
use crate::tray::event::TrayEvent;
use crate::types::{clamp_int, FanControlMode};

verus! {

/// Quit duty proposed when no manual duty was ever chosen (%).
pub const DEFAULT_QUIT_DUTY: u32 = 45;

/// Consecutive minimized observations after which the window goes to the tray.
pub const ICONIC_CHECKS_TO_TRAY: u32 = 2;

#[derive(Clone, Copy, Debug, PartialEq, Eq, Structural)]
pub struct UiFlags {
    pub show_settings: bool,
    pub show_sensor_settings: bool,
    pub show_battery_details: bool,
    pub show_curve_settings: bool,
    pub show_cpu_power_settings: bool,
    pub show_quit_warning: bool,
    pub quit_duty_value: u32,
    pub tray_initialized: bool,
    pub icon_create_in_flight: bool,
    pub pending_minimize_to_tray: bool,
    pub iconic_check_count: u32,
}

/// What happened in the window or the tray.
#[derive(Clone, Copy, Debug, PartialEq, Eq, Structural)]
pub enum UiEvent {
    SettingsToggled,
    ToggleSensorSettings,
    ToggleBatteryDetails,
    ToggleCurveSettings,
    ToggleCpuPowerSettings,
    /// The user asked to close the window.
    CloseRequested,
    /// Minimize to the tray; `window_found` tells whether the window handle
    /// could be found (needed to set up the tray), `icon_ready` whether the
    /// tray icon is shown.
    MinimizeToTray { window_found: bool, icon_ready: bool },
    RestoreFromTray,
    /// The tray reported an event.
    Tray(TrayEvent),
    /// "Quit" from the tray menu, in fan mode `mode` with the manual duty.
    TrayQuit { mode: FanControlMode, manual_duty: Option<u32> },
    QuitDutyChanged(u32),
    QuitCanceled,
    QuitWithRestore,
    QuitWithDuty,
    QuitWithoutRestore,
    /// The quit-time fan write finished.
    QuitShutdown,
}

/// What the window has to do after an event.
#[derive(Clone, Copy, Debug, PartialEq, Eq, Structural)]
pub enum UiAction {
    Nothing,
    /// Send itself a minimize-to-tray request.
    RequestMinimize,
    /// Send itself a restore-from-tray request.
    RequestRestore,
    /// Send itself a tray-quit request.
    RequestQuit,
    /// Record a resume from sleep.
    NoteResume,
    /// Minimizing: set up the tray first when `init_tray`, start creating
    /// the icon when `show_icon`, hide the window when `hide_window`.
    Minimize { init_tray: bool, show_icon: bool, hide_window: bool },
    /// Show the window again.
    Restore,
    /// Stop everything and close without touching the fans.
    ShutdownAndClose,
    /// Show the window again, then stop everything and close without
    /// touching the fans.
    RestoreShutdownAndClose,
    /// Stop, hand the fans back to the firmware, then finish quitting.
    RestoreFansThenQuit,
    /// Stop, write this duty to the fans, then finish quitting.
    WriteDutyThenQuit(u32),
    /// Finish quitting: shut the tray down, save and close.
    Close,
}

/// The state and action after `ev` in state `s`.
pub open spec fn ui_next(s: UiFlags, ev: UiEvent) -> (UiFlags, UiAction) {
    match ev {
        UiEvent::SettingsToggled => (UiFlags { show_settings: !s.show_settings, ..s }, UiAction::Nothing),
        UiEvent::ToggleSensorSettings => (UiFlags { show_sensor_settings: !s.show_sensor_settings, ..s }, UiAction::Nothing),
        UiEvent::ToggleBatteryDetails => (UiFlags { show_battery_details: !s.show_battery_details, ..s }, UiAction::Nothing),
        UiEvent::ToggleCurveSettings => (UiFlags { show_curve_settings: !s.show_curve_settings, ..s }, UiAction::Nothing),
        UiEvent::ToggleCpuPowerSettings => (UiFlags { show_cpu_power_settings: !s.show_cpu_power_settings, ..s }, UiAction::Nothing),
        UiEvent::CloseRequested => (s, UiAction::RequestMinimize),
        UiEvent::MinimizeToTray { window_found, icon_ready } => {
            let init_tray = !s.tray_initialized && window_found;
            let initialized = s.tray_initialized || window_found;
            if !initialized {
                (UiFlags { iconic_check_count: 0, ..s }, UiAction::Minimize { init_tray: false, show_icon: false, hide_window: false })
            } else {
                let show_icon = !icon_ready && !s.icon_create_in_flight;
                (
                    UiFlags {
                        iconic_check_count: 0,
                        tray_initialized: true,
                        icon_create_in_flight: if icon_ready { false } else { s.icon_create_in_flight || show_icon },
                        pending_minimize_to_tray: if icon_ready { s.pending_minimize_to_tray } else { true },
                        ..s
                    },
                    UiAction::Minimize { init_tray, show_icon, hide_window: icon_ready },
                )
            }
        },
        UiEvent::RestoreFromTray => (
            UiFlags { icon_create_in_flight: false, iconic_check_count: 0, pending_minimize_to_tray: false, ..s },
            UiAction::Restore,
        ),
        UiEvent::Tray(e) => (s, match e {
            TrayEvent::Show | TrayEvent::MenuShow => UiAction::RequestRestore,
            TrayEvent::MenuQuit => UiAction::RequestQuit,
            TrayEvent::PowerResumed => UiAction::NoteResume,
        }),
        UiEvent::TrayQuit { mode, manual_duty } =>
            if mode == FanControlMode::Manual || mode == FanControlMode::Curve {
                let d = match manual_duty { Some(d) => d, None => DEFAULT_QUIT_DUTY };
                (
                    UiFlags { quit_duty_value: clamp_int(d as int, 0, 100) as u32, show_quit_warning: true, ..s },
                    UiAction::Restore,
                )
            } else {
                (s, UiAction::RestoreShutdownAndClose)
            },
        UiEvent::QuitDutyChanged(d) => (
            UiFlags { quit_duty_value: clamp_int(d as int, 10, 100) as u32, ..s },
            UiAction::Nothing,
        ),
        UiEvent::QuitCanceled => (UiFlags { show_quit_warning: false, ..s }, UiAction::Nothing),
        UiEvent::QuitWithRestore => (UiFlags { show_quit_warning: false, ..s }, UiAction::RestoreFansThenQuit),
        UiEvent::QuitWithDuty => (UiFlags { show_quit_warning: false, ..s }, UiAction::WriteDutyThenQuit(s.quit_duty_value)),
        UiEvent::QuitWithoutRestore => (UiFlags { show_quit_warning: false, ..s }, UiAction::ShutdownAndClose),
        UiEvent::QuitShutdown => (UiFlags { show_quit_warning: false, ..s }, UiAction::Close),
    }
}

impl UiFlags {
    /// The state of a freshly opened window.
    pub fn new() -> (s: Self)
        ensures
            !s.show_settings && !s.show_sensor_settings && !s.show_battery_details,
            !s.show_curve_settings && !s.show_cpu_power_settings && !s.show_quit_warning,
            s.quit_duty_value == DEFAULT_QUIT_DUTY,
            !s.tray_initialized && !s.icon_create_in_flight && !s.pending_minimize_to_tray,
            s.iconic_check_count == 0,
    {
        UiFlags {
            show_settings: false,
            show_sensor_settings: false,
            show_battery_details: false,
            show_curve_settings: false,
            show_cpu_power_settings: false,
            show_quit_warning: false,
            quit_duty_value: DEFAULT_QUIT_DUTY,
            tray_initialized: false,
            icon_create_in_flight: false,
            pending_minimize_to_tray: false,
            iconic_check_count: 0,
        }
    }

    /// Handles one event (see [`ui_next`]).
    #[verifier::spinoff_prover]
    #[verifier::rlimit(50)]
    pub fn step(&mut self, ev: UiEvent) -> (a: UiAction)
        ensures
            (*final(self), a) == ui_next(*old(self), ev),
    {
        match ev {
            UiEvent::SettingsToggled => {
                self.show_settings = !self.show_settings;
                UiAction::Nothing
            },
            UiEvent::ToggleSensorSettings => {
                self.show_sensor_settings = !self.show_sensor_settings;
                UiAction::Nothing
            },
            UiEvent::ToggleBatteryDetails => {
                self.show_battery_details = !self.show_battery_details;
                UiAction::Nothing
            },
            UiEvent::ToggleCurveSettings => {
                self.show_curve_settings = !self.show_curve_settings;
                UiAction::Nothing
            },
            UiEvent::ToggleCpuPowerSettings => {
                self.show_cpu_power_settings = !self.show_cpu_power_settings;
                UiAction::Nothing
            },
            UiEvent::CloseRequested => UiAction::RequestMinimize,
            UiEvent::MinimizeToTray { window_found, icon_ready } => {
                self.iconic_check_count = 0;
                let mut init_tray = false;
                if !self.tray_initialized && window_found {
                    init_tray = true;
                    self.tray_initialized = true;
                }
                if !self.tray_initialized {
                    return UiAction::Minimize { init_tray: false, show_icon: false, hide_window: false };
                }
                let show_icon = !icon_ready && !self.icon_create_in_flight;
                if show_icon {
                    self.icon_create_in_flight = true;
                }
                if icon_ready {
                    self.icon_create_in_flight = false;
                } else {
                    self.pending_minimize_to_tray = true;
                }
                UiAction::Minimize { init_tray, show_icon, hide_window: icon_ready }
            },
            UiEvent::RestoreFromTray => {
                self.icon_create_in_flight = false;
                self.iconic_check_count = 0;
                self.pending_minimize_to_tray = false;
                UiAction::Restore
            },
            UiEvent::Tray(e) => match e {
                TrayEvent::Show | TrayEvent::MenuShow => UiAction::RequestRestore,
                TrayEvent::MenuQuit => UiAction::RequestQuit,
                TrayEvent::PowerResumed => UiAction::NoteResume,
            },
            UiEvent::TrayQuit { mode, manual_duty } => {
                if matches!(mode, FanControlMode::Manual | FanControlMode::Curve) {
                    let d = match manual_duty {
                        Some(d) => d,
                        None => DEFAULT_QUIT_DUTY,
                    };
                    self.quit_duty_value = if d > 100 { 100 } else { d };
                    self.show_quit_warning = true;
                    UiAction::Restore
                } else {
                    UiAction::RestoreShutdownAndClose
                }
            },
            UiEvent::QuitDutyChanged(d) => {
                self.quit_duty_value = if d < 10 { 10 } else if d > 100 { 100 } else { d };
                UiAction::Nothing
            },
            UiEvent::QuitCanceled => {
                self.show_quit_warning = false;
                UiAction::Nothing
            },
            UiEvent::QuitWithRestore => {
                self.show_quit_warning = false;
                UiAction::RestoreFansThenQuit
            },
            UiEvent::QuitWithDuty => {
                self.show_quit_warning = false;
                UiAction::WriteDutyThenQuit(self.quit_duty_value)
            },
            UiEvent::QuitWithoutRestore => {
                self.show_quit_warning = false;
                UiAction::ShutdownAndClose
            },
            UiEvent::QuitShutdown => {
                self.show_quit_warning = false;
                UiAction::Close
            },
        }
    }
}

/// Law (what quitting does to the fans): only "quit with restore" hands fan
/// control back to the firmware, only "quit with duty" writes a duty, and
/// that duty is the one shown in the quit dialog; "quit without restore"
/// closes without touching the fans. Every way out of the quit dialog
/// closes it, and no other event touches the fans.
pub proof fn lemma_quit_fans(s: UiFlags, ev: UiEvent)
    ensures
        (ui_next(s, ev).1 == UiAction::RestoreFansThenQuit) == (ev == UiEvent::QuitWithRestore),
        (ui_next(s, ev).1 is WriteDutyThenQuit) == (ev == UiEvent::QuitWithDuty),
        ev == UiEvent::QuitWithDuty ==> ui_next(s, ev).1 == UiAction::WriteDutyThenQuit(s.quit_duty_value),
        ev == UiEvent::QuitWithoutRestore ==> ui_next(s, ev).1 == UiAction::ShutdownAndClose,
        (ev == UiEvent::QuitWithRestore || ev == UiEvent::QuitWithDuty || ev == UiEvent::QuitWithoutRestore
            || ev == UiEvent::QuitCanceled) ==> !ui_next(s, ev).0.show_quit_warning,
{
}

/// Law (quitting from the tray): with the fans under the app's control
/// (manual or curve mode) the window comes back with the quit dialog open,
/// proposing the manual duty (at most 100) or 45% when none was chosen;
/// otherwise the window comes back and the app closes at once. A duty
/// picked in the dialog is held within 10..=100.
pub proof fn lemma_tray_quit(s: UiFlags, mode: FanControlMode, manual_duty: Option<u32>, d: u32)
    ensures
        ({
            let r = ui_next(s, UiEvent::TrayQuit { mode, manual_duty });
            &&& (mode == FanControlMode::Manual || mode == FanControlMode::Curve) ==> {
                &&& r.1 == UiAction::Restore
                &&& r.0.show_quit_warning
                &&& r.0.quit_duty_value == match manual_duty {
                    Some(v) => if v > 100 { 100 } else { v },
                    None => 45,
                }
            }
            &&& mode == FanControlMode::Disabled ==> r.1 == UiAction::RestoreShutdownAndClose && r.0 == s
        }),
        ({
            let q = ui_next(s, UiEvent::QuitDutyChanged(d)).0.quit_duty_value;
            &&& 10 <= q <= 100
            &&& (10 <= d <= 100 ==> q == d)
            &&& (d < 10 ==> q == 10)
            &&& (d > 100 ==> q == 100)
        }),
{
}

/// Where a message to the window comes from: the messages the window sends
/// itself or gets from background work, or anything else, which the user
/// caused.
#[derive(Clone, Copy, Debug, PartialEq, Eq, Structural)]
pub enum MessageSource {
    Tick,
    InitComplete,
    StartupError,
    WindowResized,
    CpuPowerDataRefreshed,
    CpuPowerSyncStopped,
    User,
}

/// The time of the last user interaction after a message at `now`: only a
/// message the user caused moves it.
pub fn interaction_after(source: MessageSource, now: u64, last_interaction: u64) -> (t: u64)
    ensures
        t == if source == MessageSource::User { now } else { last_interaction },
{
    match source {
        MessageSource::User => now,
        _ => last_interaction,
    }
}

/// The interval (ms) until the next interface tick: slow while hidden in
/// the tray, slower while the user is idle, else the configured interval.
pub fn ui_tick_interval(visible: bool, now: u64, last_interaction: u64, tick_interval_ms: u64) -> (ms: u64)
    ensures
        ms == if !visible {
            UI_HIDDEN_INTERVAL_MS
        } else if elapsed(now, last_interaction) > IDLE_THRESHOLD_MS {
            UI_IDLE_INTERVAL_MS
        } else {
            tick_interval_ms
        },
{
    if !visible {
        UI_HIDDEN_INTERVAL_MS
    } else if now.saturating_sub(last_interaction) > IDLE_THRESHOLD_MS {
        UI_IDLE_INTERVAL_MS
    } else {
        tick_interval_ms
    }
}

/// The minimized-window counter after one observation, and whether the
/// window should go to the tray (two observations in a row).
pub fn iconic_check(count: u32, iconic: bool) -> (r: (u32, bool))
    ensures
        r == if !iconic {
            (0u32, false)
        } else if count + 1 >= ICONIC_CHECKS_TO_TRAY {
            (0u32, true)
        } else {
            ((count + 1) as u32, false)
        },
{
    if !iconic {
        (0, false)
    } else if count >= ICONIC_CHECKS_TO_TRAY - 1 {
        (0, true)
    } else {
        (count + 1, false)
    }
}

/// Law: the quit dialog never proposes a duty outside 0..=100, and a
/// cancelled, confirmed or finished quit always closes the dialog.
pub proof fn lemma_quit_dialog(s: UiFlags, ev: UiEvent)
    requires
        s.quit_duty_value <= 100,
    ensures
        ui_next(s, ev).0.quit_duty_value <= 100,
        (ev == UiEvent::QuitCanceled || ev == UiEvent::QuitWithRestore || ev == UiEvent::QuitWithDuty
            || ev == UiEvent::QuitWithoutRestore || ev == UiEvent::QuitShutdown) ==> !ui_next(s, ev).0.show_quit_warning,
{
}

/// Law: toggling a panel twice restores the state.
pub proof fn lemma_toggle_twice(s: UiFlags, ev: UiEvent)
    requires
        ev == UiEvent::SettingsToggled || ev == UiEvent::ToggleSensorSettings || ev == UiEvent::ToggleBatteryDetails
            || ev == UiEvent::ToggleCurveSettings || ev == UiEvent::ToggleCpuPowerSettings,
    ensures
        ui_next(ui_next(s, ev).0, ev).0 == s,
{
}

} // verus!
