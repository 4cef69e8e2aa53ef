//! Verified core of the Framework laptop control application: fan curves,
//! configuration validation, telemetry bookkeeping and EC data decoding.
pub mod background;
pub mod cli;
pub mod config_save_task;
pub mod config_update;
pub mod cpu_power;
pub mod fan_control;
pub mod icon;
pub mod limits;
pub mod temp_chart;
pub mod sub_state;
pub mod system_info;
pub mod tray;
pub mod types;
pub mod ui_state;
