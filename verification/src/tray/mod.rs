//! System tray: the events the tray reports and the commands it accepts.
pub mod event;
pub mod pump;
