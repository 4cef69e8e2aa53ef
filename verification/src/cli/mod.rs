//! Data read from the embedded controller and the firmware tables, and the
//! decoding that turns raw readings into it.
pub mod ec_wrapper;
pub mod names;
pub mod text;
