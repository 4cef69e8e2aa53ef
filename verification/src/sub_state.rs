//! Read-only views of shared state handed to the interface for rendering.
use std::collections::VecDeque;
use std::sync::Arc;
use vstd::prelude::*;
use crate::cli::ec_wrapper::{ExpansionCard, UsbCPort};

verus! {

/// A consistent view of the peripherals: keyboard backlight level, the
/// expansion cards, the USB-C ports and their recent history.
pub struct PeripheralSnapshot {
    pub kblight: Arc<Option<u32>>,
    pub expansion_cards: Arc<Vec<ExpansionCard>>,
    pub pd_ports: Arc<Vec<UsbCPort>>,
    pub pd_ports_history: Arc<VecDeque<Vec<UsbCPort>>>,
}

} // verus!
