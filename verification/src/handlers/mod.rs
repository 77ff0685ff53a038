//! Decoders for the HID msg ids that the daemon understands.

pub mod state;
