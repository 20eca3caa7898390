//! Bootstrap core of a bare-metal kernel: a hardware text console driver,
//! a load-once fault table, and a tiered panic degradation protocol.

pub mod interrupt;
pub mod panic_control;
pub mod vga_buffer;
