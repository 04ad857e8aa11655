//! Verified core of the keyboard dongle firmware: the JD9853 LCD wire
//! protocol, pixel packing, clipping and the USB heartbeat schedule.

pub mod assets;
pub mod bus;
pub mod color;
pub mod flash_probe;
pub mod jd9853;
pub mod panel;
pub mod panel_ram;
pub mod usb;

