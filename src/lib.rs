//! Packet protocol engine of a USB-HID I2C/GPIO bridge: the frame codec, the
//! response factory and the command dispatcher, with their contracts.
pub mod commands;
pub mod errors;
pub mod parser;
pub mod ti;
pub mod usb;
