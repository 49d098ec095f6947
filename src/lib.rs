//! Relays gamepad and keyboard input from one machine to a virtual controller
//! on another over datagrams.

pub mod varint;
pub mod codec;
pub mod input;
pub mod vigem;
pub mod listen;
pub mod broadcast;
