//! Verified core of the e-paper name badge: the SSD1683 and 23K256 command
//! encoders, the SRAM-backed framebuffer logic and the badge protocol types.
pub mod bus;
pub mod sram23k256;
pub mod plane_cache;
pub mod opcode;
pub mod commands;
pub mod ssd1683;
pub mod protocol;
pub mod color;
pub mod framebuffer;
pub mod display420tri;
pub mod display420mono;
pub mod neopixel;
pub mod draw;
pub mod display;
pub mod scan;
pub mod advertising;
