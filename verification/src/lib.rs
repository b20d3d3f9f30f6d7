//! The decisions behind an on-screen display of key presses for Wayland.
//!
//! Each module decides; the program around the library talks to the compositor, the input
//! devices and the system, and hands the library plain values.

pub mod color;
pub mod devmgr;
pub mod events;
pub mod files;
pub mod frame;
pub mod input;
pub mod keys;
pub mod message;
pub mod number;
pub mod options;
pub mod pango_helper;
pub mod pool;
pub mod shm;
pub mod state;
pub mod text;
