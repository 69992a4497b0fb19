//! Screen and window capture for Wayland compositors, and the window picker built on it.
//!
//! The library holds everything the tools decide and compute: geometry and pixels,
//! which windows are offered and in what order, the capture sessions' life, the
//! overlay's behaviour under the keyboard, the control socket's lines. Talking to the
//! compositor, the GPU and the disk is left to the program around it.

pub mod bytes;
pub mod capture;
pub mod chooser;
pub mod clipboard;
pub mod connect;
pub mod cosmic_activate;
pub mod daemon;
pub mod doctor;
pub mod error;
pub mod focus;
pub mod front;
pub mod hints;
pub mod icons;
pub mod image;
pub mod json;
pub mod keys;
pub mod layout;
pub mod live;
pub mod mirror;
pub mod order;
pub mod overlay;
pub mod pointer;
pub mod region;
pub mod rounding;
pub mod session;
pub mod shell;
pub mod sink;
pub mod sources;
pub mod switcher;
pub mod table;
pub mod text;
pub mod theme;
pub mod ui;
pub mod version;
pub mod video;
pub mod wl;
