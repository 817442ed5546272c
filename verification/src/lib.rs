//! Verified core of a layer-shell status bar: configuration builders, the
//! render plan of widget trees, IPC request handling, Hyprland event and
//! `/proc` parsing, and the text utilities they share.

pub mod ctl;
pub mod hyprland;
pub mod ipc;
pub mod lua;
pub mod paths;
pub mod render;
pub mod runtime;
pub mod surface;
pub mod system;
pub mod text;
pub mod widget;
pub mod window;
