//! Decision logic of a Touch Bar daemon: configuration, layers, buttons,
//! touches, shortcuts, brightness, display selection and label text.

pub mod backlight;
pub mod button;
pub mod cards;
pub mod command_laws;
pub mod config;
pub mod config_laws;
pub mod control;
pub mod display;
pub mod display_laws;
pub mod frame;
pub mod geometry;
pub mod icons;
pub mod key_laws;
pub mod keys;
pub mod layout_laws;
pub mod search;
pub mod session;
pub mod session_laws;
pub mod shortcut;
pub mod text;
pub mod text_render;
pub mod time_label;
pub mod touch_laws;
