//! What the window's controls read and decide, apart from their drawing.

pub mod add_dialog;
pub mod first_mouse;
pub mod icon;
pub mod rules_window;
pub mod settings_sheet;
pub mod slider;
