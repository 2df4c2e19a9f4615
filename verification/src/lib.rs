pub mod text;
pub mod web_shortcut;
pub mod shortcut;
pub mod commands;
pub mod ico_file;
pub mod icon;
pub mod exe;
