//! Directory jumping: the picker's decisions, kept apart from the terminal.
pub mod action_laws;
pub mod actions;
pub mod browse;
pub mod browse_laws;
pub mod cli;
pub mod config;
pub mod copies;
pub mod favorites;
pub mod fuzzy;
pub mod icons;
pub mod invoke;
pub mod key_laws;
pub mod keys;
pub mod laws;
pub mod menu;
pub mod mouse_laws;
pub mod open;
pub mod order;
pub mod paint;
pub mod path_laws;
pub mod paths;
pub mod picker;
pub mod picture_laws;
pub mod replies;
pub mod reply_laws;
pub mod rows;
pub mod scan;
pub mod screen;
pub mod session;
pub mod setup;
pub mod template;
pub mod text;
pub mod validate;
pub mod width;
