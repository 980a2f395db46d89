//! Verified core of a terminal front end for the Flipper Zero.

pub mod app_state;
pub mod backup;
pub mod commands;
pub mod device;
pub mod error;
pub mod info;
pub mod keymap;
pub mod kv;
pub mod mock;
pub mod panels;
pub mod protocol;
pub mod screens;
pub mod settings;
pub mod storage;
pub mod text;
pub mod transport;
pub mod updates;
