use vstd::prelude::*;

pub mod window;
pub mod text;
pub mod error;
pub mod keyed;
pub mod ui;
pub mod memory;
pub mod render;
pub mod camera;
pub mod config;
pub mod shape;
pub mod event;
pub mod tray;
pub mod logging;
pub mod performance;
