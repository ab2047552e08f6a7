//! The logic of a terminal control panel for ASUS laptops on Linux.

pub mod app;
pub mod audio;
pub mod battery;
pub mod config;
pub mod cpu;
pub mod display;
pub mod gpu;
pub mod layout;
pub mod number;
pub mod order;
pub mod process;
pub mod scene;
pub mod system;
pub mod sysutil;
pub mod text;
pub mod unicode;
pub mod view;

