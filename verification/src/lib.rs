//! The logic of a small Wayland desktop shell: what its bar, launcher, pickers and
//! popups decide and compute, apart from the windows, files and programs around it.

pub mod backdrop;
pub mod bar;
pub mod command;
pub mod hardware;
pub mod json;
pub mod launcher;
pub mod launcher_source;
pub mod locker;
pub mod models;
pub mod navigation;
pub mod network;
pub mod numbers;
pub mod ollama;
pub mod osd;
pub mod outputs;
pub mod paths;
pub mod session;
pub mod slint_text;
pub mod sorting;
pub mod sway;
pub mod sysinfo;
pub mod text;
pub mod wallpaper;
pub mod wallpaper_source;
pub mod weather;
