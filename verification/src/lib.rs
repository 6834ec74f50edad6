//! Window-management logic of the scape Wayland compositor: window placement
//! and zones, focus cycling, interactive resize constraints, cursor animation,
//! render scheduling decisions, start-up and shutdown sequencing, and a few
//! small protocol helpers. It decides; it does not talk to the display
//! server, the GPU or the operating system. The application crate beside it
//! holds the worker threads and main loop, the configuration watcher, the
//! cursor theme on disk, the environment, the floating-point arithmetic and
//! an executor for planned actions; the Wayland, DRM and rendering runtime
//! is not part of either.
pub mod action;
pub mod composition;
pub mod cursor;
pub mod debug_ui;
pub mod geometry;
pub mod grabs;
pub mod leasing;
pub mod lifecycle;
pub mod pipewire;
pub mod portal;
pub mod render;
pub mod screencopy;
pub mod shell;
pub mod state;
pub mod xdg;
