//! Yapper's dictation text pipeline and bookkeeping, with contracts proved by Verus.
//!
//! The desktop shell (audio capture, windows, database, inference process) lives
//! outside this crate and hands plain values to the functions here.

pub mod text;
pub mod regex_engine;
pub mod sort;
pub mod postprocess;
pub mod paste;
pub mod dictation;
pub mod sidecar;
pub mod numbers;
pub mod db;
pub mod errors;
pub mod engine;
pub mod node;
pub mod hud;
pub mod devices;
pub mod shortcuts;
pub mod navigation;
pub mod icon;
pub mod platform;
pub mod remote;
pub mod session;
pub mod recording;
pub mod gpu;
