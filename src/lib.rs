//! Plays a video in a terminal: frame geometry, text rendering of raw RGB
//! frames, frame pacing and the bookkeeping of helper processes.
pub mod decimal;
pub mod render;
pub mod dims;
pub mod pacing;
pub mod frame;
pub mod registry;
pub mod commands;
pub mod probe;
