//! Capture, encode and replay of camera streams: synthetic and file-backed
//! frame sources, the per-stream encoder state, and the shared state of a
//! dual recording session.

pub mod camera;
pub mod clock;
pub mod dual_recorder;
pub mod playback_camera;
pub mod recorder;
pub mod text;
pub mod virtual_camera;
