//! Layer management core of an interactive canvas editor.
//!
//! The editor pastes raster images and typed text onto a 2-D surface as
//! positioned rectangular layers, lets a pointer device select and drag the
//! image layers, and recomposites the scene every frame. This crate holds the
//! in-memory model: the layer store, the hit-testing and drag arithmetic, the
//! interaction state machine, and the per-frame compositing plan. Decoding
//! clipboard bytes, rasterizing text, uploading pixel buffers to the GPU and
//! presenting the frame are external services; the surrounding program drives
//! them and hands their results back in as plain values.

pub mod clipboard;
pub mod compositor;
pub mod decode;
pub mod geometry;
pub mod state;
pub mod store;
