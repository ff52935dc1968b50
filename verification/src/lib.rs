//! The core of a retained-mode renderer: drawing primitives, their flattening
//! into clipped layers, the bookkeeping of the pipelines that draw those
//! layers, the sequencing of a frame, and widget-tree operations.
//!
//! Every coordinate is a fixed-point number (see [`units`]).
pub mod alignment;
pub mod backend;
pub mod blur;
pub mod buffer;
pub mod color;
pub mod custom;
pub mod debug;
pub mod geometry;
pub mod gradient;
pub mod layer;
pub mod operation;
pub mod pipeline;
pub mod primitive;
pub mod program;
pub mod quad;
pub mod settings;
pub mod storage;
pub mod text;
pub mod triangle;
pub mod number;
pub mod units;
pub mod viewport;
pub mod widget;
pub mod window;
