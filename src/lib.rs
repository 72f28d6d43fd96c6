//! Multi-display screenshot core: display geometry, frame acquisition
//! decisions, row conversion, compositing onto one canvas, lossless encoding,
//! and the capture state machine that sequences them.

pub mod display;
pub mod convert;
pub mod error;
pub mod canvas;
pub mod encode;
pub mod acquire;
pub mod pipeline;
