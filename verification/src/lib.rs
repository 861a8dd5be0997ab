//! Per-frame decision logic of a privacy-preserving preview: which detected
//! face is nearest the frame centre, how the blurred region is composited back
//! into the frame, and how a captured frame is brought into canonical shape.

pub mod frame;
pub mod geometry;
pub mod pipeline;
pub mod selector;
