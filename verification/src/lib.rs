//! Verified core of a camera-to-display pipeline: capture-format
//! negotiation, packed 4:2:2 luma/chroma to RGB conversion, an
//! aspect-preserving letterbox layout, a frame-source state machine,
//! and a fixed-point model of a CRT post-processing shader.

pub mod crt;
pub mod error;
pub mod fixed;
pub mod negotiate;
pub mod layout;
pub mod pixel;
pub mod session;
pub mod source;
