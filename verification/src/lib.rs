//! Asset decoding and runtime scene preparation for a glTF renderer.
//!
//! The library decodes glTF/GLB geometry and animation data into typed
//! staging buffers, builds skeletal hierarchies, samples keyframe
//! animation, and selects level-of-detail and visibility for instances,
//! all over fixed-point arithmetic so that every step carries a proof.

pub mod accessor;
pub mod animated;
pub mod buffer_views;
pub mod culling;
pub mod document;
pub mod error;
pub mod fixed;
pub mod glb;
pub mod joints;
pub mod model;
pub mod nodes;
pub mod sampler;
pub mod similarity;
pub mod trusted;
pub mod vecmath;
