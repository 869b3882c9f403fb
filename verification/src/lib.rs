//! Verified core of a small shader playground: the shader source preprocessor
//! and WGSL validation, the scene catalogue and the passes each scene draws,
//! the render targets by name, and the decisions the window makes on input.

pub mod controls;
pub mod names;
pub mod paths;
pub mod plan;
pub mod preprocess;
pub mod scene;
pub mod sources;
pub mod targets;
pub mod text;
pub mod validate;
