//! Frame orchestration for a voxel renderer: a handle arena for GPU objects,
//! a debounced shader-change watcher, and the controller that rebuilds
//! pipelines, refreshes bind groups and records the compute and render passes
//! of every frame. Shader sources are checked for nesting depth before they
//! go to the shader compiler, whose outcome the controller takes as a value.
pub mod game;
pub mod layout;
pub mod nesting;
pub mod resources;
pub mod watcher;
