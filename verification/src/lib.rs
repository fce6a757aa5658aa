//! Verified core of a wgpu rendering bridge: descriptor validation, resource
//! registries, upload planning, pipeline caching and frame planning.

pub mod compute;
pub mod descriptors;
pub mod error;
pub mod frame;
pub mod init;
pub mod laws;
pub mod layout;
pub mod numeric;
pub mod pipeline;
pub mod registry;
pub mod shader;
pub mod surface;
pub mod upload;
pub mod wgpu_api;
