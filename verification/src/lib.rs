//! Loader for glTF binary (GLB) assets: container parsing, descriptor
//! resolution, accessor extraction and mesh materialisation, together with
//! the small data types the renderer shares with it.

pub mod error;
pub mod glb;
pub mod json;
pub mod gltf;
pub mod mesh;
pub mod queues;
pub mod material;
pub mod math;
