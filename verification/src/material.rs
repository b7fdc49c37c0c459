//! Materials and the binding hook a command-buffer recorder implements.

use std::sync::Arc;
use vstd::prelude::*;

verus! {

/// A render material. Materials carry no parameters yet; they exist so that
/// meshes and draw calls already speak in terms of one.
#[derive(Debug, Clone)]
pub struct Material {}

impl Material {
    /// A new shared material.
    pub fn new() -> (r: Arc<Material>)
        ensures
            *r == (Material {  }),
    {
        Arc::new(Material {})
    }
}

/// Implemented by command-buffer recorders that can bind a material for the
/// draw calls that follow.
pub trait BindMaterial {
    fn bind_material(&mut self, material: Arc<Material>);
}

} // verus!
