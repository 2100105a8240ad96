//! Keeps a mirror of a scene's entities in step with the changes that a
//! scene-graph reader reports, and resolves it into renderable meshes and the
//! active camera.
//!
//! - `attribute`: scene paths and interpolation modes.
//! - `topology`: fan triangulation of polygon faces.
//! - `mesh`, `submesh`, `resolve`: from a mesh record to triangles, vertex
//!   attributes and material-bound parts.
//! - `table`, `records`, `scene`: the per-path record tables and how changes
//!   apply to them.
//! - `selection`: the render-settings, render-product, camera chain.
//! - `worker`: the decisions of the thread that owns the scene.

use vstd::prelude::*;

pub mod attribute;
pub mod topology;
pub mod mesh;
pub mod submesh;
pub mod resolve;
pub mod table;
pub mod records;
pub mod scene;
pub mod selection;
pub mod worker;

verus! {

} // verus!
