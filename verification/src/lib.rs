//! Core of a real-time 3D scene renderer: fixed-point transform math, an
//! instanced geometry store, a scene graph of hierarchical transforms, and a
//! free-fly camera.  All scalar arithmetic is Q16.16 fixed point so that every
//! operation has an exact, machine-checked contract; the GPU and windowing
//! layer around this crate converts to the GPU's native formats at the edge.

pub mod fixed;
pub mod trig;
pub mod vecmat;
pub mod vertex_attributes;
pub mod geometric_object;
pub mod scene_graph;
pub mod camera;
pub mod obj_loader;
pub mod toolbox;
pub mod my_helicopter;
pub mod rotation;
