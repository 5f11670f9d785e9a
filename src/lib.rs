//! Half-edge connectivity core of a triangle-mesh library.
//!
//! Vertices, half-edges and faces live in slot arenas and refer to one
//! another by integer handles. The store offers constructors that build a
//! triangular face together with its three inner half-edges, logical removal
//! with slot reuse, and thin getters and setters for algorithms built on top.
pub mod mesh;
pub mod mesh_builder;
