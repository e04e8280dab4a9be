//! The nodes of a scene graph: what all kinds of node have in common, and
//! the kinds.

pub mod light;
pub mod types;
