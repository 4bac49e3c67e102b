//! Layout, orientation and layer-ordering logic of a GPU compositor for
//! Procreate documents.
//!
//! The GPU work itself (devices, textures, pipelines) lives outside this
//! crate; what is here decides what that work is given.
pub mod dimensions;
pub mod layers;
pub mod render;
pub mod vertices;

pub use dimensions::BufferDimensions;
pub use layers::{CompositeLayer, SilicaGroup, SilicaHierarchy, SilicaLayer, linearize};
pub use render::{MaskSource, RenderState, TextureExtent, ViewControl, clipping_masks};
pub use vertices::{Position, TexCoord, Vertex, INDICES};
