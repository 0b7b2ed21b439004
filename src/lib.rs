//! Core of a deferred-shading renderer: GPU resource bookkeeping behind an
//! explicit render context, shader uniform tables, framebuffer resizing and
//! blitting, the world's spatial partition, model flattening and palette
//! colour decoding.

pub mod context;
pub mod fbo;
pub mod gl_enum;
pub mod gl_error;
pub mod glu;
pub mod model;
pub mod palette;
pub mod shader;
pub mod timing;
pub mod world;
