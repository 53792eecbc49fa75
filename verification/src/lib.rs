//! Verified core of the `imaging` command-stream toolkit: image targets, advisory diagnostics,
//! renderer-facing formats and errors, and the cache bookkeeping used by the backends.

pub mod render;
pub mod float_bits;
pub mod record;
pub mod diagnostics;
pub mod lru;
pub mod image_cache;
pub mod image_registry;
pub mod text;
pub mod texture;
pub mod vello_renderer;
pub mod hybrid_renderer;
pub mod skia_renderer;
pub mod skia_interop;
pub mod renderer;
pub mod backend;
pub mod skia_sink;
pub mod font_cache;
