//! Core of a GPU-backed 2D painting library: color and style decisions,
//! font-fallback text segmentation, image and typeface caches, surface and
//! GPU context lifecycle, and the painter's state stack.
//!
//! The graphics engine's objects (render targets, GPU contexts, typefaces,
//! decoded images) are carried here as type parameters; the decisions made
//! around them are verified.
pub mod cache;
pub mod color;
pub mod error;
pub mod font;
pub mod image;
pub mod painter;
pub mod surface;

pub use color::{parse_color, Color};
pub use error::Error;
pub use font::{
    contains_emoji, is_likely_emoji, segment_text_by_font, typeface_cache_key, typeface_candidates,
    EmojiTypefaceCache, TextSegment, TypefaceCache, TypefaceRole,
};
pub use image::{clear_image_cache, measure_image, ImageCache, ImageFetch, LoadedImage};
pub use painter::{clear_color, fill_paint_color, stroke_paint_color, StateStack};
pub use surface::{new_context, rgba_layout, Backend, ContextSlot, Surface};
