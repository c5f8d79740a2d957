//! Rendering core of a terminal window: font style resolution, font and
//! glyph caches over a fixed-size texture atlas, the per-line compositor
//! with its two drawing backends, and the cursor blink overlay.
pub mod atlas;
pub mod attrs;
pub mod backend;
pub mod cluster;
pub mod color;
pub mod compositor;
pub mod config;
pub mod cursor;
pub mod fonts;
pub mod fontsearch;
pub mod glyphcache;
pub mod paint;
pub mod shaping;
pub mod style;
