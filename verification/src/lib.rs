//! Driver library for a Papirus electronic-paper panel.
//!
//! The library renders short text strings into a monochrome pixel grid and
//! packs that grid into the bit-stream the panel expects.  The device
//! transport itself (writing command bytes and display buffers to the
//! driver's control files) is left to the embedding program: the types here
//! compute exactly what must be written where, so that part stays a thin
//! shell.

/// Errors reported by the display driver.
pub mod errors;

/// Papirus driver interface: commands and data writes as explicit requests.
pub mod interface;

/// The monochrome pixel grid and glyph stamping.
pub mod pixels;

/// Packing a pixel grid into the panel's bit-stream.
pub mod packing;

/// Text to image rendering.
pub mod text_rendering;

/// Small string helpers shared by the renderer and the interface.
pub mod text;
