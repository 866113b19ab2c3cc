//! Asynchronous skybox texture conversion.
//!
//! A skybox texture starts life as a flat, vertically stacked image: six
//! square faces of side `N` stored as one `N x 6N` image. Before it can be
//! sampled as a cubemap it must be reinterpreted, exactly once, as a
//! six-layer array texture. Loading is asynchronous, so the conversion runs
//! as a polling scheduler: callers submit handles to a pending registry, and
//! once per host tick a single non-blocking pass converts every entry whose
//! texture has finished loading, leaving the rest for a later tick.
//!
//! The crate has three parts:
//! - [`texture`]: the texture resource, its layout metadata, and the
//!   guarded in-place reinterpretation.
//! - [`assets`]: the asset table that owns texture resources and resolves
//!   handles, tracking which loads have completed.
//! - [`conversion`]: the pending registry and the per-tick scheduler pass.

pub mod assets;
pub mod conversion;
pub mod texture;

pub use assets::AssetTable;
pub use conversion::SkyboxTextureConversion;
pub use conversion::convert_skyboxes;
pub use texture::ConversionError;
pub use texture::Texture;
pub use texture::TextureHandle;
pub use texture::TextureViewDimension;
