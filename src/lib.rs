//! Decoding of texture packs: a binary archive of textures, texture arrays and
//! their mip levels, together with the pixel-format tables and descriptor
//! derivation needed to hand those textures to container writers.

pub mod codec;
pub mod dds;
pub mod format;
pub mod laws;
pub mod model;
pub mod read;
pub mod yuv;

pub use format::TextureFormat;
pub use model::{AtlasMap, Mipmap, SubTexture, Texture, TextureArray, TextureAtlas, TxpError};
pub use read::at_offset;
