//! Clipboard ownership, clipboard transfers and DMA-BUF textures of a Wayland desktop client.

pub mod clipboard;
pub mod clipboard_laws;
pub mod dmabuf;
pub mod dmabuf_laws;
pub mod external_texture;
pub mod ids;
pub mod import;
pub mod item;
pub mod item_laws;
pub mod laws;
pub mod mime;
pub mod offer;
pub mod offer_laws;
pub mod png;
pub mod read_laws;
pub mod retirement;
pub mod source_laws;
pub mod sources;
pub mod store;
pub mod store_laws;
pub mod text;
pub mod transfer_laws;
pub mod transfers;
