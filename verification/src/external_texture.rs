//! Textures that come from outside the renderer.

use std::sync::Arc;
use vstd::prelude::*;

verus! {

/// One plane of a DMA-BUF texture, with a descriptor of type `Fd`.
#[derive(Debug)]
pub struct DmabufTexturePlane<Fd> {
    /// An owned DMA-BUF file descriptor.
    pub fd: Fd,
    /// The distance in bytes between adjacent rows.
    pub stride: u32,
    /// The byte offset of this plane within the DMA-BUF.
    pub offset: u64,
    /// The size in bytes of this plane.
    pub size: u64,
}

/// Describes a DMA-BUF texture to import into the renderer.
#[derive(Debug)]
pub struct DmabufTextureDescriptor<Fd> {
    /// The texture width in pixels.
    pub width: u32,
    /// The texture height in pixels.
    pub height: u32,
    /// The DRM fourcc pixel format.
    pub drm_format: u32,
    /// The DRM format modifier.
    pub modifier: u64,
    /// The DMA-BUF planes, in DRM plane order.
    pub planes: Vec<DmabufTexturePlane<Fd>>,
}

/// A handle to a texture that the renderer owns, of a kind `T` that only the renderer knows.
pub struct ExternalTexture<T: ?Sized>(Arc<T>);

impl<T: ?Sized> ExternalTexture<T> {
    /// The state of the renderer in this handle.
    pub closed spec fn state(&self) -> Arc<T> {
        self.0
    }

    /// Creates an external texture handle from renderer-owned state.
    pub fn new(texture: Arc<T>) -> (handle: Self)
        ensures
            handle.state() == texture,
    {
        ExternalTexture(texture)
    }

    /// Returns the renderer-owned state stored in this handle.
    pub fn as_any(&self) -> (texture: &T)
        ensures
            texture == &*self.state(),
    {
        &*self.0
    }

    /// The text of the handle in diagnostics, which keeps the state to itself.
    pub fn debug_text(&self) -> (text: &'static str)
        ensures
            text@ == "ExternalTexture { .. }"@,
    {
        "ExternalTexture { .. }"
    }
}

impl<T: ?Sized> Clone for ExternalTexture<T> {
    /// Another handle to the same state.
    fn clone(&self) -> (copy: Self)
        ensures
            copy.state() == self.state(),
    {
        ExternalTexture(self.0.clone())
    }
}

/// A handle gives back the state that it was made of, and so does every copy of it.
pub proof fn a_handle_gives_back_its_state<T: ?Sized>(
    texture: Arc<T>,
    handle: ExternalTexture<T>,
    copy: ExternalTexture<T>,
    seen: &T,
    seen_of_copy: &T,
)
    requires
        call_ensures(ExternalTexture::<T>::new, (texture,), handle),
        call_ensures(ExternalTexture::<T>::clone, (&handle,), copy),
        call_ensures(ExternalTexture::<T>::as_any, (&handle,), seen),
        call_ensures(ExternalTexture::<T>::as_any, (&copy,), seen_of_copy),
    ensures
        seen == &*texture,
        seen_of_copy == &*texture,
{
}

} // verus!
