//! Backend-neutral target descriptions and render sources.

use vstd::prelude::*;
use crate::record::PaintSink;
use crate::texture::TextureFormat;

verus! {

/// CPU target buffer byte order understood by target renderers.
#[derive(Clone, Copy, Debug, PartialEq, Eq, Structural)]
pub enum CpuBufferChannelOrder {
    /// RGBA8 byte order.
    Rgba8,
    /// BGRA8 byte order.
    Bgra8,
}

/// CPU target buffer alpha encoding understood by target renderers.
#[derive(Clone, Copy, Debug, PartialEq, Eq, Structural)]
pub enum CpuBufferAlphaMode {
    /// The destination should be treated as fully opaque.
    Opaque,
    /// The destination stores premultiplied alpha.
    Premultiplied,
}

/// CPU target buffer pixel layout understood by target renderers.
#[derive(Clone, Copy, Debug, PartialEq, Eq, Structural)]
pub struct CpuBufferFormat {
    /// Channel order of each 8-bit pixel.
    pub channel_order: CpuBufferChannelOrder,
    /// Alpha encoding of each pixel.
    pub alpha_mode: CpuBufferAlphaMode,
}

impl CpuBufferFormat {
    /// Opaque RGBA8 pixels.
    pub fn rgba8_opaque() -> (r: CpuBufferFormat)
        ensures
            r == (CpuBufferFormat { channel_order: CpuBufferChannelOrder::Rgba8, alpha_mode: CpuBufferAlphaMode::Opaque }),
    {
        CpuBufferFormat { channel_order: CpuBufferChannelOrder::Rgba8, alpha_mode: CpuBufferAlphaMode::Opaque }
    }

    /// Opaque BGRA8 pixels.
    pub fn bgra8_opaque() -> (r: CpuBufferFormat)
        ensures
            r == (CpuBufferFormat { channel_order: CpuBufferChannelOrder::Bgra8, alpha_mode: CpuBufferAlphaMode::Opaque }),
    {
        CpuBufferFormat { channel_order: CpuBufferChannelOrder::Bgra8, alpha_mode: CpuBufferAlphaMode::Opaque }
    }

    /// Premultiplied RGBA8 pixels.
    pub fn rgba8_premultiplied() -> (r: CpuBufferFormat)
        ensures
            r == (CpuBufferFormat { channel_order: CpuBufferChannelOrder::Rgba8, alpha_mode: CpuBufferAlphaMode::Premultiplied }),
    {
        CpuBufferFormat { channel_order: CpuBufferChannelOrder::Rgba8, alpha_mode: CpuBufferAlphaMode::Premultiplied }
    }

    /// Premultiplied BGRA8 pixels.
    pub fn bgra8_premultiplied() -> (r: CpuBufferFormat)
        ensures
            r == (CpuBufferFormat { channel_order: CpuBufferChannelOrder::Bgra8, alpha_mode: CpuBufferAlphaMode::Premultiplied }),
    {
        CpuBufferFormat { channel_order: CpuBufferChannelOrder::Bgra8, alpha_mode: CpuBufferAlphaMode::Premultiplied }
    }
}

/// CPU target metadata used for compatibility checks before binding a renderer.
#[derive(Clone, Copy, Debug)]
pub struct CpuBufferTargetInfo {
    /// Output width in pixels.
    pub width: u32,
    /// Output height in pixels.
    pub height: u32,
    /// Distance in bytes between the start of adjacent rows.
    pub bytes_per_row: usize,
    /// Pixel format of the destination buffer.
    pub format: CpuBufferFormat,
}

/// Metadata describing a GPU texture-view render target.
#[derive(Clone, Copy, Debug)]
pub struct GpuTextureTargetInfo {
    /// Output width in pixels.
    pub width: u32,
    /// Output height in pixels.
    pub height: u32,
    /// Texture format of the destination texture.
    pub format: TextureFormat,
}

/// Metadata describing a GPU texture-copy render target.
#[derive(Clone, Copy, Debug)]
pub struct GpuTextureCopyTargetInfo {
    /// Output width in pixels.
    pub width: u32,
    /// Output height in pixels.
    pub height: u32,
    /// Texture format of the destination texture.
    pub format: TextureFormat,
}

/// Borrowed CPU target buffer passed to a renderer that writes directly into caller-owned
/// memory.
#[derive(Debug)]
pub struct CpuBufferTarget<'a> {
    /// Destination pixel bytes.
    pub buffer: &'a mut [u8],
    /// Output width in pixels.
    pub width: u32,
    /// Output height in pixels.
    pub height: u32,
    /// Distance in bytes between the start of adjacent rows.
    pub bytes_per_row: usize,
    /// Pixel format of the destination buffer.
    pub format: CpuBufferFormat,
}

impl CpuBufferTarget<'_> {
    /// Return buffer metadata without exposing the caller-owned storage.
    pub fn info(&self) -> (r: CpuBufferTargetInfo)
        ensures
            r.width == self.width,
            r.height == self.height,
            r.bytes_per_row == self.bytes_per_row,
            r.format == self.format,
    {
        CpuBufferTargetInfo {
            width: self.width,
            height: self.height,
            bytes_per_row: self.bytes_per_row,
            format: self.format,
        }
    }
}

/// Small trait implemented by caller-provided render targets.
pub trait Target {
    /// Metadata used to validate compatibility before binding a target.
    type Info;

    /// Return target metadata without transferring ownership of the target itself.
    fn info(&self) -> Self::Info;
}

impl Target for CpuBufferTarget<'_> {
    type Info = CpuBufferTargetInfo;

    fn info(&self) -> (r: CpuBufferTargetInfo)
        ensures
            r.width == self.width,
            r.height == self.height,
            r.bytes_per_row == self.bytes_per_row,
            r.format == self.format,
    {
        CpuBufferTarget::info(self)
    }
}

/// A source of paint commands that can be replayed into any paint sink.
pub trait RenderSource {
    /// Stream this source into the provided sink.
    fn paint_into<S: PaintSink>(&mut self, sink: &mut S);
}

/// Adapter for immediate-mode paint closures.
#[derive(Debug)]
pub struct PaintFn<F>(pub F);

} // verus!
