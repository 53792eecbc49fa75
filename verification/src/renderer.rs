//! Renderer-facing CPU target types.

use vstd::prelude::*;

verus! {

/// CPU target buffer pixel layout understood by target renderers.
#[derive(Clone, Copy, Debug, PartialEq, Eq, Structural)]
pub enum CpuBufferFormat {
    /// Opaque RGBA8 pixels.
    Rgba8Opaque,
    /// Opaque BGRA8 pixels.
    Bgra8Opaque,
}

/// CPU target metadata used for compatibility checks before binding a renderer.
#[derive(Clone, Copy, Debug)]
pub struct CpuBufferTargetInfo {
    /// Output width in pixels.
    pub width: u32,
    /// Output height in pixels.
    pub height: u32,
    /// Distance in bytes between the start of adjacent rows.
    pub bytes_per_row: usize,
    /// Pixel format of the destination buffer.
    pub format: CpuBufferFormat,
}

/// Borrowed CPU target buffer passed to a renderer that writes directly into caller-owned
/// memory.
#[derive(Debug)]
pub struct CpuBufferTarget<'a> {
    /// Destination pixel bytes.
    pub buffer: &'a mut [u8],
    /// Output width in pixels.
    pub width: u32,
    /// Output height in pixels.
    pub height: u32,
    /// Distance in bytes between the start of adjacent rows.
    pub bytes_per_row: usize,
    /// Pixel format of the destination buffer.
    pub format: CpuBufferFormat,
}

impl CpuBufferTarget<'_> {
    /// Return buffer metadata without exposing the caller-owned storage.
    pub fn info(&self) -> (r: CpuBufferTargetInfo)
        ensures
            r.width == self.width,
            r.height == self.height,
            r.bytes_per_row == self.bytes_per_row,
            r.format == self.format,
    {
        CpuBufferTargetInfo {
            width: self.width,
            height: self.height,
            bytes_per_row: self.bytes_per_row,
            format: self.format,
        }
    }
}

} // verus!
