//! Small backend-facing rendering types: caller-owned image targets, pixel formats and the
//! shared error types reported by image renderers.

use vstd::prelude::*;
use crate::record::{PaintSink, ValidateError};
use vstd::arithmetic::div_mod::{lemma_fundamental_div_mod, lemma_fundamental_div_mod_converse_div, lemma_fundamental_div_mod_converse_mod};

verus! {

/// A tightly packed, unpremultiplied RGBA8 image.
#[derive(Debug)]
pub struct RgbaImage {
    /// Width in pixels.
    pub width: u32,
    /// Height in pixels.
    pub height: u32,
    /// Pixel bytes, four per pixel, rows packed without padding.
    pub data: Vec<u8>,
}

impl RgbaImage {
    /// Create a transparent black image of the given size.
    pub fn new(width: u32, height: u32) -> (r: RgbaImage)
        requires
            4 * width * height <= usize::MAX,
        ensures
            r.width == width,
            r.height == height,
            r.data@ == Seq::new((4 * width * height) as nat, |i: int| 0u8),
    {
        proof {
            assert((width as int) * (height as int) <= 4 * width * height) by (nonlinear_arith);
            assert(4 * width * height == ((width as int) * (height as int)) * 4) by (nonlinear_arith);
        }
        let area: usize = (width as usize) * (height as usize);
        let len: usize = area * 4;
        let mut data: Vec<u8> = Vec::with_capacity(len);
        let mut i: usize = 0;
        while i < len
            invariant
                i <= len,
                len == 4 * width * height,
                data@ == Seq::new(i as nat, |j: int| 0u8),
            decreases len - i,
        {
            data.push(0u8);
            i = i + 1;
        }
        RgbaImage { width, height, data }
    }
}

/// Pixel format for caller-owned image buffers consumed by image renderers.
#[derive(Copy, Clone, Debug, PartialEq, Eq, Structural)]
pub enum ImageBufferFormat {
    /// Unpremultiplied RGBA8 in linear space.
    Rgba8Unorm,
    /// Unpremultiplied RGBA8 in sRGB space.
    Rgba8UnormSrgb,
    /// Unpremultiplied BGRA8 in linear space.
    Bgra8Unorm,
    /// Unpremultiplied BGRA8 in sRGB space.
    Bgra8UnormSrgb,
    /// Packed 10/10/10/2 RGBA in linear space.
    Rgb10a2Unorm,
    /// Unpremultiplied RGBA16 normalized unsigned integer.
    Rgba16Unorm,
    /// Unpremultiplied RGBA16 floating point.
    Rgba16Float,
}

/// Size in bytes of one pixel of `format`.
pub open spec fn format_bytes_per_pixel(format: ImageBufferFormat) -> nat {
    match format {
        ImageBufferFormat::Rgba16Unorm | ImageBufferFormat::Rgba16Float => 8,
        _ => 4,
    }
}

impl ImageBufferFormat {
    /// Return the size in bytes for one pixel in this format.
    pub fn bytes_per_pixel(self) -> (r: usize)
        ensures
            r == format_bytes_per_pixel(self),
    {
        match self {
            ImageBufferFormat::Rgba8Unorm
            | ImageBufferFormat::Rgba8UnormSrgb
            | ImageBufferFormat::Bgra8Unorm
            | ImageBufferFormat::Bgra8UnormSrgb
            | ImageBufferFormat::Rgb10a2Unorm => 4,
            ImageBufferFormat::Rgba16Unorm | ImageBufferFormat::Rgba16Float => 8,
        }
    }
}

/// Image-target-specific failures surfaced by image renderers.
#[derive(Debug)]
pub enum ImageTargetError {
    /// The supplied image target is not compatible with the renderer output.
    InvalidTarget(&'static str),
    /// The requested render dimensions exceed backend limits.
    DimensionsTooLarge,
    /// The backend could not map the caller target format to its native image output.
    UnsupportedTargetFormat,
    /// The caller-provided image buffer is too small or otherwise invalid.
    InvalidTargetBuffer,
}

/// Shared GPU readback failures surfaced by image renderers.
#[derive(Debug)]
pub enum GpuReadbackError {
    /// A GPU readback required for image output failed while polling the device.
    DevicePoll,
    /// A GPU readback callback was dropped before completing.
    CallbackDropped,
    /// A GPU readback buffer could not be mapped.
    BufferMap,
}

/// Shared source/content failures surfaced by renderer traits.
#[derive(Debug)]
pub enum RenderContentError {
    /// The source failed shared retained-scene validation before rendering.
    InvalidScene(ValidateError),
    /// The backend could not decode or use the supplied font data.
    InvalidFontData,
    /// A glyph identifier could not be represented by the backend.
    InvalidGlyphId,
}

/// A backend-specific rendering error.
#[derive(Debug)]
pub enum BackendError {
    /// An error of the Skia backend.
    Skia(crate::skia_renderer::SkiaError),
    /// An error of the Vello backend.
    Vello(crate::vello_renderer::VelloError),
    /// An error of the Vello hybrid backend.
    VelloHybrid(crate::hybrid_renderer::HybridError),
}

/// Shared image-rendering error type for image renderers.
#[derive(Debug)]
pub enum ImageRendererError {
    /// Source/content-related failure.
    Content(RenderContentError),
    /// Caller target-related failure.
    Target(ImageTargetError),
    /// GPU readback failure.
    Readback(GpuReadbackError),
    /// Backend-specific rendering error.
    Backend(BackendError),
}

impl ImageTargetError {
    /// Human-readable description: the carried message for an invalid target, else a fixed
    /// sentence per kind.
    pub fn message(&self) -> (r: &'static str)
        ensures
            r@ == match self {
                ImageTargetError::InvalidTarget(m) => m@,
                ImageTargetError::DimensionsTooLarge => "render dimensions exceed backend limits"@,
                ImageTargetError::UnsupportedTargetFormat => "backend does not support the requested target format"@,
                ImageTargetError::InvalidTargetBuffer => "target buffer is too small or otherwise invalid"@,
            },
    {
        match self {
            ImageTargetError::InvalidTarget(m) => m,
            ImageTargetError::DimensionsTooLarge => "render dimensions exceed backend limits",
            ImageTargetError::UnsupportedTargetFormat => "backend does not support the requested target format",
            ImageTargetError::InvalidTargetBuffer => "target buffer is too small or otherwise invalid",
        }
    }
}

impl GpuReadbackError {
    /// Human-readable description of the failure.
    pub fn message(&self) -> (r: &'static str)
        ensures
            r@ == match self {
                GpuReadbackError::DevicePoll => "wgpu device poll failed during readback"@,
                GpuReadbackError::CallbackDropped => "wgpu readback callback dropped before completion"@,
                GpuReadbackError::BufferMap => "wgpu readback buffer map failed"@,
            },
    {
        match self {
            GpuReadbackError::DevicePoll => "wgpu device poll failed during readback",
            GpuReadbackError::CallbackDropped => "wgpu readback callback dropped before completion",
            GpuReadbackError::BufferMap => "wgpu readback buffer map failed",
        }
    }
}

impl ImageRendererError {
    /// Wrap a backend-specific error value.
    pub fn backend(error: BackendError) -> (r: ImageRendererError)
        ensures
            r == ImageRendererError::Backend(error),
    {
        ImageRendererError::Backend(error)
    }
}

/// Borrowed caller-owned image target.
#[derive(Debug)]
pub struct ImageBufferTarget<'a> {
    /// Pixel bytes in the target format's native packing.
    pub data: &'a mut [u8],
    /// Target width in pixels.
    pub width: u32,
    /// Target height in pixels.
    pub height: u32,
    /// Target row stride in bytes.
    pub bytes_per_row: usize,
    /// Target pixel format.
    pub format: ImageBufferFormat,
}

impl<'a> ImageBufferTarget<'a> {
    /// Wrap a caller-owned [`RgbaImage`] as an image target.
    pub fn from_rgba_image(image: &'a mut RgbaImage) -> (r: ImageBufferTarget<'a>)
        requires
            4 * old(image).width <= usize::MAX,
        ensures
            r.data@ == old(image).data@,
            final(r.data)@ == final(image).data@,
            final(image).width == old(image).width,
            final(image).height == old(image).height,
            r.width == old(image).width,
            r.height == old(image).height,
            r.bytes_per_row == 4 * old(image).width,
            r.format == ImageBufferFormat::Rgba8Unorm,
    {
        let width = image.width;
        let height = image.height;
        ImageBufferTarget {
            data: image.data.as_mut_slice(),
            width,
            height,
            bytes_per_row: (width as usize) * 4,
            format: ImageBufferFormat::Rgba8Unorm,
        }
    }
}


/// Number of rows a row-by-row copy moves: as many full source rows as there are full target
/// rows.
pub open spec fn copied_row_count(src_len: int, width_bytes: int, dst_len: int, stride: int) -> int {
    let a = src_len / width_bytes;
    let b = dst_len / stride;
    if a <= b { a } else { b }
}

/// `dst` after copying the first `rows` rows of the tightly packed `src` (rows of
/// `width_bytes` bytes) into rows of `stride` bytes; the padding after each copied row and all
/// rows past `rows` are left as they were.
pub open spec fn copy_rows_into(src: Seq<u8>, dst: Seq<u8>, width_bytes: int, stride: int, rows: int) -> Seq<u8> {
    Seq::new(dst.len(), |i: int|
        if i / stride < rows && i % stride < width_bytes {
            src[(i / stride) * width_bytes + i % stride]
        } else {
            dst[i]
        })
}

/// Whether cell `(y, x)` is among the cells copied before cell `(cy, cx)` in row-major order.
pub open spec fn copied_before(y: int, x: int, cy: int, cx: int, width_bytes: int) -> bool {
    x < width_bytes && (y < cy || (y == cy && x < cx))
}

proof fn lemma_cell_index(y: int, x: int, stride: int)
    requires
        stride > 0,
        0 <= x < stride,
        0 <= y,
    ensures
        (y * stride + x) / stride == y,
        (y * stride + x) % stride == x,
{
    lemma_fundamental_div_mod_converse_div(y * stride + x, stride, y, x);
    lemma_fundamental_div_mod_converse_mod(y * stride + x, stride, y, x);
}

proof fn lemma_rows_fit(rows: int, width_bytes: int, src_len: int, stride: int, dst_len: int)
    requires
        width_bytes > 0,
        stride > 0,
        src_len >= 0,
        dst_len >= 0,
        rows == copied_row_count(src_len, width_bytes, dst_len, stride),
    ensures
        0 <= rows,
        rows * width_bytes <= src_len,
        rows * stride <= dst_len,
{
    lemma_fundamental_div_mod(src_len, width_bytes);
    lemma_fundamental_div_mod(dst_len, stride);
    vstd::arithmetic::div_mod::lemma_mod_pos_bound(src_len, width_bytes);
    vstd::arithmetic::div_mod::lemma_mod_pos_bound(dst_len, stride);
    let a = src_len / width_bytes;
    let b = dst_len / stride;
    assert(a >= 0) by {
        vstd::arithmetic::div_mod::lemma_div_pos_is_pos(src_len, width_bytes);
    }
    assert(b >= 0) by {
        vstd::arithmetic::div_mod::lemma_div_pos_is_pos(dst_len, stride);
    }
    assert(rows * width_bytes <= a * width_bytes) by (nonlinear_arith)
        requires rows <= a, width_bytes > 0;
    assert(rows * stride <= b * stride) by (nonlinear_arith)
        requires rows <= b, stride > 0;
    assert(width_bytes * a == a * width_bytes) by (nonlinear_arith);
    assert(stride * b == b * stride) by (nonlinear_arith);
}

/// Copy `rows` rows of `width_bytes` bytes from the tightly packed `src` into `dst`, whose rows
/// are `stride` bytes apart.
fn copy_rows(src: &[u8], dst: &mut [u8], width_bytes: usize, stride: usize, rows: usize)
    requires
        0 < width_bytes <= stride,
        rows * width_bytes <= src@.len(),
        rows * stride <= old(dst)@.len(),
    ensures
        final(dst)@ == copy_rows_into(src@, old(dst)@, width_bytes as int, stride as int, rows as int),
{
    let ghost dst0 = dst@;
    let dst_len = dst.len();
    let src_len = src.len();
    let ghost len = dst0.len();
    let mut y: usize = 0;
    while y < rows
        invariant
            0 < width_bytes <= stride,
            rows * width_bytes <= src@.len(),
            rows * stride <= len,
            len == dst0.len(),
            len == dst_len,
            src_len == src@.len(),
            dst@.len() == len,
            y <= rows,
            forall|i: int| 0 <= i < len ==> #[trigger] dst@[i] == (
                if copied_before(i / stride as int, i % stride as int, y as int, 0, width_bytes as int) {
                    src@[(i / stride as int) * width_bytes + i % stride as int]
                } else {
                    dst0[i]
                }),
        decreases rows - y,
    {
        proof {
            assert((y + 1) * stride <= rows * stride) by (nonlinear_arith)
                requires y < rows, stride > 0;
            assert((y + 1) * width_bytes <= rows * width_bytes) by (nonlinear_arith)
                requires y < rows, width_bytes > 0;
            assert((y + 1) * stride == y * stride + stride) by (nonlinear_arith);
            assert((y + 1) * width_bytes == y * width_bytes + width_bytes) by (nonlinear_arith);
        }
        let row_start: usize = y * stride;
        let src_start: usize = y * width_bytes;
        let mut x: usize = 0;
        while x < width_bytes
            invariant
                0 < width_bytes <= stride,
                y < rows,
                row_start == y * stride,
                src_start == y * width_bytes,
                row_start + stride <= len,
                src_start + width_bytes <= src@.len(),
                len == dst0.len(),
                len == dst_len,
                src_len == src@.len(),
                dst@.len() == len,
                x <= width_bytes,
                forall|i: int| 0 <= i < len ==> #[trigger] dst@[i] == (
                    if copied_before(i / stride as int, i % stride as int, y as int, x as int, width_bytes as int) {
                        src@[(i / stride as int) * width_bytes + i % stride as int]
                    } else {
                        dst0[i]
                    }),
            decreases width_bytes - x,
        {
            let k: usize = row_start + x;
            let v: u8 = src[src_start + x];
            let ghost before = dst@;
            dst[k] = v;
            proof {
                lemma_cell_index(y as int, x as int, stride as int);
                assert forall|i: int| 0 <= i < len implies #[trigger] dst@[i] == (
                    if copied_before(i / stride as int, i % stride as int, y as int, x + 1, width_bytes as int) {
                        src@[(i / stride as int) * width_bytes + i % stride as int]
                    } else {
                        dst0[i]
                    }) by {
                    if i != k {
                        lemma_fundamental_div_mod(i, stride as int);
                        let qi = i / stride as int;
                        assert(stride * qi == qi * stride) by (nonlinear_arith);
                        assert(stride * (y as int) == (y as int) * stride) by (nonlinear_arith);
                        assert(qi != y || i % stride as int != x);
                        assert(before[i] == dst@[i]);
                    } else {
                        assert(dst@[i] == v);
                    }
                }
            }
            x = x + 1;
        }
        y = y + 1;
    }
    assert(dst@ =~= copy_rows_into(src@, dst0, width_bytes as int, stride as int, rows as int));
}


/// Whether `target` has the dimensions, stride and pixel format that a copy of `image` needs.
pub open spec fn copy_target_shape_ok(image: &RgbaImage, target: &ImageBufferTarget) -> bool {
    &&& target.width == image.width
    &&& target.height == image.height
    &&& target.bytes_per_row >= 4 * image.width
    &&& target.format == ImageBufferFormat::Rgba8Unorm
}

/// The error [`copy_rgba_image`] reports for `image` and `target`, if any, in the order the
/// checks are made.
pub open spec fn copy_rgba_image_error(image: &RgbaImage, target: &ImageBufferTarget) -> Option<ImageTargetError> {
    if target.width != image.width || target.height != image.height {
        Some(ImageTargetError::InvalidTarget("image target dimensions do not match renderer output"))
    } else if target.bytes_per_row < 4 * image.width {
        Some(ImageTargetError::InvalidTarget("image target row stride is smaller than the rendered width"))
    } else if target.format != ImageBufferFormat::Rgba8Unorm {
        Some(ImageTargetError::UnsupportedTargetFormat)
    } else if target.data@.len() < target.bytes_per_row * target.height {
        Some(ImageTargetError::InvalidTargetBuffer)
    } else {
        None
    }
}

/// Copy a tightly packed [`RgbaImage`] into a caller-owned target buffer.
///
/// Row `y` of the image lands at byte `y * bytes_per_row` of the target; the bytes after each
/// row's `4 * width` pixel bytes are left untouched. Rows are copied as long as both the image
/// data and the target buffer hold a full row.
pub fn copy_rgba_image(image: &RgbaImage, target: ImageBufferTarget<'_>) -> (r: Result<(), ImageRendererError>)
    requires
        4 * image.width <= usize::MAX,
        copy_target_shape_ok(image, &target) ==> target.bytes_per_row * target.height <= usize::MAX,
        copy_target_shape_ok(image, &target) && target.data@.len() >= target.bytes_per_row * target.height
            ==> image.width > 0,
    ensures
        match copy_rgba_image_error(image, &target) {
            Some(e) => r == Err::<(), ImageRendererError>(ImageRendererError::Target(e))
                && final(target.data)@ == old(target.data)@,
            None => r is Ok && final(target.data)@ == copy_rows_into(
                image.data@,
                old(target.data)@,
                4 * image.width,
                target.bytes_per_row as int,
                copied_row_count(image.data@.len() as int, 4 * image.width, old(target.data)@.len() as int, target.bytes_per_row as int),
            ),
        },
{
    let width_bytes: usize = (image.width as usize) * 4;
    let data = target.data;
    if target.width != image.width || target.height != image.height {
        return Err(ImageRendererError::Target(ImageTargetError::InvalidTarget(
            "image target dimensions do not match renderer output",
        )));
    }
    if target.bytes_per_row < width_bytes {
        return Err(ImageRendererError::Target(ImageTargetError::InvalidTarget(
            "image target row stride is smaller than the rendered width",
        )));
    }
    if target.format != ImageBufferFormat::Rgba8Unorm {
        return Err(ImageRendererError::Target(ImageTargetError::UnsupportedTargetFormat));
    }
    let required_len: usize = target.bytes_per_row * (target.height as usize);
    if data.len() < required_len {
        return Err(ImageRendererError::Target(ImageTargetError::InvalidTargetBuffer));
    }
    let src_rows: usize = image.data.len() / width_bytes;
    let dst_rows: usize = data.len() / target.bytes_per_row;
    let rows: usize = if src_rows <= dst_rows { src_rows } else { dst_rows };
    proof {
        lemma_rows_fit(rows as int, width_bytes as int, image.data@.len() as int,
            target.bytes_per_row as int, data@.len() as int);
    }
    copy_rows(image.data.as_slice(), data, width_bytes, target.bytes_per_row, rows);
    Ok(())
}

/// When the image holds exactly `height` rows and the target buffer holds `height` rows of
/// `bytes_per_row` bytes, a copy places every pixel byte of row `y` at byte `y * bytes_per_row`
/// of the target, and leaves the row padding and any bytes past the last row as they were.
pub proof fn lemma_copy_places_every_row(data: Seq<u8>, dst: Seq<u8>, width: u32, height: u32, stride: int)
    requires
        width > 0,
        stride >= 4 * width,
        data.len() == 4 * width * height,
        dst.len() >= stride * height,
    ensures
        ({
            let out = copy_rows_into(data, dst, 4 * width, stride, copied_row_count(data.len() as int, 4 * width, dst.len() as int, stride));
            &&& out.len() == dst.len()
            &&& forall|y: int, x: int| 0 <= y < height && 0 <= x < 4 * width
                ==> #[trigger] out[y * stride + x] == data[y * (4 * width) + x]
            &&& forall|y: int, x: int| 0 <= y < height && 4 * width <= x < stride
                ==> #[trigger] out[y * stride + x] == dst[y * stride + x]
            &&& forall|i: int| stride * height <= i < dst.len() ==> #[trigger] out[i] == dst[i]
        }),
{
    let wb = 4 * width as int;
    let h = height as int;
    assert((data.len() as int) / wb == h) by {
        assert(data.len() as int == h * wb + 0) by (nonlinear_arith) requires data.len() == 4 * width * height, wb == 4 * width, h == height;
        lemma_fundamental_div_mod_converse_div(data.len() as int, wb, h, 0);
    }
    assert((dst.len() as int) / stride >= h) by {
        vstd::arithmetic::div_mod::lemma_div_is_ordered(stride * h, dst.len() as int, stride);
        assert(stride * h == h * stride) by (nonlinear_arith);
        vstd::arithmetic::div_mod::lemma_div_by_multiple(h, stride);
    }
    let rows = copied_row_count(data.len() as int, wb, dst.len() as int, stride);
    assert(rows == h);
    let out = copy_rows_into(data, dst, wb, stride, rows);
    assert forall|y: int, x: int| 0 <= y < height && 0 <= x < 4 * width implies #[trigger] out[y * stride + x] == data[y * (4 * width) + x] by {
        lemma_cell_index(y, x, stride);
        lemma_cell_in_bounds_of(y, x, stride, h, dst.len() as int);
    }
    assert forall|y: int, x: int| 0 <= y < height && 4 * width <= x < stride implies #[trigger] out[y * stride + x] == dst[y * stride + x] by {
        lemma_cell_index(y, x, stride);
        lemma_cell_in_bounds_of(y, x, stride, h, dst.len() as int);
    }
    assert forall|i: int| stride * height <= i < dst.len() implies #[trigger] out[i] == dst[i] by {
        assert(i / stride >= h) by {
            vstd::arithmetic::div_mod::lemma_div_is_ordered(stride * h, i, stride);
            assert(stride * h == h * stride) by (nonlinear_arith);
            vstd::arithmetic::div_mod::lemma_div_by_multiple(h, stride);
        }
    }
}

proof fn lemma_cell_in_bounds_of(y: int, x: int, stride: int, h: int, len: int)
    requires
        stride > 0,
        0 <= x < stride,
        0 <= y < h,
        stride * h <= len,
    ensures
        0 <= y * stride + x < len,
{
    assert(y * stride + x < (y + 1) * stride) by (nonlinear_arith) requires x < stride;
    assert((y + 1) * stride <= h * stride) by (nonlinear_arith) requires y + 1 <= h, stride > 0;
    assert(h * stride == stride * h) by (nonlinear_arith);
    assert(0 <= y * stride) by (nonlinear_arith) requires y >= 0, stride > 0;
}

/// The result of rendering into `image`: the image itself when the render succeeded, else the
/// render's error.
pub fn rendered_image(image: RgbaImage, outcome: Result<(), ImageRendererError>) -> (r: Result<RgbaImage, ImageRendererError>)
    ensures
        match outcome {
            Ok(_) => r == Ok::<RgbaImage, ImageRendererError>(image),
            Err(e) => r == Err::<RgbaImage, ImageRendererError>(e),
        },
{
    match outcome {
        Ok(()) => Ok(image),
        Err(e) => Err(e),
    }
}

/// A source of drawing commands that can paint into any [`PaintSink`].
///
/// This abstracts over retained recordings and immediate command producers.
pub trait RenderSource {
    /// Validate this source before rendering, when validation is meaningful. Sources without an
    /// up-front validation step accept.
    fn validate(&self) -> (r: Result<(), ValidateError>)
        default_ensures
            r == Ok::<(), ValidateError>(()),
    {
        Ok(())
    }

    /// Emit drawing commands into the provided sink.
    fn paint_into<S: PaintSink>(&mut self, sink: &mut S);
}

/// Renderer capability for producing RGBA8 image results from a [`RenderSource`].
pub trait ImageRenderer {
    /// The image buffer formats this renderer can write directly.
    fn supported_image_formats(&self) -> Vec<ImageBufferFormat>;

    /// Render a source into a caller-provided image buffer.
    ///
    /// Renderers treat the target as a fresh output and may clear or overwrite any existing
    /// contents before drawing.
    fn render_source_into<R: RenderSource>(
        &mut self,
        source: &mut R,
        target: ImageBufferTarget<'_>,
    ) -> Result<(), ImageRendererError>;

    /// Render a source and return a newly allocated RGBA8 image of the requested size.
    fn render_source<R: RenderSource>(&mut self, source: &mut R, width: u32, height: u32) -> (r: Result<RgbaImage, ImageRendererError>)
        requires
            4 * width * height <= usize::MAX,
            4 * width <= usize::MAX,
        ensures
            r matches Ok(image) ==> image.width == width && image.height == height,
    {
        let mut image = RgbaImage::new(width, height);
        let outcome = self.render_source_into(source, ImageBufferTarget::from_rgba_image(&mut image));
        rendered_image(image, outcome)
    }
}

} // verus!
