//! Row sizes of the read-back buffer and the extent of the render target.
use vstd::prelude::*;

verus! {

broadcast use vstd::layout::layout_of_primitives;

/// The alignment, in bytes, that a buffer-texture copy asks of each row.
pub open spec fn row_alignment() -> int {
    256
}

/// Bytes taken by one RGBA8 pixel.
pub open spec fn bytes_per_pixel() -> int {
    4
}

/// Bytes of one unpadded row of `width` RGBA8 pixels.
pub open spec fn unpadded_row_bytes(width: int) -> int {
    width * bytes_per_pixel()
}

/// `n` rounded up to the next multiple of the row alignment.
pub open spec fn align_up(n: int) -> int {
    ((n + row_alignment() - 1) / row_alignment()) * row_alignment()
}

/// Bytes of one row of `width` pixels once padded to the row alignment.
pub open spec fn padded_row_bytes(width: int) -> int {
    align_up(unpadded_row_bytes(width))
}

/// `wgpu::COPY_BYTES_PER_ROW_ALIGNMENT`: the constant that wgpu documents
/// as the alignment of `bytes_per_row` in buffer-texture copies (256).
#[verifier::external_body]
fn copy_bytes_per_row_alignment() -> (align: u32)
    ensures
        align == row_alignment(),
{
    wgpu::COPY_BYTES_PER_ROW_ALIGNMENT
}

/// `<image::Rgba<u8> as image::Pixel>::CHANNEL_COUNT`: the number of
/// channels of an RGBA pixel, which the image crate defines as 4.
#[verifier::external_body]
fn rgba_channel_count() -> (count: u8)
    ensures
        count == 4,
{
    <image::Rgba<u8> as image::Pixel>::CHANNEL_COUNT
}

/// Bytes of one unpadded row of `width` RGBA8 pixels.
pub fn rgba_row_bytes(width: u32) -> (bytes: u32)
    requires
        unpadded_row_bytes(width as int) <= u32::MAX,
    ensures
        bytes == unpadded_row_bytes(width as int),
{
    let channels = rgba_channel_count() as usize;
    let bytes_per_pixel = (channels * core::mem::size_of::<u8>()) as u32;
    width * bytes_per_pixel
}

/// The sizes of a buffer that holds a `width` x `height` RGBA8 image whose
/// rows are padded for a texture-to-buffer copy.
#[derive(Clone, Copy, Debug, PartialEq, Eq, Structural)]
pub struct BufferDimensions {
    pub width: u32,
    pub height: u32,
    pub unpadded_bytes_per_row: u32,
    pub padded_bytes_per_row: u32,
}

impl BufferDimensions {
    /// The dimensions that `new(width, height)` gives.
    pub open spec fn spec_new(width: u32, height: u32) -> BufferDimensions {
        BufferDimensions {
            width,
            height,
            unpadded_bytes_per_row: unpadded_row_bytes(width as int) as u32,
            padded_bytes_per_row: padded_row_bytes(width as int) as u32,
        }
    }

    /// Whether these dimensions are those of a `width` x `height` image.
    pub open spec fn wf(self) -> bool {
        self == Self::spec_new(self.width, self.height)
    }

    /// Computes the row sizes of a `width` x `height` RGBA8 image: the
    /// padded row is the unpadded one rounded up to the next multiple of the
    /// copy alignment.
    pub fn new(width: u32, height: u32) -> (dims: BufferDimensions)
        requires
            padded_row_bytes(width as int) <= u32::MAX,
        ensures
            dims == Self::spec_new(width, height),
            dims.wf(),
            dims.width == width,
            dims.height == height,
            dims.unpadded_bytes_per_row == width * 4,
            dims.padded_bytes_per_row % 256 == 0,
            dims.unpadded_bytes_per_row <= dims.padded_bytes_per_row,
            dims.padded_bytes_per_row < dims.unpadded_bytes_per_row + 256,
    {
        assert(unpadded_row_bytes(width as int) <= padded_row_bytes(width as int));
        let unpadded_bytes_per_row = rgba_row_bytes(width);
        let align = copy_bytes_per_row_alignment();
        let padded_bytes_per_row_padding = (align - unpadded_bytes_per_row % align) % align;
        let padded_bytes_per_row = unpadded_bytes_per_row + padded_bytes_per_row_padding;
        BufferDimensions { width, height, unpadded_bytes_per_row, padded_bytes_per_row }
    }
}

/// Whether a padded row of `width` RGBA8 pixels fits in a `u32`, as
/// `BufferDimensions::new` needs.
pub fn row_fits(width: u32) -> (fits: bool)
    ensures
        fits == (padded_row_bytes(width as int) <= u32::MAX),
{
    width <= 1073741760
}

} // verus!
