//! Bounds on decoded thumbnail textures.
use vstd::prelude::*;

verus! {

/// Largest edge of a decoded texture in pixels.
pub const MAX_TEXTURE_EDGE: i32 = 512;

/// Largest decoded texture in bytes.
pub const MAX_TEXTURE_BYTES: usize = 1_048_576;

/// Bytes a pixel takes.
pub const BYTES_PER_PIXEL: usize = 4;

/// Why a decoded texture is refused.
#[derive(Clone, Copy, Debug, PartialEq, Eq, Structural)]
pub enum DecodeError {
    Dimensions,
    TextureOverflowed,
    Bounds,
}

impl DecodeError {
    /// The error in words.
    pub fn message(self) -> (text: &'static str)
        ensures
            text@ == match self {
                DecodeError::Dimensions => "thumbnail decoded outside the supported dimensions"@,
                DecodeError::TextureOverflowed => "thumbnail texture size overflowed"@,
                DecodeError::Bounds => "thumbnail pixel buffer has invalid bounds"@,
            },
    {
        match self {
            DecodeError::Dimensions => "thumbnail decoded outside the supported dimensions",
            DecodeError::TextureOverflowed => "thumbnail texture size overflowed",
            DecodeError::Bounds => "thumbnail pixel buffer has invalid bounds",
        }
    }
}

/// Whether a texture has a size that is accepted.
pub open spec fn accepted_size(width: i32, height: i32) -> bool {
    0 < width <= MAX_TEXTURE_EDGE && 0 < height <= MAX_TEXTURE_EDGE
}

/// Checks the size of a texture before its pixels are fetched; gives the shortest row.
pub fn check_texture_size(width: i32, height: i32) -> (minimum_stride: Result<usize, DecodeError>)
    ensures
        minimum_stride == if accepted_size(width, height) {
            Ok::<usize, DecodeError>((width * BYTES_PER_PIXEL) as usize)
        } else {
            Err(DecodeError::Dimensions)
        },
{
    if width <= 0 || height <= 0 || width > MAX_TEXTURE_EDGE || height > MAX_TEXTURE_EDGE {
        return Err(DecodeError::Dimensions);
    }
    Ok(width as usize * BYTES_PER_PIXEL)
}

/// What the pixels of a texture amount to: their number of bytes, or why they are refused.
pub open spec fn texture_bytes(width: int, height: int, stride: int, length: int) -> Result<
    usize,
    DecodeError,
> {
    if stride * height > usize::MAX {
        Err(DecodeError::TextureOverflowed)
    } else if stride < width * BYTES_PER_PIXEL || stride * height != length || stride * height
        > MAX_TEXTURE_BYTES {
        Err(DecodeError::Bounds)
    } else {
        Ok((stride * height) as usize)
    }
}

/// Checks the pixels that were fetched: rows long enough, a buffer of exactly that many
/// rows, and no more bytes than a texture may have.
pub fn check_texture_pixels(width: i32, height: i32, stride: usize, length: usize) -> (bytes: Result<
    usize,
    DecodeError,
>)
    requires
        accepted_size(width, height),
    ensures
        bytes == texture_bytes(width as int, height as int, stride as int, length as int),
{
    let minimum_stride: usize = width as usize * BYTES_PER_PIXEL;
    let required: usize = match stride.checked_mul(height as usize) {
        Some(required) => required,
        None => return Err(DecodeError::TextureOverflowed),
    };
    if stride < minimum_stride || required != length || required > MAX_TEXTURE_BYTES {
        return Err(DecodeError::Bounds);
    }
    Ok(required)
}

/// Checks a decoded texture as a whole.
pub fn decode_png(width: i32, height: i32, stride: usize, length: usize) -> (bytes: Result<
    usize,
    DecodeError,
>)
    ensures
        bytes == if accepted_size(width, height) {
            texture_bytes(width as int, height as int, stride as int, length as int)
        } else {
            Err(DecodeError::Dimensions)
        },
{
    match check_texture_size(width, height) {
        Err(error) => Err(error),
        Ok(_) => check_texture_pixels(width, height, stride, length),
    }
}

/// Every texture that is accepted has room for all its pixels and stays within the limit.
pub proof fn accepted_textures_are_bounded(width: i32, height: i32, stride: usize, length: usize)
    requires
        accepted_size(width, height),
        texture_bytes(width as int, height as int, stride as int, length as int) is Ok,
    ensures
        width * height * BYTES_PER_PIXEL <= length <= MAX_TEXTURE_BYTES,
{
    assert(width * height * 4 <= stride * height) by (nonlinear_arith)
        requires
            stride >= width * 4,
            height > 0,
    ;
}

/// A texture is accepted exactly if it has from 1 to 512 pixels either way, its rows have room for
/// four bytes a pixel, its buffer holds just its rows, and that is at most one mebibyte; what it
/// amounts to is its buffer.
pub proof fn which_textures_are_accepted(width: i32, height: i32, stride: usize, length: usize)
    ensures
        accepted_size(width, height) <==> 1 <= width <= 512 && 1 <= height <= 512,
        accepted_size(width, height) ==> {
            let bytes = texture_bytes(width as int, height as int, stride as int, length as int);
            &&& bytes is Ok <==> stride >= 4 * width && stride * height == length && length
                <= 1_048_576
            &&& bytes is Ok ==> bytes->Ok_0 == length
            &&& stride * height <= usize::MAX && bytes is Err ==> bytes->Err_0
                == DecodeError::Bounds
            &&& stride * height > usize::MAX ==> bytes == Err::<usize, DecodeError>(
                DecodeError::TextureOverflowed,
            )
        },
{
}

} // verus!
