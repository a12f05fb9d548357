//! Decoded pictures as packed RGBA pixels.
use vstd::prelude::*;

verus! {

/// A decoded picture: its size, the number of bytes a pixel takes, and the distance
/// between the starts of two rows.
#[derive(Clone, Copy, Debug, PartialEq, Eq, Structural)]
pub struct PictureShape {
    pub width: i32,
    pub height: i32,
    pub channels: i32,
    pub rowstride: i32,
}

/// Why a decoded picture has no RGBA pixels.
#[derive(Clone, Copy, Debug, PartialEq, Eq, Structural)]
pub enum PixelError {
    NoPixels,
    WidthOverflowed,
    HeightOverflowed,
    InvalidMetadata,
    InvalidRowstride,
    Truncated,
}

impl PixelError {
    /// The error in words.
    pub fn message(self) -> (text: &'static str)
        ensures
            text@ == match self {
                PixelError::NoPixels => "Thumbnail worker produced no pixels"@,
                PixelError::WidthOverflowed => "thumbnail width overflowed"@,
                PixelError::HeightOverflowed => "thumbnail height overflowed"@,
                PixelError::InvalidMetadata => "Thumbnail worker produced invalid pixel metadata"@,
                PixelError::InvalidRowstride => "invalid rowstride"@,
                PixelError::Truncated => "thumbnail pixel buffer was truncated"@,
            },
    {
        match self {
            PixelError::NoPixels => "Thumbnail worker produced no pixels",
            PixelError::WidthOverflowed => "thumbnail width overflowed",
            PixelError::HeightOverflowed => "thumbnail height overflowed",
            PixelError::InvalidMetadata => "Thumbnail worker produced invalid pixel metadata",
            PixelError::InvalidRowstride => "invalid rowstride",
            PixelError::Truncated => "thumbnail pixel buffer was truncated",
        }
    }
}

/// Rows of four bytes a pixel, without padding.
#[derive(Debug, PartialEq, Eq)]
pub struct RgbaImage {
    pub pixels: Vec<u8>,
    pub width: u16,
    pub height: u16,
    pub stride: u32,
}

impl RgbaImage {
    /// This is the picture of `shape` in `source`, packed.
    pub open spec fn packs(self, shape: PictureShape, source: Seq<u8>) -> bool {
        &&& self.width == shape.width
        &&& self.height == shape.height
        &&& self.stride == 4 * shape.width
        &&& self.pixels@ == rgba_rows(source, shape, shape.height as nat)
    }
}

impl PictureShape {
    /// Why a picture of this shape cannot be packed, or `None` where it can.
    pub open spec fn error(self, available: nat) -> Option<PixelError> {
        if !(0 <= self.width <= u16::MAX) {
            Some(PixelError::WidthOverflowed)
        } else if !(0 <= self.height <= u16::MAX) {
            Some(PixelError::HeightOverflowed)
        } else if self.width == 0 || self.height == 0 || !(self.channels == 3 || self.channels
            == 4) {
            Some(PixelError::InvalidMetadata)
        } else if self.rowstride < 0 {
            Some(PixelError::InvalidRowstride)
        } else if (self.height - 1) * self.rowstride + self.width * self.channels > available {
            Some(PixelError::Truncated)
        } else {
            None
        }
    }
}

/// The pixel at `start`: red, green, blue, and alpha, which is opaque where the source has
/// none.
pub open spec fn rgba_pixel(source: Seq<u8>, start: int, channels: int) -> Seq<u8> {
    seq![
        source[start],
        source[start + 1],
        source[start + 2],
        if channels == 4 {
            source[start + 3]
        } else {
            255
        },
    ]
}

/// The first `columns` pixels of the row at `start`.
pub open spec fn rgba_row(source: Seq<u8>, start: int, channels: int, columns: nat) -> Seq<u8>
    decreases columns,
{
    if columns == 0 {
        Seq::empty()
    } else {
        rgba_row(source, start, channels, (columns - 1) as nat) + rgba_pixel(
            source,
            start + (columns - 1) * channels,
            channels,
        )
    }
}

/// The first `rows` rows of a picture.
pub open spec fn rgba_rows(source: Seq<u8>, shape: PictureShape, rows: nat) -> Seq<u8>
    decreases rows,
{
    if rows == 0 {
        Seq::empty()
    } else {
        rgba_rows(source, shape, (rows - 1) as nat) + rgba_row(
            source,
            (rows - 1) * shape.rowstride,
            shape.channels as int,
            shape.width as nat,
        )
    }
}

proof fn lemma_row_len(source: Seq<u8>, start: int, channels: int, columns: nat)
    ensures
        rgba_row(source, start, channels, columns).len() == 4 * columns,
    decreases columns,
{
    if columns > 0 {
        lemma_row_len(source, start, channels, (columns - 1) as nat);
    }
}

/// Packed pixels take four bytes each.
pub proof fn packed_length(source: Seq<u8>, shape: PictureShape, rows: nat)
    requires
        shape.width >= 0,
    ensures
        rgba_rows(source, shape, rows).len() == 4 * shape.width * rows,
    decreases rows,
{
    if rows > 0 {
        packed_length(source, shape, (rows - 1) as nat);
        lemma_row_len(
            source,
            (rows - 1) * shape.rowstride,
            shape.channels as int,
            shape.width as nat,
        );
        assert(4 * shape.width * rows == 4 * shape.width * (rows - 1) + 4 * shape.width)
            by (nonlinear_arith);
    } else {
        assert(4 * shape.width * rows == 0) by (nonlinear_arith)
            requires
                rows == 0,
        ;
    }
}

/// Packs what was decoded: a picture's shape and bytes, if there is a picture.
pub fn packed_picture(picture: Option<(PictureShape, &[u8])>) -> (image: Result<
    RgbaImage,
    PixelError,
>)
    ensures
        match picture {
            None => image == Result::<RgbaImage, PixelError>::Err(PixelError::NoPixels),
            Some((shape, source)) => match image {
                Err(error) => shape.error(source@.len()) == Some(error),
                Ok(packed) => shape.error(source@.len()) is None && packed.packs(shape, source@),
            },
        },
{
    match picture {
        None => Err(PixelError::NoPixels),
        Some((shape, source)) => rgba_pixels(shape, source),
    }
}

/// Packs a decoded picture.
pub fn rgba_pixels(shape: PictureShape, source: &[u8]) -> (image: Result<RgbaImage, PixelError>)
    ensures
        image matches Err(error) ==> shape.error(source@.len()) == Some(error),
        image matches Ok(packed) ==> {
            &&& shape.error(source@.len()) is None
            &&& packed.packs(shape, source@)
        },
{
    if shape.width < 0 || shape.width > 0xffff {
        return Err(PixelError::WidthOverflowed);
    }
    if shape.height < 0 || shape.height > 0xffff {
        return Err(PixelError::HeightOverflowed);
    }
    if shape.width == 0 || shape.height == 0 || !(shape.channels == 3 || shape.channels == 4) {
        return Err(PixelError::InvalidMetadata);
    }
    if shape.rowstride < 0 {
        return Err(PixelError::InvalidRowstride);
    }
    let channels: usize = shape.channels as usize;
    let row_bytes: u64 = shape.width as u64 * shape.channels as u64;
    let rowstride: u64 = shape.rowstride as u64;
    let available: usize = source.len();
    let mut pixels: Vec<u8> = Vec::new();
    let mut row: u64 = 0;
    while row < shape.height as u64
        invariant
            row <= shape.height <= 0xffff,
            0 < shape.width <= 0xffff,
            0 < shape.height,
            0 <= shape.rowstride,
            shape.channels == 3 || shape.channels == 4,
            channels == shape.channels,
            row_bytes == shape.width * shape.channels,
            rowstride == shape.rowstride,
            available == source@.len(),
            row > 0 ==> (row - 1) * shape.rowstride + row_bytes <= source@.len(),
            pixels@ == rgba_rows(source@, shape, row as nat),
        decreases shape.height - row,
    {
        assert(row * rowstride <= 0xffff * 0x7fff_ffff) by (nonlinear_arith)
            requires
                row <= 0xffff,
                rowstride <= 0x7fff_ffff,
        ;
        let start: u64 = row * rowstride;
        if start + row_bytes > available as u64 {
            assert((shape.height - 1) * shape.rowstride >= row * shape.rowstride)
                by (nonlinear_arith)
                requires
                    shape.height - 1 >= row,
                    shape.rowstride >= 0,
            ;
            return Err(PixelError::Truncated);
        }
        let ghost before = pixels@;
        let mut column: usize = 0;
        while column < shape.width as usize
            invariant
                column <= shape.width <= 0xffff,
                shape.channels == 3 || shape.channels == 4,
                channels == shape.channels,
                row_bytes == shape.width * shape.channels,
                start + row_bytes <= available == source@.len(),
                pixels@ == before + rgba_row(
                    source@,
                    start as int,
                    channels as int,
                    column as nat,
                ),
            decreases shape.width - column,
        {
            assert((column + 1) * channels <= shape.width * shape.channels && column * channels
                + channels == (column + 1) * channels) by (nonlinear_arith)
                requires
                    column + 1 <= shape.width,
                    channels == shape.channels,
                    channels >= 0,
            ;
            let at: usize = start as usize + column * channels;
            let ghost prior = pixels@;
            pixels.push(source[at]);
            pixels.push(source[at + 1]);
            pixels.push(source[at + 2]);
            if channels == 4 {
                pixels.push(source[at + 3]);
            } else {
                pixels.push(255);
            }
            assert(pixels@ =~= prior + rgba_pixel(source@, at as int, channels as int));
            assert(pixels@ =~= before + rgba_row(
                source@,
                start as int,
                channels as int,
                (column + 1) as nat,
            ));
            column = column + 1;
        }
        row = row + 1;
    }
    Ok(
        RgbaImage {
            pixels,
            width: shape.width as u16,
            height: shape.height as u16,
            stride: shape.width as u32 * 4,
        },
    )
}

proof fn lemma_row_pixel(source: Seq<u8>, start: int, channels: int, columns: nat, x: int)
    requires
        0 <= x < columns,
    ensures
        rgba_row(source, start, channels, columns).len() == 4 * columns,
        rgba_row(source, start, channels, columns)[4 * x] == source[start + x * channels],
        rgba_row(source, start, channels, columns)[4 * x + 1] == source[start + x * channels + 1],
        rgba_row(source, start, channels, columns)[4 * x + 2] == source[start + x * channels + 2],
        rgba_row(source, start, channels, columns)[4 * x + 3] == if channels == 4 {
            source[start + x * channels + 3]
        } else {
            255
        },
    decreases columns,
{
    lemma_row_len(source, start, channels, columns);
    lemma_row_len(source, start, channels, (columns - 1) as nat);
    if x < columns - 1 {
        lemma_row_pixel(source, start, channels, (columns - 1) as nat, x);
    }
}

/// Every pixel keeps its place and its colours: the pixel in column `x` of row `y` is the one that
/// the source has there, with red, green and blue as they are, and with its own alpha, or opaque
/// where the source has none.
pub proof fn pixels_keep_their_place(source: Seq<u8>, shape: PictureShape, rows: nat, x: int, y: int)
    requires
        0 <= x < shape.width,
        0 <= y < rows,
    ensures
        ({
            let packed = rgba_rows(source, shape, rows);
            let at = 4 * (y * shape.width + x);
            let from = y * shape.rowstride + x * shape.channels;
            &&& 0 <= at && at + 3 < packed.len()
            &&& packed[at] == source[from]
            &&& packed[at + 1] == source[from + 1]
            &&& packed[at + 2] == source[from + 2]
            &&& packed[at + 3] == if shape.channels == 4 {
                source[from + 3]
            } else {
                255
            }
        }),
    decreases rows,
{
    let before = (rows - 1) as nat;
    packed_length(source, shape, rows);
    packed_length(source, shape, before);
    let width = shape.width as int;
    assert(0 <= y * width && 4 * (y * width + x) + 3 < 4 * width * rows) by (nonlinear_arith)
        requires
            0 <= x < width,
            0 <= y < rows,
    ;
    if y < before {
        pixels_keep_their_place(source, shape, before, x, y);
    } else {
        let row = rgba_row(
            source,
            before * shape.rowstride,
            shape.channels as int,
            shape.width as nat,
        );
        lemma_row_pixel(
            source,
            before * shape.rowstride,
            shape.channels as int,
            shape.width as nat,
            x,
        );
        assert(4 * (y * width + x) == 4 * width * before + 4 * x) by (nonlinear_arith)
            requires
                y == before,
        ;
        let packed = rgba_rows(source, shape, rows);
        let start = rgba_rows(source, shape, before).len() as int;
        assert(packed[start + 4 * x] == row[4 * x]);
        assert(packed[start + 4 * x + 1] == row[4 * x + 1]);
        assert(packed[start + 4 * x + 2] == row[4 * x + 2]);
        assert(packed[start + 4 * x + 3] == row[4 * x + 3]);
    }
}

/// A picture can be packed exactly if it has pixels, no more than 65535 either way, of three or
/// four bytes, and all of them are there; what stands in the way is named.
pub proof fn when_pictures_can_be_packed(shape: PictureShape, available: nat)
    ensures
        shape.error(available) is None <==> 1 <= shape.width <= 65_535 && 1 <= shape.height
            <= 65_535 && (shape.channels == 3 || shape.channels == 4) && shape.rowstride >= 0 && (
        shape.height - 1) * shape.rowstride + shape.width * shape.channels <= available,
        !(0 <= shape.width <= 65_535) ==> shape.error(available) == Some(
            PixelError::WidthOverflowed,
        ),
        0 <= shape.width <= 65_535 && !(0 <= shape.height <= 65_535) ==> shape.error(available)
            == Some(PixelError::HeightOverflowed),
        1 <= shape.width <= 65_535 && 1 <= shape.height <= 65_535 && !(shape.channels == 3
            || shape.channels == 4) ==> shape.error(available) == Some(PixelError::InvalidMetadata),
{
}

/// A packed picture has the size of its source and rows without padding.
pub proof fn packed_pictures_keep_their_size(image: RgbaImage, shape: PictureShape, source: Seq<u8>)
    requires
        image.packs(shape, source),
        shape.error(source.len()) is None,
    ensures
        image.width == shape.width,
        image.height == shape.height,
        image.stride == 4 * shape.width,
        image.pixels@.len() == 4 * shape.width * shape.height,
{
    packed_length(source, shape, shape.height as nat);
}

/// A picture whose rows go backwards, or whose pixels are not all there, is refused as such.
pub proof fn short_pictures_are_refused(shape: PictureShape, available: nat)
    requires
        1 <= shape.width <= 65_535,
        1 <= shape.height <= 65_535,
        shape.channels == 3 || shape.channels == 4,
    ensures
        shape.rowstride < 0 ==> shape.error(available) == Some(PixelError::InvalidRowstride),
        shape.rowstride >= 0 && (shape.height - 1) * shape.rowstride + shape.width * shape.channels
            > available ==> shape.error(available) == Some(PixelError::Truncated),
{
}

} // verus!
