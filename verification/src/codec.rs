//! The binary image format: two little-endian 32-bit integers, width then
//! height, followed by the pixels in row-major order, three bytes each (red,
//! green, blue). There is no magic number and no version field.

use crate::canvas::{Canvas, Color, Grid};
use vstd::prelude::*;

verus! {

/// The number of bytes before the first pixel.
pub const HEADER_LEN: usize = 8;

/// Why a byte string is not an image.
#[derive(Debug, Clone, Copy, PartialEq, Eq)]
pub enum DecodeError {
    /// Fewer than eight bytes: the width or the height is cut short.
    TruncatedHeader,
    /// The header declares a width or a height of zero.
    ZeroArea,
    /// Fewer pixel bytes follow the header than it declares.
    TruncatedPixels,
}

impl DecodeError {
    /// What is wrong with the file, in words.
    pub open spec fn text(self) -> Seq<char> {
        match self {
            DecodeError::TruncatedHeader => "the image header is incomplete"@,
            DecodeError::ZeroArea => "the image header declares no pixels"@,
            DecodeError::TruncatedPixels => "the image holds fewer pixels than its header declares"@,
        }
    }

    /// What is wrong with the file, in words.
    pub fn message(&self) -> (message: String)
        ensures
            message@ == self.text(),
    {
        match self {
            DecodeError::TruncatedHeader => "the image header is incomplete".to_owned(),
            DecodeError::ZeroArea => "the image header declares no pixels".to_owned(),
            DecodeError::TruncatedPixels => {
                "the image holds fewer pixels than its header declares".to_owned()
            },
        }
    }
}

/// The four bytes of `n`, least significant first. Only the low 32 bits of
/// `n` are written.
pub open spec fn le_bytes(n: nat) -> Seq<u8> {
    seq![
        (n % 256) as u8,
        (n / 0x100 % 256) as u8,
        (n / 0x1_0000 % 256) as u8,
        (n / 0x100_0000 % 256) as u8,
    ]
}

/// The number whose four bytes, least significant first, stand at `at`.
pub open spec fn le_value(bytes: Seq<u8>, at: int) -> nat {
    (bytes[at] + 0x100 * bytes[at + 1] + 0x1_0000 * bytes[at + 2] + 0x100_0000 * bytes[at
        + 3]) as nat
}

/// The pixels as bytes: red, green and blue of the first pixel, then of the
/// second, and so on.
pub open spec fn pixel_bytes(pixels: Seq<Color>) -> Seq<u8> {
    Seq::new(3 * pixels.len(), |i: int| pixels[i / 3][i % 3])
}

/// The `count` pixels whose bytes begin at `at`.
pub open spec fn pixels_at(bytes: Seq<u8>, at: int, count: nat) -> Seq<Color> {
    Seq::new(count, |i: int| [bytes[at + 3 * i], bytes[at + 3 * i + 1], bytes[at + 3 * i + 2]])
}

/// The image file of a grid.
pub open spec fn encoding(grid: Grid) -> Seq<u8> {
    le_bytes(grid.width) + le_bytes(grid.height) + pixel_bytes(grid.pixels)
}

/// The grid that a byte string holds, or why it holds none. Bytes after the
/// last declared pixel are ignored.
pub open spec fn decoding(bytes: Seq<u8>) -> Result<Grid, DecodeError> {
    if bytes.len() < HEADER_LEN {
        Err(DecodeError::TruncatedHeader)
    } else {
        let width = le_value(bytes, 0);
        let height = le_value(bytes, 4);
        if width == 0 || height == 0 {
            Err(DecodeError::ZeroArea)
        } else if bytes.len() < HEADER_LEN + 3 * (width * height) {
            Err(DecodeError::TruncatedPixels)
        } else {
            Ok(Grid { width, height, pixels: pixels_at(bytes, HEADER_LEN as int, width * height) })
        }
    }
}

/// Decoding the file of a grid gives the grid back, whatever follows the
/// file. This holds of every well-formed grid that has at least one cell and
/// whose width and height fit in 32 bits.
pub proof fn lemma_round_trip(grid: Grid, trailing: Seq<u8>)
    requires
        grid.wf(),
        0 < grid.width < 0x1_0000_0000,
        0 < grid.height < 0x1_0000_0000,
    ensures
        decoding(encoding(grid)) == Ok::<Grid, DecodeError>(grid),
        decoding(encoding(grid) + trailing) == Ok::<Grid, DecodeError>(grid),
        encoding(grid).len() == HEADER_LEN + 3 * grid.width * grid.height,
{
    lemma_decode_encoded(grid, Seq::empty());
    lemma_decode_encoded(grid, trailing);
    assert(encoding(grid) + Seq::<u8>::empty() =~= encoding(grid));
}

/// The file of a grid, followed by anything, decodes to the grid.
proof fn lemma_decode_encoded(grid: Grid, trailing: Seq<u8>)
    requires
        grid.wf(),
        0 < grid.width < 0x1_0000_0000,
        0 < grid.height < 0x1_0000_0000,
    ensures
        decoding(encoding(grid) + trailing) == Ok::<Grid, DecodeError>(grid),
        encoding(grid).len() == HEADER_LEN + 3 * grid.width * grid.height,
{
    let file = encoding(grid);
    let bytes = file + trailing;
    let cells = grid.width * grid.height;
    assert(le_value(bytes, 0) == grid.width);
    assert(le_value(bytes, 4) == grid.height);
    assert(3 * (grid.width * grid.height) == 3 * grid.width * grid.height) by (nonlinear_arith);
    assert(pixels_at(bytes, HEADER_LEN as int, cells) =~= grid.pixels) by {
        assert forall|i: int| 0 <= i < cells implies pixels_at(bytes, HEADER_LEN as int, cells)[i]
            == grid.pixels[i] by {
            let pixel = pixels_at(bytes, HEADER_LEN as int, cells)[i];
            assert(bytes[8 + 3 * i] == pixel_bytes(grid.pixels)[3 * i]);
            assert(bytes[8 + 3 * i + 1] == pixel_bytes(grid.pixels)[3 * i + 1]);
            assert(bytes[8 + 3 * i + 2] == pixel_bytes(grid.pixels)[3 * i + 2]);
            assert(pixel =~= grid.pixels[i]);
        }
    }
}

/// Writing the number read from four bytes gives those four bytes.
proof fn lemma_le_bytes_of_value(bytes: Seq<u8>, at: int)
    requires
        0 <= at,
        at + 4 <= bytes.len(),
    ensures
        le_bytes(le_value(bytes, at)) == bytes.subrange(at, at + 4),
{
    let b0 = bytes[at] as int;
    let b1 = bytes[at + 1] as int;
    let b2 = bytes[at + 2] as int;
    let b3 = bytes[at + 3] as int;
    let n = b0 + 0x100 * b1 + 0x1_0000 * b2 + 0x100_0000 * b3;
    assert(n % 256 == b0);
    assert(n / 0x100 == b1 + 0x100 * b2 + 0x1_0000 * b3);
    assert(n / 0x1_0000 == b2 + 0x100 * b3);
    assert(n / 0x100_0000 == b3);
    assert(le_bytes(le_value(bytes, at)) =~= bytes.subrange(at, at + 4));
}

/// The bytes of the pixels read at `at` are the bytes that stand there.
proof fn lemma_pixel_bytes_of_pixels(bytes: Seq<u8>, at: int, count: nat)
    requires
        0 <= at,
        at + 3 * count <= bytes.len(),
    ensures
        pixel_bytes(pixels_at(bytes, at, count)) == bytes.subrange(at, at + 3 * count),
{
    let pixels = pixels_at(bytes, at, count);
    assert forall|k: int| 0 <= k < 3 * count implies pixel_bytes(pixels)[k] == bytes[at + k] by {
        let i = k / 3;
        let pixel = pixels[i];
        assert(pixel[0] == bytes[at + 3 * i]);
        assert(pixel[1] == bytes[at + 3 * i + 1]);
        assert(pixel[2] == bytes[at + 3 * i + 2]);
    }
    assert(pixel_bytes(pixels) =~= bytes.subrange(at, at + 3 * count));
}

/// A byte string that decodes holds a whole image: the grid has a pixel for
/// every cell, and its file is the beginning of the byte string. No grid comes
/// out of a file that is cut short.
pub proof fn lemma_decoded_is_whole(bytes: Seq<u8>)
    requires
        decoding(bytes) is Ok,
    ensures
        ({
            let grid = decoding(bytes)->Ok_0;
            &&& grid.wf()
            &&& grid.width > 0
            &&& grid.height > 0
            &&& encoding(grid).len() <= bytes.len()
            &&& encoding(grid) == bytes.take(encoding(grid).len() as int)
        }),
{
    let grid = decoding(bytes)->Ok_0;
    let cells = grid.width * grid.height;
    lemma_le_bytes_of_value(bytes, 0);
    lemma_le_bytes_of_value(bytes, 4);
    lemma_pixel_bytes_of_pixels(bytes, 8, cells);
    assert(encoding(grid) =~= bytes.take(8 + 3 * (cells as int)));
}

/// A file with a complete header that declares at least one cell, but with
/// fewer pixel bytes than the header declares, does not decode.
pub proof fn lemma_short_file(bytes: Seq<u8>)
    requires
        bytes.len() >= HEADER_LEN,
        le_value(bytes, 0) > 0,
        le_value(bytes, 4) > 0,
        bytes.len() < HEADER_LEN + 3 * (le_value(bytes, 0) * le_value(bytes, 4)),
    ensures
        decoding(bytes) == Err::<Grid, DecodeError>(DecodeError::TruncatedPixels),
{
}

/// Appends the low 32 bits of `n`, least significant byte first.
fn push_le(bytes: &mut Vec<u8>, n: usize)
    ensures
        final(bytes)@ == old(bytes)@ + le_bytes(n as nat),
{
    bytes.push((n % 256) as u8);
    bytes.push((n / 0x100 % 256) as u8);
    bytes.push((n / 0x1_0000 % 256) as u8);
    bytes.push((n / 0x100_0000 % 256) as u8);
    assert(bytes@ =~= old(bytes)@ + le_bytes(n as nat));
}

/// Reads the number whose four bytes, least significant first, stand at `at`.
fn read_le(bytes: &[u8], at: usize) -> (n: u32)
    requires
        at + 4 <= bytes@.len(),
    ensures
        n == le_value(bytes@, at as int),
{
    let b0 = bytes[at] as u32;
    let b1 = bytes[at + 1] as u32;
    let b2 = bytes[at + 2] as u32;
    let b3 = bytes[at + 3] as u32;
    b0 + 0x100 * b1 + 0x1_0000 * b2 + 0x100_0000 * b3
}

/// Writes the canvas as an image file: the header and then three bytes per
/// pixel, `8 + 3 * width * height` bytes in all.
pub fn encode(canvas: &Canvas) -> (bytes: Vec<u8>)
    ensures
        bytes@ == encoding(canvas@),
{
    let pixels = canvas.pixels();
    let mut bytes: Vec<u8> = Vec::new();
    push_le(&mut bytes, canvas.width());
    push_le(&mut bytes, canvas.height());
    let ghost header = bytes@;
    proof {
        assert(pixel_bytes(pixels@.take(0)) =~= Seq::empty());
        assert(header + Seq::<u8>::empty() =~= header);
    }
    let mut i: usize = 0;
    while i < pixels.len()
        invariant
            i <= pixels.len(),
            header == le_bytes(canvas@.width) + le_bytes(canvas@.height),
            bytes@ == header + pixel_bytes(pixels@.take(i as int)),
        decreases pixels.len() - i,
    {
        let pixel = pixels[i];
        let ghost so_far = bytes@;
        bytes.push(pixel[0]);
        bytes.push(pixel[1]);
        bytes.push(pixel[2]);
        proof {
            let shorter = pixel_bytes(pixels@.take(i as int));
            let longer = pixel_bytes(pixels@.take(i + 1));
            assert(longer =~= shorter + seq![pixel[0], pixel[1], pixel[2]]);
            assert(bytes@ =~= header + longer);
        }
        i += 1;
    }
    proof {
        assert(pixels@.take(i as int) =~= pixels@);
    }
    bytes
}

/// Reads an image file. The result is a canvas only if the header is
/// complete, declares at least one cell, and every declared pixel is present;
/// otherwise it is the error that says what is missing. Bytes after the last
/// declared pixel are ignored.
pub fn decode(bytes: &[u8]) -> (read: Result<Canvas, DecodeError>)
    ensures
        read matches Ok(canvas) ==> decoding(bytes@) == Ok::<Grid, DecodeError>(canvas@)
            && canvas@.wf(),
        read matches Err(error) ==> decoding(bytes@) == Err::<Grid, DecodeError>(error),
{
    let total = bytes.len();
    if total < HEADER_LEN {
        return Err(DecodeError::TruncatedHeader);
    }
    let width = read_le(bytes, 0);
    let height = read_le(bytes, 4);
    if width == 0 || height == 0 {
        return Err(DecodeError::ZeroArea);
    }
    assert(0 < width * height <= 0xffff_ffff * 0xffff_ffff) by (nonlinear_arith)
        requires
            0 < width <= 0xffff_ffff,
            0 < height <= 0xffff_ffff,
    ;
    let cells: u64 = width as u64 * height as u64;
    let available = (total - HEADER_LEN) as u128;
    if available < 3 * (cells as u128) {
        return Err(DecodeError::TruncatedPixels);
    }
    let count = cells as usize;
    let mut pixels: Vec<Color> = Vec::new();
    let mut i: usize = 0;
    while i < count
        invariant
            i <= count,
            count == cells,
            total == bytes@.len(),
            HEADER_LEN + 3 * count <= total,
            pixels@ == pixels_at(bytes@, HEADER_LEN as int, i as nat),
        decreases count - i,
    {
        let at = HEADER_LEN + 3 * i;
        let pixel: Color = [bytes[at], bytes[at + 1], bytes[at + 2]];
        pixels.push(pixel);
        proof {
            assert(pixels@ =~= pixels_at(bytes@, HEADER_LEN as int, (i + 1) as nat));
        }
        i += 1;
    }
    match Canvas::from_pixels(width as usize, height as usize, pixels) {
        Some(canvas) => Ok(canvas),
        None => Err(DecodeError::TruncatedPixels),
    }
}

} // verus!
