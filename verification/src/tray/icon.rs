//! The tray's icon.

use vstd::prelude::*;

verus! {

/// Most pixels an icon may have.
pub const MAX_ICON_PIXELS: u64 = 4_194_304;

/// An image as rows of samples.
#[derive(Debug)]
pub struct Icon {
    pub rgba: Vec<u8>,
    pub width: u32,
    pub height: u32,
}

/// Why an icon could not be had.
#[derive(Debug)]
pub enum IconError {
    /// It has more pixels than an icon may.
    TooLarge,
    /// It is not an image, for this reason.
    Undecodable(String),
}

/// The big-endian number of four bytes at `at`.
pub open spec fn be32_at(b: Seq<u8>, at: int) -> int {
    16777216 * b[at] + 65536 * b[at + 1] + 256 * b[at + 2] + b[at + 3]
}

/// The width and the height that the header of a PNG file gives, multiplied. A
/// file that is too short for one has no pixels.
pub open spec fn header_pixels(b: Seq<u8>) -> int {
    if b.len() < 24 {
        0
    } else {
        be32_at(b, 16) * be32_at(b, 20)
    }
}

/// The first frame of a PNG file: its samples, its width and its height.
pub uninterp spec fn png_frame(data: Seq<u8>) -> Option<(Seq<u8>, u32, u32)>;

/// `Decoder::read_info` and `Reader::next_frame` of the png crate: the first
/// frame of the file, which depends on its bytes alone. The size that stands
/// where a header puts it is bounded, so that no ordinary file asks for more
/// memory than there is. What an error says is left open.
#[verifier::external_body]
fn decode_png(data: &[u8]) -> (r: Result<(Vec<u8>, u32, u32), String>)
    requires
        header_pixels(data@) <= MAX_ICON_PIXELS,
    ensures
        match r {
            Ok((samples, width, height)) => png_frame(data@) == Some((samples@, width, height)),
            Err(_) => png_frame(data@) is None,
        },
{
    let mut reader = png::Decoder::new(data).read_info().map_err(|e| format!("{}", e))?;
    let mut buf = vec![0; reader.output_buffer_size()];
    let info = reader.next_frame(&mut buf).map_err(|e| format!("{}", e))?;
    buf.truncate(info.buffer_size());
    Ok((buf, info.width, info.height))
}

fn read_be32(b: &[u8], at: usize) -> (r: u64)
    requires
        at + 4 <= b@.len(),
    ensures
        r == be32_at(b@, at as int),
        r <= 4294967295,
{
    16777216 * (b[at] as u64) + 65536 * (b[at + 1] as u64) + 256 * (b[at + 2] as u64) + b[at
        + 3] as u64
}

/// The icon that was decoded.
pub fn icon_of(frame: Result<(Vec<u8>, u32, u32), String>) -> (r: Result<Icon, IconError>)
    ensures
        match frame {
            Ok((samples, width, height)) => r == Ok::<Icon, IconError>(
                Icon { rgba: samples, width, height },
            ),
            Err(e) => r == Err::<Icon, IconError>(IconError::Undecodable(e)),
        },
{
    match frame {
        Ok((rgba, width, height)) => Ok(Icon { rgba, width, height }),
        Err(e) => Err(IconError::Undecodable(e)),
    }
}

/// Decode the icon.
pub fn icon(data: &[u8]) -> (r: Result<Icon, IconError>)
    ensures
        match r {
            Ok(i) => header_pixels(data@) <= MAX_ICON_PIXELS && png_frame(data@) == Some(
                (i.rgba@, i.width, i.height),
            ),
            Err(IconError::TooLarge) => header_pixels(data@) > MAX_ICON_PIXELS,
            Err(IconError::Undecodable(_)) => header_pixels(data@) <= MAX_ICON_PIXELS && png_frame(
                data@,
            ) is None,
        },
{
    if data.len() >= 24 {
        let width: u64 = read_be32(data, 16);
        let height: u64 = read_be32(data, 20);
        assert(width * height <= 4294967295 * 4294967295) by (nonlinear_arith)
            requires
                0 <= width <= 4294967295,
                0 <= height <= 4294967295,
        ;
        if width * height > MAX_ICON_PIXELS {
            return Err(IconError::TooLarge);
        }
    }
    icon_of(decode_png(data))
}

/// The size of an image is looked for in the eight bytes behind the first
/// sixteen, as its width and its height, in which the last byte weighs least.
pub proof fn law_where_the_size_stands(b: Seq<u8>)
    ensures
        b.len() >= 24 ==> header_pixels(b) == (16777216 * b[16] + 65536 * b[17] + 256 * b[18]
            + b[19]) * (16777216 * b[20] + 65536 * b[21] + 256 * b[22] + b[23]),
        b.len() < 24 ==> header_pixels(b) == 0,
        MAX_ICON_PIXELS == 2048 * 2048,
{
}

} // verus!
