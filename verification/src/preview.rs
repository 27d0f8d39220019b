//! Decoding a cached preview picture into 8-bit RGBA pixels for a card. As
//! when a picture file is opened with the `image` crate, the decoder is
//! chosen by the file's extension.
use vstd::prelude::*;
use crate::win_path::{extension, path_extension};

verus! {

/// What the `image` crate gives for picture bytes read with the format that
/// `extension` names (`ImageFormat::from_extension`, then
/// `load_from_memory_with_format` and `into_rgba8`): width, height and the
/// RGBA bytes row after row, or `None` when the extension names no format
/// the crate reads or the bytes do not decode as that format.
pub uninterp spec fn rgba_decoding(extension: Seq<char>, bytes: Seq<u8>) -> Option<(u32, u32, Seq<u8>)>;

/// Calls `image::ImageFormat::from_extension` and
/// `image::load_from_memory_with_format`, then converts the picture to 8-bit
/// RGBA. Together these are the decoding `image::open` performs on a file
/// with this extension when no decoder hook is registered (the crate's hook
/// registries are process-wide; this program registers none). Claims: the
/// outcome is the named decoding of the extension and the bytes, and a
/// decoded picture's buffer holds exactly four bytes per pixel (the crate
/// sizes it from the dimensions). Which pictures decode, and to what, is
/// left unsaid.
#[verifier::external_body]
fn decode_rgba(extension: &str, bytes: &[u8]) -> (r: Option<(u32, u32, Vec<u8>)>)
    ensures
        match r {
            Some((w, h, px)) => rgba_decoding(extension@, bytes@) == Some((w, h, px@)) && px@.len()
                == 4 * w * h,
            None => rgba_decoding(extension@, bytes@) is None,
        },
{
    match image::ImageFormat::from_extension(extension) {
        None => None,
        Some(format) => match image::load_from_memory_with_format(bytes, format) {
            Ok(picture) => {
                let rgba = picture.into_rgba8();
                let (w, h) = rgba.dimensions();
                Some((w, h, rgba.into_raw()))
            },
            Err(_) => None,
        },
    }
}

/// A decoded preview: `width` x `height` pixels of 4 bytes each.
#[derive(Debug)]
pub struct ThumbnailPixels {
    pub width: u32,
    pub height: u32,
    pub rgba: Vec<u8>,
}

/// The pixels of the preview file at `path`, whose bytes are `bytes`, or
/// `None` when the path has no extension or the bytes do not decode as the
/// format it names (the card then shows no picture).
pub fn decode_thumbnail_buffer(path: &str, bytes: &[u8]) -> (r: Option<ThumbnailPixels>)
    ensures
        match r {
            Some(p) => extension(path@) matches Some(e) && e.len() > 0 && rgba_decoding(e, bytes@)
                == Some((p.width, p.height, p.rgba@)),
            None => match extension(path@) {
                Some(e) => e.len() == 0 || rgba_decoding(e, bytes@) is None,
                None => true,
            },
        },
        r matches Some(p) ==> p.rgba@.len() == 4 * p.width * p.height,
{
    match path_extension(path) {
        None => None,
        Some(e) => {
            if crate::text::chars_of(e.as_str()).len() == 0 {
                return None;
            }
            match decode_rgba(e.as_str(), bytes) {
                Some((width, height, rgba)) => Some(ThumbnailPixels { width, height, rgba }),
                None => None,
            }
        },
    }
}

} // verus!
