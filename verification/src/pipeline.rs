//! The native conversion pipeline for standard raster formats: decode into
//! an RGBA raster, fit it inside the configured longest-edge cap, encode as
//! JPEG at the effective quality, and carry the source's metadata segment
//! over when the source itself was a JPEG.

use vstd::prelude::*;
use crate::config;
use crate::config::ProcessConfig;
use crate::dims;
use crate::exif;

verus! {

/// Why one file's conversion failed. Each failure stays local to its file.
#[derive(Clone, Copy, PartialEq, Eq, Structural, Debug)]
pub enum ConvertError {
    /// The source bytes decode into no raster.
    DecodeFailure,
    /// The raster cannot be resized and re-encoded: a target dimension fell
    /// to zero or past what the encoder can express.
    ResizeEncodeFailure,
    /// Reading the source or writing the output failed.
    IoFailure,
    /// Every fallback strategy for a camera RAW source was exhausted.
    UnsupportedRawDevice,
    /// An external tool ran past its deadline and was killed.
    ExternalToolTimeout,
    /// An external tool exited with a failure status.
    ExternalToolNonZeroExit,
}

/// One converted image: the encoded bytes and their pixel dimensions.
pub struct ConvertedImage {
    pub bytes: Vec<u8>,
    pub width: u32,
    pub height: u32,
}

/// What `image::load_from_memory` makes of the given bytes: the decoded
/// raster's dimensions, or nothing when the bytes decode into no image.
/// Decoding depends on the bytes alone.
pub uninterp spec fn decoded_dims(b: Seq<u8>) -> Option<(u32, u32)>;

/// Relies on image::load_from_memory and DynamicImage::to_rgba8: whether
/// the bytes decode is a function of the bytes alone, and the RGBA raster
/// carries four bytes per pixel of the decoded dimensions.
#[verifier::external_body]
fn decode_rgba(b: &Vec<u8>) -> (r: Option<(u32, u32, Vec<u8>)>)
    ensures
        match r {
            Some(d) => decoded_dims(b@) == Some((d.0, d.1)) && d.2@.len() == 4 * (d.0 as int) * (
            d.1 as int),
            None => decoded_dims(b@) is None,
        },
{
    match image::load_from_memory(b) {
        Ok(img) => {
            let (w, h) = image::GenericImageView::dimensions(&img);
            Some((w, h, img.to_rgba8().into_raw()))
        },
        Err(_) => None,
    }
}

/// Relies on fast_image_resize's Resizer with two exact-size RGBA images:
/// construction accepts a buffer of exactly four bytes per pixel, resizing
/// between equal pixel types cannot fail, the destination buffer is exactly
/// four bytes per destination pixel, and equal dimensions are a plain copy.
#[verifier::external_body]
fn resize_rgba(src: &Vec<u8>, sw: u32, sh: u32, dw: u32, dh: u32) -> (r: Vec<u8>)
    requires
        src@.len() == 4 * (sw as int) * (sh as int),
    ensures
        r@.len() == 4 * (dw as int) * (dh as int),
        dw == sw && dh == sh ==> r@ == src@,
{
    let s = fast_image_resize::images::Image::from_vec_u8(
        sw,
        sh,
        src.clone(),
        fast_image_resize::PixelType::U8x4,
    ).unwrap();
    let mut d = fast_image_resize::images::Image::new(dw, dh, fast_image_resize::PixelType::U8x4);
    let mut resizer = fast_image_resize::Resizer::new();
    resizer.resize(&s, &mut d, None).unwrap();
    d.into_vec()
}

/// Relies on jpeg_encoder::Encoder writing into a byte vector: encoding
/// fails only on a short buffer or a zero dimension, and the output opens
/// with the JPEG start-of-image marker.
#[verifier::external_body]
fn encode_jpeg(pixels: &Vec<u8>, w: u16, h: u16, quality: u8) -> (r: Option<Vec<u8>>)
    requires
        1 <= quality <= 100,
    ensures
        pixels@.len() >= 4 * (w as int) * (h as int) && w > 0 && h > 0 ==> r is Some,
        match r {
            Some(out) => out@.len() >= 2 && out@[0] == 0xFF && out@[1] == 0xD8,
            None => true,
        },
{
    let mut out: Vec<u8> = Vec::new();
    let encoder = jpeg_encoder::Encoder::new(&mut out, quality);
    match encoder.encode(pixels, w, h, jpeg_encoder::ColorType::Rgba) {
        Ok(()) => Some(out),
        Err(_) => None,
    }
}

/// One batch's converter, holding the resolved configuration snapshot.
pub struct Processor {
    pub config: ProcessConfig,
}

impl Processor {
    pub fn new(config: ProcessConfig) -> (r: Processor)
        ensures
            r.config == config,
    {
        Processor { config }
    }

    /// Converts one standard-format source, given its bytes, to a JPEG.
    /// The output never outgrows the source in either dimension; a source
    /// already within the cap keeps its dimensions exactly. When the source
    /// itself is a JPEG holding a metadata segment, an identical segment
    /// stands in the output right after the start-of-image marker.
    ///
    /// Success is owed whenever the bytes decode and the target dimensions
    /// are expressible: decode failure and inexpressible dimensions are the
    /// only errors, each reported as itself.
    pub fn convert_standard(&self, input: &Vec<u8>, jpeg_source: bool) -> (r: Result<
        ConvertedImage,
        ConvertError,
    >)
        requires
            self.config.wf(),
        ensures
            match r {
                Ok(c) => {
                    &&& decoded_dims(input@) matches Some(d)
                    &&& c.width == dims::target_width(d.0, d.1, self.config.max_dim)
                    &&& c.height == dims::target_height(d.0, d.1, self.config.max_dim)
                    &&& c.width <= d.0
                    &&& c.height <= d.1
                    &&& (!dims::needs_scaling(d.0, d.1, self.config.max_dim) ==> c.width == d.0
                        && c.height == d.1)
                    &&& 1 <= c.width <= 0xFFFF
                    &&& 1 <= c.height <= 0xFFFF
                    &&& exif::is_soi(c.bytes@)
                    &&& (if jpeg_source {
                        match exif::app1_segment(input@) {
                            Some(seg) => c.bytes@.len() >= 2 + seg.len() && c.bytes@.subrange(
                                2,
                                2 + seg.len() as int,
                            ) == seg,
                            None => true,
                        }
                    } else {
                        true
                    })
                },
                Err(e) => match e {
                    ConvertError::DecodeFailure => decoded_dims(input@) is None,
                    ConvertError::ResizeEncodeFailure => {
                        &&& decoded_dims(input@) matches Some(d)
                        &&& {
                            let tw = dims::target_width(d.0, d.1, self.config.max_dim);
                            let th = dims::target_height(d.0, d.1, self.config.max_dim);
                            tw < 1 || th < 1 || tw > 0xFFFF || th > 0xFFFF || d.0 < 1 || d.1
                                < 1
                        }
                    },
                    _ => false,
                },
            },
    {
        let decoded = match decode_rgba(input) {
            Some(d) => d,
            None => {
                return Err(ConvertError::DecodeFailure);
            },
        };
        let (w, h, pixels) = decoded;
        if w < 1 || h < 1 {
            return Err(ConvertError::ResizeEncodeFailure);
        }
        let (tw, th) = dims::compute_target_dims(w, h, self.config.max_dim);
        if tw < 1 || th < 1 || tw > 0xFFFF || th > 0xFFFF {
            return Err(ConvertError::ResizeEncodeFailure);
        }
        let resized = resize_rgba(&pixels, w, h, tw, th);
        let quality = config::effective_quality(self.config.quality, self.config.target_kb);
        let encoded = match encode_jpeg(&resized, tw as u16, th as u16, quality) {
            Some(e) => e,
            None => {
                return Err(ConvertError::ResizeEncodeFailure);
            },
        };
        let bytes = if jpeg_source {
            exif::preserve_metadata(input, encoded)
        } else {
            encoded
        };
        proof {
            if jpeg_source && exif::app1_segment(input@) is Some {
                let seg = exif::app1_segment(input@)->Some_0;
                assert(bytes@.subrange(2, 2 + seg.len() as int) =~= seg);
            }
        }
        Ok(ConvertedImage { bytes, width: tw, height: th })
    }
}

} // verus!
