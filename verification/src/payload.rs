//! Decoding of request payloads into integer pixel samples.
//!
//! Format 0 is interleaved 8-bit RGB (`width * height * 3` bytes), format 2 is
//! interleaved 16-bit little-endian RGB (`width * height * 6` bytes), format 1
//! is a PNG file whose own dimensions replace the header's. Other formats are
//! refused, as are PNG files with an alpha channel.
use vstd::prelude::*;

use crate::protocol::{Request, RequestView};

verus! {

/// Pixel format code of interleaved 8-bit RGB.
pub const FMT_RGB8: u8 = 0;

/// Pixel format code of a PNG file.
pub const FMT_PNG: u8 = 1;

/// Pixel format code of interleaved 16-bit little-endian RGB.
pub const FMT_RGB16: u8 = 2;

/// Sample depth of a raw pixel payload.
#[derive(Clone, Copy, Debug, PartialEq, Eq, Structural)]
pub enum Depth {
    Eight,
    Sixteen,
}

/// Bytes per pixel of a raw payload of this depth.
pub open spec fn bytes_per_pixel(d: Depth) -> int {
    match d {
        Depth::Eight => 3,
        Depth::Sixteen => 6,
    }
}

/// Decoded pixels, as interleaved RGB samples in row-major order.
#[derive(Debug, PartialEq, Eq)]
pub enum Pixels {
    Rgb8 { width: usize, height: usize, data: Vec<u8> },
    Rgb16 { width: usize, height: usize, samples: Vec<u16> },
}

pub enum PixelsView {
    Rgb8 { width: usize, height: usize, data: Seq<u8> },
    Rgb16 { width: usize, height: usize, samples: Seq<u16> },
}

impl View for Pixels {
    type V = PixelsView;

    open spec fn view(&self) -> PixelsView {
        match self {
            Pixels::Rgb8 { width, height, data } => PixelsView::Rgb8 {
                width: *width,
                height: *height,
                data: data@,
            },
            Pixels::Rgb16 { width, height, samples } => PixelsView::Rgb16 {
                width: *width,
                height: *height,
                samples: samples@,
            },
        }
    }
}

/// Why a payload could not be decoded.
#[derive(Debug, PartialEq, Eq)]
pub enum DecodeError {
    /// A raw payload whose length is not `width * height * bytes per pixel`.
    PayloadSize { got: usize, width: usize, height: usize, depth: Depth },
    /// The PNG decoder refused the payload; its message.
    Png(String),
    /// The PNG image has an alpha channel.
    AlphaUnsupported,
    /// The pixel format code is none of the known ones.
    UnknownFormat(u8),
}

pub enum DecodeErrorView {
    PayloadSize { got: usize, width: usize, height: usize, depth: Depth },
    Png(Seq<char>),
    AlphaUnsupported,
    UnknownFormat(u8),
}

impl View for DecodeError {
    type V = DecodeErrorView;

    open spec fn view(&self) -> DecodeErrorView {
        match self {
            DecodeError::PayloadSize { got, width, height, depth } => DecodeErrorView::PayloadSize {
                got: *got,
                width: *width,
                height: *height,
                depth: *depth,
            },
            DecodeError::Png(m) => DecodeErrorView::Png(m@),
            DecodeError::AlphaUnsupported => DecodeErrorView::AlphaUnsupported,
            DecodeError::UnknownFormat(f) => DecodeErrorView::UnknownFormat(*f),
        }
    }
}

pub open spec fn decoded_view(r: Result<Pixels, DecodeError>) -> Result<PixelsView, DecodeErrorView> {
    match r {
        Ok(p) => Ok(p@),
        Err(e) => Err(e@),
    }
}

/// An image decoded by the `image` crate, in plain values: whether its color
/// type has an alpha channel, and its width, height and samples after
/// conversion to interleaved 8-bit RGB.
#[derive(Debug, PartialEq, Eq)]
pub struct DecodedImage {
    pub has_alpha: bool,
    pub width: u32,
    pub height: u32,
    pub rgb: Vec<u8>,
}

/// Mathematical value of a `DecodedImage`.
pub struct DecodedImageView {
    pub has_alpha: bool,
    pub width: u32,
    pub height: u32,
    pub rgb: Seq<u8>,
}

impl View for DecodedImage {
    type V = DecodedImageView;

    open spec fn view(&self) -> DecodedImageView {
        DecodedImageView {
            has_alpha: self.has_alpha,
            width: self.width,
            height: self.height,
            rgb: self.rgb@,
        }
    }
}

pub open spec fn image_outcome_view(o: Result<DecodedImage, String>) -> Result<
    DecodedImageView,
    Seq<char>,
> {
    match o {
        Ok(img) => Ok(img@),
        Err(m) => Err(m@),
    }
}

/// What holds of every outcome of the image decoder: a decoded image holds at
/// least three samples per pixel.
pub open spec fn image_outcome_holds(o: Result<DecodedImageView, Seq<char>>) -> bool {
    o matches Ok(img) ==> img.rgb.len() >= img.width * img.height * 3
}

/// Relates the bytes handed to `image::load_from_memory` to an outcome that
/// the call, with its conversion, can give for them. It is a relation, not a
/// function: the same bytes may give different outcomes (see `load_image`).
pub uninterp spec fn image_outcome_of(bytes: Seq<u8>, o: Result<DecodedImageView, Seq<char>>) -> bool;

/// Calls `image::load_from_memory` on `bytes` and converts what it returns:
/// the image to whether its color type has alpha and to its 8-bit RGB
/// conversion's width, height and raw samples; the error to its display text.
/// The format is guessed from the bytes, and the crate lets any code in the
/// process register format-detection and decoding hooks, so the outcome is not
/// a function of the bytes alone: the outcome is only said to be one that
/// these bytes can give (`image_outcome_of`), a relation that claims no
/// determinism. What is stated holds of every outcome: the image buffer behind
/// the RGB conversion
/// is built by `ImageBuffer::from_raw` or `from_vec`, which refuse a buffer
/// shorter than `width * height * 3`; it may be longer, so no exact length is
/// stated.
#[verifier::external_body]
fn load_image(bytes: &[u8]) -> (res: Result<DecodedImage, String>)
    ensures
        image_outcome_of(bytes@, image_outcome_view(res)),
        image_outcome_holds(image_outcome_view(res)),
{
    match image::load_from_memory(bytes) {
        Ok(img) => {
            let has_alpha = img.color().has_alpha();
            let rgb = img.to_rgb8();
            Ok(DecodedImage { has_alpha, width: rgb.width(), height: rgb.height(), rgb: rgb.into_raw() })
        },
        Err(e) => Err(format!("{e}")),
    }
}

/// What the outcome of decoding an image payload gives.
pub open spec fn spec_from_image(o: Result<DecodedImageView, Seq<char>>) -> Result<
    PixelsView,
    DecodeErrorView,
> {
    match o {
        Err(msg) => Err(DecodeErrorView::Png(msg)),
        Ok(img) => if img.has_alpha {
            Err(DecodeErrorView::AlphaUnsupported)
        } else {
            Ok(
                PixelsView::Rgb8 {
                    width: img.width as usize,
                    height: img.height as usize,
                    data: img.rgb,
                },
            )
        },
    }
}

/// Turns the outcome of decoding an image payload into pixels: a decoder
/// error is refused with its message, an image with alpha is refused, and
/// otherwise the image's own width, height and 8-bit RGB samples are kept.
pub fn pixels_from_image(outcome: Result<DecodedImage, String>) -> (res: Result<Pixels, DecodeError>)
    ensures
        decoded_view(res) == spec_from_image(image_outcome_view(outcome)),
{
    match outcome {
        Err(msg) => Err(DecodeError::Png(msg)),
        Ok(img) => {
            if img.has_alpha {
                Err(DecodeError::AlphaUnsupported)
            } else {
                Ok(Pixels::Rgb8 { width: img.width as usize, height: img.height as usize, data: img.rgb })
            }
        },
    }
}

/// The 16-bit samples held by little-endian byte pairs.
pub open spec fn le_u16_samples(p: Seq<u8>) -> Seq<u16> {
    Seq::new(p.len() / 2, |i: int| (p[2 * i] + 256 * p[2 * i + 1]) as u16)
}

/// What a request's payload decodes to, for every format but `FMT_PNG`.
pub open spec fn spec_decode_raw(r: RequestView) -> Result<PixelsView, DecodeErrorView> {
    let got = r.payload.len();
    if r.fmt == FMT_RGB8 {
        if got == r.width * r.height * 3 {
            Ok(PixelsView::Rgb8 { width: r.width, height: r.height, data: r.payload })
        } else {
            Err(
                DecodeErrorView::PayloadSize {
                    got: got as usize,
                    width: r.width,
                    height: r.height,
                    depth: Depth::Eight,
                },
            )
        }
    } else if r.fmt == FMT_RGB16 {
        if got == r.width * r.height * 6 {
            Ok(
                PixelsView::Rgb16 {
                    width: r.width,
                    height: r.height,
                    samples: le_u16_samples(r.payload),
                },
            )
        } else {
            Err(
                DecodeErrorView::PayloadSize {
                    got: got as usize,
                    width: r.width,
                    height: r.height,
                    depth: Depth::Sixteen,
                },
            )
        }
    } else {
        Err(DecodeErrorView::UnknownFormat(r.fmt))
    }
}

/// Whether `len == width * height * bpp`, computed without overflow.
fn raw_size_matches(len: usize, width: usize, height: usize, bpp: usize) -> (ok: bool)
    requires
        bpp == 3 || bpp == 6,
    ensures
        ok == (len == width * height * bpp),
{
    match width.checked_mul(height) {
        Some(pixels) => match pixels.checked_mul(bpp) {
            Some(expected) => expected == len,
            None => {
                assert(pixels * bpp > usize::MAX);
                false
            },
        },
        None => {
            assert(width * height * bpp >= width * height) by (nonlinear_arith)
                requires
                    bpp >= 1,
                    width >= 0,
                    height >= 0,
            ;
            false
        },
    }
}

/// Converts little-endian byte pairs into 16-bit samples.
fn samples_u16_le(bytes: &[u8]) -> (out: Vec<u16>)
    ensures
        out@ == le_u16_samples(bytes@),
{
    let len = bytes.len();
    let n = len / 2;
    let mut out: Vec<u16> = Vec::with_capacity(n);
    let mut i: usize = 0;
    while i < n
        invariant
            len == bytes@.len(),
            n == len / 2,
            i <= n,
            out@.len() == i,
            forall|j: int| 0 <= j < i ==> out@[j] == le_u16_samples(bytes@)[j],
        decreases n - i,
    {
        assert(2 * i + 1 < bytes@.len());
        let lo = bytes[2 * i] as u16;
        let hi = bytes[2 * i + 1] as u16;
        out.push(lo + 256 * hi);
        i = i + 1;
    }
    assert(out@ =~= le_u16_samples(bytes@));
    out
}

/// Decodes the payload of a request into integer pixel samples.
///
/// Raw formats are checked against `width * height * bytes per pixel` and
/// refused with `PayloadSize` otherwise; 16-bit samples are read little
/// endian; unknown formats are refused. A `FMT_PNG` payload is handed whole to
/// the image crate, and the result is `pixels_from_image` of an outcome that
/// the payload's bytes can give:
/// the image's own dimensions replace the header's, an alpha channel or a
/// decoder error is refused; whatever comes back, decoded samples number at
/// least three per pixel.
pub fn decode_payload(req: Request) -> (res: Result<Pixels, DecodeError>)
    ensures
        req@.fmt != FMT_PNG ==> decoded_view(res) == spec_decode_raw(req@),
        req@.fmt == FMT_PNG ==> exists|o: Result<DecodedImageView, Seq<char>>|
            image_outcome_of(req@.payload, o) && image_outcome_holds(o) && decoded_view(res)
                == #[trigger] spec_from_image(o),
        req@.fmt == FMT_PNG ==> (res matches Ok(p) ==> p matches Pixels::Rgb8 { width, height, data }
            && data@.len() >= width * height * 3),
{
    let Request { tag: _, width, height, fmt, payload } = req;
    let got = payload.len();
    if fmt == FMT_RGB8 {
        if raw_size_matches(got, width, height, 3) {
            Ok(Pixels::Rgb8 { width, height, data: payload })
        } else {
            Err(DecodeError::PayloadSize { got, width, height, depth: Depth::Eight })
        }
    } else if fmt == FMT_RGB16 {
        if raw_size_matches(got, width, height, 6) {
            let samples = samples_u16_le(payload.as_slice());
            Ok(Pixels::Rgb16 { width, height, samples })
        } else {
            Err(DecodeError::PayloadSize { got, width, height, depth: Depth::Sixteen })
        }
    } else if fmt == FMT_PNG {
        let outcome = load_image(payload.as_slice());
        let ghost o = image_outcome_view(outcome);
        let res = pixels_from_image(outcome);
        assert(image_outcome_of(payload@, o) && image_outcome_holds(o) && decoded_view(res)
            == spec_from_image(o));
        res
    } else {
        Err(DecodeError::UnknownFormat(fmt))
    }
}

/// Widening 8-bit samples to 16 bits by `v * 257`, as full-scale conversion
/// does, and sending them little endian gives back each byte times 257: the
/// 16-bit path sees the same normalised values as the 8-bit path.
pub proof fn law_widened_rgb8_decodes_to_scaled_samples(bytes: Seq<u8>, wide: Seq<u8>)
    requires
        wide.len() == 2 * bytes.len(),
        forall|i: int|
            0 <= i < bytes.len() ==> wide[2 * i] == (bytes[i] * 257) % 256 && wide[2 * i + 1] == (
            bytes[i] * 257) / 256,
    ensures
        le_u16_samples(wide).len() == bytes.len(),
        forall|i: int| 0 <= i < bytes.len() ==> le_u16_samples(wide)[i] == bytes[i] * 257,
{
    assert forall|i: int| 0 <= i < bytes.len() implies le_u16_samples(wide)[i] == bytes[i] * 257 by {
        let v = bytes[i] * 257;
        assert(0 <= v < 65536);
        assert(v % 256 + 256 * (v / 256) == v);
    }
}

/// A raw payload of the right size decodes to pixels with the request's own
/// width and height: RGB8 keeps the payload bytes as they are, RGB16 reads
/// sample `i` from bytes `2i` (low) and `2i + 1` (high). A raw payload of any
/// other size is refused with its own length and the request's dimensions.
pub proof fn law_raw_payload_keeps_dimensions(r: RequestView)
    ensures
        r.fmt == FMT_RGB8 && r.payload.len() == r.width * r.height * 3 ==> spec_decode_raw(r)
            == Ok::<PixelsView, DecodeErrorView>(
            PixelsView::Rgb8 { width: r.width, height: r.height, data: r.payload },
        ),
        r.fmt == FMT_RGB8 && r.payload.len() != r.width * r.height * 3 ==> spec_decode_raw(r)
            == Err::<PixelsView, DecodeErrorView>(
            DecodeErrorView::PayloadSize {
                got: r.payload.len() as usize,
                width: r.width,
                height: r.height,
                depth: Depth::Eight,
            },
        ),
        r.fmt == FMT_RGB16 && r.payload.len() != r.width * r.height * 6 ==> spec_decode_raw(r)
            == Err::<PixelsView, DecodeErrorView>(
            DecodeErrorView::PayloadSize {
                got: r.payload.len() as usize,
                width: r.width,
                height: r.height,
                depth: Depth::Sixteen,
            },
        ),
        r.fmt == FMT_RGB16 && r.payload.len() == r.width * r.height * 6 ==> (spec_decode_raw(r) matches Ok(
            PixelsView::Rgb16 { width, height, samples },
        ) && width == r.width && height == r.height && samples.len() == r.width * r.height * 3
            && forall|i: int|
            0 <= i < samples.len() ==> #[trigger] samples[i] == r.payload[2 * i] + 256 * r.payload[2
                * i + 1]),
        r.fmt != FMT_RGB8 && r.fmt != FMT_RGB16 && r.fmt != FMT_PNG ==> spec_decode_raw(r) == Err::<
            PixelsView,
            DecodeErrorView,
        >(DecodeErrorView::UnknownFormat(r.fmt)),
{
    if r.fmt == FMT_RGB16 && r.payload.len() == r.width * r.height * 6 {
        let samples = le_u16_samples(r.payload);
        assert forall|i: int| 0 <= i < samples.len() implies #[trigger] samples[i] == r.payload[2
            * i] + 256 * r.payload[2 * i + 1] by {
            assert(2 * i + 1 < r.payload.len());
            let v = r.payload[2 * i] + 256 * r.payload[2 * i + 1];
            assert(0 <= v < 65536);
        }
    }
}

/// An image with an alpha channel is always refused, whatever its size; a
/// decoder error is refused with the decoder's message; an accepted image is
/// one without alpha and keeps its own width, height and samples.
pub proof fn law_image_outcome_decides(o: Result<DecodedImageView, Seq<char>>)
    ensures
        o matches Ok(img) && img.has_alpha ==> spec_from_image(o) == Err::<
            PixelsView,
            DecodeErrorView,
        >(DecodeErrorView::AlphaUnsupported),
        o matches Err(m) ==> spec_from_image(o) == Err::<PixelsView, DecodeErrorView>(
            DecodeErrorView::Png(m),
        ),
        spec_from_image(o) matches Ok(px) ==> (o matches Ok(img) && !img.has_alpha
            && px == (PixelsView::Rgb8 {
            width: img.width as usize,
            height: img.height as usize,
            data: img.rgb,
        })),
{
}

} // verus!
