//! Dimension rules of a precomputed reference frame.
//!
//! A reference must be at least `MIN_SIZE` pixels in each dimension, and a
//! candidate is only scored against a reference of exactly its dimensions.
//! `ReferenceFrame` holds a reference's dimensions together with whatever the
//! metric precomputed for it, and keeps the size rule as its invariant.
use vstd::prelude::*;

verus! {

/// Smallest width and height of a reference image.
pub const MIN_SIZE: usize = 8;

/// Why a reference could not be built or a candidate not scored.
#[derive(Clone, Copy, Debug, PartialEq, Eq, Structural)]
pub enum FrameError {
    /// The image could not be converted to linear RGB.
    LinearRgbConversionFailed,
    /// The reference is smaller than `MIN_SIZE` in some dimension.
    InvalidImageSize,
    /// The candidate's dimensions differ from the reference's.
    NonMatchingImageDimensions,
}

/// Accepts a reference of `width` x `height` pixels.
pub fn check_reference_size(width: usize, height: usize) -> (res: Result<(), FrameError>)
    ensures
        res is Ok <==> width >= MIN_SIZE && height >= MIN_SIZE,
        res is Err ==> res == Err::<(), FrameError>(FrameError::InvalidImageSize),
{
    if width < MIN_SIZE || height < MIN_SIZE {
        Err(FrameError::InvalidImageSize)
    } else {
        Ok(())
    }
}

/// Accepts a candidate of `width` x `height` pixels for a reference of
/// `ref_width` x `ref_height` pixels.
pub fn check_candidate_size(ref_width: usize, ref_height: usize, width: usize, height: usize) -> (res:
    Result<(), FrameError>)
    ensures
        res is Ok <==> width == ref_width && height == ref_height,
        res is Err ==> res == Err::<(), FrameError>(FrameError::NonMatchingImageDimensions),
{
    if width != ref_width || height != ref_height {
        Err(FrameError::NonMatchingImageDimensions)
    } else {
        Ok(())
    }
}

/// A reference image of at least `MIN_SIZE` x `MIN_SIZE` pixels, with the
/// metric's precomputed scales for it.
pub struct ReferenceFrame<S> {
    width: usize,
    height: usize,
    scales: S,
}

impl<S> ReferenceFrame<S> {
    #[verifier::type_invariant]
    spec fn large_enough(self) -> bool {
        self.width >= MIN_SIZE && self.height >= MIN_SIZE
    }

    /// Width of the reference in pixels.
    pub closed spec fn frame_width(&self) -> usize {
        self.width
    }

    /// Height of the reference in pixels.
    pub closed spec fn frame_height(&self) -> usize {
        self.height
    }

    /// The precomputed scales.
    pub closed spec fn frame_scales(&self) -> S {
        self.scales
    }

    /// Makes the reference frame of a `width` x `height` image from its
    /// precomputed scales; refuses an image smaller than `MIN_SIZE` in either
    /// dimension.
    pub fn new(width: usize, height: usize, scales: S) -> (res: Result<Self, FrameError>)
        ensures
            res is Ok <==> width >= MIN_SIZE && height >= MIN_SIZE,
            res matches Ok(f) ==> f.frame_width() == width && f.frame_height() == height
                && f.frame_scales() == scales,
            res matches Err(e) ==> e == FrameError::InvalidImageSize,
    {
        if width < MIN_SIZE || height < MIN_SIZE {
            Err(FrameError::InvalidImageSize)
        } else {
            Ok(ReferenceFrame { width, height, scales })
        }
    }

    /// Width of the reference in pixels; never below `MIN_SIZE`.
    pub fn width(&self) -> (w: usize)
        ensures
            w == self.frame_width(),
            w >= MIN_SIZE,
    {
        proof {
            use_type_invariant(self);
        }
        self.width
    }

    /// Height of the reference in pixels; never below `MIN_SIZE`.
    pub fn height(&self) -> (h: usize)
        ensures
            h == self.frame_height(),
            h >= MIN_SIZE,
    {
        proof {
            use_type_invariant(self);
        }
        self.height
    }

    /// The precomputed scales.
    pub fn scales(&self) -> (s: &S)
        ensures
            *s == self.frame_scales(),
    {
        &self.scales
    }

    /// Accepts a candidate of `width` x `height` pixels for this reference.
    pub fn check_candidate(&self, width: usize, height: usize) -> (res: Result<(), FrameError>)
        ensures
            res is Ok <==> width == self.frame_width() && height == self.frame_height(),
            res is Err ==> res == Err::<(), FrameError>(FrameError::NonMatchingImageDimensions),
    {
        check_candidate_size(self.width, self.height, width, height)
    }
}

} // verus!
