//! Finds the upright orientation of a scanned document image.
//!
//! The library holds the verified core: the grayscale image model with exact
//! quarter-turn rotation, the text-quality scorer that counts recognizable
//! word segments in tokenizer output, and the selection rule that picks the
//! best-scoring angle with a first-seen-wins tie-break. Image decoding, the
//! character recognizer and the tokenizer are outside collaborators; callers
//! hand their output to the library as plain values.

use vstd::prelude::*;

pub mod image;
pub mod score;
pub mod select;

verus! {

/// The failure kinds of an orientation-detection run. Every failure is fatal
/// to the whole run: a partial result, with some angles unscored, is not
/// comparable across candidates and therefore not useful. The decode and
/// rotation kinds come from the library's own boundary checks; the
/// recognition and tokenization kinds are raised by the caller when the
/// recognizer or the analyzer collaborator fails.
#[derive(Clone, Copy, PartialEq, Eq, Structural, Debug)]
pub enum OrientationError {
    /// The source image is missing, unreadable, or not a recognizable format.
    DecodeFailed,
    /// The geometric transform rejected the requested angle.
    RotationFailed,
    /// The recognizer could not be constructed or invoked.
    RecognitionFailed,
    /// The tokenizer or its dictionary is misconfigured.
    TokenizationConfigError,
}

} // verus!
