//! The error taxonomy of the rendering engine.  Every failure aborts the
//! card or sheet being processed; nothing is silently swallowed.

use vstd::prelude::*;

verus! {

/// Why rendering a card or sheet failed.
#[derive(Clone, Copy, PartialEq, Eq, Structural, Debug)]
pub enum RenderError {
    /// An icon, frame or font file is missing.
    AssetNotFound,
    /// An image or font file exists but cannot be decoded.
    AssetDecodeError,
    /// Text cannot be fit even at the minimum scale.
    LayoutImpossible,
    /// An output path cannot be written.
    IoWriteError,
}

} // verus!
