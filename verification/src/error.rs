//! The failure taxonomy of the preprocessing core.

use vstd::prelude::*;

verus! {

/// A failure surfaced to the immediate caller. No operation retries.
#[derive(Debug)]
pub enum Error {
    /// The external codec could not interpret the byte source as an image.
    Decode(image::ImageError),
    /// An operation that normalizes by a pixel count was given an image
    /// with no pixels.
    DegenerateInput,
}

impl Error {
    /// True exactly when this is the decode failure.
    pub fn is_decode(&self) -> (r: bool)
        ensures
            r == (self is Decode),
    {
        match self {
            Error::Decode(_) => true,
            Error::DegenerateInput => false,
        }
    }

    /// True exactly when this is the degenerate-input failure.
    pub fn is_degenerate_input(&self) -> (r: bool)
        ensures
            r == (self is DegenerateInput),
    {
        match self {
            Error::Decode(_) => false,
            Error::DegenerateInput => true,
        }
    }
}

} // verus!
