//! Why rendering failed.

use vstd::prelude::*;

verus! {

/// A failure of the renderer, with what it concerns.
#[derive(Debug, PartialEq, Eq)]
pub enum RenderError {
    /// The document could not be loaded.
    PdfLoadError(String),
    /// A page could not be rendered.
    PageRenderError { page: u32, message: String },
    /// The rendered image could not be encoded.
    EncodeError(String),
    /// The page number is outside the document.
    InvalidPageNumber(u32),
    /// The rendering engine could not be loaded.
    PdfiumNotAvailable(String),
}

} // verus!
