//! The renderer's rules that are decided on integers and names alone:
//! output format, size limits, page numbers, compression and quality.

use crate::error::RenderError;
use vstd::prelude::*;

verus! {

/// Longest side, in pixels, of an image encoded as WebP.
pub const WEBP_MAX_DIMENSION: u32 = 16383;

/// Longest side, in pixels, of an image in any other format.
pub const MAX_DIMENSION: u32 = 32767;

/// WebP and JPEG quality where none is asked for.
pub const DEFAULT_QUALITY: u32 = 80;

/// The format that images are encoded in.
#[derive(Debug, Clone, Copy, PartialEq, Eq, Structural)]
pub enum OutputFormat {
    WebP,
    Png,
    Jpg,
}

/// How hard the PNG encoder tries.
#[derive(Debug, Clone, Copy, PartialEq, Eq, Structural)]
pub enum PngCompression {
    Fast,
    Default,
    Best,
}

/// The lowercase equivalent of a string, as `str::to_lowercase` gives it.
pub uninterp spec fn lowercase_of(s: Seq<char>) -> Seq<char>;

/// `str::to_lowercase`: a new string that holds the lowercase equivalent
/// of `s`. The result depends on the characters of `s` alone; what it is
/// for given characters is not stated here.
#[verifier::external_body]
fn to_lowercase(s: &str) -> (lower: String)
    ensures
        lower@ == lowercase_of(s@),
{
    s.to_lowercase()
}

impl OutputFormat {
    /// The format that a name in lowercase stands for: `png`, `jpg` or
    /// `jpeg`; any other name stands for WebP.
    pub open spec fn of_lowercase(lower: Seq<char>) -> OutputFormat {
        if lower == "png"@ {
            OutputFormat::Png
        } else if lower == "jpg"@ || lower == "jpeg"@ {
            OutputFormat::Jpg
        } else {
            OutputFormat::WebP
        }
    }

    /// The longest side that an image of this format may have.
    pub open spec fn limit(self) -> u32 {
        if self == OutputFormat::WebP {
            WEBP_MAX_DIMENSION
        } else {
            MAX_DIMENSION
        }
    }

    /// The format that `lower`, a name already in lowercase, stands for.
    pub fn from_lowercase(lower: &str) -> (format: OutputFormat)
        ensures
            format == OutputFormat::of_lowercase(lower@),
    {
        let name: String = lower.to_owned();
        if name == "png".to_owned() {
            OutputFormat::Png
        } else if name == "jpg".to_owned() || name == "jpeg".to_owned() {
            OutputFormat::Jpg
        } else {
            OutputFormat::WebP
        }
    }

    /// The format that `s` names, whatever the case of its letters.
    pub fn from_str(s: &str) -> (format: OutputFormat)
        ensures
            format == OutputFormat::of_lowercase(lowercase_of(s@)),
    {
        let lower: String = to_lowercase(s);
        OutputFormat::from_lowercase(lower.as_str())
    }

    /// The longest side that an image of this format may have.
    pub fn max_dimension(self) -> (pixels: u32)
        ensures
            pixels == self.limit(),
    {
        match self {
            OutputFormat::WebP => WEBP_MAX_DIMENSION,
            _ => MAX_DIMENSION,
        }
    }
}

/// The index of page `page_num` in a document of `num_pages` pages. Pages
/// are numbered from one and indexed from zero; a number outside the
/// document is refused.
pub fn page_index(page_num: u32, num_pages: u32) -> (index: Result<u32, RenderError>)
    ensures
        1 <= page_num <= num_pages ==> index == Ok::<u32, RenderError>((page_num - 1) as u32),
        !(1 <= page_num <= num_pages) ==> index == Err::<u32, RenderError>(
            RenderError::InvalidPageNumber(page_num),
        ),
{
    if page_num < 1 || page_num > num_pages {
        Err(RenderError::InvalidPageNumber(page_num))
    } else {
        Ok(page_num - 1)
    }
}

/// The encoder setting for a PNG compression level: fast up to 3, the
/// default up to 6, the best above.
pub fn png_compression(level: u8) -> (kind: PngCompression)
    ensures
        level <= 3 ==> kind == PngCompression::Fast,
        4 <= level <= 6 ==> kind == PngCompression::Default,
        level >= 7 ==> kind == PngCompression::Best,
{
    if level <= 3 {
        PngCompression::Fast
    } else if level <= 6 {
        PngCompression::Default
    } else {
        PngCompression::Best
    }
}

/// Whether a page with so many text objects and so many image objects is
/// taken for a scan: it has images and no text.
pub fn is_likely_scan(text_objects: usize, image_objects: usize) -> (scan: bool)
    ensures
        scan == (text_objects == 0 && image_objects > 0),
{
    text_objects == 0 && image_objects > 0
}

/// The quality that an encoder works at: the one asked for this encoder,
/// else the one asked for all encoders, else `DEFAULT_QUALITY`; of a value
/// above 255 the low eight bits.
pub fn resolve_quality(specific: Option<u32>, general: Option<u32>) -> (quality: u8)
    ensures
        quality as int == (match specific {
            Some(q) => q as int,
            None => match general {
                Some(q) => q as int,
                None => DEFAULT_QUALITY as int,
            },
        }) % 256,
{
    let chosen: u32 = match specific {
        Some(q) => q,
        None => match general {
            Some(q) => q,
            None => DEFAULT_QUALITY,
        },
    };
    (chosen % 256) as u8
}

} // verus!
