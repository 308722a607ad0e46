//! Output formats, resampling filters, fit modes and anchor positions.
use vstd::prelude::*;
use image::imageops::FilterType;
use image::ImageFormat;
use crate::text::chars_eq_str;

verus! {

/// An output file format the workbench can write.
#[derive(Debug, Clone, Copy, PartialEq, Eq, Structural)]
pub enum ImageFormatChoice {
    Png,
    Jpeg,
    Webp,
    Gif,
    Bmp,
    Tiff,
    Ico,
}

/// Whether `bytes` start with `prefix`.
pub open spec fn begins_with(bytes: Seq<u8>, prefix: Seq<u8>) -> bool {
    prefix.len() <= bytes.len() && bytes.subrange(0, prefix.len() as int) == prefix
}

impl ImageFormatChoice {
    /// The file extension written for this format.
    pub open spec fn extension_spec(self) -> Seq<char> {
        match self {
            ImageFormatChoice::Png => "png"@,
            ImageFormatChoice::Jpeg => "jpg"@,
            ImageFormatChoice::Webp => "webp"@,
            ImageFormatChoice::Gif => "gif"@,
            ImageFormatChoice::Bmp => "bmp"@,
            ImageFormatChoice::Tiff => "tiff"@,
            ImageFormatChoice::Ico => "ico"@,
        }
    }

    /// Whether `bytes` open with this format's file signature, the leading
    /// bytes every file of the format carries: PNG's eight-byte signature,
    /// JPEG's start-of-image marker followed by its first application segment
    /// marker, the RIFF container tag with `WEBP` as its form type, `GIF89a`,
    /// BMP's `BM`, TIFF's byte-order mark with 42 in either byte order, and
    /// the ICO directory's reserved zero and type 1.
    pub open spec fn opens_with_signature(self, bytes: Seq<u8>) -> bool {
        match self {
            ImageFormatChoice::Png => begins_with(bytes, seq![0x89u8, 0x50, 0x4E, 0x47, 0x0D, 0x0A, 0x1A, 0x0A]),
            ImageFormatChoice::Jpeg => begins_with(bytes, seq![0xFFu8, 0xD8, 0xFF, 0xE0]),
            ImageFormatChoice::Webp => {
                &&& begins_with(bytes, seq![0x52u8, 0x49, 0x46, 0x46])
                &&& 12 <= bytes.len()
                &&& bytes.subrange(8, 12) == seq![0x57u8, 0x45, 0x42, 0x50]
            },
            ImageFormatChoice::Gif => begins_with(bytes, seq![0x47u8, 0x49, 0x46, 0x38, 0x39, 0x61]),
            ImageFormatChoice::Bmp => begins_with(bytes, seq![0x42u8, 0x4D]),
            ImageFormatChoice::Tiff => {
                ||| begins_with(bytes, seq![0x49u8, 0x49, 0x2A, 0x00])
                ||| begins_with(bytes, seq![0x4Du8, 0x4D, 0x00, 0x2A])
            },
            ImageFormatChoice::Ico => begins_with(bytes, seq![0x00u8, 0x00, 0x01, 0x00]),
        }
    }

    /// The file extension written for this format.
    pub fn extension(&self) -> (e: &'static str)
        ensures
            e@ == self.extension_spec(),
    {
        match self {
            ImageFormatChoice::Png => "png",
            ImageFormatChoice::Jpeg => "jpg",
            ImageFormatChoice::Webp => "webp",
            ImageFormatChoice::Gif => "gif",
            ImageFormatChoice::Bmp => "bmp",
            ImageFormatChoice::Tiff => "tiff",
            ImageFormatChoice::Ico => "ico",
        }
    }

    /// The `image` crate's format value of the same name
    /// (`ImageFormat::Png`, `Jpeg`, `WebP`, `Gif`, `Bmp`, `Tiff`, `Ico`); nothing
    /// is stated of it, the value being opaque here.
    #[verifier::external_body]
    pub fn to_image_format(&self) -> ImageFormat {
        match self {
            ImageFormatChoice::Png => ImageFormat::Png,
            ImageFormatChoice::Jpeg => ImageFormat::Jpeg,
            ImageFormatChoice::Webp => ImageFormat::WebP,
            ImageFormatChoice::Gif => ImageFormat::Gif,
            ImageFormatChoice::Bmp => ImageFormat::Bmp,
            ImageFormatChoice::Tiff => ImageFormat::Tiff,
            ImageFormatChoice::Ico => ImageFormat::Ico,
        }
    }
}

/// A resampling filter for resizing.
#[derive(Debug, Clone, Copy, PartialEq, Eq, Structural)]
pub enum FilterMode {
    Nearest,
    Triangle,
    CatmullRom,
    Gaussian,
    Lanczos3,
}

impl Default for FilterMode {
    fn default() -> (m: Self)
        ensures
            m == FilterMode::Lanczos3,
    {
        FilterMode::Lanczos3
    }
}

impl FilterMode {
    /// The `image` crate's filter of the same name (`FilterType::Nearest`,
    /// `Triangle`, `CatmullRom`, `Gaussian`, `Lanczos3`); nothing is stated of it,
    /// the value being opaque here.
    #[verifier::external_body]
    pub fn to_filter_type(&self) -> FilterType {
        match self {
            FilterMode::Nearest => FilterType::Nearest,
            FilterMode::Triangle => FilterType::Triangle,
            FilterMode::CatmullRom => FilterType::CatmullRom,
            FilterMode::Gaussian => FilterType::Gaussian,
            FilterMode::Lanczos3 => FilterType::Lanczos3,
        }
    }
}

/// How a resize fits the requested box.
#[derive(Debug, Clone, Copy, PartialEq, Eq, Structural)]
pub enum ResizeFitMode {
    Fit,
    Fill,
    Exact,
    Stretch,
}

impl Default for ResizeFitMode {
    fn default() -> (m: Self)
        ensures
            m == ResizeFitMode::Fit,
    {
        ResizeFitMode::Fit
    }
}

/// Where an overlay is placed on the base image.
#[derive(Debug, Clone, Copy, PartialEq, Eq, Structural)]
pub enum AnchorPosition {
    TopLeft,
    TopCenter,
    TopRight,
    CenterLeft,
    Center,
    CenterRight,
    BottomLeft,
    BottomCenter,
    BottomRight,
}

impl Default for AnchorPosition {
    fn default() -> (a: Self)
        ensures
            a == AnchorPosition::BottomRight,
    {
        AnchorPosition::BottomRight
    }
}

/// The output format that a (lower-cased) file extension names.
pub open spec fn format_of_extension(ext: Seq<char>) -> Option<ImageFormatChoice> {
    if ext == "jpg"@ || ext == "jpeg"@ {
        Some(ImageFormatChoice::Jpeg)
    } else if ext == "png"@ {
        Some(ImageFormatChoice::Png)
    } else if ext == "webp"@ {
        Some(ImageFormatChoice::Webp)
    } else if ext == "gif"@ {
        Some(ImageFormatChoice::Gif)
    } else if ext == "bmp"@ {
        Some(ImageFormatChoice::Bmp)
    } else if ext == "tiff"@ || ext == "tif"@ {
        Some(ImageFormatChoice::Tiff)
    } else if ext == "ico"@ {
        Some(ImageFormatChoice::Ico)
    } else {
        None
    }
}

/// The output format that the (lower-cased) extension `ext` names, if any.
pub fn format_for_extension(ext: &[char]) -> (f: Option<ImageFormatChoice>)
    ensures
        f == format_of_extension(ext@),
{
    if chars_eq_str(ext, "jpg") || chars_eq_str(ext, "jpeg") {
        Some(ImageFormatChoice::Jpeg)
    } else if chars_eq_str(ext, "png") {
        Some(ImageFormatChoice::Png)
    } else if chars_eq_str(ext, "webp") {
        Some(ImageFormatChoice::Webp)
    } else if chars_eq_str(ext, "gif") {
        Some(ImageFormatChoice::Gif)
    } else if chars_eq_str(ext, "bmp") {
        Some(ImageFormatChoice::Bmp)
    } else if chars_eq_str(ext, "tiff") || chars_eq_str(ext, "tif") {
        Some(ImageFormatChoice::Tiff)
    } else if chars_eq_str(ext, "ico") {
        Some(ImageFormatChoice::Ico)
    } else {
        None
    }
}

/// Whether a (lower-cased) file extension is one the batch runner picks up.
pub open spec fn is_supported_extension(ext: Seq<char>) -> bool {
    ||| ext == "png"@
    ||| ext == "jpg"@
    ||| ext == "jpeg"@
    ||| ext == "webp"@
    ||| ext == "gif"@
    ||| ext == "bmp"@
    ||| ext == "tiff"@
    ||| ext == "tif"@
    ||| ext == "ico"@
}

/// Whether the (lower-cased) extension `ext` is one the batch runner picks up.
pub fn supported_extension(ext: &[char]) -> (b: bool)
    ensures
        b == is_supported_extension(ext@),
{
    chars_eq_str(ext, "png") || chars_eq_str(ext, "jpg") || chars_eq_str(ext, "jpeg")
        || chars_eq_str(ext, "webp") || chars_eq_str(ext, "gif") || chars_eq_str(ext, "bmp")
        || chars_eq_str(ext, "tiff") || chars_eq_str(ext, "tif") || chars_eq_str(ext, "ico")
}

/// The extension written for a format reads back as that format, and is one
/// the batch runner picks up.
pub proof fn lemma_extension_reads_back(f: ImageFormatChoice)
    ensures
        format_of_extension(f.extension_spec()) == Some(f),
        is_supported_extension(f.extension_spec()),
{
    reveal_strlit("jpg");
    reveal_strlit("jpeg");
    reveal_strlit("png");
    reveal_strlit("webp");
    reveal_strlit("gif");
    reveal_strlit("bmp");
    reveal_strlit("tiff");
    reveal_strlit("tif");
    reveal_strlit("ico");
    match f {
        ImageFormatChoice::Png => {
            assert("png"@[0] != "jpg"@[0]);
            assert("png"@.len() != "jpeg"@.len());
        },
        ImageFormatChoice::Jpeg => {},
        ImageFormatChoice::Webp => {
            assert("webp"@.len() != "jpg"@.len());
            assert("webp"@[0] != "jpeg"@[0]);
            assert("webp"@.len() != "png"@.len());
        },
        ImageFormatChoice::Gif => {
            assert("gif"@[0] != "jpg"@[0]);
            assert("gif"@.len() != "jpeg"@.len());
            assert("gif"@[0] != "png"@[0]);
            assert("gif"@.len() != "webp"@.len());
        },
        ImageFormatChoice::Bmp => {
            assert("bmp"@[0] != "jpg"@[0]);
            assert("bmp"@.len() != "jpeg"@.len());
            assert("bmp"@[0] != "png"@[0]);
            assert("bmp"@.len() != "webp"@.len());
            assert("bmp"@[0] != "gif"@[0]);
        },
        ImageFormatChoice::Tiff => {
            assert("tiff"@.len() != "jpg"@.len());
            assert("tiff"@[0] != "jpeg"@[0]);
            assert("tiff"@.len() != "png"@.len());
            assert("tiff"@[0] != "webp"@[0]);
            assert("tiff"@.len() != "gif"@.len());
            assert("tiff"@.len() != "bmp"@.len());
        },
        ImageFormatChoice::Ico => {
            assert("ico"@[0] != "jpg"@[0]);
            assert("ico"@.len() != "jpeg"@.len());
            assert("ico"@[0] != "png"@[0]);
            assert("ico"@.len() != "webp"@.len());
            assert("ico"@[0] != "gif"@[0]);
            assert("ico"@[0] != "bmp"@[0]);
            assert("ico"@.len() != "tiff"@.len());
            assert("ico"@[0] != "tif"@[0]);
        },
    }
}

} // verus!
