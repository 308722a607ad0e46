//! Declarations of the image crate's types that the library carries through its logic.
use vstd::prelude::*;
use image::imageops::FilterType;
use image::{DynamicImage, ImageFormat};
use crate::formats::{begins_with, ImageFormatChoice};

verus! {

/// A decoded image of the `image` crate; opaque to the proofs, carried by value.
#[verifier::external_type_specification]
#[verifier::external_body]
pub struct ExDynamicImage(DynamicImage);

/// The `image` crate's enumeration of file formats; opaque to the proofs.
#[verifier::external_type_specification]
#[verifier::external_body]
pub struct ExImageFormat(ImageFormat);

/// The `image` crate's resampling filters; opaque to the proofs.
#[verifier::external_type_specification]
#[verifier::external_body]
pub struct ExFilterType(FilterType);

} // verus!

verus! {

/// The first file extension that the `image` crate lists
/// (`ImageFormat::extensions_str()[0]`) for the format that
/// `image::guess_format` recognises from the leading magic bytes of `bytes`,
/// `None` when it recognises none: the crate's magic-byte table, tried in its
/// order. The WebP entry ignores the four size bytes after `RIFF`, the AVIF
/// entry the third and fourth bytes.
#[verifier::opaque]
pub open spec fn guessed_format_ext(bytes: Seq<u8>) -> Option<Seq<char>> {
    if begins_with(bytes, seq![0x89u8, 0x50, 0x4E, 0x47, 0x0D, 0x0A, 0x1A, 0x0A]) {
        Some("png"@)
    } else if begins_with(bytes, seq![0xFFu8, 0xD8, 0xFF]) {
        Some("jpg"@)
    } else if begins_with(bytes, seq![0x47u8, 0x49, 0x46, 0x38, 0x39, 0x61]) {
        Some("gif"@)
    } else if begins_with(bytes, seq![0x47u8, 0x49, 0x46, 0x38, 0x37, 0x61]) {
        Some("gif"@)
    } else if 12 <= bytes.len() && bytes.take(4) == seq![0x52u8, 0x49, 0x46, 0x46] && bytes.subrange(8, 12) == seq![0x57u8, 0x45, 0x42, 0x50] {
        Some("webp"@)
    } else if begins_with(bytes, seq![0x4Du8, 0x4D, 0x00, 0x2A]) {
        Some("tiff"@)
    } else if begins_with(bytes, seq![0x49u8, 0x49, 0x2A, 0x00]) {
        Some("tiff"@)
    } else if begins_with(bytes, seq![0x44u8, 0x44, 0x53, 0x20]) {
        Some("dds"@)
    } else if begins_with(bytes, seq![0x42u8, 0x4D]) {
        Some("bmp"@)
    } else if begins_with(bytes, seq![0x00u8, 0x00, 0x01, 0x00]) {
        Some("ico"@)
    } else if begins_with(bytes, seq![0x23u8, 0x3F, 0x52, 0x41, 0x44, 0x49, 0x41, 0x4E, 0x43, 0x45]) {
        Some("hdr"@)
    } else if 12 <= bytes.len() && bytes[0] == 0 && bytes[1] == 0 && bytes.subrange(4, 12) == seq![0x66u8, 0x74, 0x79, 0x70, 0x61, 0x76, 0x69, 0x66] {
        Some("avif"@)
    } else if begins_with(bytes, seq![0x76u8, 0x2F, 0x31, 0x01]) {
        Some("exr"@)
    } else if begins_with(bytes, seq![0x71u8, 0x6F, 0x69, 0x66]) {
        Some("qoi"@)
    } else if begins_with(bytes, seq![0x50u8, 0x31]) {
        Some("pbm"@)
    } else if begins_with(bytes, seq![0x50u8, 0x32]) {
        Some("pbm"@)
    } else if begins_with(bytes, seq![0x50u8, 0x33]) {
        Some("pbm"@)
    } else if begins_with(bytes, seq![0x50u8, 0x34]) {
        Some("pbm"@)
    } else if begins_with(bytes, seq![0x50u8, 0x35]) {
        Some("pbm"@)
    } else if begins_with(bytes, seq![0x50u8, 0x36]) {
        Some("pbm"@)
    } else if begins_with(bytes, seq![0x50u8, 0x37]) {
        Some("pbm"@)
    } else if begins_with(bytes, seq![0x66u8, 0x61, 0x72, 0x62, 0x66, 0x65, 0x6C, 0x64]) {
        Some("ff"@)
    } else {
        None
    }
}

/// The image `image::load_from_memory_with_format` decodes from `bytes` in the
/// format that `ImageFormat::from_extension` gives for `ext`, none when that
/// names no format or decoding fails.
pub uninterp spec fn decoded_as(bytes: Seq<u8>, ext: Seq<char>) -> Option<DynamicImage>;

/// The image `image::load_from_memory` decodes from `bytes` (format guessed),
/// none when decoding fails.
pub uninterp spec fn decoded_guessing(bytes: Seq<u8>) -> Option<DynamicImage>;

/// Whether `bytes` decode in the format named by `ext`.
pub open spec fn decodes_as(bytes: Seq<u8>, ext: Seq<char>) -> bool {
    decoded_as(bytes, ext) is Some
}

/// Whether `bytes` decode with a guessed format.
pub open spec fn decodes_guessing(bytes: Seq<u8>) -> bool {
    decoded_guessing(bytes) is Some
}

/// `image::guess_format`, the format given by its canonical (first listed)
/// extension, `ImageFormat::extensions_str()[0]`; the contract names the
/// result and claims nothing more.
#[verifier::external_body]
pub(crate) fn guess_format_ext(bytes: &[u8]) -> (r: Option<String>)
    ensures
        match r {
            Some(e) => guessed_format_ext(bytes@) == Some(e@),
            None => guessed_format_ext(bytes@) is None,
        },
{
    match image::guess_format(bytes) {
        Ok(f) => Some(f.extensions_str()[0].to_string()),
        Err(_) => None,
    }
}

/// `image::load_from_memory_with_format` with the format that
/// `ImageFormat::from_extension(ext)` names (no image when it names none);
/// decoding is a function of the bytes and the format, so the image is named.
#[verifier::external_body]
pub(crate) fn decode_with_format_ext(bytes: &[u8], ext: &str) -> (r: Option<DynamicImage>)
    ensures
        r == decoded_as(bytes@, ext@),
{
    match ImageFormat::from_extension(ext) {
        Some(f) => image::load_from_memory_with_format(bytes, f).ok(),
        None => None,
    }
}

/// `image::load_from_memory`: decoding with the format guessed from the bytes;
/// decoding is a function of the bytes, so the image is named.
#[verifier::external_body]
pub(crate) fn decode_guessing_format(bytes: &[u8]) -> (r: Option<DynamicImage>)
    ensures
        r == decoded_guessing(bytes@),
{
    image::load_from_memory(bytes).ok()
}

} // verus!

verus! {

/// The bytes `JpegEncoder::new_with_quality(buffer, quality).encode_image(img)`
/// writes into an empty buffer, or none when it fails.
pub uninterp spec fn jpeg_encoding(img: DynamicImage, quality: u8) -> Option<Seq<u8>>;

/// The bytes `DynamicImage::write_to` writes into an empty in-memory cursor in
/// the `image` crate's format of the same name as `format`, or none when it
/// fails.
pub uninterp spec fn written_encoding(img: DynamicImage, format: ImageFormatChoice) -> Option<Seq<u8>>;

/// The encoded bytes of an encoding result, none for an error.
pub open spec fn encoded_bytes(r: Result<Vec<u8>, String>) -> Option<Seq<u8>> {
    match r {
        Ok(bytes) => Some(bytes@),
        Err(_) => None,
    }
}

/// `JpegEncoder::new_with_quality(buffer, quality).encode_image(img)` into an
/// in-memory buffer; the bytes written, or the encoder's error message. The
/// encoder is a function of the pixels and the quality alone, so its outcome is
/// named. `encode_image` fails before writing anything when a side is 0 or
/// above 65535, and otherwise writes the start-of-image marker and then the
/// APP0 segment marker first, so bytes that come back open with FF D8 FF E0.
/// The error message is not named.
#[verifier::external_body]
pub(crate) fn encode_jpeg(img: &DynamicImage, quality: u8) -> (r: Result<Vec<u8>, String>)
    ensures
        encoded_bytes(r) == jpeg_encoding(*img, quality),
        r matches Ok(bytes) ==> ImageFormatChoice::Jpeg.opens_with_signature(bytes@),
{
    let mut buffer = Vec::new();
    let mut encoder = image::codecs::jpeg::JpegEncoder::new_with_quality(&mut buffer, quality);
    match encoder.encode_image(img) {
        Ok(()) => Ok(buffer),
        Err(e) => Err(e.to_string()),
    }
}

/// `DynamicImage::write_to` an in-memory cursor in the `image` crate's format
/// of the same name as `format`; the bytes written, or the encoder's error
/// message. Each encoder that `write_to` picks writes its format's file
/// signature before anything else (the TIFF encoder later seeks back only past
/// it), so bytes that come back open with that signature. Outside TIFF the
/// encoders are functions of the pixels alone, so the outcome is named; the
/// TIFF encoder writes in the byte order of the machine it runs on, so its
/// bytes are not named. The error message is not named.
#[verifier::external_body]
pub(crate) fn encode_in_format(img: &DynamicImage, format: ImageFormatChoice) -> (r: Result<Vec<u8>, String>)
    ensures
        format != ImageFormatChoice::Tiff ==> encoded_bytes(r) == written_encoding(*img, format),
        r matches Ok(bytes) ==> format.opens_with_signature(bytes@),
{
    let mut buffer = Vec::new();
    match img.write_to(&mut std::io::Cursor::new(&mut buffer), format.to_image_format()) {
        Ok(()) => Ok(buffer),
        Err(e) => Err(e.to_string()),
    }
}

} // verus!
