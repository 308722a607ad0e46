//! The universal reader: rescues image bytes from Base64 data URIs and
//! polyglot files, refuses web pages, decodes with fallbacks and scores the
//! health of what it read.
use vstd::prelude::*;
use vstd::utf8::encode_utf8;
use image::DynamicImage;
use base64::Engine;
use crate::imaging::{
    decode_guessing_format, decode_with_format_ext, decoded_as, decoded_guessing, decodes_as, decodes_guessing, guess_format_ext,
    guessed_format_ext,
};
use crate::paths::{extension_of, opt_view, path_extension};
use crate::text::{
    bytes_contain, chars_eq, chars_eq_str, chars_of, contains_seq, copy_range, find_subslice,
    first_occurrence, from_utf8_lossy, lowercased, lossy_text, string_of, to_lowercase, trim, trim_str,
    ascii_lower, ascii_lower_char, is_ascii_text,
};

verus! {

// ---------------------------------------------------------------------------
// Base64 data URIs
// ---------------------------------------------------------------------------

/// What the `base64` crate's `STANDARD` engine decodes these bytes to (`None`
/// when they are not valid padded standard Base64).
pub uninterp spec fn base64_standard_decoded(input: Seq<u8>) -> Option<Seq<u8>>;

/// `base64::engine::general_purpose::STANDARD.decode`, its error dropped; the
/// contract names the result.
#[verifier::external_body]
fn base64_decode(input: &[u8]) -> (r: Option<Vec<u8>>)
    ensures
        match r {
            Some(v) => base64_standard_decoded(input@) == Some(v@),
            None => base64_standard_decoded(input@) is None,
        },
{
    base64::engine::general_purpose::STANDARD.decode(input).ok()
}

/// The bytes of `;base64,`.
pub open spec fn base64_marker() -> Seq<u8> {
    seq![0x3bu8, 0x62, 0x61, 0x73, 0x65, 0x36, 0x34, 0x2c]
}

fn base64_marker_bytes() -> (v: Vec<u8>)
    ensures
        v@ == base64_marker(),
{
    let v = vec![0x3bu8, 0x62, 0x61, 0x73, 0x65, 0x36, 0x34, 0x2c];
    assert(v@ =~= base64_marker());
    v
}

pub open spec fn min_len(a: int, b: int) -> int {
    if a <= b { a } else { b }
}

/// The image bytes inside a Base64 data URI: the first kilobyte, read as
/// lower-cased text, must hold `;base64,`; what follows it in the file, read
/// as text and trimmed, must decode as Base64. Files under 20 bytes are never
/// data URIs.
pub open spec fn data_uri_payload(bytes: Seq<u8>) -> Option<Seq<u8>> {
    if bytes.len() < 20 {
        None
    } else {
        let text = encode_utf8(lowercased(lossy_text(bytes.take(min_len(bytes.len() as int, 1024)))));
        match first_occurrence(text, base64_marker()) {
            Some(idx) => if idx + 8 < bytes.len() {
                base64_standard_decoded(encode_utf8(trim(lossy_text(bytes.skip(idx + 8)))))
            } else {
                None
            },
            None => None,
        }
    }
}

/// Decodes the image held in a Base64 data URI, if `bytes` is one.
pub fn try_decode_base64_data_uri(bytes: &[u8]) -> (r: Option<Vec<u8>>)
    ensures
        match r {
            Some(v) => data_uri_payload(bytes@) == Some(v@),
            None => data_uri_payload(bytes@) is None,
        },
{
    if bytes.len() < 20 {
        return None;
    }
    let n = if bytes.len() < 1024 {
        bytes.len()
    } else {
        1024
    };
    let head = copy_range(bytes, 0, n);
    assert(head@ =~= bytes@.take(min_len(bytes@.len() as int, 1024)));
    let text = from_utf8_lossy(head.as_slice());
    let lowered = to_lowercase(text.as_str());
    let marker = base64_marker_bytes();
    match find_subslice(lowered.as_str().as_bytes(), marker.as_slice()) {
        Some(idx) => {
            if idx < bytes.len() && bytes.len() - idx > 8 {
                let start = idx + 8;
                let rest = copy_range(bytes, start, bytes.len());
                assert(rest@ =~= bytes@.skip(start as int));
                let payload_text = from_utf8_lossy(rest.as_slice());
                let trimmed = string_of(trim_str(payload_text.as_str()).as_slice());
                base64_decode(trimmed.as_str().as_bytes())
            } else {
                None
            }
        },
        None => None,
    }
}

// ---------------------------------------------------------------------------
// Polyglot streams
// ---------------------------------------------------------------------------

/// JPEG magic `FF D8 FF`.
pub open spec fn jpeg_magic() -> Seq<u8> {
    seq![0xffu8, 0xd8, 0xff]
}

/// PNG magic `89 50 4E 47`.
pub open spec fn png_magic() -> Seq<u8> {
    seq![0x89u8, 0x50, 0x4e, 0x47]
}

/// GIF magic `GIF8`.
pub open spec fn gif_magic() -> Seq<u8> {
    seq![0x47u8, 0x49, 0x46, 0x38]
}

/// The `RIFF` tag of a WebP container.
pub open spec fn riff_magic() -> Seq<u8> {
    seq![0x52u8, 0x49, 0x46, 0x46]
}

/// The `WEBP` tag, eight bytes after `RIFF`.
pub open spec fn webp_tag() -> Seq<u8> {
    seq![0x57u8, 0x45, 0x42, 0x50]
}

/// The part of the file that the polyglot scanner searches: its first 2048 bytes.
pub open spec fn scan_window(bytes: Seq<u8>) -> Seq<u8> {
    bytes.take(min_len(bytes.len() as int, 2048))
}

/// Whether `magic` first occurs in the scan window at a position after the start.
pub open spec fn found_after_start(bytes: Seq<u8>, magic: Seq<u8>) -> bool {
    match first_occurrence(scan_window(bytes), magic) {
        Some(p) => p > 0,
        None => false,
    }
}

/// The scanner reads the four bytes eight past `RIFF` only when the file has
/// them or is shorter than eight past it; inputs between those lengths are
/// ones it cannot scan (their bytes would be read past the end).
pub open spec fn polyglot_scan_defined(bytes: Seq<u8>) -> bool {
    ||| found_after_start(bytes, jpeg_magic())
    ||| found_after_start(bytes, png_magic())
    ||| found_after_start(bytes, gif_magic())
    ||| match first_occurrence(scan_window(bytes), riff_magic()) {
        Some(p) => p + 8 >= bytes.len() || p + 12 <= bytes.len(),
        None => true,
    }
}

/// The image stream embedded in a polyglot file: the rest of the file from the
/// first JPEG, PNG, GIF or (RIFF...WEBP) signature in its first 2048 bytes,
/// tried in that order, when that signature is not at the very start.
pub open spec fn polyglot_stream(bytes: Seq<u8>) -> Option<Seq<u8>> {
    if found_after_start(bytes, jpeg_magic()) {
        Some(bytes.skip(first_occurrence(scan_window(bytes), jpeg_magic())->0))
    } else if found_after_start(bytes, png_magic()) {
        Some(bytes.skip(first_occurrence(scan_window(bytes), png_magic())->0))
    } else if found_after_start(bytes, gif_magic()) {
        Some(bytes.skip(first_occurrence(scan_window(bytes), gif_magic())->0))
    } else {
        match first_occurrence(scan_window(bytes), riff_magic()) {
            Some(p) => if p + 8 < bytes.len() && bytes.subrange(p + 8, p + 12) == webp_tag() && p > 0 {
                Some(bytes.skip(p))
            } else {
                None
            },
            None => None,
        }
    }
}

fn window_hit(window: &[u8], bytes: &[u8], magic: &[u8]) -> (r: Option<Vec<u8>>)
    requires
        magic@.len() > 0,
        window@ == scan_window(bytes@),
    ensures
        found_after_start(bytes@, magic@) ==> (r matches Some(v) && v@ == bytes@.skip(
            first_occurrence(window@, magic@)->0,
        )),
        !found_after_start(bytes@, magic@) ==> r is None,
{
    match find_subslice(window, magic) {
        Some(pos) => {
            if pos > 0 {
                assert(pos <= bytes@.len());
                let v = copy_range(bytes, pos, bytes.len());
                assert(v@ =~= bytes@.skip(pos as int));
                Some(v)
            } else {
                None
            }
        },
        None => None,
    }
}

/// Extracts the image stream embedded after a text prefix (an HTML page, a
/// script, a log) when a known signature appears in the first 2048 bytes.
pub fn extract_polyglot_image_stream(bytes: &[u8]) -> (r: Option<Vec<u8>>)
    requires
        polyglot_scan_defined(bytes@),
    ensures
        match r {
            Some(v) => polyglot_stream(bytes@) == Some(v@),
            None => polyglot_stream(bytes@) is None,
        },
{
    let n = if bytes.len() < 2048 {
        bytes.len()
    } else {
        2048
    };
    let window = copy_range(bytes, 0, n);
    assert(window@ =~= scan_window(bytes@));
    let jpeg = vec![0xffu8, 0xd8, 0xff];
    assert(jpeg@ =~= jpeg_magic());
    if let Some(v) = window_hit(window.as_slice(), bytes, jpeg.as_slice()) {
        return Some(v);
    }
    let png = vec![0x89u8, 0x50, 0x4e, 0x47];
    assert(png@ =~= png_magic());
    if let Some(v) = window_hit(window.as_slice(), bytes, png.as_slice()) {
        return Some(v);
    }
    let gif = vec![0x47u8, 0x49, 0x46, 0x38];
    assert(gif@ =~= gif_magic());
    if let Some(v) = window_hit(window.as_slice(), bytes, gif.as_slice()) {
        return Some(v);
    }
    let riff = vec![0x52u8, 0x49, 0x46, 0x46];
    assert(riff@ =~= riff_magic());
    match find_subslice(window.as_slice(), riff.as_slice()) {
        Some(pos) => {
            if pos < bytes.len() && bytes.len() - pos > 8 {
                assert(pos + 12 <= bytes@.len());
                let tag = copy_range(bytes, pos + 8, pos + 12);
                let webp = vec![0x57u8, 0x45, 0x42, 0x50];
                assert(webp@ =~= webp_tag());
                let is_webp = tag[0] == webp[0] && tag[1] == webp[1] && tag[2] == webp[2] && tag[3]
                    == webp[3];
                assert(is_webp == (tag@ == webp@)) by {
                    if is_webp {
                        assert(tag@ =~= webp@);
                    }
                }
                if is_webp && pos > 0 {
                    let v = copy_range(bytes, pos, bytes.len());
                    assert(v@ =~= bytes@.skip(pos as int));
                    return Some(v);
                }
            }
            None
        },
        None => None,
    }
}

// ---------------------------------------------------------------------------
// Web pages and text documents
// ---------------------------------------------------------------------------

/// The bytes of `<!doctype html`.
pub open spec fn doctype_marker() -> Seq<u8> {
    seq![0x3cu8, 0x21, 0x64, 0x6f, 0x63, 0x74, 0x79, 0x70, 0x65, 0x20, 0x68, 0x74, 0x6d, 0x6c]
}

/// The bytes of `<html`.
pub open spec fn html_marker() -> Seq<u8> {
    seq![0x3cu8, 0x68, 0x74, 0x6d, 0x6c]
}

/// The bytes of `404 not found`.
pub open spec fn not_found_marker() -> Seq<u8> {
    seq![0x34u8, 0x30, 0x34, 0x20, 0x6e, 0x6f, 0x74, 0x20, 0x66, 0x6f, 0x75, 0x6e, 0x64]
}

/// The bytes of `<head>`.
pub open spec fn head_marker() -> Seq<u8> {
    seq![0x3cu8, 0x68, 0x65, 0x61, 0x64, 0x3e]
}

/// Whether the file is a web page or error page rather than an image: its
/// first 512 bytes, as lower-cased text, hold `<!doctype html`, `<html`,
/// `404 not found` or `<head>`, and no `;base64,`.
pub open spec fn is_text_document(bytes: Seq<u8>) -> bool {
    let text = encode_utf8(lowercased(lossy_text(bytes.take(min_len(bytes.len() as int, 512)))));
    (contains_seq(text, doctype_marker()) || contains_seq(text, html_marker()) || contains_seq(
        text,
        not_found_marker(),
    ) || contains_seq(text, head_marker())) && !contains_seq(text, base64_marker())
}

/// Whether every byte of `b` is ASCII.
pub open spec fn is_ascii_bytes(b: Seq<u8>) -> bool {
    forall|i: int| 0 <= i < b.len() ==> #[trigger] b[i] < 128
}

/// `u8::to_ascii_lowercase`.
pub open spec fn ascii_lower_byte(b: u8) -> u8 {
    if 65 <= b <= 90 {
        (b + 32) as u8
    } else {
        b
    }
}

proof fn lemma_ascii_decodes(b: Seq<u8>)
    requires
        is_ascii_bytes(b),
    ensures
        vstd::utf8::valid_utf8(b),
        vstd::utf8::decode_utf8(b) == b.map_values(|x: u8| x as char),
    decreases b.len(),
{
    if b.len() > 0 {
        let x = b[0];
        assert(x & 0x7F == x) by (bit_vector)
            requires
                x < 128,
        ;
        let rest = b.subrange(1, b.len() as int);
        assert(vstd::utf8::pop_first_scalar(b) == rest);
        assert forall|i: int| 0 <= i < rest.len() implies #[trigger] rest[i] < 128 by {
            assert(rest[i] == b[i + 1]);
        }
        lemma_ascii_decodes(rest);
        assert(b.map_values(|x: u8| x as char) =~= seq![x as char] + rest.map_values(|x: u8| x as char));
    } else {
        assert(b.map_values(|x: u8| x as char) =~= Seq::<char>::empty());
    }
}

proof fn lemma_ascii_encodes(s: Seq<char>)
    requires
        is_ascii_text(s),
    ensures
        encode_utf8(s) == s.map_values(|c: char| (c as u32) as u8),
    decreases s.len(),
{
    if s.len() > 0 {
        let v = s[0] as u32;
        assert(v < 128);
        assert(v & 0x7F == v) by (bit_vector)
            requires
                v < 128,
        ;
        let rest = s.drop_first();
        assert forall|i: int| 0 <= i < rest.len() implies (#[trigger] rest[i] as u32) < 128 by {
            assert(rest[i] == s[i + 1]);
        }
        lemma_ascii_encodes(rest);
        assert(vstd::utf8::encode_scalar(v) == seq![(v & 0x7F) as u8]);
        assert((v & 0x7F) as u8 == v as u8);
        assert((v & 0x7F) as u8 == (s[0] as u32) as u8);
        assert(encode_utf8(s) == vstd::utf8::encode_scalar(v) + encode_utf8(rest));
        assert(s.map_values(|c: char| (c as u32) as u8) =~= seq![(s[0] as u32) as u8] + rest.map_values(|c: char| (c as u32) as u8));
    } else {
        assert(s.map_values(|c: char| (c as u32) as u8) =~= Seq::<u8>::empty());
    }
}

/// For ASCII bytes the web-page test is a plain byte search: the first 512
/// bytes, lower-cased byte by byte, hold `<!doctype html`, `<html`,
/// `404 not found` or `<head>`, and no `;base64,`.
pub proof fn lemma_text_document_of_ascii(bytes: Seq<u8>)
    requires
        is_ascii_bytes(bytes),
    ensures
        is_text_document(bytes) == {
            let t = bytes.take(min_len(bytes.len() as int, 512)).map_values(|b: u8| ascii_lower_byte(b));
            (contains_seq(t, doctype_marker()) || contains_seq(t, html_marker()) || contains_seq(
                t,
                not_found_marker(),
            ) || contains_seq(t, head_marker())) && !contains_seq(t, base64_marker())
        },
{
    let h = bytes.take(min_len(bytes.len() as int, 512));
    assert forall|i: int| 0 <= i < h.len() implies #[trigger] h[i] < 128 by {
        assert(h[i] == bytes[i]);
    }
    lemma_ascii_decodes(h);
    let c = h.map_values(|x: u8| x as char);
    assert(is_ascii_text(c)) by {
        assert forall|i: int| 0 <= i < c.len() implies (#[trigger] c[i] as u32) < 128 by {
            assert(c[i] == h[i] as char);
        }
    }
    assert(lossy_text(h) == c);
    let l = ascii_lower(c);
    assert(is_ascii_text(l)) by {
        assert forall|i: int| 0 <= i < l.len() implies (#[trigger] l[i] as u32) < 128 by {
            assert(l[i] == ascii_lower_char(c[i]));
        }
    }
    lemma_ascii_encodes(l);
    let lb = l.map_values(|ch: char| (ch as u32) as u8);
    let hb = h.map_values(|b: u8| ascii_lower_byte(b));
    assert(lb =~= hb) by {
        assert forall|i: int| 0 <= i < h.len() implies #[trigger] lb[i] == hb[i] by {
            assert(l[i] == ascii_lower_char(c[i]));
            assert(c[i] == h[i] as char);
        }
    }
}

/// Whether `bytes` is an HTML page or text document instead of an image.
pub fn is_html_or_text_doc(bytes: &[u8]) -> (b: bool)
    ensures
        b == is_text_document(bytes@),
{
    let n = if bytes.len() < 512 {
        bytes.len()
    } else {
        512
    };
    let head = copy_range(bytes, 0, n);
    assert(head@ =~= bytes@.take(min_len(bytes@.len() as int, 512)));
    let text = from_utf8_lossy(head.as_slice());
    let lowered = to_lowercase(text.as_str());
    let t = lowered.as_str().as_bytes();
    let doctype = vec![0x3cu8, 0x21, 0x64, 0x6f, 0x63, 0x74, 0x79, 0x70, 0x65, 0x20, 0x68, 0x74, 0x6d, 0x6c];
    assert(doctype@ =~= doctype_marker());
    let html = vec![0x3cu8, 0x68, 0x74, 0x6d, 0x6c];
    assert(html@ =~= html_marker());
    let not_found = vec![0x34u8, 0x30, 0x34, 0x20, 0x6e, 0x6f, 0x74, 0x20, 0x66, 0x6f, 0x75, 0x6e, 0x64];
    assert(not_found@ =~= not_found_marker());
    let head_tag = vec![0x3cu8, 0x68, 0x65, 0x61, 0x64, 0x3e];
    assert(head_tag@ =~= head_marker());
    let marker = base64_marker_bytes();
    (bytes_contain(t, doctype.as_slice()) || bytes_contain(t, html.as_slice()) || bytes_contain(
        t,
        not_found.as_slice(),
    ) || bytes_contain(t, head_tag.as_slice())) && !bytes_contain(t, marker.as_slice())
}

// ---------------------------------------------------------------------------
// Decoding with fallbacks
// ---------------------------------------------------------------------------

/// The formats tried in turn when the guessed one fails, by canonical
/// extension: JPEG, PNG, WebP, GIF, BMP, TIFF, ICO, TGA, PNM, HDR, farbfeld,
/// DDS, QOI.
pub open spec fn fallback_exts() -> Seq<Seq<char>> {
    seq![
        "jpg"@,
        "png"@,
        "webp"@,
        "gif"@,
        "bmp"@,
        "tiff"@,
        "ico"@,
        "tga"@,
        "pbm"@,
        "hdr"@,
        "ff"@,
        "dds"@,
        "qoi"@,
    ]
}

fn fallback_ext(i: usize) -> (e: &'static str)
    requires
        i < 13,
    ensures
        e@ == fallback_exts()[i as int],
{
    match i {
        0 => "jpg",
        1 => "png",
        2 => "webp",
        3 => "gif",
        4 => "bmp",
        5 => "tiff",
        6 => "ico",
        7 => "tga",
        8 => "pbm",
        9 => "hdr",
        10 => "ff",
        11 => "dds",
        _ => "qoi",
    }
}

/// The first of `exts` in which `bytes` decode.
pub open spec fn first_decodable(bytes: Seq<u8>, exts: Seq<Seq<char>>) -> Option<Seq<char>>
    decreases exts.len(),
{
    if exts.len() == 0 {
        None
    } else if decodes_as(bytes, exts[0]) {
        Some(exts[0])
    } else {
        first_decodable(bytes, exts.drop_first())
    }
}

/// What the fallback decoders make of `bytes`: `Some(None)` when decoding with
/// a guessed format works, `Some(Some(e))` for the first listed format that
/// works, `None` when nothing does.
pub open spec fn fallback_format(bytes: Seq<u8>) -> Option<Option<Seq<char>>> {
    if decodes_guessing(bytes) {
        Some(None)
    } else {
        match first_decodable(bytes, fallback_exts()) {
            Some(e) => Some(Some(e)),
            None => None,
        }
    }
}

/// Why the universal reader gave up on a file.
#[derive(Debug, Clone, Copy, PartialEq, Eq, Structural)]
pub enum ReadError {
    EmptyFile,
    TextDocument,
    Undecodable,
}

impl ReadError {
    /// The message shown for this error.
    pub open spec fn message_spec(self) -> Seq<char> {
        match self {
            ReadError::EmptyFile => "File is empty (0 bytes)"@,
            ReadError::TextDocument => "File is an HTML webpage or text document (e.g. 404/Error page), not a binary image"@,
            ReadError::Undecodable => "Failed to decode image: unsupported format or severely corrupted binary image stream"@,
        }
    }

    pub fn message(&self) -> (m: String)
        ensures
            m@ == self.message_spec(),
    {
        let s = match self {
            ReadError::EmptyFile => "File is empty (0 bytes)",
            ReadError::TextDocument => "File is an HTML webpage or text document (e.g. 404/Error page), not a binary image",
            ReadError::Undecodable => "Failed to decode image: unsupported format or severely corrupted binary image stream",
        };
        s.to_owned()
    }
}

/// The image that decoding `bytes` in the format `f` names gives (`None`
/// standing for a guessed format).
pub open spec fn decoding_in(bytes: Seq<u8>, f: Option<Seq<char>>) -> Option<DynamicImage> {
    match f {
        Some(e) => decoded_as(bytes, e),
        None => decoded_guessing(bytes),
    }
}

/// Tries decoding with a guessed format, then each fallback format in turn;
/// returns the image and the format it was decoded in (`None` when guessed).
pub fn try_fallback_decoders(bytes: &[u8]) -> (r: Result<(DynamicImage, Option<String>), ReadError>)
    ensures
        match r {
            Ok((img, f)) => fallback_format(bytes@) == Some(opt_view(f)) && decoding_in(bytes@, opt_view(f))
                == Some(img),
            Err(e) => fallback_format(bytes@) is None && e == ReadError::Undecodable,
        },
{
    if let Some(img) = decode_guessing_format(bytes) {
        return Ok((img, None));
    }
    let mut i: usize = 0;
    assert(fallback_exts().skip(0) =~= fallback_exts());
    while i < 13
        invariant
            i <= 13,
            !decodes_guessing(bytes@),
            first_decodable(bytes@, fallback_exts()) == first_decodable(
                bytes@,
                fallback_exts().skip(i as int),
            ),
        decreases 13 - i,
    {
        let ext = fallback_ext(i);
        assert(fallback_exts().skip(i as int)[0] == fallback_exts()[i as int]);
        if let Some(img) = decode_with_format_ext(bytes, ext) {
            let e = ext.to_owned();
            return Ok((img, Some(e)));
        }
        assert(fallback_exts().skip(i as int).drop_first() =~= fallback_exts().skip(i + 1));
        i = i + 1;
    }
    assert(fallback_exts().skip(13) =~= Seq::<Seq<char>>::empty());
    Err(ReadError::Undecodable)
}

/// How decoding went: the format decoded in (by canonical extension; `None`
/// when unknown) and the health penalty (0 when the guessed format decoded,
/// 25 when it did not, 30 when no format was recognised).
pub open spec fn decode_outcome(bytes: Seq<u8>) -> Option<(Option<Seq<char>>, nat)> {
    match guessed_format_ext(bytes) {
        Some(e) => if decodes_as(bytes, e) {
            Some((Some(e), 0))
        } else {
            match fallback_format(bytes) {
                Some(f) => Some((f, 25)),
                None => None,
            }
        },
        None => match fallback_format(bytes) {
            Some(f) => Some((f, 30)),
            None => None,
        },
    }
}

/// The display name of a decoded format.
pub open spec fn format_label(f: Option<Seq<char>>) -> Seq<char> {
    match f {
        Some(e) => if e == "jpg"@ {
            "JPEG"@
        } else if e == "png"@ {
            "PNG"@
        } else if e == "webp"@ {
            "WebP"@
        } else if e == "gif"@ {
            "GIF"@
        } else if e == "bmp"@ {
            "BMP"@
        } else if e == "tiff"@ {
            "TIFF"@
        } else if e == "ico"@ {
            "ICO"@
        } else if e == "tga"@ {
            "TGA"@
        } else if e == "pbm"@ {
            "PNM"@
        } else if e == "hdr"@ {
            "HDR"@
        } else if e == "ff"@ {
            "Farbfeld"@
        } else if e == "dds"@ {
            "DDS"@
        } else if e == "qoi"@ {
            "QOI"@
        } else {
            "IMAGE"@
        },
        None => "IMAGE"@,
    }
}

/// The extension a file in the decoded format should carry; the file's own
/// (lower-cased) extension when the format is not one of the named ones.
pub open spec fn expected_extension(f: Option<Seq<char>>, actual: Seq<char>) -> Seq<char> {
    match f {
        Some(e) => if e == "pbm"@ {
            "pnm"@
        } else if e == "jpg"@ || e == "png"@ || e == "webp"@ || e == "gif"@ || e == "bmp"@ || e
            == "tiff"@ || e == "ico"@ || e == "tga"@ || e == "hdr"@ || e == "ff"@ || e == "dds"@
            || e == "qoi"@ {
            e
        } else {
            actual
        },
        None => actual,
    }
}

fn format_label_of(f: &Option<String>) -> (r: String)
    ensures
        r@ == format_label(opt_view(*f)),
{
    let s = match f {
        Some(e) => {
            let c = chars_of(e.as_str());
            let c = c.as_slice();
            if chars_eq_str(c, "jpg") {
                "JPEG"
            } else if chars_eq_str(c, "png") {
                "PNG"
            } else if chars_eq_str(c, "webp") {
                "WebP"
            } else if chars_eq_str(c, "gif") {
                "GIF"
            } else if chars_eq_str(c, "bmp") {
                "BMP"
            } else if chars_eq_str(c, "tiff") {
                "TIFF"
            } else if chars_eq_str(c, "ico") {
                "ICO"
            } else if chars_eq_str(c, "tga") {
                "TGA"
            } else if chars_eq_str(c, "pbm") {
                "PNM"
            } else if chars_eq_str(c, "hdr") {
                "HDR"
            } else if chars_eq_str(c, "ff") {
                "Farbfeld"
            } else if chars_eq_str(c, "dds") {
                "DDS"
            } else if chars_eq_str(c, "qoi") {
                "QOI"
            } else {
                "IMAGE"
            }
        },
        None => "IMAGE",
    };
    s.to_owned()
}

fn expected_extension_of(f: &Option<String>, actual: &[char]) -> (r: Vec<char>)
    ensures
        r@ == expected_extension(opt_view(*f), actual@),
{
    match f {
        Some(e) => {
            let c = chars_of(e.as_str());
            let cs = c.as_slice();
            if chars_eq_str(cs, "pbm") {
                chars_of("pnm")
            } else if chars_eq_str(cs, "jpg") || chars_eq_str(cs, "png") || chars_eq_str(cs, "webp")
                || chars_eq_str(cs, "gif") || chars_eq_str(cs, "bmp") || chars_eq_str(cs, "tiff")
                || chars_eq_str(cs, "ico") || chars_eq_str(cs, "tga") || chars_eq_str(cs, "hdr")
                || chars_eq_str(cs, "ff") || chars_eq_str(cs, "dds") || chars_eq_str(cs, "qoi") {
                c
            } else {
                copy_range(actual, 0, actual.len())
            }
        },
        None => copy_range(actual, 0, actual.len()),
    }
}

// ---------------------------------------------------------------------------
// The universal read
// ---------------------------------------------------------------------------

/// The outcome of a read, without the decoded pixels.
pub struct ReadSummary {
    pub detected_format: Seq<char>,
    pub extension_mismatch: bool,
    pub expected_ext: Seq<char>,
    pub health_score: nat,
    pub polyglot_extracted: bool,
    pub base64_decoded: bool,
}

/// A decoded image with what the reader found out about its file.
pub struct UniversalReadResult {
    pub image: DynamicImage,
    pub detected_format: String,
    pub extension_mismatch: bool,
    pub expected_ext: String,
    pub health_score: u8,
    pub polyglot_extracted: bool,
    pub base64_decoded: bool,
}

impl UniversalReadResult {
    pub open spec fn summary(self) -> ReadSummary {
        ReadSummary {
            detected_format: self.detected_format@,
            extension_mismatch: self.extension_mismatch,
            expected_ext: self.expected_ext@,
            health_score: self.health_score as nat,
            polyglot_extracted: self.polyglot_extracted,
            base64_decoded: self.base64_decoded,
        }
    }
}

/// The bytes that get decoded, and whether they were rescued from a Base64
/// data URI or from a polyglot file.
pub open spec fn rescued_payload(raw: Seq<u8>) -> (Seq<u8>, bool, bool) {
    match data_uri_payload(raw) {
        Some(d) => (d, true, false),
        None => match polyglot_stream(raw) {
            Some(p) => (p, false, true),
            None => (raw, false, false),
        },
    }
}

/// The lower-cased extension of a path, empty when it has none.
pub open spec fn actual_extension(path: Seq<char>) -> Seq<char> {
    match extension_of(path) {
        Some(e) => lowercased(e),
        None => Seq::empty(),
    }
}

/// Whether a file's extension disagrees with its decoded format (`jpg` and
/// `jpeg` count as the same; a file without extension never disagrees).
pub open spec fn is_extension_mismatch(actual: Seq<char>, expected: Seq<char>) -> bool {
    actual.len() > 0 && expected != actual && !(actual == "jpeg"@ && expected == "jpg"@) && !(
    actual == "jpg"@ && expected == "jpeg"@)
}

/// The inputs the reader can take: those that are empty, hold a data URI, or
/// that the polyglot scanner can scan.
pub open spec fn readable_input(raw: Seq<u8>) -> bool {
    raw.len() == 0 || data_uri_payload(raw) is Some || polyglot_scan_defined(raw)
}

/// What reading a file with path `path` and contents `raw` yields: an error,
/// or the detected format, the extension check and a health score out of 100
/// (less 25 or 30 when the guessed format failed or none was recognised, 15
/// for a wrong extension, 10 for a rescued payload).
pub open spec fn universal_read(path: Seq<char>, raw: Seq<u8>) -> Result<ReadSummary, ReadError> {
    if raw.len() == 0 {
        Err(ReadError::EmptyFile)
    } else {
        let (bytes, b64, poly) = rescued_payload(raw);
        if is_text_document(bytes) {
            Err(ReadError::TextDocument)
        } else {
            match decode_outcome(bytes) {
                Some((f, penalty)) => {
                    let actual = actual_extension(path);
                    let expected = expected_extension(f, actual);
                    let mismatch = is_extension_mismatch(actual, expected);
                    let score = 100 - penalty - (if mismatch { 15int } else { 0 }) - (if b64 || poly {
                        10int
                    } else {
                        0
                    });
                    Ok(
                        ReadSummary {
                            detected_format: format_label(f),
                            extension_mismatch: mismatch,
                            expected_ext: expected,
                            health_score: score as nat,
                            polyglot_extracted: poly,
                            base64_decoded: b64,
                        },
                    )
                },
                None => Err(ReadError::Undecodable),
            }
        }
    }
}

/// The image a read of `raw` returns: the rescued payload decoded in the
/// format that the decode outcome reports.
pub open spec fn read_image(raw: Seq<u8>) -> Option<DynamicImage> {
    let bytes = rescued_payload(raw).0;
    match decode_outcome(bytes) {
        Some((f, _)) => decoding_in(bytes, f),
        None => None,
    }
}

/// `jpg` and `jpeg` name the same format: a file with either extension whose
/// contents are JPEG is never flagged, and any other pair of differing
/// extensions (the file's own being non-empty) is.
pub proof fn lemma_jpeg_extensions_agree(actual: Seq<char>, expected: Seq<char>)
    ensures
        (actual == "jpeg"@ || actual == "jpg"@) && (expected == "jpg"@ || expected == "jpeg"@)
            ==> !is_extension_mismatch(actual, expected),
        actual.len() > 0 && actual != expected && !((actual == "jpeg"@ || actual == "jpg"@) && (expected
            == "jpg"@ || expected == "jpeg"@)) ==> is_extension_mismatch(actual, expected),
{
}

/// Reading a file named `.jpeg` or `.jpg` whose contents decode as JPEG never
/// reports an extension mismatch, and its health score loses nothing for the
/// extension: it is 100 less only the decode penalty and the 10 points of a
/// rescued payload.
pub proof fn lemma_jpeg_file_keeps_its_extension(path: Seq<char>, raw: Seq<u8>)
    requires
        actual_extension(path) == "jpeg"@ || actual_extension(path) == "jpg"@,
        universal_read(path, raw) matches Ok(s) && s.expected_ext == "jpg"@,
    ensures
        match universal_read(path, raw) {
            Ok(s) => !s.extension_mismatch && s.expected_ext == "jpg"@ && match decode_outcome(
                rescued_payload(raw).0,
            ) {
                Some((_, penalty)) => s.health_score == 100 - penalty - (if rescued_payload(raw).1
                    || rescued_payload(raw).2 {
                    10int
                } else {
                    0
                }),
                None => false,
            },
            Err(_) => false,
        },
{
}

/// Reads the image in `raw_bytes`, the contents of the file at `path`.
pub fn load_universal_image_bytes(path: &str, raw_bytes: Vec<u8>) -> (r: Result<UniversalReadResult, ReadError>)
    requires
        readable_input(raw_bytes@),
    ensures
        match r {
            Ok(v) => universal_read(path@, raw_bytes@) == Ok::<ReadSummary, ReadError>(v.summary())
                && read_image(raw_bytes@) == Some(v.image),
            Err(e) => universal_read(path@, raw_bytes@) == Err::<ReadSummary, ReadError>(e),
        },
{
    if raw_bytes.len() == 0 {
        return Err(ReadError::EmptyFile);
    }
    let mut polyglot_extracted = false;
    let mut base64_decoded = false;
    let bytes = match try_decode_base64_data_uri(raw_bytes.as_slice()) {
        Some(decoded) => {
            base64_decoded = true;
            decoded
        },
        None => match extract_polyglot_image_stream(raw_bytes.as_slice()) {
            Some(stream) => {
                polyglot_extracted = true;
                stream
            },
            None => raw_bytes,
        },
    };
    if is_html_or_text_doc(bytes.as_slice()) {
        return Err(ReadError::TextDocument);
    }
    let actual = match path_extension(path) {
        Some(e) => chars_of(to_lowercase(e.as_str()).as_str()),
        None => Vec::new(),
    };
    assert(actual@ == actual_extension(path@));
    let mut health_score: u8 = 100;
    let (img, fmt) = match guess_format_ext(bytes.as_slice()) {
        Some(e) => match decode_with_format_ext(bytes.as_slice(), e.as_str()) {
            Some(img) => (img, Some(e)),
            None => {
                health_score = health_score.saturating_sub(25);
                try_fallback_decoders(bytes.as_slice())?
            },
        },
        None => {
            health_score = health_score.saturating_sub(30);
            try_fallback_decoders(bytes.as_slice())?
        },
    };
    let detected = format_label_of(&fmt);
    let expected = expected_extension_of(&fmt, actual.as_slice());
    let jpeg = chars_of("jpeg");
    let jpg = chars_of("jpg");
    let extension_mismatch = actual.len() > 0 && !chars_eq(expected.as_slice(), actual.as_slice())
        && !(chars_eq(actual.as_slice(), jpeg.as_slice()) && chars_eq(expected.as_slice(), jpg.as_slice()))
        && !(chars_eq(actual.as_slice(), jpg.as_slice()) && chars_eq(expected.as_slice(), jpeg.as_slice()));
    if extension_mismatch {
        health_score = health_score.saturating_sub(15);
    }
    if polyglot_extracted || base64_decoded {
        health_score = health_score.saturating_sub(10);
    }
    Ok(
        UniversalReadResult {
            image: img,
            detected_format: detected,
            extension_mismatch,
            expected_ext: string_of(expected.as_slice()),
            health_score,
            polyglot_extracted,
            base64_decoded,
        },
    )
}


fn found_after_start_in(window: &[u8], bytes: &[u8], magic: &[u8]) -> (b: bool)
    requires
        magic@.len() > 0,
        window@ == scan_window(bytes@),
    ensures
        b == found_after_start(bytes@, magic@),
{
    match find_subslice(window, magic) {
        Some(p) => p > 0,
        None => false,
    }
}

/// Whether the polyglot scanner can scan `bytes` (see `polyglot_scan_defined`).
pub fn polyglot_scannable(bytes: &[u8]) -> (b: bool)
    ensures
        b == polyglot_scan_defined(bytes@),
{
    let n = if bytes.len() < 2048 {
        bytes.len()
    } else {
        2048
    };
    let window = copy_range(bytes, 0, n);
    assert(window@ =~= scan_window(bytes@));
    let jpeg = vec![0xffu8, 0xd8, 0xff];
    assert(jpeg@ =~= jpeg_magic());
    let png = vec![0x89u8, 0x50, 0x4e, 0x47];
    assert(png@ =~= png_magic());
    let gif = vec![0x47u8, 0x49, 0x46, 0x38];
    assert(gif@ =~= gif_magic());
    let riff = vec![0x52u8, 0x49, 0x46, 0x46];
    assert(riff@ =~= riff_magic());
    if found_after_start_in(window.as_slice(), bytes, jpeg.as_slice()) || found_after_start_in(
        window.as_slice(),
        bytes,
        png.as_slice(),
    ) || found_after_start_in(window.as_slice(), bytes, gif.as_slice()) {
        return true;
    }
    match find_subslice(window.as_slice(), riff.as_slice()) {
        Some(p) => {
            assert(p <= bytes@.len());
            bytes.len() - p <= 8 || bytes.len() - p >= 12
        },
        None => true,
    }
}

/// Reads the image in `raw_bytes` on every input: `None` for the inputs the
/// reader cannot scan (a `RIFF` tag in the scan window whose `WEBP` tag would
/// run past the end of the file), else what `load_universal_image_bytes` gives.
pub fn read_universal_image_bytes(path: &str, raw_bytes: Vec<u8>) -> (r: Option<
    Result<UniversalReadResult, ReadError>,
>)
    ensures
        r is None <==> !readable_input(raw_bytes@),
        r matches Some(Ok(v)) ==> universal_read(path@, raw_bytes@) == Ok::<ReadSummary, ReadError>(
            v.summary(),
        ),
        r matches Some(Ok(v)) ==> read_image(raw_bytes@) == Some(v.image),
        r matches Some(Err(e)) ==> universal_read(path@, raw_bytes@) == Err::<ReadSummary, ReadError>(
            e,
        ),
{
    let readable = raw_bytes.len() == 0 || try_decode_base64_data_uri(raw_bytes.as_slice()).is_some()
        || polyglot_scannable(raw_bytes.as_slice());
    if readable {
        Some(load_universal_image_bytes(path, raw_bytes))
    } else {
        None
    }
}

} // verus!
