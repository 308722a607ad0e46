//! Encoding to bytes, and the quality search that fits an encoding under a
//! byte budget.
use vstd::prelude::*;
use image::DynamicImage;
use crate::formats::ImageFormatChoice;
use crate::imaging::{encode_in_format, encode_jpeg, encoded_bytes, jpeg_encoding, written_encoding};

verus! {

/// What encoding `img` in `format` at `quality` gives: the JPEG encoder at
/// that quality, or the format's encoder, which takes no quality.
pub open spec fn encoding_of(img: DynamicImage, format: ImageFormatChoice, quality: u8) -> Option<Seq<u8>> {
    match format {
        ImageFormatChoice::Jpeg => jpeg_encoding(img, quality),
        _ => written_encoding(img, format),
    }
}

/// Whether encoding `img` in `format` at quality `q` succeeds within
/// `target_bytes` bytes.
pub open spec fn fits_within(img: DynamicImage, format: ImageFormatChoice, target_bytes: u64) -> spec_fn(int) -> bool {
    |q: int| encoding_of(img, format, q as u8) matches Some(bytes) && bytes.len() <= target_bytes
}

/// Whether a larger quality never encodes smaller: every quality in 5..=100
/// below one that fits also fits.
pub open spec fn fits_downward_closed(fits: spec_fn(int) -> bool) -> bool {
    forall|a: int, b: int| 5 <= a <= b <= 100 && #[trigger] fits(b) ==> #[trigger] fits(a)
}

/// Encodes `img` in `target_format`; `quality` (1-100) applies to JPEG.
/// Encoded bytes open with the format's file signature.
pub fn convert_format_to_bytes(img: &DynamicImage, target_format: ImageFormatChoice, quality: u8) -> (r: Result<Vec<u8>, String>)
    ensures
        target_format != ImageFormatChoice::Tiff ==> encoded_bytes(r) == encoding_of(*img, target_format, quality),
        r matches Ok(bytes) ==> target_format.opens_with_signature(bytes@),
{
    match target_format {
        ImageFormatChoice::Jpeg => encode_jpeg(img, quality),
        _ => encode_in_format(img, target_format),
    }
}

/// Finds the highest quality from 5 to 100 whose encoding fits in
/// `target_bytes`, by binary search; an error when none does. Returns the
/// bytes, which fit and open with the format's file signature, and the quality
/// they were encoded at. Outside TIFF the result is the search's outcome over
/// the encodings, and when a larger quality never encodes smaller it is the
/// highest quality that fits.
pub fn compress_to_max_size(img: &DynamicImage, target_bytes: u64, format: ImageFormatChoice) -> (r: Result<(Vec<u8>, u32), String>)
    ensures
        r matches Ok((bytes, q)) ==> 5 <= q <= 100 && bytes@.len() <= target_bytes,
        r matches Ok((bytes, q)) ==> format.opens_with_signature(bytes@),
        format != ImageFormatChoice::Tiff ==> match quality_search(fits_within(*img, format, target_bytes), 5, 100, None) {
            Some(q) => r matches Ok((bytes, rq)) && rq == q && encoding_of(*img, format, q as u8) == Some(bytes@),
            None => r is Err,
        },
        format != ImageFormatChoice::Tiff && fits_downward_closed(fits_within(*img, format, target_bytes)) ==> {
            &&& r matches Ok((bytes, q)) ==> forall|h: int| q < h <= 100 ==> !#[trigger] fits_within(*img, format, target_bytes)(h)
            &&& r is Err ==> forall|h: int| 5 <= h <= 100 ==> !#[trigger] fits_within(*img, format, target_bytes)(h)
        },
{
    let ghost fits = fits_within(*img, format, target_bytes);
    let mut low: u32 = 5;
    let mut high: u32 = 100;
    let mut best_quality: Option<u32> = None;
    let mut best_bytes: Vec<u8> = Vec::new();
    while low <= high
        invariant
            5 <= low <= high + 1,
            high <= 100,
            fits == fits_within(*img, format, target_bytes),
            best_quality matches Some(q) ==> 5 <= q <= 100 && best_bytes@.len() <= target_bytes
                && format.opens_with_signature(best_bytes@),
            format != ImageFormatChoice::Tiff ==> (best_quality matches Some(q) ==> encoding_of(*img, format, q as u8)
                == Some(best_bytes@)),
            format != ImageFormatChoice::Tiff ==> quality_search(fits, low as int, high as int, quality_of(best_quality))
                == quality_search(fits, 5, 100, None),
        decreases high + 1 - low,
    {
        let mid = (low + high) / 2;
        let probe = convert_format_to_bytes(img, format, mid as u8);
        let ghost probe_view = encoded_bytes(probe);
        let mut fits_mid = false;
        if let Ok(bytes) = probe {
            if (bytes.len() as u64) <= target_bytes {
                fits_mid = true;
                best_bytes = bytes;
            }
        }
        proof {
            if format != ImageFormatChoice::Tiff {
                assert(probe_view == encoding_of(*img, format, mid as u8));
                assert(fits_mid == fits(mid as int));
            }
        }
        let (next_low, next_high, next_best) = next_probe(low, high, best_quality, fits_mid);
        low = next_low;
        high = next_high;
        best_quality = next_best;
    }
    proof {
        if format != ImageFormatChoice::Tiff && fits_downward_closed(fits) {
            lemma_quality_search_finds_highest_fit(fits);
        }
    }
    match best_quality {
        Some(q) => Ok((best_bytes, q)),
        None => Err("no quality from 5 to 100 fits the byte limit".to_string()),
    }
}

/// A quality, if any, as an integer.
pub open spec fn quality_of(q: Option<u32>) -> Option<int> {
    match q {
        Some(v) => Some(v as int),
        None => None,
    }
}

/// One step of the quality search over `low..=high`: the middle quality is
/// probed; when it fits, the search goes on above it and it becomes the best
/// so far; when it does not, the search goes on below it.
pub open spec fn search_step(low: int, high: int, best: Option<int>, mid_fits: bool) -> (int, int, Option<int>) {
    let mid = (low + high) / 2;
    if mid_fits {
        (mid + 1, high, Some(mid))
    } else {
        (low, mid - 1, best)
    }
}

/// The next bounds and best quality of the quality search after probing the
/// middle of `low..=high`, given whether that probe fit the budget.
pub fn next_probe(low: u32, high: u32, best: Option<u32>, fits: bool) -> (r: (u32, u32, Option<u32>))
    requires
        1 <= low <= high < u32::MAX,
    ensures
        (r.0 as int, r.1 as int, quality_of(r.2)) == search_step(low as int, high as int, quality_of(best), fits),
{
    let mid = low + (high - low) / 2;
    if fits {
        (mid + 1, high, Some(mid))
    } else {
        (low, mid - 1, best)
    }
}

/// The quality the binary search over `low..=high` settles on when `fits`
/// tells which qualities encode within the budget: it probes the middle,
/// moves above a quality that fits (keeping it as the best so far) and below
/// one that does not.
pub open spec fn quality_search(fits: spec_fn(int) -> bool, low: int, high: int, best: Option<int>) -> Option<int>
    decreases high + 1 - low,
{
    if low > high {
        best
    } else {
        let mid = (low + high) / 2;
        if fits(mid) {
            quality_search(fits, mid + 1, high, Some(mid))
        } else {
            quality_search(fits, low, mid - 1, best)
        }
    }
}

proof fn lemma_quality_search_invariant(fits: spec_fn(int) -> bool, low: int, high: int, best: Option<int>)
    requires
        forall|a: int, b: int| 5 <= a <= b <= 100 && #[trigger] fits(b) ==> #[trigger] fits(a),
        5 <= low <= high + 1,
        high <= 100,
        forall|q: int| 5 <= q < low ==> #[trigger] fits(q),
        forall|q: int| high < q <= 100 ==> !#[trigger] fits(q),
        best == (if low > 5 { Some(low - 1) } else { None::<int> }),
    ensures
        quality_search(fits, low, high, best) matches Some(q) ==> 5 <= q <= 100 && fits(q) && forall|r: int|
            q < r <= 100 ==> !#[trigger] fits(r),
        quality_search(fits, low, high, best) is None ==> forall|r: int| 5 <= r <= 100 ==> !#[trigger] fits(r),
    decreases high + 1 - low,
{
    if low <= high {
        let mid = (low + high) / 2;
        if fits(mid) {
            assert forall|q: int| 5 <= q < mid + 1 implies #[trigger] fits(q) by {
                if q >= low {
                    assert(fits(mid));
                }
            }
            lemma_quality_search_invariant(fits, mid + 1, high, Some(mid));
        } else {
            assert forall|q: int| mid - 1 < q <= 100 implies !#[trigger] fits(q) by {
                if q <= high && fits(q) {
                    assert(fits(mid));
                }
            }
            lemma_quality_search_invariant(fits, low, mid - 1, best);
        }
    }
}

/// When larger qualities never encode smaller, the binary search over 5..=100
/// finds the highest quality whose encoding fits the budget, and finds none
/// exactly when no quality fits.
pub proof fn lemma_quality_search_finds_highest_fit(fits: spec_fn(int) -> bool)
    requires
        forall|a: int, b: int| 5 <= a <= b <= 100 && #[trigger] fits(b) ==> #[trigger] fits(a),
    ensures
        quality_search(fits, 5, 100, None) matches Some(q) ==> 5 <= q <= 100 && fits(q) && forall|r: int|
            q < r <= 100 ==> !#[trigger] fits(r),
        quality_search(fits, 5, 100, None) is None ==> forall|r: int| 5 <= r <= 100 ==> !#[trigger] fits(r),
{
    lemma_quality_search_invariant(fits, 5, 100, None);
}

} // verus!
