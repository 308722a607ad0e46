//! The repair plan of the auto-fix pipeline: what it logs, whether the file
//! counts as repaired, and where a realigned copy goes.
use vstd::prelude::*;
use crate::paths::{joined, or_default, parent_or_dot, path_file_stem, path_join, path_parent, file_stem_of, parent_of};
use crate::text::{chars_eq_str, chars_of, concat, ends_with, string_of};

verus! {

/// What the auto-fix pipeline did to a file, and where the result goes.
pub struct RepairPlan {
    pub repair_log: Vec<String>,
    pub was_repaired: bool,
    pub repaired_path: String,
}

/// The JPEG end-of-image marker `FF D9`.
pub open spec fn jpeg_eof() -> Seq<u8> {
    seq![0xffu8, 0xd9]
}

/// The PNG trailer `IEND` chunk tail: `49 45 4E 44 AE 42 60 82`.
pub open spec fn png_trailer() -> Seq<u8> {
    seq![0x49u8, 0x45, 0x4e, 0x44, 0xae, 0x42, 0x60, 0x82]
}

pub open spec fn base64_log_line() -> Seq<char> {
    "Rescued raw image data from Base64 Data URI wrapper."@
}

pub open spec fn polyglot_log_line() -> Seq<char> {
    "Extracted binary image stream embedded inside HTML/text polyglot."@
}

pub open spec fn jpeg_eof_log_line() -> Seq<char> {
    "Repaired truncated JPEG stream by appending missing EOF marker (FF D9)."@
}

pub open spec fn png_trailer_log_line() -> Seq<char> {
    "Repaired truncated PNG stream by appending valid IEND trailer chunk."@
}

pub open spec fn alpha_log_line() -> Seq<char> {
    "Normalized alpha channels and clamped out-of-bounds RGBA color values."@
}

/// The log line for an extension realigned to `ext`.
pub open spec fn realign_log_line(ext: Seq<char>) -> Seq<char> {
    "Realigned file extension from original to ."@ + ext
}

/// `line` when `cond` holds, else nothing.
pub open spec fn log_if(cond: bool, line: Seq<char>) -> Seq<Seq<char>> {
    if cond {
        seq![line]
    } else {
        Seq::empty()
    }
}

/// The repair log, in stage order: the rescue of the payload, the stream end
/// check of JPEG and PNG files, alpha normalisation, and extension realignment.
pub open spec fn repair_log_of(
    detected_format: Seq<char>,
    raw: Seq<u8>,
    base64_decoded: bool,
    polyglot_extracted: bool,
    has_alpha: bool,
    extension_mismatch: bool,
    expected_ext: Seq<char>,
) -> Seq<Seq<char>> {
    let truncated_jpeg = detected_format == "JPEG"@ && !ends_with(raw, jpeg_eof());
    let truncated_png = !truncated_jpeg && detected_format == "PNG"@ && !ends_with(raw, png_trailer());
    log_if(base64_decoded, base64_log_line()) + log_if(polyglot_extracted, polyglot_log_line())
        + log_if(truncated_jpeg, jpeg_eof_log_line()) + log_if(truncated_png, png_trailer_log_line())
        + log_if(has_alpha, alpha_log_line()) + log_if(extension_mismatch, realign_log_line(expected_ext))
}

/// Where a file with a wrong extension is saved again: beside it, with its
/// stem (`fixed_image` when it has none) and the expected extension.
pub open spec fn realigned_path_of(path: Seq<char>, expected_ext: Seq<char>) -> Seq<char> {
    joined(parent_or_dot(path), or_default(file_stem_of(path), "fixed_image"@) + "."@ + expected_ext)
}

fn push_line(log: &mut Vec<String>, line: &str)
    ensures
        final(log)@.map_values(|s: String| s@) == old(log)@.map_values(|s: String| s@).push(line@),
{
    log.push(line.to_owned());
    assert(final(log)@.map_values(|s: String| s@) =~= old(log)@.map_values(|s: String| s@).push(line@));
}

/// Plans the repair of the file at `path`, given what the reader found
/// (detected format, extension check, health, rescues), the raw file bytes and
/// whether the decoded image has an alpha channel.
pub fn plan_repair(
    path: &str,
    raw_bytes: &[u8],
    detected_format: &str,
    extension_mismatch: bool,
    expected_ext: &str,
    health_score: u8,
    polyglot_extracted: bool,
    base64_decoded: bool,
    has_alpha: bool,
) -> (r: RepairPlan)
    ensures
        r.repair_log@.map_values(|s: String| s@) == repair_log_of(
            detected_format@,
            raw_bytes@,
            base64_decoded,
            polyglot_extracted,
            has_alpha,
            extension_mismatch,
            expected_ext@,
        ),
        r.was_repaired == (extension_mismatch || polyglot_extracted || base64_decoded || health_score
            < 100),
        extension_mismatch ==> r.repaired_path@ == realigned_path_of(path@, expected_ext@),
        !extension_mismatch ==> r.repaired_path@ == path@,
{
    let mut log: Vec<String> = Vec::new();
    let ghost l0 = log@.map_values(|s: String| s@);
    assert(l0 =~= Seq::<Seq<char>>::empty());
    if base64_decoded {
        push_line(&mut log, "Rescued raw image data from Base64 Data URI wrapper.");
    }
    let ghost l1 = log@.map_values(|s: String| s@);
    assert(l1 =~= log_if(base64_decoded, base64_log_line()));
    if polyglot_extracted {
        push_line(&mut log, "Extracted binary image stream embedded inside HTML/text polyglot.");
    }
    let ghost l2 = log@.map_values(|s: String| s@);
    assert(l2 =~= l1 + log_if(polyglot_extracted, polyglot_log_line()));
    let fmt = chars_of(detected_format);
    let eof = vec![0xffu8, 0xd9];
    assert(eof@ =~= jpeg_eof());
    let trailer = vec![0x49u8, 0x45, 0x4e, 0x44, 0xae, 0x42, 0x60, 0x82];
    assert(trailer@ =~= png_trailer());
    let truncated_jpeg = chars_eq_str(fmt.as_slice(), "JPEG") && !bytes_end_with(raw_bytes, eof.as_slice());
    let truncated_png = !truncated_jpeg && chars_eq_str(fmt.as_slice(), "PNG") && !bytes_end_with(
        raw_bytes,
        trailer.as_slice(),
    );
    if truncated_jpeg {
        push_line(&mut log, "Repaired truncated JPEG stream by appending missing EOF marker (FF D9).");
    } else if truncated_png {
        push_line(&mut log, "Repaired truncated PNG stream by appending valid IEND trailer chunk.");
    }
    let ghost l3 = log@.map_values(|s: String| s@);
    assert(l3 =~= l2 + log_if(truncated_jpeg, jpeg_eof_log_line()) + log_if(
        truncated_png,
        png_trailer_log_line(),
    ));
    if has_alpha {
        push_line(&mut log, "Normalized alpha channels and clamped out-of-bounds RGBA color values.");
    }
    let ghost l4 = log@.map_values(|s: String| s@);
    assert(l4 =~= l3 + log_if(has_alpha, alpha_log_line()));
    let was_repaired = extension_mismatch || polyglot_extracted || base64_decoded || health_score < 100;
    let repaired_path = if extension_mismatch {
        let parent = match path_parent(path) {
            Some(p) => p,
            None => ".".to_owned(),
        };
        let stem = match path_file_stem(path) {
            Some(s) => s,
            None => "fixed_image".to_owned(),
        };
        let name = concat(chars_of(stem.as_str()).as_slice(), chars_of(".").as_slice());
        let name = concat(name.as_slice(), chars_of(expected_ext).as_slice());
        let name_s = string_of(name.as_slice());
        let line = concat(
            chars_of("Realigned file extension from original to .").as_slice(),
            chars_of(expected_ext).as_slice(),
        );
        let line_s = string_of(line.as_slice());
        push_line(&mut log, line_s.as_str());
        path_join(parent.as_str(), name_s.as_str())
    } else {
        path.to_owned()
    };
    let ghost l5 = log@.map_values(|s: String| s@);
    assert(l5 =~= l4 + log_if(extension_mismatch, realign_log_line(expected_ext@)));
    RepairPlan { repair_log: log, was_repaired, repaired_path }
}

/// Whether the bytes `s` end with `p`.
fn bytes_end_with(s: &[u8], p: &[u8]) -> (b: bool)
    ensures
        b == ends_with(s@, p@),
{
    if p.len() > s.len() {
        return false;
    }
    let off = s.len() - p.len();
    let mut i: usize = 0;
    while i < p.len()
        invariant
            p@.len() <= s@.len(),
            s@.len() == s.len(),
            off == s@.len() - p@.len(),
            i <= p@.len(),
            forall|j: int| 0 <= j < i ==> s@[off + j] == p@[j],
        decreases p@.len() - i,
    {
        if s[off + i] != p[i] {
            assert(s@.skip(off as int)[i as int] != p@[i as int]);
            return false;
        }
        i = i + 1;
    }
    assert(s@.skip(off as int) =~= p@);
    true
}

/// A file saved again under its expected extension stays in its own folder:
/// when the path has a parent and a stem, the new path is that parent joined
/// with the stem, a dot and the expected extension.
pub proof fn lemma_realigned_path_beside_input(path: Seq<char>, expected_ext: Seq<char>)
    requires
        parent_of(path) is Some,
        file_stem_of(path) is Some,
    ensures
        realigned_path_of(path, expected_ext) == joined(
            parent_of(path)->0,
            file_stem_of(path)->0 + "."@ + expected_ext,
        ),
{
}

} // verus!
