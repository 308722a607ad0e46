//! File paths: names derived from an input file, output locations, and the
//! cleaning of pasted or dragged locations.
use vstd::prelude::*;
use std::path::Path;
use crate::formats::{
    format_for_extension, format_of_extension, is_supported_extension, supported_extension,
    ImageFormatChoice,
};
use crate::text::{
    chars_end_with, chars_eq, chars_of, chars_start_with, concat, copy_range, ends_with,
    lowercased, numeral, push_numeral, starts_with, string_of, to_lowercase, trim, trim_chars,
    is_trimmed, lemma_trim_is_trimmed, lemma_trim_of_trimmed,
};

verus! {

// ---------------------------------------------------------------------------
// Named results of std::path functions
// ---------------------------------------------------------------------------

/// What `Path::parent` gives for the path with this text, as text.
pub uninterp spec fn parent_of(p: Seq<char>) -> Option<Seq<char>>;

/// What `Path::file_stem` gives for the path with this text, as text.
pub uninterp spec fn file_stem_of(p: Seq<char>) -> Option<Seq<char>>;

/// What `Path::extension` gives for the path with this text, as text.
pub uninterp spec fn extension_of(p: Seq<char>) -> Option<Seq<char>>;

/// The text of `Path::join(base, rest)`.
pub uninterp spec fn joined(base: Seq<char>, rest: Seq<char>) -> Seq<char>;

/// The view of an optional string.
pub open spec fn opt_view(o: Option<String>) -> Option<Seq<char>> {
    match o {
        Some(s) => Some(s@),
        None => None,
    }
}

/// `Path::parent` of the path `p`, as text.
#[verifier::external_body]
pub(crate) fn path_parent(p: &str) -> (r: Option<String>)
    ensures
        opt_view(r) == parent_of(p@),
{
    match Path::new(p).parent() {
        Some(q) => Some(q.to_string_lossy().into_owned()),
        None => None,
    }
}

/// `Path::file_stem` of the path `p`, as text.
#[verifier::external_body]
pub(crate) fn path_file_stem(p: &str) -> (r: Option<String>)
    ensures
        opt_view(r) == file_stem_of(p@),
{
    match Path::new(p).file_stem() {
        Some(q) => Some(q.to_string_lossy().into_owned()),
        None => None,
    }
}

/// `Path::extension` of the path `p`, as text.
#[verifier::external_body]
pub(crate) fn path_extension(p: &str) -> (r: Option<String>)
    ensures
        opt_view(r) == extension_of(p@),
{
    match Path::new(p).extension() {
        Some(q) => Some(q.to_string_lossy().into_owned()),
        None => None,
    }
}

/// `Path::join`: `rest` appended to `base` as a path component, as text.
#[verifier::external_body]
pub(crate) fn path_join(base: &str, rest: &str) -> (r: String)
    ensures
        r@ == joined(base@, rest@),
{
    Path::new(base).join(rest).to_string_lossy().into_owned()
}

/// `o`, or `d` when it is absent.
pub open spec fn or_default(o: Option<Seq<char>>, d: Seq<char>) -> Seq<char> {
    match o {
        Some(s) => s,
        None => d,
    }
}

fn string_or(o: Option<String>, d: &str) -> (r: String)
    ensures
        r@ == or_default(opt_view(o), d@),
{
    match o {
        Some(s) => s,
        None => string_of(chars_of(d).as_slice()),
    }
}

/// The directory of a path, `.` when it has none.
pub open spec fn parent_or_dot(p: Seq<char>) -> Seq<char> {
    or_default(parent_of(p), "."@)
}

/// The file stem of a path, `image` when it has none.
pub open spec fn stem_or_image(p: Seq<char>) -> Seq<char> {
    or_default(file_stem_of(p), "image"@)
}

/// The extension of a path, `png` when it has none.
pub open spec fn extension_or_png(p: Seq<char>) -> Seq<char> {
    or_default(extension_of(p), "png"@)
}

// ---------------------------------------------------------------------------
// Version history location
// ---------------------------------------------------------------------------

/// The name that keys an image's history: its file name, that is the stem
/// (`image` when it has none) followed by `.` and the extension when it has one.
pub open spec fn history_key_of(p: Seq<char>) -> Seq<char> {
    match extension_of(p) {
        Some(e) => stem_or_image(p) + "."@ + e,
        None => stem_or_image(p),
    }
}

/// The history folder of an image: `<dir>/.pitu/<file name>_history`, so that
/// each image, extension included, has a history of its own.
pub open spec fn history_dir_of(p: Seq<char>) -> Seq<char> {
    joined(joined(parent_or_dot(p), ".pitu"@), history_key_of(p) + "_history"@)
}

/// The folder that holds the snapshot history of the image at `base_path`.
pub fn get_history_dir(base_path: &str) -> (r: String)
    ensures
        r@ == history_dir_of(base_path@),
{
    let parent = string_or(path_parent(base_path), ".");
    let stem = string_or(path_file_stem(base_path), "image");
    let key = match path_extension(base_path) {
        Some(ext) => {
            let with_dot = concat(chars_of(stem.as_str()).as_slice(), chars_of(".").as_slice());
            concat(with_dot.as_slice(), chars_of(ext.as_str()).as_slice())
        },
        None => chars_of(stem.as_str()),
    };
    let dot_pitu = path_join(parent.as_str(), ".pitu");
    let name = concat(key.as_slice(), chars_of("_history").as_slice());
    let name_s = string_of(name.as_slice());
    path_join(dot_pitu.as_str(), name_s.as_str())
}

/// Two images with the same stem but different extensions (`photo.jpg` and
/// `photo.png`) key different histories.
pub proof fn lemma_history_key_tells_extensions_apart(p: Seq<char>, q: Seq<char>)
    requires
        stem_or_image(p) == stem_or_image(q),
        extension_of(p) != extension_of(q),
    ensures
        history_key_of(p) != history_key_of(q),
{
    reveal_strlit(".");
    let s = stem_or_image(p);
    assert("."@.len() == 1);
    match (extension_of(p), extension_of(q)) {
        (Some(e), Some(f)) => {
            if history_key_of(p) == history_key_of(q) {
                assert(e =~= history_key_of(p).subrange(s.len() as int + 1, history_key_of(p).len() as int));
                assert(f =~= history_key_of(q).subrange(s.len() as int + 1, history_key_of(q).len() as int));
            }
        },
        (Some(e), None) => {
            assert(history_key_of(p).len() > history_key_of(q).len());
        },
        (None, Some(f)) => {
            assert(history_key_of(q).len() > history_key_of(p).len());
        },
        (None, None) => {},
    }
}

// ---------------------------------------------------------------------------
// Cleaning pasted locations
// ---------------------------------------------------------------------------

/// `s` without leading occurrences of `c`.
pub open spec fn strip_leading(s: Seq<char>, c: char) -> Seq<char>
    decreases s.len(),
{
    if s.len() > 0 && s[0] == c {
        strip_leading(s.drop_first(), c)
    } else {
        s
    }
}

/// `s` without trailing occurrences of `c`.
pub open spec fn strip_trailing(s: Seq<char>, c: char) -> Seq<char>
    decreases s.len(),
{
    if s.len() > 0 && s.last() == c {
        strip_trailing(s.drop_last(), c)
    } else {
        s
    }
}

/// `str::trim_matches` with a single character.
pub open spec fn trim_matches(s: Seq<char>, c: char) -> Seq<char> {
    strip_trailing(strip_leading(s, c), c)
}

/// `s` with every escaped space `\ ` (read from the left, without overlaps)
/// turned into a plain space.
pub open spec fn unescape_spaces(s: Seq<char>) -> Seq<char>
    decreases s.len(),
{
    if s.len() >= 2 && s[0] == '\\' && s[1] == ' ' {
        seq![' '] + unescape_spaces(s.skip(2))
    } else if s.len() == 0 {
        Seq::empty()
    } else {
        seq![s[0]] + unescape_spaces(s.drop_first())
    }
}

/// What the path cleaner makes of a pasted location.
pub open spec fn sanitized_path(raw: Seq<char>) -> Seq<char> {
    let t = trim(raw);
    let no_scheme = if starts_with(t, "file:///"@) || starts_with(t, "file://"@) {
        t.skip(7)
    } else {
        t
    };
    trim(unescape_spaces(trim_matches(trim_matches(no_scheme, '\''), '"')))
}

proof fn lemma_strip_leading_skip(s: Seq<char>, c: char, i: int)
    requires
        0 <= i <= s.len(),
        forall|j: int| 0 <= j < i ==> #[trigger] s[j] == c,
    ensures
        strip_leading(s, c) == strip_leading(s.skip(i), c),
    decreases i,
{
    if i > 0 {
        assert(s.drop_first().skip(i - 1) =~= s.skip(i));
        lemma_strip_leading_skip(s.drop_first(), c, i - 1);
    } else {
        assert(s.skip(0) =~= s);
    }
}

proof fn lemma_strip_trailing_take(s: Seq<char>, c: char, i: int)
    requires
        0 <= i <= s.len(),
        forall|j: int| i <= j < s.len() ==> #[trigger] s[j] == c,
    ensures
        strip_trailing(s, c) == strip_trailing(s.take(i), c),
    decreases s.len() - i,
{
    if i < s.len() {
        assert(s.drop_last().take(i) =~= s.take(i));
        lemma_strip_trailing_take(s.drop_last(), c, i);
    } else {
        assert(s.take(i) =~= s);
    }
}

/// `str::trim_matches(c)` on the characters `s`.
pub fn trim_matches_char(s: &[char], c: char) -> (r: Vec<char>)
    ensures
        r@ == trim_matches(s@, c),
{
    let n = s.len();
    let mut a: usize = 0;
    while a < n && s[a] == c
        invariant
            a <= n == s@.len(),
            forall|j: int| 0 <= j < a ==> #[trigger] s@[j] == c,
        decreases n - a,
    {
        a = a + 1;
    }
    proof {
        lemma_strip_leading_skip(s@, c, a as int);
    }
    let mut b: usize = n;
    while b > a && s[b - 1] == c
        invariant
            a <= b <= n == s@.len(),
            forall|j: int| b <= j < n ==> #[trigger] s@[j] == c,
        decreases b - a,
    {
        b = b - 1;
    }
    let ghost t = s@.skip(a as int);
    proof {
        assert(strip_leading(t, c) == t);
        assert forall|j: int| b - a <= j < t.len() implies #[trigger] t[j] == c by {
            assert(t[j] == s@[j + a]);
        }
        lemma_strip_trailing_take(t, c, b - a);
        assert(t.take(b - a) =~= s@.subrange(a as int, b as int));
        if b - a > 0 {
            assert(t.take(b - a).last() == s@[b - 1]);
        }
    }
    copy_range(s, a, b)
}

/// `str::replace("\\ ", " ")` on the characters `s`.
pub fn unescape_spaces_chars(s: &[char]) -> (r: Vec<char>)
    ensures
        r@ == unescape_spaces(s@),
{
    let n = s.len();
    let mut out: Vec<char> = Vec::new();
    let mut i: usize = 0;
    assert(s@.skip(0) =~= s@);
    while i < n
        invariant
            i <= n == s@.len(),
            out@ + unescape_spaces(s@.skip(i as int)) == unescape_spaces(s@),
        decreases n - i,
    {
        let ghost rest = s@.skip(i as int);
        if i + 1 < n && s[i] == '\\' && s[i + 1] == ' ' {
            out.push(' ');
            proof {
                assert(rest.skip(2) =~= s@.skip(i + 2));
                assert(out@ + unescape_spaces(s@.skip(i + 2)) =~= unescape_spaces(s@)) by {
                    assert(unescape_spaces(rest) == seq![' '] + unescape_spaces(rest.skip(2)));
                }
            }
            i = i + 2;
        } else {
            out.push(s[i]);
            proof {
                assert(rest.drop_first() =~= s@.skip(i + 1));
                assert(out@ + unescape_spaces(s@.skip(i + 1)) =~= unescape_spaces(s@)) by {
                    assert(unescape_spaces(rest) == seq![s@[i as int]] + unescape_spaces(
                        rest.drop_first(),
                    ));
                }
            }
            i = i + 1;
        }
    }
    assert(s@.skip(n as int) =~= Seq::<char>::empty());
    assert(out@ =~= unescape_spaces(s@));
    out
}

/// Cleans a pasted, dropped or typed location: trims it, drops a `file://`
/// scheme, strips surrounding quotes and unescapes escaped spaces.
pub fn sanitize_input_path(raw: &str) -> (r: String)
    ensures
        r@ == sanitized_path(raw@),
{
    proof {
        reveal_strlit("file:///");
        reveal_strlit("file://");
    }
    let t = trim_chars(chars_of(raw).as_slice());
    let scheme3 = chars_of("file:///");
    let scheme2 = chars_of("file://");
    let cleaned = if chars_start_with(t.as_slice(), scheme3.as_slice()) || chars_start_with(
        t.as_slice(),
        scheme2.as_slice(),
    ) {
        copy_range(t.as_slice(), 7, t.len())
    } else {
        copy_range(t.as_slice(), 0, t.len())
    };
    proof {
        if starts_with(t@, "file:///"@) || starts_with(t@, "file://"@) {
            assert(cleaned@ =~= t@.skip(7));
        } else {
            assert(cleaned@ =~= t@);
        }
    }
    let q1 = trim_matches_char(cleaned.as_slice(), '\'');
    let q2 = trim_matches_char(q1.as_slice(), '"');
    let unescaped = unescape_spaces_chars(q2.as_slice());
    let result = trim_chars(unescaped.as_slice());
    string_of(result.as_slice())
}

/// Whether `s` holds no backslash followed by a space.
pub open spec fn has_no_escaped_space(s: Seq<char>) -> bool {
    forall|i: int| 0 <= i < s.len() - 1 ==> !(#[trigger] s[i] == '\\' && s[i + 1] == ' ')
}

proof fn lemma_unescape_spaces_identity(s: Seq<char>)
    requires
        has_no_escaped_space(s),
    ensures
        unescape_spaces(s) == s,
    decreases s.len(),
{
    if s.len() > 0 {
        let t = s.drop_first();
        assert forall|i: int| 0 <= i < t.len() - 1 implies !(#[trigger] t[i] == '\\' && t[i + 1] == ' ') by {
            assert(t[i] == s[i + 1] && t[i + 1] == s[i + 2]);
        }
        lemma_unescape_spaces_identity(t);
        if s.len() >= 2 {
            assert(!(s[0] == '\\' && s[1] == ' '));
        }
        assert(seq![s[0]] + t =~= s);
    }
}

/// The path cleaner always returns trimmed text.
pub proof fn lemma_sanitized_path_is_trimmed(raw: Seq<char>)
    ensures
        is_trimmed(sanitized_path(raw)),
        trim(sanitized_path(raw)) == sanitized_path(raw),
{
    let t = trim(raw);
    let no_scheme = if starts_with(t, "file:///"@) || starts_with(t, "file://"@) {
        t.skip(7)
    } else {
        t
    };
    lemma_trim_is_trimmed(unescape_spaces(trim_matches(trim_matches(no_scheme, '\''), '"')));
}

/// A location that is already clean (after trimming: no `file://` scheme, no
/// quote at either end, no escaped space) comes back trimmed and otherwise
/// unchanged.
pub proof fn lemma_sanitize_clean_path(raw: Seq<char>)
    requires
        !starts_with(trim(raw), "file://"@),
        trim(raw).len() > 0 ==> trim(raw)[0] != '\'' && trim(raw)[0] != '"' && trim(raw).last() != '\''
            && trim(raw).last() != '"',
        has_no_escaped_space(trim(raw)),
    ensures
        sanitized_path(raw) == trim(raw),
{
    reveal_strlit("file:///");
    reveal_strlit("file://");
    let t = trim(raw);
    if starts_with(t, "file:///"@) {
        assert(t.take(7) =~= t.take(8).take(7));
        assert("file:///"@.take(7) =~= "file://"@);
    }
    assert(strip_leading(t, '\'') == t);
    assert(strip_trailing(t, '\'') == t);
    assert(trim_matches(t, '\'') == t);
    assert(strip_leading(t, '"') == t);
    assert(strip_trailing(t, '"') == t);
    assert(trim_matches(t, '"') == t);
    lemma_unescape_spaces_identity(t);
    lemma_trim_is_trimmed(raw);
}

// ---------------------------------------------------------------------------
// Output file names
// ---------------------------------------------------------------------------

/// The extension written: the chosen format's, else the input's own (`png`
/// when the input has none).
pub open spec fn output_extension(input: Seq<char>, format: Option<ImageFormatChoice>) -> Seq<char> {
    match format {
        Some(f) => f.extension_spec(),
        None => extension_or_png(input),
    }
}

fn output_extension_string(input: &str, format: Option<ImageFormatChoice>) -> (r: String)
    ensures
        r@ == output_extension(input@, format),
{
    match format {
        Some(f) => string_of(chars_of(f.extension()).as_slice()),
        None => string_or(path_extension(input), "png"),
    }
}

/// The optional text `o`, empty when absent.
pub open spec fn text_or_empty(o: Option<Seq<char>>) -> Seq<char> {
    or_default(o, Seq::empty())
}

/// Where a batch run writes the result for `input`: `<prefix><stem><suffix>.<ext>`
/// in the output target when that is a folder (it exists as one, ends in a
/// separator, or has no extension), the output target itself when it names a
/// file, and beside the input when there is no target.
pub open spec fn output_path_of(
    input: Seq<char>,
    target: Option<Seq<char>>,
    target_is_dir: bool,
    format: Option<ImageFormatChoice>,
    prefix: Option<Seq<char>>,
    suffix: Option<Seq<char>>,
) -> Seq<char> {
    let name = text_or_empty(prefix) + stem_or_image(input) + text_or_empty(suffix) + "."@
        + output_extension(input, format);
    match target {
        Some(t) => if target_is_dir || ends_with(t, "/"@) || ends_with(t, "\\"@) || extension_of(
            t,
        ) is None {
            joined(t, name)
        } else {
            t
        },
        None => joined(parent_or_dot(input), name),
    }
}

/// Where a batch run writes the result for `input_path`; `target_is_dir` tells
/// whether the output target exists as a folder.
pub fn resolve_output_path(
    input_path: &str,
    output_target: Option<&str>,
    target_is_dir: bool,
    target_format: Option<ImageFormatChoice>,
    prefix: Option<&str>,
    suffix: Option<&str>,
) -> (r: String)
    ensures
        r@ == output_path_of(
            input_path@,
            match output_target {
                Some(t) => Some(t@),
                None => None,
            },
            target_is_dir,
            target_format,
            match prefix {
                Some(p) => Some(p@),
                None => None,
            },
            match suffix {
                Some(s) => Some(s@),
                None => None,
            },
        ),
{
    proof {
        reveal_strlit("/");
        reveal_strlit("\\");
    }
    let stem = string_or(path_file_stem(input_path), "image");
    let ext = output_extension_string(input_path, target_format);
    let pre = match prefix {
        Some(p) => chars_of(p),
        None => Vec::new(),
    };
    let suf = match suffix {
        Some(s) => chars_of(s),
        None => Vec::new(),
    };
    let n1 = concat(pre.as_slice(), chars_of(stem.as_str()).as_slice());
    let n2 = concat(n1.as_slice(), suf.as_slice());
    let n3 = concat(n2.as_slice(), chars_of(".").as_slice());
    let n4 = concat(n3.as_slice(), chars_of(ext.as_str()).as_slice());
    let name = string_of(n4.as_slice());
    match output_target {
        Some(t) => {
            let tc = chars_of(t);
            let slash = chars_of("/");
            let backslash = chars_of("\\");
            if target_is_dir || chars_end_with(tc.as_slice(), slash.as_slice()) || chars_end_with(
                tc.as_slice(),
                backslash.as_slice(),
            ) || path_extension(t).is_none() {
                path_join(t, name.as_str())
            } else {
                string_of(tc.as_slice())
            }
        },
        None => {
            let parent = string_or(path_parent(input_path), ".");
            path_join(parent.as_str(), name.as_str())
        },
    }
}

/// The output format a path's (lower-cased) extension names, if any.
pub open spec fn format_of_path(p: Seq<char>) -> Option<ImageFormatChoice> {
    match extension_of(p) {
        Some(e) => format_of_extension(lowercased(e)),
        None => None,
    }
}

/// The output format that the extension of `path` names, if any.
pub fn detect_format_from_path(path: &str) -> (r: Option<ImageFormatChoice>)
    ensures
        r == format_of_path(path@),
{
    match path_extension(path) {
        Some(e) => {
            let lower = to_lowercase(e.as_str());
            format_for_extension(chars_of(lower.as_str()).as_slice())
        },
        None => None,
    }
}

/// Whether a path names a file the batch runner picks up: its (lower-cased)
/// extension is that of a supported image format.
pub open spec fn is_supported_image_path(p: Seq<char>) -> bool {
    match extension_of(p) {
        Some(e) => is_supported_extension(lowercased(e)),
        None => false,
    }
}

/// Whether the batch runner picks up the file at `path`.
pub fn is_supported_image(path: &str) -> (b: bool)
    ensures
        b == is_supported_image_path(path@),
{
    match path_extension(path) {
        Some(e) => {
            let lower = to_lowercase(e.as_str());
            supported_extension(chars_of(lower.as_str()).as_slice())
        },
        None => false,
    }
}

/// The format a batch run writes: the one requested, else the one the output
/// path's extension names, else PNG.
pub open spec fn output_format_of(requested: Option<ImageFormatChoice>, output_path: Seq<char>) -> ImageFormatChoice {
    match requested {
        Some(f) => f,
        None => match format_of_path(output_path) {
            Some(f) => f,
            None => ImageFormatChoice::Png,
        },
    }
}

/// The format a batch run writes for `output_path`.
pub fn choose_output_format(requested: Option<ImageFormatChoice>, output_path: &str) -> (r: ImageFormatChoice)
    ensures
        r == output_format_of(requested, output_path@),
{
    match requested {
        Some(f) => f,
        None => match detect_format_from_path(output_path) {
            Some(f) => f,
            None => ImageFormatChoice::Png,
        },
    }
}

// ---------------------------------------------------------------------------
// Save-as naming
// ---------------------------------------------------------------------------

/// How an exported file is named.
#[derive(Debug, Clone)]
pub enum NamingStrategy {
    OverwriteOriginal,
    SaveAsCopy,
    CustomName(String),
}

impl PartialEq for NamingStrategy {
    fn eq(&self, other: &Self) -> (r: bool) {
        match (self, other) {
            (NamingStrategy::OverwriteOriginal, NamingStrategy::OverwriteOriginal) => true,
            (NamingStrategy::SaveAsCopy, NamingStrategy::SaveAsCopy) => true,
            (NamingStrategy::CustomName(a), NamingStrategy::CustomName(b)) => chars_eq(
                chars_of(a.as_str()).as_slice(),
                chars_of(b.as_str()).as_slice(),
            ),
            _ => false,
        }
    }
}

impl vstd::std_specs::cmp::PartialEqSpecImpl for NamingStrategy {
    open spec fn obeys_eq_spec() -> bool {
        true
    }

    open spec fn eq_spec(&self, other: &Self) -> bool {
        match (self, other) {
            (NamingStrategy::OverwriteOriginal, NamingStrategy::OverwriteOriginal) => true,
            (NamingStrategy::SaveAsCopy, NamingStrategy::SaveAsCopy) => true,
            (NamingStrategy::CustomName(a), NamingStrategy::CustomName(b)) => a@ == b@,
            _ => false,
        }
    }
}

/// Where and how an edited image is exported.
pub struct SaveOptions {
    pub destination_dir: String,
    pub naming_strategy: NamingStrategy,
    pub format: Option<ImageFormatChoice>,
}

/// The `attempt`-th candidate name of a copy: `<stem>_copy.<ext>` first, then
/// `<stem>_copy_1.<ext>`, `<stem>_copy_2.<ext>` and so on.
pub open spec fn copy_name(stem: Seq<char>, ext: Seq<char>, attempt: nat) -> Seq<char> {
    if attempt == 0 {
        stem + "_copy."@ + ext
    } else {
        stem + "_copy_"@ + numeral(attempt, 10) + "."@ + ext
    }
}

/// The `attempt`-th candidate name of a copy of `stem` with extension `ext`.
pub fn copy_candidate_name(stem: &str, ext: &str, attempt: u64) -> (r: String)
    ensures
        r@ == copy_name(stem@, ext@, attempt as nat),
{
    let mut v = chars_of(stem);
    if attempt == 0 {
        v = concat(v.as_slice(), chars_of("_copy.").as_slice());
    } else {
        v = concat(v.as_slice(), chars_of("_copy_").as_slice());
        push_numeral(&mut v, attempt, 10);
        v = concat(v.as_slice(), chars_of(".").as_slice());
    }
    v = concat(v.as_slice(), chars_of(ext).as_slice());
    string_of(v.as_slice())
}

/// The file name an export gets: the input's stem (or the custom name) with the
/// chosen format's extension (else the input's, else `png`); a copy takes the
/// `copy_attempt`-th copy name.
pub open spec fn export_file_name(input: Seq<char>, save: SaveOptions, copy_attempt: nat) -> Seq<char> {
    let ext = output_extension(input, save.format);
    match save.naming_strategy {
        NamingStrategy::OverwriteOriginal => stem_or_image(input) + "."@ + ext,
        NamingStrategy::CustomName(c) => c@ + "."@ + ext,
        NamingStrategy::SaveAsCopy => copy_name(stem_or_image(input), ext, copy_attempt),
    }
}

/// The file name an export of `input_file` gets under `save_opts`.
pub fn export_file_name_of(input_file: &str, save_opts: &SaveOptions, copy_attempt: u64) -> (r: String)
    ensures
        r@ == export_file_name(input_file@, *save_opts, copy_attempt as nat),
{
    let stem = string_or(path_file_stem(input_file), "image");
    let ext = output_extension_string(input_file, save_opts.format);
    match &save_opts.naming_strategy {
        NamingStrategy::OverwriteOriginal => {
            let v = concat(chars_of(stem.as_str()).as_slice(), chars_of(".").as_slice());
            let v = concat(v.as_slice(), chars_of(ext.as_str()).as_slice());
            string_of(v.as_slice())
        },
        NamingStrategy::CustomName(custom) => {
            let v = concat(chars_of(custom.as_str()).as_slice(), chars_of(".").as_slice());
            let v = concat(v.as_slice(), chars_of(ext.as_str()).as_slice());
            string_of(v.as_slice())
        },
        NamingStrategy::SaveAsCopy => copy_candidate_name(stem.as_str(), ext.as_str(), copy_attempt),
    }
}

/// The full path an export of `input_file` is written to: the export file name
/// inside the destination folder. `copy_attempt` is the first copy name not
/// yet taken on disk (0 when `<stem>_copy.<ext>` is free).
pub fn compute_target_path(input_file: &str, save_opts: &SaveOptions, copy_attempt: u64) -> (r: String)
    ensures
        r@ == joined(save_opts.destination_dir@, export_file_name(input_file@, *save_opts, copy_attempt as nat)),
{
    let name = export_file_name_of(input_file, save_opts, copy_attempt);
    path_join(save_opts.destination_dir.as_str(), name.as_str())
}

} // verus!
