//! Fitting styled text into fixed-width dashboard lines.
use vstd::prelude::*;
use crate::text::{chars_of, copy_range, string_of};

verus! {

/// What `console::strip_ansi_codes` leaves of a text: its characters without
/// the ANSI escape sequences.
pub uninterp spec fn ansi_stripped(s: Seq<char>) -> Seq<char>;

/// `console::strip_ansi_codes`; the contract names the result.
#[verifier::external_body]
fn strip_ansi_codes(s: &str) -> (r: String)
    ensures
        r@ == ansi_stripped(s@),
{
    console::strip_ansi_codes(s).into_owned()
}

/// A line of a dashboard card: when the visible text (escape codes not
/// counted) is at least `width` characters, the first `width` characters of
/// the raw text; else the raw text padded with spaces to `width` visible
/// characters.
pub open spec fn fitted_line(content: Seq<char>, width: nat) -> Seq<char> {
    let visible = ansi_stripped(content).len();
    if visible >= width {
        if width <= content.len() {
            content.take(width as int)
        } else {
            content
        }
    } else {
        content + Seq::new((width - visible) as nat, |i: int| ' ')
    }
}

/// Fits `content` to `target_width` visible characters.
pub fn fit_line_content(content: &str, target_width: usize) -> (r: String)
    ensures
        r@ == fitted_line(content@, target_width as nat),
{
    let plain = strip_ansi_codes(content);
    let len = chars_of(plain.as_str()).len();
    let chars = chars_of(content);
    if len >= target_width {
        let n = if target_width <= chars.len() {
            target_width
        } else {
            chars.len()
        };
        let v = copy_range(chars.as_slice(), 0, n);
        proof {
            if target_width <= chars@.len() {
                assert(v@ =~= content@.take(target_width as int));
            } else {
                assert(v@ =~= content@);
            }
        }
        string_of(v.as_slice())
    } else {
        let mut v = copy_range(chars.as_slice(), 0, chars.len());
        let pad = target_width - len;
        let mut k: usize = 0;
        while k < pad
            invariant
                k <= pad,
                v@ == content@ + Seq::new(k as nat, |i: int| ' '),
            decreases pad - k,
        {
            v.push(' ');
            k = k + 1;
            assert(v@ =~= content@ + Seq::new(k as nat, |i: int| ' '));
        }
        string_of(v.as_slice())
    }
}

} // verus!
