//! The single-purpose subcommands (`convert`, `crop`, `resize`, `smart-crop`)
//! and the pipeline specs they hand on to the shared processing path.
use vstd::prelude::*;
use crate::formats::ImageFormatChoice;
use crate::geometry::{crop_spec_value, resize_form_value, smart_crop_target_value, SmartCropTarget};
use crate::text::{
    decimal, lemma_find_char_after, lemma_parse_decimal, lemma_split_concat,
    lemma_split_without_sep, lemma_trim_unchanged, lemma_decimal, push_numeral, string_of,
    is_whitespace, split_on, find_char,
};

verus! {

/// `convert`: the inputs (files or glob patterns) and the target format.
pub struct ConvertArgs {
    pub input: Vec<String>,
    pub to: ImageFormatChoice,
}

/// `crop`: the inputs, an origin, an optional size, and an optional aspect
/// ratio to cut centred instead.
pub struct CropArgs {
    pub input: Vec<String>,
    pub x: u32,
    pub y: u32,
    pub width: Option<u32>,
    pub height: Option<u32>,
    pub ratio: Option<String>,
}

/// The value of an optional size, 0 when absent.
pub open spec fn or_zero(v: Option<u32>) -> nat {
    match v {
        Some(n) => n as nat,
        None => 0,
    }
}

/// The manual crop spec `"x,y,width,height"` in decimal.
pub open spec fn crop_spec_text(x: nat, y: nat, w: nat, h: nat) -> Seq<char> {
    decimal(x) + seq![','] + decimal(y) + seq![','] + decimal(w) + seq![','] + decimal(h)
}

/// The manual crop spec the `crop` command hands on: none when a ratio is
/// given (the ratio wins) or when no size is given; else the origin and the
/// size, a missing side being 0.
pub open spec fn crop_command_spec(args: CropArgs) -> Option<Seq<char>> {
    if args.ratio is Some {
        None
    } else if args.width is Some || args.height is Some {
        Some(crop_spec_text(args.x as nat, args.y as nat, or_zero(args.width), or_zero(args.height)))
    } else {
        None
    }
}

fn push_char(out: &mut Vec<char>, c: char)
    ensures
        final(out)@ == old(out)@.push(c),
{
    out.push(c);
}

/// The manual crop spec that the `crop` command builds from its arguments.
pub fn crop_spec_of(args: &CropArgs) -> (r: Option<String>)
    ensures
        match r {
            Some(s) => crop_command_spec(*args) == Some(s@),
            None => crop_command_spec(*args) is None,
        },
{
    if args.ratio.is_some() {
        return None;
    }
    if args.width.is_none() && args.height.is_none() {
        return None;
    }
    let w = match args.width {
        Some(w) => w,
        None => 0,
    };
    let h = match args.height {
        Some(h) => h,
        None => 0,
    };
    let mut out: Vec<char> = Vec::new();
    push_numeral(&mut out, args.x as u64, 10);
    push_char(&mut out, ',');
    push_numeral(&mut out, args.y as u64, 10);
    push_char(&mut out, ',');
    push_numeral(&mut out, w as u64, 10);
    push_char(&mut out, ',');
    push_numeral(&mut out, h as u64, 10);
    proof {
        assert(out@ =~= crop_spec_text(args.x as nat, args.y as nat, w as nat, h as nat));
    }
    Some(string_of(out.as_slice()))
}

/// One side of a resize spec: its decimal numeral, or `-` when left free.
pub open spec fn dimension_text(v: Option<u32>) -> Seq<char> {
    match v {
        Some(n) => decimal(n as nat),
        None => seq!['-'],
    }
}

/// The resize spec `"WxH"` the `resize` command hands on, `-` standing for a
/// free side; none when both sides are free.
pub open spec fn resize_command_spec(width: Option<u32>, height: Option<u32>) -> Option<Seq<char>> {
    if width is None && height is None {
        None
    } else {
        Some(dimension_text(width) + seq!['x'] + dimension_text(height))
    }
}

fn push_dimension(out: &mut Vec<char>, v: Option<u32>)
    ensures
        final(out)@ == old(out)@ + dimension_text(v),
{
    match v {
        Some(n) => push_numeral(out, n as u64, 10),
        None => {
            out.push('-');
            assert(final(out)@ =~= old(out)@ + dimension_text(v));
        },
    }
}

/// The resize spec that the `resize` command builds from its width and height.
pub fn resize_spec_of(width: Option<u32>, height: Option<u32>) -> (r: Option<String>)
    ensures
        match r {
            Some(s) => resize_command_spec(width, height) == Some(s@),
            None => resize_command_spec(width, height) is None,
        },
{
    if width.is_none() && height.is_none() {
        return None;
    }
    let mut out: Vec<char> = Vec::new();
    push_dimension(&mut out, width);
    push_char(&mut out, 'x');
    push_dimension(&mut out, height);
    proof {
        assert(out@ =~= dimension_text(width) + seq!['x'] + dimension_text(height));
    }
    Some(string_of(out.as_slice()))
}

/// The exact-size smart-crop spec `"WxH"`.
pub open spec fn size_spec_text(w: nat, h: nat) -> Seq<char> {
    decimal(w) + seq!['x'] + decimal(h)
}

/// The smart-crop spec the `smart-crop` command hands on: the ratio when one is
/// given, else `"WxH"` when both sides are given, else none.
pub fn smart_crop_spec_of(ratio: Option<String>, width: Option<u32>, height: Option<u32>) -> (r:
    Option<String>)
    ensures
        ratio is Some ==> r is Some && r->0@ == ratio->0@,
        ratio is None && width is Some && height is Some ==> r is Some && r->0@ == size_spec_text(
            width->0 as nat,
            height->0 as nat,
        ),
        ratio is None && (width is None || height is None) ==> r is None,
{
    match ratio {
        Some(s) => Some(s),
        None => match (width, height) {
            (Some(w), Some(h)) => {
                let mut out: Vec<char> = Vec::new();
                push_numeral(&mut out, w as u64, 10);
                push_char(&mut out, 'x');
                push_numeral(&mut out, h as u64, 10);
                proof {
                    assert(out@ =~= size_spec_text(w as nat, h as nat));
                }
                Some(string_of(out.as_slice()))
            },
            _ => None,
        },
    }
}

// ---------------------------------------------------------------------------
// What the processing path reads back
// ---------------------------------------------------------------------------

/// The crop spec that the `crop` command writes reads back, through the crop
/// spec parser, as exactly the origin and size it was built from.
pub proof fn lemma_crop_spec_reads_back(x: u32, y: u32, w: u32, h: u32)
    ensures
        crop_spec_value(crop_spec_text(x as nat, y as nat, w as nat, h as nat)) == Some(
            (x as nat, y as nat, w as nat, h as nat),
        ),
{
    let m: nat = 0xffff_ffff;
    lemma_parse_decimal(x as nat, m);
    lemma_parse_decimal(y as nat, m);
    lemma_parse_decimal(w as nat, m);
    lemma_parse_decimal(h as nat, m);
    let dx = decimal(x as nat);
    let dy = decimal(y as nat);
    let dw = decimal(w as nat);
    let dh = decimal(h as nat);
    lemma_split_without_sep(dx, ',');
    lemma_split_without_sep(dy, ',');
    lemma_split_without_sep(dw, ',');
    lemma_split_without_sep(dh, ',');
    lemma_split_concat(dx, dy, ',');
    let a = dx + seq![','] + dy;
    lemma_split_concat(a, dw, ',');
    let b = a + seq![','] + dw;
    lemma_split_concat(b, dh, ',');
    let parts = split_on(crop_spec_text(x as nat, y as nat, w as nat, h as nat), ',');
    assert(parts =~= seq![dx, dy, dw, dh]);
}

proof fn lemma_dimension_text(v: Option<u32>)
    ensures
        dimension_text(v).len() > 0,
        !is_whitespace(dimension_text(v)[0]),
        !is_whitespace(dimension_text(v).last()),
        dimension_text(v).last() != '%',
        !dimension_text(v).contains('x'),
{
    match v {
        Some(n) => {
            lemma_parse_decimal(n as nat, n as nat);
            lemma_decimal(n as nat);
            let d = decimal(n as nat);
            assert(crate::text::is_digit(d[0]));
            assert(crate::text::is_digit(d.last()));
        },
        None => {
            assert(!seq!['-'].contains('x')) by {
                if seq!['-'].contains('x') {
                    let i = choose|i: int| 0 <= i < 1 && seq!['-'][i] == 'x';
                    assert(seq!['-'][i] == '-');
                }
            }
        },
    }
}

/// The resize spec that the `resize` command writes reads back, through the
/// resize spec parser, as exactly the width and height it was built from.
pub proof fn lemma_resize_spec_reads_back(width: Option<u32>, height: Option<u32>)
    requires
        width is Some || height is Some,
    ensures
        resize_form_value(resize_command_spec(width, height)->0) == Some(
            Err::<Seq<char>, (Option<nat>, Option<nat>)>(
                (
                    match width {
                        Some(v) => Some(v as nat),
                        None => None::<nat>,
                    },
                    match height {
                        Some(v) => Some(v as nat),
                        None => None::<nat>,
                    },
                ),
            ),
        ),
{
    let dw = dimension_text(width);
    let dh = dimension_text(height);
    let s = dw + seq!['x'] + dh;
    lemma_dimension_text(width);
    lemma_dimension_text(height);
    assert(s[0] == dw[0]);
    assert(s.last() == dh.last());
    lemma_trim_unchanged(s);
    lemma_find_char_after(dw, 'x', dh);
    assert(s.take(dw.len() as int) =~= dw);
    assert(s.skip(dw.len() as int + 1) =~= dh);
    reveal_strlit("-");
    assert(seq!['-'] =~= "-"@);
    match width {
        Some(v) => {
            lemma_parse_decimal(v as nat, 0xffff_ffff);
            lemma_decimal(v as nat);
            assert(crate::text::is_digit(dw[0]));
            assert(dw != "-"@) by {
                assert("-"@[0] == '-');
            }
        },
        None => {},
    }
    match height {
        Some(v) => {
            lemma_parse_decimal(v as nat, 0xffff_ffff);
            lemma_decimal(v as nat);
            assert(crate::text::is_digit(dh[0]));
            assert(dh != "-"@) by {
                assert("-"@[0] == '-');
            }
        },
        None => {},
    }
}

/// The exact-size spec that the `smart-crop` command writes reads back,
/// through the smart-crop spec parser, as exactly that size.
pub proof fn lemma_size_spec_reads_back(w: u32, h: u32)
    ensures
        smart_crop_target_value(size_spec_text(w as nat, h as nat)) == SmartCropTarget::Size(w, h),
{
    let dw = decimal(w as nat);
    let dh = decimal(h as nat);
    let s = size_spec_text(w as nat, h as nat);
    lemma_parse_decimal(w as nat, 0xffff_ffff);
    lemma_parse_decimal(h as nat, 0xffff_ffff);
    assert(!s.contains(':')) by {
        if s.contains(':') {
            let i = choose|i: int| 0 <= i < s.len() && s[i] == ':';
            if i < dw.len() {
                assert(dw[i] == ':');
            } else if i > dw.len() {
                assert(dh[i - dw.len() - 1] == ':');
            }
        }
    }
    lemma_split_without_sep(s, ':');
    lemma_find_char_after(dw, 'x', dh);
    assert(s.take(dw.len() as int) =~= dw);
    assert(s.skip(dw.len() as int + 1) =~= dh);
    assert(find_char(s, 'x') == Some(dw.len() as int));
}

} // verus!
