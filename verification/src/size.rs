//! Human-readable file sizes such as `500KB`, `2MB`, `1.5MB` or `800B`.
use vstd::prelude::*;
use crate::text::{
    all_digits, chars_end_with, chars_of, copy_range, digit_value, digits_value, ends_with,
    find_char, is_digit, parse_unsigned, parse_unsigned_chars, position_of_char, string_of, trim,
    trim_chars, trim_str, to_uppercase, uppercased, chars_eq_str, concat, lemma_digits_value_monotone,
    ascii_lower, ascii_lower_char, ascii_upper, ascii_upper_char, decimal, is_ascii_text, is_trimmed, unsigned_literal,
    is_whitespace, lemma_decimal, lemma_trim_is_trimmed, lemma_trim_keeps_ascii, lemma_trim_of_trimmed,
};

verus! {

/// `u64::MAX` as a mathematical integer.
pub open spec fn u64_max() -> nat {
    0xffff_ffff_ffff_ffff
}

pub open spec fn pow10(n: nat) -> nat
    decreases n,
{
    if n == 0 {
        1
    } else {
        10 * pow10((n - 1) as nat)
    }
}

/// A decimal literal's sign and the text after it.
pub open spec fn sign_and_body(t: Seq<char>) -> (bool, Seq<char>) {
    if t.len() > 0 && t[0] == '+' {
        (false, t.drop_first())
    } else if t.len() > 0 && t[0] == '-' {
        (true, t.drop_first())
    } else {
        (false, t)
    }
}

/// The integer and fraction digits of `digits[.digits]`, with at least one digit.
pub open spec fn decimal_split(body: Seq<char>) -> Option<(Seq<char>, Seq<char>)> {
    let (ip, fp) = match find_char(body, '.') {
        Some(i) => (body.take(i), body.skip(i + 1)),
        None => (body, Seq::empty()),
    };
    if all_digits(ip) && all_digits(fp) && ip.len() + fp.len() > 0 {
        Some((ip, fp))
    } else {
        None
    }
}

/// `v`, or `u64::MAX` when `v` exceeds it (a saturating conversion to `u64`).
pub open spec fn saturate(v: nat) -> nat {
    if v > u64_max() {
        u64_max()
    } else {
        v
    }
}

/// The exponent `[+|-]digits` of a float literal.
pub open spec fn exponent_value(e: Seq<char>) -> Option<int> {
    let (neg, digits) = sign_and_body(e);
    if digits.len() > 0 && all_digits(digits) {
        Some(
            if neg {
                -(digits_value(digits) as int)
            } else {
                digits_value(digits) as int
            },
        )
    } else {
        None
    }
}

/// An unsigned float literal `digits[.digits][E[+|-]digits]` (at least one
/// mantissa digit) as its integer digits, fraction digits and exponent.
pub open spec fn float_parts(body: Seq<char>) -> Option<(Seq<char>, Seq<char>, int)> {
    match find_char(body, 'E') {
        Some(i) => match (decimal_split(body.take(i)), exponent_value(body.skip(i + 1))) {
            (Some((ip, fp)), Some(e)) => Some((ip, fp, e)),
            _ => None,
        },
        None => match decimal_split(body) {
            Some((ip, fp)) => Some((ip, fp, 0)),
            None => None,
        },
    }
}

/// `n / 10^f * 10^e * m`, rounded down.
pub open spec fn scaled_value(n: nat, f: nat, e: int, m: nat) -> nat {
    if e >= 0 {
        (n * m * pow10(e as nat)) / pow10(f)
    } else {
        (n * m) / pow10(f + ((-e) as nat))
    }
}

/// The float literal `t` (as `f64`'s `FromStr` reads an upper-cased one: an
/// optional sign, then `INF`, `INFINITY`, `NAN`, or digits with an optional
/// point and exponent) times `m`, converted to `u64` as `as` does: rounded
/// toward zero, saturated, 0 when negative or not a number.
pub open spec fn scaled_decimal(t: Seq<char>, m: nat) -> Option<nat> {
    let (neg, body) = sign_and_body(t);
    if body == "INF"@ || body == "INFINITY"@ {
        Some(
            if neg {
                0
            } else {
                u64_max()
            },
        )
    } else if body == "NAN"@ {
        Some(0)
    } else {
        match float_parts(body) {
            Some((ip, fp, e)) => Some(
                if neg {
                    0
                } else {
                    saturate(
                        scaled_value(digits_value(ip) * pow10(fp.len()) + digits_value(fp), fp.len(), e, m),
                    )
                },
            ),
            None => None,
        }
    }
}

/// The number of bytes a size spec denotes: an unsigned numeral of bytes, or
/// a number with suffix `B`, `KB` (1024 bytes) or `MB` (1024 * 1024 bytes),
/// matched without regard to case; surrounding whitespace is ignored.
pub open spec fn size_bytes_value(spec: Seq<char>) -> Option<nat> {
    let s = uppercased(trim(spec));
    if s.len() == 0 {
        None
    } else if ends_with(s, "MB"@) {
        scaled_decimal(trim(s.take(s.len() - 2)), 1048576)
    } else if ends_with(s, "KB"@) {
        scaled_decimal(trim(s.take(s.len() - 2)), 1024)
    } else if ends_with(s, "B"@) {
        parse_unsigned(trim(s.take(s.len() - 1)), u64_max())
    } else {
        parse_unsigned(s, u64_max())
    }
}

proof fn lemma_pow10_positive(n: nat)
    ensures
        pow10(n) > 0,
    decreases n,
{
    if n > 0 {
        lemma_pow10_positive((n - 1) as nat);
    }
}

proof fn lemma_digits_below_pow10(s: Seq<char>)
    requires
        all_digits(s),
    ensures
        digits_value(s) < pow10(s.len()),
    decreases s.len(),
{
    if s.len() > 0 {
        let t = s.drop_last();
        assert(all_digits(t)) by {
            assert forall|i: int| 0 <= i < t.len() implies is_digit(#[trigger] t[i]) by {
                assert(t[i] == s[i]);
            }
        }
        lemma_digits_below_pow10(t);
        assert(is_digit(s[s.len() - 1]));
        let v = digits_value(t);
        let p = pow10(t.len());
        let d = digit_value(s.last());
        assert(v * 10 + d < p * 10) by (nonlinear_arith)
            requires
                v < p,
                d < 10,
        ;
    }
}

proof fn lemma_digits_prepend(d: char, t: Seq<char>)
    ensures
        digits_value(seq![d] + t) == digit_value(d) * pow10(t.len()) + digits_value(t),
    decreases t.len(),
{
    let s = seq![d] + t;
    if t.len() == 0 {
        assert(s.drop_last() =~= Seq::<char>::empty());
        assert(s.last() == d);
        assert(digits_value(Seq::<char>::empty()) == 0);
        assert(digits_value(s) == digit_value(d));
        assert(pow10(0) == 1);
        assert(t =~= Seq::<char>::empty());
        assert(digits_value(t) == 0);
        assert(digit_value(d) * pow10(t.len()) == digit_value(d));
        assert(seq![d] + t =~= s);
    } else {
        assert(s.drop_last() =~= seq![d] + t.drop_last());
        assert(s.last() == t.last());
        assert(pow10(t.len()) == 10 * pow10((t.len() - 1) as nat));
        lemma_digits_prepend(d, t.drop_last());
        let a = digit_value(d);
        let p = pow10((t.len() - 1) as nat);
        let b = digits_value(t.drop_last());
        let l = digit_value(t.last());
        assert((a * p + b) * 10 + l == a * (10 * p) + (b * 10 + l)) by (nonlinear_arith);
        assert(digits_value(t) == b * 10 + l);
        assert(digits_value(s) == digits_value(s.drop_last()) * 10 + l);
        assert(digits_value(s.drop_last()) == a * p + b);
        assert(a * pow10(t.len()) == a * (10 * p));
        assert(digits_value(s) == a * pow10(t.len()) + digits_value(t));
    }
}

/// Dividing by `p * 10` in two steps, with the remainder of the first carried.
proof fn lemma_carry_step(a: nat, v: nat, m: nat, p: nat)
    requires
        p > 0,
    ensures
        ((a * p + v) * m) / (p * 10) == (a * m + (v * m) / p) / 10,
{
    let q = (v * m) / p;
    let r = (v * m) % p;
    vstd::arithmetic::div_mod::lemma_fundamental_div_mod((v * m) as int, p as int);
    let x = (a * p + v) * m;
    assert(x == (a * m + q) * p + r) by (nonlinear_arith)
        requires
            v * m == p * q + r,
            x == (a * p + v) * m,
    ;
    vstd::arithmetic::div_mod::lemma_fundamental_div_mod_converse(
        x as int,
        p as int,
        (a * m + q) as int,
        r as int,
    );
    vstd::arithmetic::div_mod::lemma_div_denominator(x as int, p as int, 10);
}

/// Splitting off the whole part of `(i * p + f) * m / p`.
proof fn lemma_split_whole(i: nat, f: nat, m: nat, p: nat)
    requires
        p > 0,
    ensures
        (i * p + f) * m / p == i * m + (f * m) / p,
{
    let q = (f * m) / p;
    let r = (f * m) % p;
    vstd::arithmetic::div_mod::lemma_fundamental_div_mod((f * m) as int, p as int);
    let x = (i * p + f) * m;
    assert(x == (i * m + q) * p + r) by (nonlinear_arith)
        requires
            f * m == p * q + r,
            x == (i * p + f) * m,
    ;
    vstd::arithmetic::div_mod::lemma_fundamental_div_mod_converse(
        x as int,
        p as int,
        (i * m + q) as int,
        r as int,
    );
}

/// `digits_value(fp) * m / 10^len(fp)`, rounded down, for decimal digits `fp`.
fn scaled_fraction(fp: &[char], m: u64) -> (c: u64)
    requires
        all_digits(fp@),
        m == 1024 || m == 1048576,
    ensures
        c as nat == digits_value(fp@) * (m as nat) / pow10(fp@.len()),
        c < m,
{
    let f = fp.len();
    let mut carry: u64 = 0;
    let mut k: usize = f;
    assert(fp@.skip(f as int) =~= Seq::<char>::empty());
    while k > 0
        invariant
            k <= f == fp@.len(),
            all_digits(fp@),
            m == 1024 || m == 1048576,
            carry < m,
            carry as nat == digits_value(fp@.skip(k as int)) * (m as nat) / pow10((f - k) as nat),
        decreases k,
    {
        k = k - 1;
        let c = fp[k];
        assert(is_digit(fp@[k as int]));
        let d = (c as u32 - '0' as u32) as u64;
        let ghost t = fp@.skip(k + 1);
        proof {
            assert(fp@.skip(k as int) =~= seq![c] + t);
            lemma_digits_prepend(c, t);
            lemma_pow10_positive(t.len());
            lemma_carry_step(d as nat, digits_value(t), m as nat, pow10(t.len()));
            assert(t.len() == f - k - 1);
            assert(pow10((f - k) as nat) == 10 * pow10(t.len()));
            assert(d * m + carry < 10 * m) by (nonlinear_arith)
                requires
                    d <= 9,
                    carry < m,
            ;
        }
        carry = (d * m + carry) / 10;
    }
    assert(fp@.skip(0) =~= fp@);
    carry
}

/// The value of the digits `a` followed by the digits `b`.
proof fn lemma_digits_concat(a: Seq<char>, b: Seq<char>)
    ensures
        digits_value(a + b) == digits_value(a) * pow10(b.len()) + digits_value(b),
    decreases b.len(),
{
    if b.len() == 0 {
        assert(a + b =~= a);
        assert(b =~= Seq::<char>::empty());
        assert(digits_value(b) == 0);
        assert(pow10(0) == 1);
        assert(digits_value(a) * 1 == digits_value(a));
    } else {
        let b2 = b.drop_last();
        lemma_digits_concat(a, b2);
        assert((a + b).drop_last() =~= a + b2);
        assert((a + b).last() == b.last());
        let x = digits_value(a);
        let p = pow10(b2.len());
        let y = digits_value(b2);
        let l = digit_value(b.last());
        assert(digits_value(a + b) == digits_value(a + b2) * 10 + l);
        assert(digits_value(b) == y * 10 + l);
        assert(pow10(b.len()) == 10 * p);
        assert((x * p + y) * 10 + l == x * (10 * p) + (y * 10 + l)) by (nonlinear_arith);
    }
}

/// `k` zero digits.
pub open spec fn zero_digits(k: nat) -> Seq<char> {
    Seq::new(k, |i: int| '0')
}

proof fn lemma_zero_digits(k: nat)
    ensures
        digits_value(zero_digits(k)) == 0,
        all_digits(zero_digits(k)),
    decreases k,
{
    if k > 0 {
        lemma_zero_digits((k - 1) as nat);
        assert(zero_digits(k).drop_last() =~= zero_digits((k - 1) as nat));
    } else {
        assert(zero_digits(k) =~= Seq::<char>::empty());
    }
}

proof fn lemma_pow10_add(a: nat, b: nat)
    ensures
        pow10(a + b) == pow10(a) * pow10(b),
    decreases b,
{
    if b == 0 {
        assert(pow10(0) == 1);
        assert(pow10(a) * 1 == pow10(a));
    }
    if b > 0 {
        lemma_pow10_add(a, (b - 1) as nat);
        assert((a + b - 1) as nat == a + ((b - 1) as nat));
        assert(pow10(a + b) == 10 * pow10((a + b - 1) as nat));
        assert(pow10(b) == 10 * pow10((b - 1) as nat));
        let x = pow10(a);
        let y = pow10((b - 1) as nat);
        assert(10 * (x * y) == x * (10 * y)) by (nonlinear_arith);
    }
}

proof fn lemma_pow10_monotone(a: nat, b: nat)
    requires
        a <= b,
    ensures
        pow10(a) <= pow10(b),
    decreases b,
{
    if a < b {
        lemma_pow10_monotone(a, (b - 1) as nat);
        lemma_pow10_positive((b - 1) as nat);
    }
}

/// Digits with a nonzero digit have a positive value.
proof fn lemma_digits_positive(s: Seq<char>, i: int)
    requires
        all_digits(s),
        0 <= i < s.len(),
        s[i] != '0',
    ensures
        digits_value(s) >= 1,
    decreases s.len(),
{
    let t = s.drop_last();
    if i < s.len() - 1 {
        assert(all_digits(t)) by {
            assert forall|j: int| 0 <= j < t.len() implies is_digit(#[trigger] t[j]) by {
                assert(t[j] == s[j]);
            }
        }
        assert(t[i] == s[i]);
        lemma_digits_positive(t, i);
    } else {
        assert(is_digit(s.last()));
        assert(s.last() != '0');
    }
}

/// Digits that are all `0` have value 0.
proof fn lemma_digits_zero(s: Seq<char>)
    requires
        forall|j: int| 0 <= j < s.len() ==> #[trigger] s[j] == '0',
    ensures
        digits_value(s) == 0,
    decreases s.len(),
{
    if s.len() > 0 {
        let t = s.drop_last();
        assert forall|j: int| 0 <= j < t.len() implies #[trigger] t[j] == '0' by {
            assert(t[j] == s[j]);
        }
        lemma_digits_zero(t);
        assert(s[s.len() - 1] == '0');
    }
}

/// `(x * 10^a) / 10^(a + b) == x / 10^b`.
proof fn lemma_div_pow10_cancel(x: nat, a: nat, b: nat)
    ensures
        (x * pow10(a)) / pow10(a + b) == x / pow10(b),
{
    lemma_pow10_add(a, b);
    lemma_pow10_positive(a);
    lemma_pow10_positive(b);
    vstd::arithmetic::div_mod::lemma_div_denominator((x * pow10(a)) as int, pow10(a) as int, pow10(b) as int);
    vstd::arithmetic::div_mod::lemma_div_by_multiple(x as int, pow10(a) as int);
}

/// `(digits_value(ip) * 10^|fp| + digits_value(fp)) * m / 10^|fp|`, saturated
/// to `u64`.
fn scaled_parts(ip: &[char], fp: &[char], m: u64) -> (r: u64)
    requires
        all_digits(ip@),
        all_digits(fp@),
        m == 1024 || m == 1048576,
    ensures
        r as nat == saturate(
            (digits_value(ip@) * pow10(fp@.len()) + digits_value(fp@)) * (m as nat) / pow10(fp@.len()),
        ),
{
    let cap: u64 = if m == 1024 {
        18014398509481983
    } else {
        17592186044415
    };
    let whole: Option<u64> = if ip.len() == 0 {
        Some(0)
    } else {
        parse_unsigned_chars(ip, cap)
    };
    let frac = scaled_fraction(fp, m);
    let ghost iv = digits_value(ip@);
    let ghost fv = digits_value(fp@);
    let ghost p = pow10(fp@.len());
    proof {
        lemma_pow10_positive(fp@.len());
        lemma_split_whole(iv, fv, m as nat, p);
        if ip@.len() > 0 {
            assert(ip@[0] != '+') by {
                assert(is_digit(ip@[0]));
            }
        } else {
            assert(iv == 0);
        }
    }
    match whole {
        Some(w) => {
            proof {
                assert(w as nat == iv);
                assert(w * m + frac <= u64_max()) by (nonlinear_arith)
                    requires
                        m == 1024 || m == 1048576,
                        m == 1024 ==> w <= 18014398509481983,
                        m == 1048576 ==> w <= 17592186044415,
                        frac < m,
                ;
            }
            w * m + frac
        },
        None => {
            proof {
                assert(iv > cap);
                assert(iv * m > u64_max()) by (nonlinear_arith)
                    requires
                        m == 1024 || m == 1048576,
                        m == 1024 ==> iv > 18014398509481983,
                        m == 1048576 ==> iv > 17592186044415,
                ;
            }
            0xffff_ffff_ffff_ffff
        },
    }
}

/// The largest exponent magnitude read exactly; larger ones only need to be
/// known to be larger.
pub open spec fn exponent_cap() -> nat {
    0x1_0000_0000_0000_0000_0000_0000
}

/// The value of the digits `d`, when it is at most `exponent_cap()`.
fn parse_exponent_digits(d: &[char]) -> (r: Option<u128>)
    requires
        all_digits(d@),
    ensures
        r matches Some(v) ==> v as nat == digits_value(d@) && v as nat <= exponent_cap(),
        r is None ==> digits_value(d@) > exponent_cap(),
{
    let mut acc: u128 = 0;
    let mut i: usize = 0;
    assert(d@.take(0) =~= Seq::<char>::empty());
    while i < d.len()
        invariant
            i <= d@.len(),
            d@.len() == d.len(),
            all_digits(d@),
            acc as nat == digits_value(d@.take(i as int)),
            acc as nat <= exponent_cap(),
        decreases d@.len() - i,
    {
        assert(is_digit(d@[i as int]));
        let dig = (d[i] as u32 - '0' as u32) as u128;
        assert(d@.take(i + 1).drop_last() =~= d@.take(i as int));
        let next = acc * 10 + dig;
        if next > 0x1_0000_0000_0000_0000_0000_0000u128 {
            proof {
                lemma_digits_value_monotone(d@, i + 1);
            }
            return None;
        }
        acc = next;
        i = i + 1;
    }
    assert(d@.take(d@.len() as int) =~= d@);
    Some(acc)
}

/// Whether the digits `s` hold a nonzero digit.
fn has_nonzero_digit(s: &[char]) -> (b: bool)
    ensures
        b == exists|j: int| 0 <= j < s@.len() && s@[j] != '0',
{
    let mut i: usize = 0;
    while i < s.len()
        invariant
            i <= s@.len(),
            s@.len() == s.len(),
            forall|j: int| 0 <= j < i ==> s@[j] == '0',
        decreases s@.len() - i,
    {
        if s[i] != '0' {
            return true;
        }
        i = i + 1;
    }
    false
}

/// `k` zero digits.
fn zeros(k: usize) -> (v: Vec<char>)
    ensures
        v@ == zero_digits(k as nat),
{
    let mut v: Vec<char> = Vec::new();
    let mut i: usize = 0;
    while i < k
        invariant
            i <= k,
            v@ == zero_digits(i as nat),
        decreases k - i,
    {
        v.push('0');
        i = i + 1;
        assert(v@ =~= zero_digits(i as nat));
    }
    v
}

/// The mantissa `ip.fp` as an integer with `|fp|` implied decimals.
pub open spec fn mantissa_value(ip: Seq<char>, fp: Seq<char>) -> nat {
    digits_value(ip) * pow10(fp.len()) + digits_value(fp)
}

proof fn lemma_scaled_zero(f: nat, e: int, m: nat)
    ensures
        scaled_value(0, f, e, m) == 0,
{
    if e >= 0 {
        lemma_pow10_positive(f);
        assert(0 * m * pow10(e as nat) == 0) by (nonlinear_arith);
        vstd::arithmetic::div_mod::lemma_basic_div(0, pow10(f) as int);
    } else {
        let k = f + ((-e) as nat);
        lemma_pow10_positive(k);
        assert(0 * m == 0);
        vstd::arithmetic::div_mod::lemma_basic_div(0, pow10(k) as int);
    }
}

proof fn lemma_scaled_saturates(nv: nat, f: nat, s: int, m: nat)
    requires
        nv >= 1,
        m >= 1,
        s > f + 20,
    ensures
        scaled_value(nv, f, s, m) > u64_max(),
{
    let z = (s - f) as nat;
    assert(s as nat == f + z);
    lemma_pow10_add(f, z);
    lemma_pow10_positive(f);
    lemma_pow10_monotone(21, z);
    reveal_with_fuel(pow10, 22);
    assert(pow10(21) == 1000000000000000000000nat);
    let pz = pow10(z);
    let pf = pow10(f);
    assert(nv * m * (pf * pz) == (nv * m * pz) * pf) by (nonlinear_arith);
    vstd::arithmetic::div_mod::lemma_div_by_multiple((nv * m * pz) as int, pf as int);
    assert(nv * m * pz >= pz) by (nonlinear_arith)
        requires
            nv >= 1,
            m >= 1,
    ;
}

proof fn lemma_scaled_vanishes(ip: Seq<char>, fp: Seq<char>, k: int, m: nat)
    requires
        all_digits(ip),
        all_digits(fp),
        k >= ip.len() + 7,
        m <= 1048576,
    ensures
        scaled_value(mantissa_value(ip, fp), fp.len(), -k, m) == 0,
{
    let f = fp.len();
    let nv = mantissa_value(ip, fp);
    lemma_digits_concat(ip, fp);
    let d = ip + fp;
    assert(all_digits(d));
    lemma_digits_below_pow10(d);
    lemma_pow10_add((ip.len() + f) as nat, 7);
    lemma_pow10_monotone((ip.len() + f + 7) as nat, (f + k) as nat);
    reveal_with_fuel(pow10, 8);
    assert(pow10(7) == 10000000nat);
    let pd = pow10((ip.len() + f) as nat);
    assert(nv * m < pd * pow10(7)) by (nonlinear_arith)
        requires
            nv < pd,
            m <= 1048576,
            pow10(7) == 10000000nat,
    ;
    assert((f + (-(-k))) as nat == (f + k) as nat);
    vstd::arithmetic::div_mod::lemma_basic_div((nv * m) as int, pow10((f + k) as nat) as int);
}

/// The mantissa `ip.fp` times `10^s` (at most 20 digits past the fraction)
/// times `m`, saturated.
fn scale_up(ip: &[char], fp: &[char], s: u128, m: u64) -> (r: u64)
    requires
        all_digits(ip@),
        all_digits(fp@),
        s <= fp@.len() + 20,
        m == 1024 || m == 1048576,
    ensures
        r as nat == saturate(scaled_value(mantissa_value(ip@, fp@), fp@.len(), s as int, m as nat)),
{
    let flen = fp.len();
    let ghost f = fp@.len();
    let ghost nv = mantissa_value(ip@, fp@);
    let d = concat(ip, fp);
    proof {
        lemma_digits_concat(ip@, fp@);
    }
    if s <= flen as u128 {
        let su = s as usize;
        let ip2 = concat(ip, copy_range(fp, 0, su).as_slice());
        let fp2 = copy_range(fp, su, flen);
        proof {
            assert(d@ =~= ip2@ + fp2@);
            lemma_digits_concat(ip2@, fp2@);
            assert(all_digits(ip2@));
            assert(all_digits(fp2@));
            let x = nv * (m as nat);
            lemma_div_pow10_cancel(x, s as nat, (f - s) as nat);
            assert(f == s + (f - s));
        }
        scaled_parts(ip2.as_slice(), fp2.as_slice(), m)
    } else {
        let z = (s - flen as u128) as usize;
        let ip2 = concat(d.as_slice(), zeros(z).as_slice());
        let fp2: Vec<char> = Vec::new();
        proof {
            lemma_zero_digits(z as nat);
            lemma_digits_concat(d@, zero_digits(z as nat));
            assert(all_digits(ip2@));
            assert(fp2@ =~= Seq::<char>::empty());
            assert(digits_value(fp2@) == 0);
            assert(s == f + z);
            lemma_pow10_add(f, z as nat);
            lemma_pow10_positive(f);
            let pz = pow10(z as nat);
            let pf = pow10(f);
            let mm = m as nat;
            assert(nv * mm * (pf * pz) == (nv * mm * pz) * pf) by (nonlinear_arith);
            vstd::arithmetic::div_mod::lemma_div_by_multiple((nv * mm * pz) as int, pf as int);
            assert(digits_value(ip2@) == nv * pz);
            assert(pow10(0) == 1);
            assert((nv * pz * 1 + 0) * mm == nv * mm * pz) by (nonlinear_arith);
            vstd::arithmetic::div_mod::lemma_div_by_multiple((nv * mm * pz) as int, 1);
        }
        scaled_parts(ip2.as_slice(), fp2.as_slice(), m)
    }
}

/// The mantissa `ip.fp` divided by `10^k` (at most 6 digits past its integer
/// part) times `m`, saturated.
fn scale_down(ip: &[char], fp: &[char], k: u128, m: u64) -> (r: u64)
    requires
        all_digits(ip@),
        all_digits(fp@),
        1 <= k < ip@.len() + 7,
        m == 1024 || m == 1048576,
    ensures
        r as nat == saturate(scaled_value(mantissa_value(ip@, fp@), fp@.len(), -(k as int), m as nat)),
{
    let ilen = ip.len();
    let ghost f = fp@.len();
    let d = concat(ip, fp);
    proof {
        lemma_digits_concat(ip@, fp@);
        assert((f + (-(-(k as int)))) as nat == f + k);
    }
    if k <= ilen as u128 {
        let cut = ilen - k as usize;
        let ip2 = copy_range(ip, 0, cut);
        let fp2 = concat(copy_range(ip, cut, ilen).as_slice(), fp);
        proof {
            assert(d@ =~= ip2@ + fp2@);
            lemma_digits_concat(ip2@, fp2@);
            assert(all_digits(ip2@));
            assert(all_digits(fp2@));
            assert(fp2@.len() == f + k);
        }
        scaled_parts(ip2.as_slice(), fp2.as_slice(), m)
    } else {
        let z = (k - ilen as u128) as usize;
        let ip2: Vec<char> = Vec::new();
        let fp2 = concat(zeros(z).as_slice(), d.as_slice());
        proof {
            lemma_zero_digits(z as nat);
            lemma_digits_concat(zero_digits(z as nat), d@);
            assert(ip2@ =~= Seq::<char>::empty());
            assert(digits_value(ip2@) == 0);
            assert(all_digits(fp2@));
            assert(fp2@.len() == f + k);
            assert(0 * pow10(fp2@.len()) + digits_value(fp2@) == digits_value(fp2@));
        }
        scaled_parts(ip2.as_slice(), fp2.as_slice(), m)
    }
}

/// An unsigned float literal split into integer digits, fraction digits,
/// and the exponent's sign and magnitude (`None` past `exponent_cap()`).
fn split_float(body: &[char]) -> (r: Option<(Vec<char>, Vec<char>, bool, Option<u128>)>)
    ensures
        r is None ==> float_parts(body@) is None,
        r matches Some((ip, fp, e_neg, e_mag)) ==> float_parts(body@) matches Some((i, f, e)) && ip@ == i
            && fp@ == f && all_digits(i) && all_digits(f) && (e_mag matches Some(k) ==> e == (if e_neg {
            -(k as int)
        } else {
            k as int
        })) && (e_mag is None ==> (if e_neg {
            -e
        } else {
            e
        }) > exponent_cap()),
{
    let (mant, exp) = match position_of_char(body, 'E') {
        Some(i) => {
            assert(i < body@.len());
            (copy_range(body, 0, i), Some(copy_range(body, i + 1, body.len())))
        },
        None => (copy_range(body, 0, body.len()), None),
    };
    proof {
        match find_char(body@, 'E') {
            Some(i) => {
                assert(mant@ =~= body@.take(i));
                assert(exp.unwrap()@ =~= body@.skip(i + 1));
            },
            None => {
                assert(mant@ =~= body@);
            },
        }
    }
    let (ip, fp) = match position_of_char(mant.as_slice(), '.') {
        Some(i) => (copy_range(mant.as_slice(), 0, i), copy_range(mant.as_slice(), i + 1, mant.len())),
        None => (copy_range(mant.as_slice(), 0, mant.len()), Vec::new()),
    };
    proof {
        match find_char(mant@, '.') {
            Some(i) => {
                assert(ip@ =~= mant@.take(i));
                assert(fp@ =~= mant@.skip(i + 1));
            },
            None => {
                assert(ip@ =~= mant@);
                assert(fp@ =~= Seq::<char>::empty());
            },
        }
    }
    if !(ip.len() + fp.len() > 0) || !digits_only(ip.as_slice()) || !digits_only(fp.as_slice()) {
        return None;
    }
    match exp {
        None => Some((ip, fp, false, Some(0))),
        Some(et) => {
            let en = et.len();
            let (eneg, es) = if en > 0 && et[0] == '+' {
                (false, 1usize)
            } else if en > 0 && et[0] == '-' {
                (true, 1usize)
            } else {
                (false, 0usize)
            };
            let ed = copy_range(et.as_slice(), es, en);
            proof {
                if es == 1 {
                    assert(ed@ =~= et@.drop_first());
                } else {
                    assert(ed@ =~= et@);
                }
            }
            if ed.len() == 0 || !digits_only(ed.as_slice()) {
                return None;
            }
            Some((ip, fp, eneg, parse_exponent_digits(ed.as_slice())))
        },
    }
}

/// The float literal `t` times `m` (see `scaled_decimal`).
fn parse_scaled_decimal(t: &[char], m: u64) -> (r: Option<u64>)
    requires
        m == 1024 || m == 1048576,
    ensures
        r matches Some(v) ==> scaled_decimal(t@, m as nat) == Some(v as nat),
        r is None ==> scaled_decimal(t@, m as nat) is None,
{
    let n = t.len();
    let (neg, start) = if n > 0 && t[0] == '+' {
        (false, 1usize)
    } else if n > 0 && t[0] == '-' {
        (true, 1usize)
    } else {
        (false, 0usize)
    };
    let body = copy_range(t, start, n);
    proof {
        if start == 1 {
            assert(body@ =~= t@.drop_first());
        } else {
            assert(body@ =~= t@);
        }
    }
    if chars_eq_str(body.as_slice(), "INF") || chars_eq_str(body.as_slice(), "INFINITY") {
        return Some(if neg { 0 } else { 0xffff_ffff_ffff_ffff });
    }
    if chars_eq_str(body.as_slice(), "NAN") {
        return Some(0);
    }
    let (ip, fp, e_neg, e_mag) = match split_float(body.as_slice()) {
        Some(parts) => parts,
        None => {
            return None;
        },
    };
    let ghost parts = float_parts(body@)->0;
    let ghost e: int = parts.2;
    if neg {
        return Some(0);
    }
    let ghost f = fp@.len();
    let ghost nv = mantissa_value(ip@, fp@);
    if !has_nonzero_digit(ip.as_slice()) && !has_nonzero_digit(fp.as_slice()) {
        proof {
            lemma_digits_zero(ip@);
            lemma_digits_zero(fp@);
            assert(nv == 0);
            lemma_scaled_zero(f, e, m as nat);
        }
        return Some(0);
    }
    proof {
        if exists|j: int| 0 <= j < ip@.len() && ip@[j] != '0' {
            let j = choose|j: int| 0 <= j < ip@.len() && ip@[j] != '0';
            lemma_digits_positive(ip@, j);
            lemma_pow10_positive(f);
            assert(digits_value(ip@) * pow10(f) >= 1) by (nonlinear_arith)
                requires
                    digits_value(ip@) >= 1,
                    pow10(f) >= 1,
            ;
        } else {
            let j = choose|j: int| 0 <= j < fp@.len() && fp@[j] != '0';
            lemma_digits_positive(fp@, j);
        }
        assert(nv >= 1);
    }
    if !e_neg || e_mag == Some(0u128) {
        if let Some(s) = e_mag {
            if s <= fp.len() as u128 + 20 {
                return Some(scale_up(ip.as_slice(), fp.as_slice(), s, m));
            }
        }
        proof {
            assert(fp@.len() == fp.len());
            assert(f <= usize::MAX);
            assert(e > f + 20);
            lemma_scaled_saturates(nv, f, e, m as nat);
        }
        Some(0xffff_ffff_ffff_ffff)
    } else {
        if let Some(k) = e_mag {
            if k < ip.len() as u128 + 7 {
                return Some(scale_down(ip.as_slice(), fp.as_slice(), k, m));
            }
        }
        proof {
            assert(ip@.len() == ip.len());
            assert(ip.len() <= usize::MAX);
            assert(-e >= ip@.len() + 7);
            lemma_scaled_vanishes(ip@, fp@, -e, m as nat);
        }
        Some(0)
    }
}

/// Whether every character of `s` is a decimal digit.
fn digits_only(s: &[char]) -> (b: bool)
    ensures
        b == all_digits(s@),
{
    let mut i: usize = 0;
    while i < s.len()
        invariant
            i <= s@.len(),
            s@.len() == s.len(),
            forall|j: int| 0 <= j < i ==> is_digit(#[trigger] s@[j]),
        decreases s@.len() - i,
    {
        if !(s[i] >= '0' && s[i] <= '9') {
            return false;
        }
        i = i + 1;
    }
    true
}

/// Parses a human-readable size such as `"500KB"`, `"2MB"`, `"1.5MB"` or `"800B"`
/// into a number of bytes.
pub fn parse_size_bytes(spec: &str) -> (r: Option<u64>)
    ensures
        r matches Some(v) ==> size_bytes_value(spec@) == Some(v as nat),
        r is None ==> size_bytes_value(spec@) is None,
{
    let trimmed = trim_str(spec);
    let trimmed_s = string_of(trimmed.as_slice());
    let upper = to_uppercase(trimmed_s.as_str());
    let s = chars_of(upper.as_str());
    let n = s.len();
    if n == 0 {
        return None;
    }
    proof {
        reveal_strlit("MB");
        reveal_strlit("KB");
        reveal_strlit("B");
    }
    let mb = chars_of("MB");
    let kb = chars_of("KB");
    let b = chars_of("B");
    if chars_end_with(s.as_slice(), mb.as_slice()) {
        let num = copy_range(s.as_slice(), 0, n - 2);
        assert(num@ =~= s@.take(n - 2));
        let t = trim_chars(num.as_slice());
        parse_scaled_decimal(t.as_slice(), 1048576)
    } else if chars_end_with(s.as_slice(), kb.as_slice()) {
        let num = copy_range(s.as_slice(), 0, n - 2);
        assert(num@ =~= s@.take(n - 2));
        let t = trim_chars(num.as_slice());
        parse_scaled_decimal(t.as_slice(), 1024)
    } else if chars_end_with(s.as_slice(), b.as_slice()) {
        let num = copy_range(s.as_slice(), 0, n - 1);
        assert(num@ =~= s@.take(n - 1));
        let t = trim_chars(num.as_slice());
        parse_unsigned_chars(t.as_slice(), 0xffff_ffff_ffff_ffff)
    } else {
        parse_unsigned_chars(s.as_slice(), 0xffff_ffff_ffff_ffff)
    }
}

proof fn lemma_find_char_absent(s: Seq<char>, c: char)
    requires
        all_digits(s),
        !is_digit(c),
    ensures
        find_char(s, c) is None,
    decreases s.len(),
{
    if s.len() > 0 {
        assert(is_digit(s[0]));
        assert(all_digits(s.drop_first())) by {
            assert forall|i: int| 0 <= i < s.drop_first().len() implies is_digit(#[trigger] s.drop_first()[i]) by {
                assert(s.drop_first()[i] == s[i + 1]);
            }
        }
        lemma_find_char_absent(s.drop_first(), c);
    }
}

/// A decimal numeral read as a float literal and scaled by `m`.
proof fn lemma_scaled_decimal_numeral(n: nat, m: nat)
    requires
        n * m <= u64_max(),
    ensures
        scaled_decimal(decimal(n), m) == Some(n * m),
{
    reveal_strlit("INF");
    reveal_strlit("INFINITY");
    reveal_strlit("NAN");
    lemma_decimal(n);
    let d = decimal(n);
    assert(is_digit(d[0]));
    assert(sign_and_body(d) == (false, d));
    assert(d != "INF"@) by {
        assert("INF"@[0] == 'I');
    }
    assert(d != "INFINITY"@) by {
        assert("INFINITY"@[0] == 'I');
    }
    assert(d != "NAN"@) by {
        assert("NAN"@[0] == 'N');
    }
    lemma_find_char_absent(d, 'E');
    lemma_find_char_absent(d, '.');
    let e: Seq<char> = Seq::empty();
    assert(all_digits(e));
    assert(decimal_split(d) == Some((d, e)));
    assert(float_parts(d) == Some((d, e, 0int)));
    assert(digits_value(e) == 0);
    assert(pow10(0) == 1);
    assert(digits_value(d) * pow10(e.len()) + digits_value(e) == n);
    assert(scaled_value(n, 0, 0, m) == n * m) by (nonlinear_arith)
        requires
            pow10(0) == 1,
            scaled_value(n, 0, 0, m) == (n * m * pow10(0)) / pow10(0),
    ;
}

/// ASCII text without lower-case letters is left as it is by upper-casing.
proof fn lemma_upper_of_upper(s: Seq<char>)
    requires
        forall|i: int| 0 <= i < s.len() ==> !('a' <= #[trigger] s[i] <= 'z'),
    ensures
        ascii_upper(s) == s,
{
    assert(ascii_upper(s) =~= s);
}

/// The spec written as digits then a suffix: trimmed, and upper-cased to itself.
proof fn lemma_numeral_spec_text(n: nat, suffix: Seq<char>)
    requires
        forall|i: int| 0 <= i < suffix.len() ==> 'A' <= #[trigger] suffix[i] <= 'Z',
    ensures
        is_ascii_text(decimal(n) + suffix),
        trim(decimal(n) + suffix) == decimal(n) + suffix,
        ascii_upper(decimal(n) + suffix) == decimal(n) + suffix,
        (decimal(n) + suffix).take(decimal(n).len() as int) == decimal(n),
{
    lemma_decimal(n);
    let t = decimal(n) + suffix;
    assert forall|i: int| 0 <= i < t.len() implies (#[trigger] t[i] as u32) < 128 && !('a' <= t[i] <= 'z') by {
        if i < decimal(n).len() {
            assert(is_digit(decimal(n)[i]));
        } else {
            assert(t[i] == suffix[i - decimal(n).len()]);
        }
    }
    assert(!is_whitespace(t[0])) by {
        assert(is_digit(decimal(n)[0]));
    }
    assert(!is_whitespace(t.last())) by {
        if suffix.len() == 0 {
            assert(is_digit(decimal(n)[decimal(n).len() - 1]));
        }
    }
    lemma_trim_of_trimmed(t);
    lemma_upper_of_upper(t);
    assert(t.take(decimal(n).len() as int) =~= decimal(n));
}

/// Size specs written as a numeral read back as their number of bytes: `nKB`
/// is `n * 1024`, `nMB` is `n * 1024 * 1024`, `nB` and a bare `n` are `n`
/// (for `n` below 2^40, so that every product fits in a `u64`).
pub proof fn lemma_size_numeral_round_trip(n: nat)
    requires
        n < 0x100_0000_0000,
    ensures
        size_bytes_value(decimal(n) + "KB"@) == Some(n * 1024),
        size_bytes_value(decimal(n) + "MB"@) == Some(n * 1048576),
        size_bytes_value(decimal(n) + "B"@) == Some(n),
        size_bytes_value(decimal(n)) == Some(n),
{
    reveal_strlit("KB");
    reveal_strlit("MB");
    reveal_strlit("B");
    lemma_decimal(n);
    let d = decimal(n);
    let dl = d.len() as int;
    assert(is_digit(d[dl - 1]));
    // n KB
    let kb = d + "KB"@;
    lemma_numeral_spec_text(n, "KB"@);
    assert(uppercased(trim(kb)) == kb);
    assert(!ends_with(kb, "MB"@)) by {
        assert(kb[kb.len() - 2] == 'K');
        assert(kb.skip(kb.len() - 2)[0] == 'K');
    }
    assert(kb.skip(kb.len() - 2) =~= "KB"@);
    lemma_trim_of_trimmed(d);
    assert(trim(d) == d) by {
        assert(is_digit(d[0]));
    }
    lemma_scaled_decimal_numeral(n, 1024);
    // n MB
    let mb = d + "MB"@;
    lemma_numeral_spec_text(n, "MB"@);
    assert(mb.skip(mb.len() - 2) =~= "MB"@);
    lemma_scaled_decimal_numeral(n, 1048576);
    // n B
    let b = d + "B"@;
    lemma_numeral_spec_text(n, "B"@);
    assert(!ends_with(b, "MB"@)) by {
        assert(b.skip(b.len() - 2)[0] == d[dl - 1]);
    }
    assert(!ends_with(b, "KB"@)) by {
        assert(b.skip(b.len() - 2)[0] == d[dl - 1]);
    }
    assert(b.skip(b.len() - 1) =~= "B"@);
    assert(unsigned_literal(d) == Some(n));
    // bare n
    lemma_numeral_spec_text(n, Seq::<char>::empty());
    assert(d + Seq::<char>::empty() =~= d);
    assert(!ends_with(d, "MB"@)) by {
        if d.len() >= 2 {
            assert(d.skip(d.len() - 2)[1] == d[dl - 1]);
        }
    }
    assert(!ends_with(d, "KB"@)) by {
        if d.len() >= 2 {
            assert(d.skip(d.len() - 2)[1] == d[dl - 1]);
        }
    }
    assert(!ends_with(d, "B"@)) by {
        assert(d.skip(d.len() - 1)[0] == d[dl - 1]);
    }
}

/// For ASCII text, the size a spec denotes is that of the spec trimmed and
/// written in lower case: surrounding whitespace and the case of its letters
/// do not matter.
pub proof fn lemma_size_ignores_case_and_trim(spec: Seq<char>)
    requires
        is_ascii_text(spec),
    ensures
        size_bytes_value(spec) == size_bytes_value(ascii_lower(trim(spec))),
{
    let t = trim(spec);
    lemma_trim_keeps_ascii(spec);
    lemma_trim_is_trimmed(spec);
    let l = ascii_lower(t);
    assert forall|i: int| 0 <= i < l.len() implies (#[trigger] l[i] as u32) < 128 by {
        assert(l[i] == ascii_lower_char(t[i]));
        assert((t[i] as u32) < 128);
    }
    assert(is_trimmed(l)) by {
        if l.len() > 0 {
            assert(l[0] == ascii_lower_char(t[0]));
            assert(l.last() == ascii_lower_char(t.last()));
        }
    }
    lemma_trim_of_trimmed(l);
    assert(ascii_upper(l) =~= ascii_upper(t)) by {
        assert forall|i: int| 0 <= i < l.len() implies ascii_upper(l)[i] == ascii_upper(t)[i] by {
            let c = t[i];
            assert(l[i] == ascii_lower_char(c));
            assert(ascii_upper_char(ascii_lower_char(c)) == ascii_upper_char(c));
        }
    }
}

} // verus!
