//! Video details shown on a wallpaper card: the resolution read out of
//! ffprobe / ffmpeg text, and the file size in binary units.
use vstd::prelude::*;
use crate::text::{
    all_digits, chars_of, decimal, lemma_decimal_digits, lemma_parse_decimal, digit_char, hex_char, is_digit_char, is_white_space,
    is_whitespace_char, opt_nat, parse_unsigned, parse_unsigned_chars, push_decimal, push_str_chars,
    string_from_chars, trim, trim_chars,
};
use crate::win_path::slice_chars;

verus! {

// ---------------------------------------------------------------------------
// Resolution tokens
// ---------------------------------------------------------------------------

/// `i` is the first position of `c` in `s`.
pub open spec fn first_index_of(s: Seq<char>, c: char, i: int) -> bool {
    &&& 0 <= i < s.len()
    &&& s[i] == c
    &&& forall|j: int| 0 <= j < i ==> #[trigger] s[j] != c
}

pub const U32_MAX: u64 = 0xffff_ffff;

/// What a "WIDTHxHEIGHT" token means: split at the first `x`, both sides
/// made of ASCII digits that fit in a `u32`, both at least 100 (smaller
/// values are aspect-ratio hints such as `1x1`). The result is rewritten
/// as `{width}x{height}`.
pub open spec fn resolution_of_token(t: Seq<char>) -> Option<Seq<char>> {
    if exists|i: int| first_index_of(t, 'x', i) {
        let i = choose|i: int| first_index_of(t, 'x', i);
        let w = t.take(i);
        let h = t.skip(i + 1);
        let wv = parse_unsigned(w, U32_MAX as nat);
        let hv = parse_unsigned(h, U32_MAX as nat);
        if all_digits(w) && all_digits(h) && wv is Some && hv is Some && wv->0 >= 100 && hv->0
            >= 100 {
            Some(decimal(wv->0) + seq!['x'] + decimal(hv->0))
        } else {
            None
        }
    } else {
        None
    }
}

proof fn lemma_first_index_unique(s: Seq<char>, c: char, i: int, j: int)
    requires
        first_index_of(s, c, i),
        first_index_of(s, c, j),
    ensures
        i == j,
{
    if i < j {
        assert(s[i] != c);
    } else if j < i {
        assert(s[j] != c);
    }
}

fn all_digit_chars(s: &[char]) -> (b: bool)
    ensures
        b == all_digits(s@),
{
    let mut i: usize = 0;
    while i < s.len()
        invariant
            i <= s.len(),
            forall|j: int| 0 <= j < i ==> crate::text::is_ascii_digit(#[trigger] s@[j]),
        decreases s.len() - i,
    {
        if !is_digit_char(s[i]) {
            return false;
        }
        i = i + 1;
    }
    true
}

/// Reads a "WIDTHxHEIGHT" token.
pub fn parse_resolution_chars(token: &[char]) -> (r: Option<Vec<char>>)
    ensures
        match r {
            Some(v) => resolution_of_token(token@) == Some(v@),
            None => resolution_of_token(token@) is None,
        },
{
    let mut i: usize = 0;
    while i < token.len() && token[i] != 'x'
        invariant
            i <= token.len(),
            forall|j: int| 0 <= j < i ==> #[trigger] token@[j] != 'x',
        decreases token.len() - i,
    {
        i = i + 1;
    }
    if i == token.len() {
        assert forall|k: int| !first_index_of(token@, 'x', k) by {
            if 0 <= k < token@.len() && token@[k] == 'x' {
                assert(token@[k] != 'x');
            }
        }
        return None;
    }
    assert(first_index_of(token@, 'x', i as int));
    proof {
        let k = choose|k: int| first_index_of(token@, 'x', k);
        lemma_first_index_unique(token@, 'x', i as int, k);
    }
    let w = slice_chars(token, 0, i);
    let h = slice_chars(token, i + 1, token.len());
    assert(w@ == token@.take(i as int));
    assert(h@ == token@.skip(i + 1));
    if !all_digit_chars(w.as_slice()) || !all_digit_chars(h.as_slice()) {
        return None;
    }
    let wv = parse_unsigned_chars(w.as_slice(), U32_MAX);
    let hv = parse_unsigned_chars(h.as_slice(), U32_MAX);
    match (wv, hv) {
        (Some(width), Some(height)) => {
            if width < 100 || height < 100 {
                return None;
            }
            let mut out: Vec<char> = Vec::new();
            push_decimal(&mut out, width);
            out.push('x');
            push_decimal(&mut out, height);
            assert(out@ == decimal(width as nat) + seq!['x'] + decimal(height as nat));
            Some(out)
        },
        _ => {
            assert(opt_nat(wv) is None || opt_nat(hv) is None);
            None
        },
    }
}

/// A resolution label reads back as itself: the text `{w}x{h}` that a card
/// shows, for any `w` and `h` from 100 to `u32::MAX`, is a token whose
/// reading is that same text.
pub proof fn lemma_resolution_label_reads_back(w: nat, h: nat)
    requires
        100 <= w <= U32_MAX,
        100 <= h <= U32_MAX,
    ensures
        resolution_of_token(decimal(w) + seq!['x'] + decimal(h)) == Some(
            decimal(w) + seq!['x'] + decimal(h),
        ),
{
    let dw = decimal(w);
    let dh = decimal(h);
    let t = dw + seq!['x'] + dh;
    lemma_decimal_digits(w);
    lemma_decimal_digits(h);
    lemma_parse_decimal(w, U32_MAX as nat);
    lemma_parse_decimal(h, U32_MAX as nat);
    let i = dw.len() as int;
    assert forall|j: int| 0 <= j < i implies #[trigger] t[j] != 'x' by {
        assert(t[j] == dw[j]);
        assert(crate::text::is_ascii_digit(dw[j]));
    }
    assert(t[i] == 'x');
    assert(first_index_of(t, 'x', i));
    let k = choose|k: int| first_index_of(t, 'x', k);
    lemma_first_index_unique(t, 'x', i, k);
    assert(t.take(i) == dw);
    assert(t.skip(i + 1) == dh);
}

pub open spec fn opt_text(s: Option<String>) -> Option<Seq<char>> {
    match s {
        Some(x) => Some(x@),
        None => None,
    }
}

/// A "WIDTHxHEIGHT" token as shown on a card, if the token is one.
pub fn parse_resolution_token(token: &str) -> (r: Option<String>)
    ensures
        opt_text(r) == resolution_of_token(token@),
{
    let t = chars_of(token);
    match parse_resolution_chars(t.as_slice()) {
        Some(v) => Some(string_from_chars(v.as_slice())),
        None => None,
    }
}

/// The resolution in ffprobe's `WIDTHxHEIGHT` answer (surrounding white
/// space ignored).
pub fn resolution_from_ffprobe_output(stdout: &str) -> (r: Option<String>)
    ensures
        opt_text(r) == resolution_of_token(trim(stdout@)),
{
    let s = chars_of(stdout);
    let t = trim_chars(s.as_slice());
    match parse_resolution_chars(t.as_slice()) {
        Some(v) => Some(string_from_chars(v.as_slice())),
        None => None,
    }
}

// ---------------------------------------------------------------------------
// Scanning ffmpeg's banner for the first resolution token
// ---------------------------------------------------------------------------

/// Characters that end a token in ffmpeg's text: white space and `,[]()`.
pub open spec fn is_token_separator(c: char) -> bool {
    is_white_space(c) || c == ',' || c == '[' || c == ']' || c == '(' || c == ')'
}

/// Index of the first token separator in `s`, or -1.
pub open spec fn first_separator(s: Seq<char>) -> int
    decreases s.len(),
{
    if s.len() == 0 {
        -1
    } else if is_token_separator(s[0]) {
        0
    } else {
        let r = first_separator(s.drop_first());
        if r < 0 {
            -1
        } else {
            r + 1
        }
    }
}

proof fn lemma_first_separator(s: Seq<char>, k: int)
    requires
        0 <= k <= s.len(),
        forall|j: int| 0 <= j < k ==> !is_token_separator(#[trigger] s[j]),
        k < s.len() ==> is_token_separator(s[k]),
    ensures
        first_separator(s) == (if k == s.len() {
            -1
        } else {
            k
        }),
    decreases k,
{
    if k > 0 {
        let t = s.drop_first();
        assert(!is_token_separator(s[0]));
        assert forall|j: int| 0 <= j < k - 1 implies !is_token_separator(#[trigger] t[j]) by {
            assert(t[j] == s[j + 1]);
        }
        if k < s.len() {
            assert(t[k - 1] == s[k]);
        }
        lemma_first_separator(t, k - 1);
    }
}

pub proof fn lemma_first_separator_bound(s: Seq<char>)
    ensures
        -1 <= first_separator(s) < s.len(),
    decreases s.len(),
{
    if s.len() > 0 {
        lemma_first_separator_bound(s.drop_first());
    }
}

/// The first token of `text` (split at every separator) that reads as a
/// resolution.
pub open spec fn first_resolution(text: Seq<char>) -> Option<Seq<char>>
    decreases text.len(),
{
    let i = first_separator(text);
    if i < 0 {
        resolution_of_token(text)
    } else {
        match resolution_of_token(text.take(i)) {
            Some(r) => Some(r),
            None => {
                proof {
                    lemma_first_separator_bound(text);
                }
                first_resolution(text.skip(i + 1))
            },
        }
    }
}

/// Scanning text that has a separator at `i` (and none before) continues
/// after it: `first_separator` of `a + b` is that of `a` when `a` holds one.
proof fn lemma_first_separator_concat(a: Seq<char>, b: Seq<char>)
    requires
        first_separator(a) >= 0,
    ensures
        first_separator(a + b) == first_separator(a),
    decreases a.len(),
{
    if a.len() > 0 && !is_token_separator(a[0]) {
        lemma_first_separator_concat(a.drop_first(), b);
        assert((a + b).drop_first() == a.drop_first() + b);
    } else {
        assert((a + b)[0] == a[0]);
    }
}

/// Text that holds no resolution token and ends at a token boundary adds no
/// token of its own to what follows it: the first resolution of `a + b` is
/// the first resolution of `b`.
proof fn lemma_first_resolution_after(a: Seq<char>, b: Seq<char>)
    requires
        first_resolution(a) is None,
        a.len() > 0 ==> is_token_separator(a.last()),
    ensures
        first_resolution(a + b) == first_resolution(b),
    decreases a.len(),
{
    if a.len() == 0 {
        assert(a + b == b);
    } else {
        lemma_first_separator_bound(a);
        let i = first_separator(a);
        lemma_no_separator_before(a, a.len() - 1);
        lemma_first_separator_concat(a, b);
        assert((a + b).take(i) == a.take(i));
        assert((a + b).skip(i + 1) == a.skip(i + 1) + b);
        let rest = a.skip(i + 1);
        if rest.len() > 0 {
            assert(rest.last() == a.last());
        }
        lemma_first_resolution_after(rest, b);
    }
}

/// `first_separator` is -1 only when no character is a separator.
proof fn lemma_no_separator_before(s: Seq<char>, j: int)
    requires
        0 <= j < s.len(),
        is_token_separator(s[j]),
    ensures
        first_separator(s) >= 0,
    decreases s.len(),
{
    if !is_token_separator(s[0]) {
        assert(s.drop_first()[j - 1] == s[j]);
        lemma_no_separator_before(s.drop_first(), j - 1);
    }
}

/// In ffmpeg's text a `,` ends a token as white space does: for any text
/// `t` without a resolution that ends at a space (or is empty), and any
/// resolution label `WxH` (both at least 100), the first resolution of
/// `t + "WxH, 25 fps"` is that label.
pub proof fn lemma_comma_ends_a_resolution(t: Seq<char>, w: nat, h: nat)
    requires
        first_resolution(t) is None,
        t.len() == 0 || t.last() == ' ',
        100 <= w <= U32_MAX,
        100 <= h <= U32_MAX,
    ensures
        first_resolution(t + (decimal(w) + seq!['x'] + decimal(h) + ", 25 fps"@)) == Some(
            decimal(w) + seq!['x'] + decimal(h),
        ),
{
    reveal_strlit(", 25 fps");
    let r = decimal(w) + seq!['x'] + decimal(h);
    let u = r + ", 25 fps"@;
    lemma_first_resolution_after(t, u);
    lemma_decimal_digits(w);
    lemma_decimal_digits(h);
    assert forall|j: int| 0 <= j < r.len() implies !is_token_separator(#[trigger] u[j]) by {
        assert(u[j] == r[j]);
        if j < decimal(w).len() {
            assert(crate::text::is_ascii_digit(decimal(w)[j]));
        } else if j > decimal(w).len() {
            assert(r[j] == decimal(h)[j - decimal(w).len() - 1]);
            assert(crate::text::is_ascii_digit(decimal(h)[j - decimal(w).len() - 1]));
        }
    }
    assert(u[r.len() as int] == ',');
    lemma_first_separator(u, r.len() as int);
    assert(u.take(r.len() as int) == r);
    lemma_resolution_label_reads_back(w, h);
}

fn is_token_separator_char(c: char) -> (b: bool)
    ensures
        b == is_token_separator(c),
{
    is_whitespace_char(c) || c == ',' || c == '[' || c == ']' || c == '(' || c == ')'
}

/// Finds the first "WIDTHxHEIGHT" token in ffmpeg's `-i` output.
pub fn extract_resolution(ffmpeg_output: &str) -> (r: Option<String>)
    ensures
        opt_text(r) == first_resolution(ffmpeg_output@),
{
    let s = chars_of(ffmpeg_output);
    let mut start: usize = 0;
    let mut i: usize = 0;
    assert(s@.skip(0) == s@);
    while i < s.len()
        invariant
            start <= i <= s.len(),
            s@ == ffmpeg_output@,
            first_resolution(s@) == first_resolution(s@.skip(start as int)),
            forall|j: int| start <= j < i ==> !is_token_separator(#[trigger] s@[j]),
        decreases s.len() - i,
    {
        if is_token_separator_char(s[i]) {
            let ghost rest = s@.skip(start as int);
            proof {
                assert forall|j: int| 0 <= j < i - start implies !is_token_separator(
                    #[trigger] rest[j],
                ) by {
                    assert(rest[j] == s@[j + start]);
                }
                assert(rest[i - start] == s@[i as int]);
                lemma_first_separator(rest, i - start);
                assert(rest.take(i - start) == s@.subrange(start as int, i as int));
                assert(rest.skip(i - start + 1) == s@.skip(i + 1));
            }
            let token = slice_chars(s.as_slice(), start, i);
            match parse_resolution_chars(token.as_slice()) {
                Some(v) => {
                    return Some(string_from_chars(v.as_slice()));
                },
                None => {},
            }
            start = i + 1;
        }
        i = i + 1;
    }
    let ghost rest = s@.skip(start as int);
    proof {
        assert forall|j: int| 0 <= j < rest.len() implies !is_token_separator(#[trigger] rest[j]) by {
            assert(rest[j] == s@[j + start]);
        }
        lemma_first_separator(rest, rest.len() as int);
    }
    let token = slice_chars(s.as_slice(), start, s.len());
    assert(token@ == rest);
    match parse_resolution_chars(token.as_slice()) {
        Some(v) => Some(string_from_chars(v.as_slice())),
        None => None,
    }
}

// ---------------------------------------------------------------------------
// File size
// ---------------------------------------------------------------------------

pub const KIBIBYTE: u64 = 1024;

pub const MEBIBYTE: u64 = 1048576;

pub const GIBIBYTE: u64 = 1073741824;

/// How many low bits of `n` a 53-bit binary significand cannot hold.
pub open spec fn f64_low_bits(n: nat) -> nat
    decreases n,
{
    if n < 9007199254740992 {
        0
    } else {
        1 + f64_low_bits(n / 2)
    }
}

pub open spec fn two_pow(e: nat) -> nat
    decreases e,
{
    if e == 0 {
        1
    } else {
        2 * two_pow((e - 1) as nat)
    }
}

/// The exact value of `n as f64`: `n` rounded to 53 significant bits, ties
/// to the even significand.
pub open spec fn f64_value(n: nat) -> nat {
    let p = two_pow(f64_low_bits(n));
    let q = n / p;
    let r = n % p;
    if 2 * r > p || (2 * r == p && q % 2 == 1) {
        (q + 1) * p
    } else {
        q * p
    }
}

/// `x / d` in tenths, rounded to nearest with ties to the even tenth.
pub open spec fn tenths(x: nat, d: nat) -> nat {
    let t = 10 * x;
    let q = t / d;
    let r = t % d;
    if 2 * r > d || (2 * r == d && q % 2 == 1) {
        q + 1
    } else {
        q
    }
}

/// `format!("{:.1}", x as f64 / d as f64)` for a power-of-two `d`.
pub open spec fn one_decimal(x: nat, d: nat) -> Seq<char> {
    let t = tenths(x, d);
    decimal(t / 10) + seq!['.'] + seq![hex_char(t % 10)]
}

/// The size label on a card: GB, MB or KB with one decimal when the size
/// reaches that unit (1024-based), otherwise whole bytes.
pub open spec fn file_size_text(n: nat) -> Seq<char> {
    if n >= GIBIBYTE {
        one_decimal(f64_value(n), GIBIBYTE as nat) + " GB"@
    } else if n >= MEBIBYTE {
        one_decimal(f64_value(n), MEBIBYTE as nat) + " MB"@
    } else if n >= KIBIBYTE {
        one_decimal(f64_value(n), KIBIBYTE as nat) + " KB"@
    } else {
        decimal(n) + " B"@
    }
}

/// `(n as f64)` as an exact integer.
fn u64_as_f64_value(n: u64) -> (x: u128)
    ensures
        x as nat == f64_value(n as nat),
        x <= 0x2_0000_0000_0000_0000,
{
    let n128 = n as u128;
    let mut p: u128 = 1;
    let ghost mut e: nat = 0;
    assert(n128 / 1 == n128);
    while n128 / p >= 9007199254740992
        invariant
            1 <= p <= n128 + 1,
            p as nat == two_pow(e),
            f64_low_bits(n as nat) == e + f64_low_bits((n128 / p) as nat),
        decreases n128 - p + 1,
    {
        proof {
            vstd::arithmetic::div_mod::lemma_div_denominator(n128 as int, p as int, 2);
            assert((n128 / p) / 2 <= n128 / p);
            assert(n128 / p >= 1);
            assert(p * (n128 / p) <= n128) by {
                vstd::arithmetic::div_mod::lemma_fundamental_div_mod(n128 as int, p as int);
            }
            assert(p * 2 <= n128) by (nonlinear_arith)
                requires
                    p * (n128 / p) <= n128,
                    n128 / p >= 2,
                    p >= 1,
            ;
        }
        p = p * 2;
        proof {
            e = e + 1;
        }
    }
    let q = n128 / p;
    let r = n128 % p;
    proof {
        vstd::arithmetic::div_mod::lemma_fundamental_div_mod(n128 as int, p as int);
        assert(q * p <= n128) by (nonlinear_arith)
            requires
                q == n128 / p,
                n128 == p * (n128 / p) + n128 % p,
                n128 % p >= 0,
        ;
        assert(q < 9007199254740992);
    }
    if 2 * r > p || (2 * r == p && q % 2 == 1) {
        proof {
            assert((q + 1) * p <= n128 + p) by (nonlinear_arith)
                requires
                    q * p <= n128,
            ;
            assert(p <= n128 + 1);
        }
        let x = (q + 1) * p;
        x
    } else {
        q * p
    }
}

/// Appends `x / d` with one decimal place, rounded half to even.
fn push_one_decimal(out: &mut Vec<char>, x: u128, d: u128)
    requires
        1024 <= d <= 1073741824,
        x <= 0x2_0000_0000_0000_0000,
    ensures
        final(out)@ == old(out)@ + one_decimal(x as nat, d as nat),
{
    let t = 10 * x;
    let q = t / d;
    let r = t % d;
    let rounded: u128 = if 2 * r > d || (2 * r == d && q % 2 == 1) {
        q + 1
    } else {
        q
    };
    assert(rounded as nat == tenths(x as nat, d as nat));
    assert(q <= t / 1024) by {
        vstd::arithmetic::div_mod::lemma_div_is_ordered_by_denominator(t as int, 1024, d as int);
    }
    let whole = (rounded / 10) as u64;
    let frac = (rounded % 10) as u64;
    push_decimal(out, whole);
    out.push('.');
    let c = digit_char(frac);
    out.push(c);
}

/// The size label for a file of `byte_count` bytes, e.g. "92.4 MB" or "512 B".
pub fn format_file_size(byte_count: u64) -> (s: String)
    ensures
        s@ == file_size_text(byte_count as nat),
{
    let mut out: Vec<char> = Vec::new();
    if byte_count >= GIBIBYTE {
        let x = u64_as_f64_value(byte_count);
        push_one_decimal(&mut out, x, GIBIBYTE as u128);
        push_str_chars(&mut out, " GB");
    } else if byte_count >= MEBIBYTE {
        let x = u64_as_f64_value(byte_count);
        push_one_decimal(&mut out, x, MEBIBYTE as u128);
        push_str_chars(&mut out, " MB");
    } else if byte_count >= KIBIBYTE {
        let x = u64_as_f64_value(byte_count);
        push_one_decimal(&mut out, x, KIBIBYTE as u128);
        push_str_chars(&mut out, " KB");
    } else {
        push_decimal(&mut out, byte_count);
        push_str_chars(&mut out, " B");
    }
    string_from_chars(out.as_slice())
}

} // verus!
