//! The thumbnail cache: where a video's preview lives, when it must be
//! rebuilt, how ffmpeg is found and called, and which cached pictures are
//! stale.
use vstd::prelude::*;
use crate::shared::{APP_DATA_FOLDER, THUMBNAIL_CACHE_DIR, THUMBNAIL_EXTENSION, THUMBNAIL_HEIGHT, THUMBNAIL_TIMESTAMP, THUMBNAIL_WIDTH};
use crate::text::{
    ascii_lower, ascii_lower_seq, chars_of, equal_strs, hex_char, hex_digits, is_ascii_alphanumeric,
    is_alphanumeric_ascii_char, lower_ascii_char, push_chars, push_hex, push_str_chars,
    string_from_chars,
};
use crate::win_path::{
    extension, file_stem, is_separator, join, join_path, path_extension, path_file_stem, path_parent, parent,
    prefix_len,
};

verus! {

// ---------------------------------------------------------------------------
// The cache file name
// ---------------------------------------------------------------------------

pub const FNV_OFFSET: u64 = 0xcbf29ce484222325;

pub const FNV_PRIME: u64 = 0x100000001b3;

/// 64-bit FNV-1a over the bytes.
pub open spec fn fnv1a(bytes: Seq<u8>) -> u64
    decreases bytes.len(),
{
    if bytes.len() == 0 {
        FNV_OFFSET
    } else {
        let h = fnv1a(bytes.drop_last()) ^ (bytes.last() as u64);
        ((h as int * FNV_PRIME as int) % 0x1_0000_0000_0000_0000) as u64
    }
}

/// The inverse of `FNV_PRIME` modulo 2^64.
pub open spec fn fnv_prime_inverse() -> int {
    0xce965057aff6957b
}

/// Multiplying by `FNV_PRIME` modulo 2^64 can be undone, so it never sends
/// two different values to the same one.
proof fn lemma_fnv_multiply_undone(x: u64)
    ensures
        ((x as int * FNV_PRIME as int) % 0x1_0000_0000_0000_0000) * fnv_prime_inverse()
            % 0x1_0000_0000_0000_0000 == x,
{
    let m: int = 0x1_0000_0000_0000_0000;
    let a: int = x as int * FNV_PRIME as int;
    vstd::arithmetic::div_mod::lemma_mul_mod_noop_left(a, fnv_prime_inverse(), m);
    assert(a * fnv_prime_inverse() == m * (x as int * 887285111055) + x as int) by (nonlinear_arith)
        requires
            a == x as int * 0x100000001b3,
            m == 0x1_0000_0000_0000_0000,
    ;
    vstd::arithmetic::div_mod::lemma_mod_multiples_vanish(x as int * 887285111055, x as int, m);
    vstd::arithmetic::div_mod::lemma_small_mod(x as nat, m as nat);
}

/// One FNV-1a step on the hash so far and the next byte.
pub open spec fn fnv_step(h: u64, b: u8) -> u64 {
    (((h ^ (b as u64)) as int * FNV_PRIME as int) % 0x1_0000_0000_0000_0000) as u64
}

/// A step keeps different hashes different, and different bytes give
/// different hashes from the same one.
proof fn lemma_fnv_step_injective(h1: u64, b1: u8, h2: u64, b2: u8)
    requires
        h1 != h2 && b1 == b2 || h1 == h2 && b1 != b2,
    ensures
        fnv_step(h1, b1) != fnv_step(h2, b2),
{
    let x1 = h1 ^ (b1 as u64);
    let x2 = h2 ^ (b2 as u64);
    assert(x1 != x2) by (bit_vector)
        requires
            x1 == h1 ^ (b1 as u64),
            x2 == h2 ^ (b2 as u64),
            h1 != h2 && b1 == b2 || h1 == h2 && b1 != b2,
    ;
    lemma_fnv_multiply_undone(x1);
    lemma_fnv_multiply_undone(x2);
}

/// FNV-1a of equally long byte strings: equal up to their first difference,
/// different from it on as long as the strings agree again afterwards.
proof fn lemma_fnv_prefixes(a: Seq<u8>, b: Seq<u8>, i: int, k: int)
    requires
        a.len() == b.len(),
        0 <= i < a.len(),
        a[i] != b[i],
        forall|j: int| 0 <= j < a.len() && j != i ==> a[j] == b[j],
        0 <= k <= a.len(),
    ensures
        k <= i ==> fnv1a(a.take(k)) == fnv1a(b.take(k)),
        k > i ==> fnv1a(a.take(k)) != fnv1a(b.take(k)),
    decreases k,
{
    if k == 0 {
        assert(a.take(0) == b.take(0));
    } else {
        lemma_fnv_prefixes(a, b, i, k - 1);
        assert(a.take(k).drop_last() == a.take(k - 1));
        assert(b.take(k).drop_last() == b.take(k - 1));
        assert(fnv1a(a.take(k)) == fnv_step(fnv1a(a.take(k - 1)), a[k - 1]));
        assert(fnv1a(b.take(k)) == fnv_step(fnv1a(b.take(k - 1)), b[k - 1]));
        if k - 1 < i {
            assert(a[k - 1] == b[k - 1]);
        } else if k - 1 == i {
            lemma_fnv_step_injective(fnv1a(a.take(k - 1)), a[k - 1], fnv1a(b.take(k - 1)), b[k - 1]);
        } else {
            assert(a[k - 1] == b[k - 1]);
            lemma_fnv_step_injective(fnv1a(a.take(k - 1)), a[k - 1], fnv1a(b.take(k - 1)), b[k - 1]);
        }
    }
}

/// Two byte strings of the same length that differ in exactly one byte have
/// different FNV-1a hashes.
pub proof fn lemma_fnv_one_byte_apart(a: Seq<u8>, b: Seq<u8>, i: int)
    requires
        a.len() == b.len(),
        0 <= i < a.len(),
        a[i] != b[i],
        forall|j: int| 0 <= j < a.len() && j != i ==> a[j] == b[j],
    ensures
        fnv1a(a) != fnv1a(b),
{
    lemma_fnv_prefixes(a, b, i, a.len() as int);
    assert(a.take(a.len() as int) == a);
    assert(b.take(b.len() as int) == b);
}

/// The path hash used in cache names: FNV-1a of the path's UTF-8 bytes as
/// 16 lower-case hex digits.
pub open spec fn path_hash_text(path: Seq<char>) -> Seq<char> {
    hex_digits(fnv1a(vstd::utf8::encode_utf8(path)) as nat, 16)
}

/// A lower-case hexadecimal digit.
pub open spec fn is_lower_hex_digit(c: char) -> bool {
    (48 <= (c as u32) <= 57) || (97 <= (c as u32) <= 102)
}

pub open spec fn sixteen_pow(w: nat) -> nat
    decreases w,
{
    if w == 0 {
        1
    } else {
        16 * sixteen_pow((w - 1) as nat)
    }
}

proof fn lemma_hex_digits_len(n: nat, width: nat)
    ensures
        hex_digits(n, width).len() == width,
        forall|k: int| 0 <= k < width ==> is_lower_hex_digit(#[trigger] hex_digits(n, width)[k]),
    decreases width,
{
    if width > 0 {
        lemma_hex_digits_len(n / 16, (width - 1) as nat);
        let p = hex_digits(n / 16, (width - 1) as nat);
        assert forall|k: int| 0 <= k < width implies is_lower_hex_digit(
            #[trigger] hex_digits(n, width)[k],
        ) by {
            if k < width - 1 {
                assert(hex_digits(n, width)[k] == p[k]);
            }
        }
    }
}

/// Numbers below `16^width` have different `width`-digit hexadecimal texts.
proof fn lemma_hex_digits_injective(n: nat, m: nat, width: nat)
    requires
        n < sixteen_pow(width),
        m < sixteen_pow(width),
        hex_digits(n, width) == hex_digits(m, width),
    ensures
        n == m,
    decreases width,
{
    if width > 0 {
        let w1 = (width - 1) as nat;
        let a = hex_digits(n, width);
        let b = hex_digits(m, width);
        assert(a.last() == hex_char(n % 16));
        assert(b.last() == hex_char(m % 16));
        assert(n % 16 == m % 16);
        assert(a.drop_last() == hex_digits(n / 16, w1));
        assert(b.drop_last() == hex_digits(m / 16, w1));
        assert(n / 16 < sixteen_pow(w1)) by (nonlinear_arith)
            requires
                n < 16 * sixteen_pow(w1),
        ;
        assert(m / 16 < sixteen_pow(w1)) by (nonlinear_arith)
            requires
                m < 16 * sixteen_pow(w1),
        ;
        lemma_hex_digits_injective(n / 16, m / 16, w1);
    }
}

pub fn stable_path_hash(path: &str) -> (r: String)
    ensures
        r@ == path_hash_text(path@),
        r@.len() == 16,
        forall|k: int| 0 <= k < 16 ==> is_lower_hex_digit(#[trigger] r@[k]),
{
    proof {
        lemma_hex_digits_len(fnv1a(vstd::utf8::encode_utf8(path@)) as nat, 16);
    }
    let bytes = path.as_bytes();
    let mut h: u64 = FNV_OFFSET;
    let mut i: usize = 0;
    while i < bytes.len()
        invariant
            i <= bytes.len(),
            bytes@ == vstd::utf8::encode_utf8(path@),
            h == fnv1a(bytes@.take(i as int)),
        decreases bytes.len() - i,
    {
        assert(bytes@.take(i + 1).drop_last() == bytes@.take(i as int));
        let x = h ^ (bytes[i] as u64);
        h = ((x as u128 * FNV_PRIME as u128) % 0x1_0000_0000_0000_0000u128) as u64;
        i = i + 1;
    }
    assert(bytes@.take(bytes.len() as int) == bytes@);
    let mut out: Vec<char> = Vec::new();
    push_hex(&mut out, h, 16);
    string_from_chars(out.as_slice())
}

/// One character of a cache name: ASCII letters and digits lower-cased,
/// `-` and `_` kept, anything else replaced by `-`.
pub open spec fn sanitize_char(c: char) -> char {
    if is_ascii_alphanumeric(c) {
        ascii_lower(c)
    } else if c == '-' || c == '_' {
        c
    } else {
        '-'
    }
}

/// `s` without leading `-`.
pub open spec fn strip_dashes_start(s: Seq<char>) -> Seq<char>
    decreases s.len(),
{
    if s.len() > 0 && s[0] == '-' {
        strip_dashes_start(s.drop_first())
    } else {
        s
    }
}

/// `s` without trailing `-`.
pub open spec fn strip_dashes_end(s: Seq<char>) -> Seq<char>
    decreases s.len(),
{
    if s.len() > 0 && s.last() == '-' {
        strip_dashes_end(s.drop_last())
    } else {
        s
    }
}

/// The video name part of a cache file: the file stem (or "wallpaper"),
/// sanitized, trimmed of `-` at both ends, cut to 48 characters; "wallpaper"
/// when nothing is left.
pub open spec fn sanitized_stem(path: Seq<char>) -> Seq<char> {
    let stem = match file_stem(path) {
        Some(s) => s,
        None => "wallpaper"@,
    };
    let t = strip_dashes_end(strip_dashes_start(stem.map_values(|c: char| sanitize_char(c))));
    if t.len() == 0 {
        "wallpaper"@
    } else if t.len() <= 48 {
        t
    } else {
        t.take(48)
    }
}

/// A character that can stand in a cache name.
pub open spec fn is_cache_name_char(c: char) -> bool {
    (48 <= (c as u32) <= 57) || (97 <= (c as u32) <= 122) || c == '-' || c == '_'
}

proof fn lemma_strip_dashes_start(s: Seq<char>, i: int)
    requires
        0 <= i <= s.len(),
        forall|j: int| 0 <= j < i ==> #[trigger] s[j] == '-',
        i == s.len() || s[i] != '-',
    ensures
        strip_dashes_start(s) == s.skip(i),
    decreases i,
{
    if i == 0 {
        assert(s.skip(0) == s);
    } else {
        let t = s.drop_first();
        assert forall|j: int| 0 <= j < i - 1 implies #[trigger] t[j] == '-' by {
            assert(t[j] == s[j + 1]);
        }
        if i - 1 < t.len() {
            assert(t[i - 1] == s[i]);
        }
        lemma_strip_dashes_start(t, i - 1);
        assert(t.skip(i - 1) == s.skip(i));
    }
}

proof fn lemma_strip_dashes_end(s: Seq<char>, k: int)
    requires
        0 <= k <= s.len(),
        forall|j: int| k <= j < s.len() ==> #[trigger] s[j] == '-',
        k == 0 || s[k - 1] != '-',
    ensures
        strip_dashes_end(s) == s.take(k),
    decreases s.len() - k,
{
    if k == s.len() {
        assert(s.take(k) == s);
    } else {
        let t = s.drop_last();
        assert forall|j: int| k <= j < t.len() implies #[trigger] t[j] == '-' by {
            assert(t[j] == s[j]);
        }
        if k > 0 {
            assert(t[k - 1] == s[k - 1]);
        }
        lemma_strip_dashes_end(t, k);
        assert(t.take(k) == s.take(k));
    }
}

fn sanitize_char_exec(c: char) -> (r: char)
    ensures
        r == sanitize_char(c),
{
    if is_alphanumeric_ascii_char(c) {
        lower_ascii_char(c)
    } else if c == '-' || c == '_' {
        c
    } else {
        '-'
    }
}

/// The video-name part of the cache file for `video_path`.
pub fn sanitized_video_stem(video_path: &str) -> (r: String)
    ensures
        r@ == sanitized_stem(video_path@),
        1 <= r@.len() <= 48,
        forall|i: int| 0 <= i < r@.len() ==> is_cache_name_char(#[trigger] r@[i]),
{
    let stem: Vec<char> = match path_file_stem(video_path) {
        Some(s) => chars_of(s.as_str()),
        None => chars_of("wallpaper"),
    };
    let ghost stem_v = stem@;
    let mut mapped: Vec<char> = Vec::new();
    let mut i: usize = 0;
    while i < stem.len()
        invariant
            i <= stem.len(),
            mapped@ == stem@.take(i as int).map_values(|c: char| sanitize_char(c)),
        decreases stem.len() - i,
    {
        let c = sanitize_char_exec(stem[i]);
        mapped.push(c);
        i = i + 1;
        assert(stem@.take(i as int).map_values(|c: char| sanitize_char(c)) =~= stem@.take(
            (i - 1) as int,
        ).map_values(|c: char| sanitize_char(c)).push(sanitize_char(stem@[i - 1])));
    }
    assert(stem@.take(stem.len() as int) == stem@);
    let ghost m = mapped@;
    // trim `-` at both ends
    let mut a: usize = 0;
    while a < mapped.len() && mapped[a] == '-'
        invariant
            a <= mapped.len(),
            forall|j: int| 0 <= j < a ==> #[trigger] mapped@[j] == '-',
        decreases mapped.len() - a,
    {
        a = a + 1;
    }
    proof {
        lemma_strip_dashes_start(m, a as int);
    }
    let mut b: usize = mapped.len();
    while b > a && mapped[b - 1] == '-'
        invariant
            a <= b <= mapped.len(),
            forall|j: int| b <= j < mapped.len() ==> #[trigger] mapped@[j] == '-',
        decreases b,
    {
        b = b - 1;
    }
    let ghost t0 = m.skip(a as int);
    proof {
        assert forall|j: int| (b - a) <= j < t0.len() implies #[trigger] t0[j] == '-' by {
            assert(t0[j] == m[j + a]);
        }
        if b - a > 0 {
            assert(t0[b - a - 1] == m[b - 1]);
        }
        lemma_strip_dashes_end(t0, b - a);
        assert(t0.take(b - a) == m.subrange(a as int, b as int));
    }
    let ghost t = m.subrange(a as int, b as int);
    assert(stem@ == match file_stem(video_path@) {
        Some(s) => s,
        None => "wallpaper"@,
    });
    proof {
        // every character of the mapped stem is a cache-name character
        assert forall|j: int| 0 <= j < m.len() implies is_cache_name_char(#[trigger] m[j]) by {
            let c = stem@[j];
            assert(m[j] == sanitize_char(c));
        }
    }
    if a == b {
        let w = chars_of("wallpaper");
        proof {
            reveal_strlit("wallpaper");
            assert forall|j: int| 0 <= j < w@.len() implies is_cache_name_char(#[trigger] w@[j]) by {
                reveal_strlit("wallpaper");
            }
        }
        return string_from_chars(w.as_slice());
    }
    let end = if b - a <= 48 {
        b
    } else {
        a + 48
    };
    let mut out: Vec<char> = Vec::new();
    let mut p: usize = a;
    while p < end
        invariant
            a <= p <= end <= b <= mapped.len(),
            mapped@ == m,
            out@ == m.subrange(a as int, p as int),
        decreases end - p,
    {
        out.push(mapped[p]);
        p = p + 1;
        assert(m.subrange(a as int, p as int) == m.subrange(a as int, p - 1).push(m[p - 1]));
    }
    proof {
        if b - a > 48 {
            assert(t.take(48) == m.subrange(a as int, end as int));
        }
        assert forall|j: int| 0 <= j < out@.len() implies is_cache_name_char(#[trigger] out@[j]) by {
            assert(out@[j] == m[j + a]);
        }
    }
    string_from_chars(out.as_slice())
}

/// The application's data folder: `APP_DATA_FOLDER` under `%LOCALAPPDATA%`.
pub open spec fn app_data_dir_path(local_app_data: Seq<char>) -> Seq<char> {
    join(local_app_data, APP_DATA_FOLDER@)
}

pub fn app_data_dir(local_app_data: &str) -> (r: String)
    ensures
        r@ == app_data_dir_path(local_app_data@),
{
    join_path(local_app_data, APP_DATA_FOLDER)
}

/// Where the cache folder lives: `THUMBNAIL_CACHE_DIR` in the application's
/// data folder under `%LOCALAPPDATA%`.
pub open spec fn cache_dir_path(local_app_data: Seq<char>) -> Seq<char> {
    join(app_data_dir_path(local_app_data), THUMBNAIL_CACHE_DIR@)
}

pub fn thumbnail_cache_dir(local_app_data: &str) -> (r: String)
    ensures
        r@ == cache_dir_path(local_app_data@),
{
    let base = app_data_dir(local_app_data);
    join_path(base.as_str(), THUMBNAIL_CACHE_DIR)
}

/// The cached preview of a video: `{stem}_{hash}.jpg` in the cache folder.
pub open spec fn thumbnail_file(video_path: Seq<char>, cache_dir: Seq<char>) -> Seq<char> {
    join(
        cache_dir,
        sanitized_stem(video_path) + seq!['_'] + path_hash_text(video_path) + seq!['.']
            + THUMBNAIL_EXTENSION@,
    )
}

/// Two paths whose UTF-8 texts are equally long and differ in exactly one
/// byte, such as `C:\a\video.mp4` and `C:\b\video.mp4`, get different path
/// hashes, and so different cached previews in the same folder.
pub proof fn lemma_one_byte_apart_paths_get_distinct_previews(
    v1: Seq<char>,
    v2: Seq<char>,
    dir: Seq<char>,
    i: int,
)
    requires
        vstd::utf8::encode_utf8(v1).len() == vstd::utf8::encode_utf8(v2).len(),
        0 <= i < vstd::utf8::encode_utf8(v1).len(),
        vstd::utf8::encode_utf8(v1)[i] != vstd::utf8::encode_utf8(v2)[i],
        forall|j: int|
            0 <= j < vstd::utf8::encode_utf8(v1).len() && j != i ==> vstd::utf8::encode_utf8(v1)[j]
                == vstd::utf8::encode_utf8(v2)[j],
    ensures
        path_hash_text(v1) != path_hash_text(v2),
        thumbnail_file(v1, dir) != thumbnail_file(v2, dir),
{
    let h1 = fnv1a(vstd::utf8::encode_utf8(v1));
    let h2 = fnv1a(vstd::utf8::encode_utf8(v2));
    lemma_fnv_one_byte_apart(vstd::utf8::encode_utf8(v1), vstd::utf8::encode_utf8(v2), i);
    assert(sixteen_pow(16) == 0x1_0000_0000_0000_0000) by {
        reveal_with_fuel(sixteen_pow, 17);
    }
    if path_hash_text(v1) == path_hash_text(v2) {
        lemma_hex_digits_injective(h1 as nat, h2 as nat, 16);
    }
    lemma_distinct_hashes_distinct_previews(v1, v2, dir);
}

proof fn lemma_strip_start_keeps_cache_chars(s: Seq<char>)
    requires
        forall|j: int| 0 <= j < s.len() ==> is_cache_name_char(#[trigger] s[j]),
    ensures
        forall|j: int|
            0 <= j < strip_dashes_start(s).len() ==> is_cache_name_char(
                #[trigger] strip_dashes_start(s)[j],
            ),
    decreases s.len(),
{
    if s.len() > 0 && s[0] == '-' {
        let t = s.drop_first();
        assert forall|j: int| 0 <= j < t.len() implies is_cache_name_char(#[trigger] t[j]) by {
            assert(t[j] == s[j + 1]);
        }
        lemma_strip_start_keeps_cache_chars(t);
        assert(strip_dashes_start(s) == strip_dashes_start(t));
    } else {
        assert(strip_dashes_start(s) == s);
    }
}

proof fn lemma_strip_end_keeps_cache_chars(s: Seq<char>)
    requires
        forall|j: int| 0 <= j < s.len() ==> is_cache_name_char(#[trigger] s[j]),
    ensures
        forall|j: int|
            0 <= j < strip_dashes_end(s).len() ==> is_cache_name_char(
                #[trigger] strip_dashes_end(s)[j],
            ),
    decreases s.len(),
{
    if s.len() > 0 && s.last() == '-' {
        let t = s.drop_last();
        assert forall|j: int| 0 <= j < t.len() implies is_cache_name_char(#[trigger] t[j]) by {
            assert(t[j] == s[j]);
        }
        lemma_strip_end_keeps_cache_chars(t);
        assert(strip_dashes_end(s) == strip_dashes_end(t));
    } else {
        assert(strip_dashes_end(s) == s);
    }
}

proof fn lemma_sanitized_stem_chars(path: Seq<char>)
    ensures
        sanitized_stem(path).len() >= 1,
        forall|j: int|
            0 <= j < sanitized_stem(path).len() ==> is_cache_name_char(
                #[trigger] sanitized_stem(path)[j],
            ),
{
    let stem = match file_stem(path) {
        Some(s) => s,
        None => "wallpaper"@,
    };
    let m = stem.map_values(|c: char| sanitize_char(c));
    assert forall|j: int| 0 <= j < m.len() implies is_cache_name_char(#[trigger] m[j]) by {
        assert(m[j] == sanitize_char(stem[j]));
    }
    lemma_strip_start_keeps_cache_chars(m);
    let a = strip_dashes_start(m);
    lemma_strip_end_keeps_cache_chars(a);
    let t = strip_dashes_end(a);
    reveal_strlit("wallpaper");
    if t.len() > 48 {
        assert forall|j: int| 0 <= j < t.take(48).len() implies is_cache_name_char(
            #[trigger] t.take(48)[j],
        ) by {
            assert(t.take(48)[j] == t[j]);
        }
    }
}

/// Two videos whose path hashes differ never share a cached preview, so
/// two folders can each hold a video of the same name.
pub proof fn lemma_distinct_hashes_distinct_previews(v1: Seq<char>, v2: Seq<char>, dir: Seq<char>)
    requires
        path_hash_text(v1) != path_hash_text(v2),
    ensures
        thumbnail_file(v1, dir) != thumbnail_file(v2, dir),
{
    reveal_strlit("jpg");
    let h1 = path_hash_text(v1);
    let h2 = path_hash_text(v2);
    lemma_hex_digits_len(fnv1a(vstd::utf8::encode_utf8(v1)) as nat, 16);
    lemma_hex_digits_len(fnv1a(vstd::utf8::encode_utf8(v2)) as nat, 16);
    let s1 = sanitized_stem(v1);
    let s2 = sanitized_stem(v2);
    lemma_sanitized_stem_chars(v1);
    lemma_sanitized_stem_chars(v2);
    let n1 = s1 + seq!['_'] + h1 + seq!['.'] + THUMBNAIL_EXTENSION@;
    let n2 = s2 + seq!['_'] + h2 + seq!['.'] + THUMBNAIL_EXTENSION@;
    // neither name has a drive prefix or starts with a separator
    assert(n1[0] == s1[0] && is_cache_name_char(s1[0]));
    assert(n2[0] == s2[0] && is_cache_name_char(s2[0]));
    assert(n1[1] != ':') by {
        if s1.len() > 1 {
            assert(n1[1] == s1[1] && is_cache_name_char(s1[1]));
        }
    }
    assert(n2[1] != ':') by {
        if s2.len() > 1 {
            assert(n2[1] == s2[1] && is_cache_name_char(s2[1]));
        }
    }
    let j1 = join(dir, n1);
    let j2 = join(dir, n2);
    if j1 == j2 {
        let k = j1.len() - n1.len();
        assert(j1.skip(k) == n1);
        assert(j2.skip(k) == n2);
        assert(n1 == n2);
        assert(n1.skip(n1.len() - 20) == h1 + seq!['.'] + THUMBNAIL_EXTENSION@);
        assert(n2.skip(n2.len() - 20) == h2 + seq!['.'] + THUMBNAIL_EXTENSION@);
        assert(h1 == (h1 + seq!['.'] + THUMBNAIL_EXTENSION@).take(16));
        assert(h2 == (h2 + seq!['.'] + THUMBNAIL_EXTENSION@).take(16));
    }
}

pub fn thumbnail_path_for_video(video_path: &str, cache_dir: &str) -> (r: String)
    ensures
        r@ == thumbnail_file(video_path@, cache_dir@),
{
    let stem = sanitized_video_stem(video_path);
    let hash = stable_path_hash(video_path);
    let mut name: Vec<char> = chars_of(stem.as_str());
    name.push('_');
    push_str_chars(&mut name, hash.as_str());
    name.push('.');
    push_str_chars(&mut name, THUMBNAIL_EXTENSION);
    let name_s = string_from_chars(name.as_slice());
    join_path(cache_dir, name_s.as_str())
}

// ---------------------------------------------------------------------------
// Finding ffmpeg / ffprobe
// ---------------------------------------------------------------------------

/// The text of each string.
pub open spec fn texts(v: Seq<String>) -> Seq<Seq<char>> {
    v.map_values(|s: String| s@)
}

/// The places searched for a helper binary, in order: beside the running
/// executable, then `release` and `debug` beside its folder, then the working
/// directory, its `target/release`, and its `rust/target/release`.
pub open spec fn command_candidate_paths(
    binary_name: Seq<char>,
    current_exe: Option<Seq<char>>,
    current_dir: Option<Seq<char>>,
) -> Seq<Seq<char>> {
    let near_exe = match current_exe {
        Some(exe) => match parent(exe) {
            Some(exe_dir) => seq![join(exe_dir, binary_name)] + match parent(exe_dir) {
                Some(target_dir) => seq![
                    join(join(target_dir, "release"@), binary_name),
                    join(join(target_dir, "debug"@), binary_name),
                ],
                None => Seq::empty(),
            },
            None => Seq::empty(),
        },
        None => Seq::empty(),
    };
    let near_dir = match current_dir {
        Some(dir) => seq![
            join(dir, binary_name),
            join(join(join(dir, "target"@), "release"@), binary_name),
            join(join(join(join(dir, "rust"@), "target"@), "release"@), binary_name),
        ],
        None => Seq::empty(),
    };
    near_exe + near_dir
}

pub open spec fn opt_str(s: Option<&str>) -> Option<Seq<char>> {
    match s {
        Some(x) => Some(x@),
        None => None,
    }
}

fn push_string(v: &mut Vec<String>, s: String)
    ensures
        texts(final(v)@) == texts(old(v)@).push(s@),
{
    v.push(s);
    assert(texts(v@) =~= texts(old(v)@).push(s@));
}

/// The candidate locations of `binary_name`, given the running executable's
/// path and the working directory (each when known).
pub fn command_candidates(binary_name: &str, current_exe: Option<&str>, current_dir: Option<&str>) -> (r:
    Vec<String>)
    ensures
        texts(r@) == command_candidate_paths(binary_name@, opt_str(current_exe), opt_str(current_dir)),
{
    let mut v: Vec<String> = Vec::new();
    assert(texts(v@) =~= Seq::empty());
    if let Some(exe) = current_exe {
        if let Some(exe_dir) = path_parent(exe) {
            push_string(&mut v, join_path(exe_dir.as_str(), binary_name));
            if let Some(target_dir) = path_parent(exe_dir.as_str()) {
                let release = join_path(target_dir.as_str(), "release");
                push_string(&mut v, join_path(release.as_str(), binary_name));
                let debug = join_path(target_dir.as_str(), "debug");
                push_string(&mut v, join_path(debug.as_str(), binary_name));
            }
        }
    }
    let ghost first = texts(v@);
    if let Some(dir) = current_dir {
        push_string(&mut v, join_path(dir, binary_name));
        let target = join_path(dir, "target");
        let release = join_path(target.as_str(), "release");
        push_string(&mut v, join_path(release.as_str(), binary_name));
        let rust = join_path(dir, "rust");
        let rust_target = join_path(rust.as_str(), "target");
        let rust_release = join_path(rust_target.as_str(), "release");
        push_string(&mut v, join_path(rust_release.as_str(), binary_name));
    }
    assert(texts(v@) =~= command_candidate_paths(
        binary_name@,
        opt_str(current_exe),
        opt_str(current_dir),
    ));
    v
}

/// `i` is the first candidate reported to exist.
pub open spec fn first_existing(present: Seq<bool>, n: int, i: int) -> bool {
    &&& 0 <= i < n
    &&& i < present.len()
    &&& present[i]
    &&& forall|j: int| 0 <= j < i ==> !(#[trigger] present[j])
}

/// The program to run: the first candidate that exists (`present[i]` tells
/// whether `candidates[i]` does), or the bare binary name, left to the
/// system's search path.
pub open spec fn chosen_command(binary_name: Seq<char>, candidates: Seq<Seq<char>>, present: Seq<
    bool,
>) -> Seq<char> {
    if exists|i: int| first_existing(present, candidates.len() as int, i) {
        candidates[choose|i: int| first_existing(present, candidates.len() as int, i)]
    } else {
        binary_name
    }
}

proof fn lemma_first_existing_unique(present: Seq<bool>, n: int, i: int, j: int)
    requires
        first_existing(present, n, i),
        first_existing(present, n, j),
    ensures
        i == j,
{
    if i < j {
        assert(present[i]);
    } else if j < i {
        assert(present[j]);
    }
}

/// `path` ends with the text `name`.
pub open spec fn ends_with(path: Seq<char>, name: Seq<char>) -> bool {
    path.len() >= name.len() && path.skip(path.len() - name.len()) == name
}

/// Joining a relative name (no prefix, no leading separator) onto any path
/// gives a path that ends with that name.
proof fn lemma_join_ends_with(base: Seq<char>, rel: Seq<char>)
    requires
        prefix_len(rel) == 0,
        rel.len() > 0 ==> !is_separator(rel[0]),
    ensures
        ends_with(join(base, rel), rel),
{
    let j = join(base, rel);
    assert(j.skip(j.len() - rel.len()) =~= rel);
}

/// The program chosen from the candidate locations of `binary_name` names
/// that binary: it is the bare name or a path that ends with it.
pub proof fn lemma_chosen_command_names_binary(
    binary_name: Seq<char>,
    current_exe: Option<Seq<char>>,
    current_dir: Option<Seq<char>>,
    present: Seq<bool>,
)
    requires
        binary_name.len() > 0,
        prefix_len(binary_name) == 0,
        !is_separator(binary_name[0]),
    ensures
        ends_with(
            chosen_command(
                binary_name,
                command_candidate_paths(binary_name, current_exe, current_dir),
                present,
            ),
            binary_name,
        ),
{
    let c = command_candidate_paths(binary_name, current_exe, current_dir);
    assert forall|b: Seq<char>| #[trigger] ends_with(join(b, binary_name), binary_name) by {
        lemma_join_ends_with(b, binary_name);
    }
    assert forall|k: int| 0 <= k < c.len() implies ends_with(#[trigger] c[k], binary_name) by {
        let near_exe = match current_exe {
            Some(exe) => match parent(exe) {
                Some(exe_dir) => seq![join(exe_dir, binary_name)] + match parent(exe_dir) {
                    Some(target_dir) => seq![
                        join(join(target_dir, "release"@), binary_name),
                        join(join(target_dir, "debug"@), binary_name),
                    ],
                    None => Seq::empty(),
                },
                None => Seq::empty(),
            },
            None => Seq::empty(),
        };
        let near_dir = match current_dir {
            Some(d) => seq![
                join(d, binary_name),
                join(join(join(d, "target"@), "release"@), binary_name),
                join(join(join(join(d, "rust"@), "target"@), "release"@), binary_name),
            ],
            None => Seq::empty(),
        };
        assert(c == near_exe + near_dir);
        if k < near_exe.len() {
            assert(c[k] == near_exe[k]);
            let exe = current_exe->0;
            let exe_dir = parent(exe)->0;
            if k == 0 {
                assert(near_exe[0] == join(exe_dir, binary_name));
            } else {
                let target_dir = parent(exe_dir)->0;
                if k == 1 {
                    assert(near_exe[1] == join(join(target_dir, "release"@), binary_name));
                } else {
                    assert(near_exe[2] == join(join(target_dir, "debug"@), binary_name));
                }
            }
        } else {
            assert(c[k] == near_dir[k - near_exe.len()]);
        }
    }
    if exists|i: int| first_existing(present, c.len() as int, i) {
        let i = choose|i: int| first_existing(present, c.len() as int, i);
        assert(ends_with(c[i], binary_name));
    } else {
        assert(binary_name.skip(0) =~= binary_name);
    }
}

/// The ffmpeg and ffprobe programs chosen from their candidate locations
/// name `ffmpeg.exe` and `ffprobe.exe`.
pub proof fn lemma_tools_are_named(
    current_exe: Option<Seq<char>>,
    current_dir: Option<Seq<char>>,
    present: Seq<bool>,
)
    ensures
        ends_with(
            chosen_command(
                "ffmpeg.exe"@,
                command_candidate_paths("ffmpeg.exe"@, current_exe, current_dir),
                present,
            ),
            "ffmpeg.exe"@,
        ),
        ends_with(
            chosen_command(
                "ffprobe.exe"@,
                command_candidate_paths("ffprobe.exe"@, current_exe, current_dir),
                present,
            ),
            "ffprobe.exe"@,
        ),
{
    reveal_strlit("ffmpeg.exe");
    reveal_strlit("ffprobe.exe");
    lemma_chosen_command_names_binary("ffmpeg.exe"@, current_exe, current_dir, present);
    lemma_chosen_command_names_binary("ffprobe.exe"@, current_exe, current_dir, present);
}

pub fn command_path(binary_name: &str, candidates: &Vec<String>, present: &Vec<bool>) -> (r: String)
    ensures
        r@ == chosen_command(binary_name@, texts(candidates@), present@),
{
    let mut i: usize = 0;
    while i < candidates.len() && i < present.len()
        invariant
            i <= candidates.len(),
            forall|j: int| 0 <= j < i ==> j < present@.len() && !(#[trigger] present@[j]),
        decreases candidates.len() - i,
    {
        if present[i] {
            assert(first_existing(present@, texts(candidates@).len() as int, i as int));
            assert(texts(candidates@)[i as int] == candidates@[i as int]@);
            proof {
                let k = choose|k: int| first_existing(present@, texts(candidates@).len() as int, k);
                lemma_first_existing_unique(present@, texts(candidates@).len() as int, i as int, k);
            }
            return candidates[i].clone();
        }
        i = i + 1;
    }
    assert forall|k: int| !first_existing(present@, texts(candidates@).len() as int, k) by {
        if first_existing(present@, texts(candidates@).len() as int, k) {
            assert(k < i);
        }
    }
    String::from_str(binary_name)
}

/// The ffmpeg program to run, given the candidates for "ffmpeg.exe" and
/// which of them exist.
pub fn ffmpeg_command_path(candidates: &Vec<String>, present: &Vec<bool>) -> (r: String)
    ensures
        r@ == chosen_command("ffmpeg.exe"@, texts(candidates@), present@),
{
    command_path("ffmpeg.exe", candidates, present)
}

/// The ffprobe program to run, given the candidates for "ffprobe.exe" and
/// which of them exist.
pub fn ffprobe_command_path(candidates: &Vec<String>, present: &Vec<bool>) -> (r: String)
    ensures
        r@ == chosen_command("ffprobe.exe"@, texts(candidates@), present@),
{
    command_path("ffprobe.exe", candidates, present)
}

// ---------------------------------------------------------------------------
// ffmpeg arguments
// ---------------------------------------------------------------------------

/// ffmpeg's filter that scales a frame to cover `width`x`height` and crops
/// the overflow.
pub open spec fn scale_crop_filter(width: Seq<char>, height: Seq<char>) -> Seq<char> {
    "scale="@ + width + seq![':'] + height + ":force_original_aspect_ratio=increase,crop="@ + width
        + seq![':'] + height
}

/// The arguments that grab one frame at `THUMBNAIL_TIMESTAMP` from `video`,
/// scale and crop it with `filter`, and write a JPEG to `output`.
pub open spec fn frame_grab_args(video: Seq<char>, filter: Seq<char>, output: Seq<char>) -> Seq<
    Seq<char>,
> {
    seq![
        "-y"@,
        "-ss"@,
        THUMBNAIL_TIMESTAMP@,
        "-i"@,
        video,
        "-frames:v"@,
        "1"@,
        "-vf"@,
        filter,
        "-q:v"@,
        "3"@,
        output,
    ]
}

pub fn scale_crop_filter_text(width: &str, height: &str) -> (r: String)
    ensures
        r@ == scale_crop_filter(width@, height@),
{
    let mut v: Vec<char> = chars_of("scale=");
    push_str_chars(&mut v, width);
    v.push(':');
    push_str_chars(&mut v, height);
    push_str_chars(&mut v, ":force_original_aspect_ratio=increase,crop=");
    push_str_chars(&mut v, width);
    v.push(':');
    push_str_chars(&mut v, height);
    string_from_chars(v.as_slice())
}

pub fn frame_grab_arguments(video_path: &str, filter: String, output_path: &str) -> (r: Vec<String>)
    ensures
        texts(r@) == frame_grab_args(video_path@, filter@, output_path@),
{
    let mut v: Vec<String> = Vec::new();
    v.push(String::from_str("-y"));
    v.push(String::from_str("-ss"));
    v.push(String::from_str(THUMBNAIL_TIMESTAMP));
    v.push(String::from_str("-i"));
    v.push(String::from_str(video_path));
    v.push(String::from_str("-frames:v"));
    v.push(String::from_str("1"));
    v.push(String::from_str("-vf"));
    v.push(filter);
    v.push(String::from_str("-q:v"));
    v.push(String::from_str("3"));
    v.push(String::from_str(output_path));
    assert(texts(v@) =~= frame_grab_args(video_path@, filter@, output_path@));
    v
}

/// The arguments that make the card preview of `video_path` at
/// `thumbnail_path` (640x360).
pub fn thumbnail_ffmpeg_args(video_path: &str, thumbnail_path: &str) -> (r: Vec<String>)
    ensures
        texts(r@) == frame_grab_args(
            video_path@,
            scale_crop_filter(THUMBNAIL_WIDTH@, THUMBNAIL_HEIGHT@),
            thumbnail_path@,
        ),
{
    let filter = scale_crop_filter_text(THUMBNAIL_WIDTH, THUMBNAIL_HEIGHT);
    frame_grab_arguments(video_path, filter, thumbnail_path)
}

// ---------------------------------------------------------------------------
// Whether a cached preview must be rebuilt
// ---------------------------------------------------------------------------

/// What a file's metadata says about its modification time.
#[derive(Debug)]
pub enum FileMetadata {
    /// The metadata could not be read; the text is the system's error.
    Unreadable(String),
    /// The metadata was read but holds no modification time.
    NoModifiedTime,
    /// Modification time in nanoseconds relative to the Unix epoch.
    Modified(i128),
}

/// Why a preview could not be produced.
#[derive(Debug)]
pub enum ThumbnailError {
    VideoNotFound { video: String },
    LocalAppData { error: String },
    CreateCacheDir { dir: String, error: String },
    VideoMetadata { video: String, error: String },
    ThumbnailMetadata { thumbnail: String, error: String },
    FfmpegStart { command: String, video: String, error: String },
    FfmpegFailed { video: String },
    ThumbnailMissing { thumbnail: String },
}

pub enum FileMetadataView {
    Unreadable(Seq<char>),
    NoModifiedTime,
    Modified(i128),
}

pub enum ThumbnailErrorView {
    VideoNotFound { video: Seq<char> },
    LocalAppData { error: Seq<char> },
    CreateCacheDir { dir: Seq<char>, error: Seq<char> },
    VideoMetadata { video: Seq<char>, error: Seq<char> },
    ThumbnailMetadata { thumbnail: Seq<char>, error: Seq<char> },
    FfmpegStart { command: Seq<char>, video: Seq<char>, error: Seq<char> },
    FfmpegFailed { video: Seq<char> },
    ThumbnailMissing { thumbnail: Seq<char> },
}

impl View for FileMetadata {
    type V = FileMetadataView;

    open spec fn view(&self) -> FileMetadataView {
        match self {
            FileMetadata::Unreadable(e) => FileMetadataView::Unreadable(e@),
            FileMetadata::NoModifiedTime => FileMetadataView::NoModifiedTime,
            FileMetadata::Modified(t) => FileMetadataView::Modified(*t),
        }
    }
}

impl View for ThumbnailError {
    type V = ThumbnailErrorView;

    open spec fn view(&self) -> ThumbnailErrorView {
        match self {
            ThumbnailError::VideoNotFound { video } => ThumbnailErrorView::VideoNotFound {
                video: video@,
            },
            ThumbnailError::LocalAppData { error } => ThumbnailErrorView::LocalAppData { error: error@ },
            ThumbnailError::CreateCacheDir { dir, error } => ThumbnailErrorView::CreateCacheDir {
                dir: dir@,
                error: error@,
            },
            ThumbnailError::VideoMetadata { video, error } => ThumbnailErrorView::VideoMetadata {
                video: video@,
                error: error@,
            },
            ThumbnailError::ThumbnailMetadata { thumbnail, error } =>
                ThumbnailErrorView::ThumbnailMetadata { thumbnail: thumbnail@, error: error@ },
            ThumbnailError::FfmpegStart { command, video, error } =>
                ThumbnailErrorView::FfmpegStart {
                command: command@,
                video: video@,
                error: error@,
            },
            ThumbnailError::FfmpegFailed { video } => ThumbnailErrorView::FfmpegFailed {
                video: video@,
            },
            ThumbnailError::ThumbnailMissing { thumbnail } => ThumbnailErrorView::ThumbnailMissing {
                thumbnail: thumbnail@,
            },
        }
    }
}

/// Whether the preview must be (re)built: when it is missing, or older than
/// the video. Unreadable metadata is an error (the video's is read first);
/// a video without a modification time never forces a rebuild, a preview
/// without one always does.
pub open spec fn regeneration(
    video: Seq<char>,
    thumbnail: Seq<char>,
    thumbnail_exists: bool,
    video_meta: FileMetadataView,
    thumbnail_meta: FileMetadataView,
) -> Result<bool, ThumbnailErrorView> {
    if !thumbnail_exists {
        Ok(true)
    } else {
        match (video_meta, thumbnail_meta) {
            (FileMetadataView::Unreadable(e), _) => Err(
                ThumbnailErrorView::VideoMetadata { video, error: e },
            ),
            (_, FileMetadataView::Unreadable(e)) => Err(
                ThumbnailErrorView::ThumbnailMetadata { thumbnail, error: e },
            ),
            (FileMetadataView::NoModifiedTime, _) => Ok(false),
            (FileMetadataView::Modified(v), FileMetadataView::Modified(t)) => Ok(t < v),
            (FileMetadataView::Modified(_), FileMetadataView::NoModifiedTime) => Ok(true),
        }
    }
}

pub open spec fn result_view(r: Result<bool, ThumbnailError>) -> Result<bool, ThumbnailErrorView> {
    match r {
        Ok(b) => Ok(b),
        Err(e) => Err(e@),
    }
}

pub fn needs_regeneration(
    video_path: &str,
    thumbnail_path: &str,
    thumbnail_exists: bool,
    video: FileMetadata,
    thumbnail: FileMetadata,
) -> (r: Result<bool, ThumbnailError>)
    ensures
        result_view(r) == regeneration(
            video_path@,
            thumbnail_path@,
            thumbnail_exists,
            video@,
            thumbnail@,
        ),
{
    if !thumbnail_exists {
        return Ok(true);
    }
    if let FileMetadata::Unreadable(e) = video {
        return Err(ThumbnailError::VideoMetadata { video: String::from_str(video_path), error: e });
    }
    if let FileMetadata::Unreadable(e) = thumbnail {
        return Err(
            ThumbnailError::ThumbnailMetadata { thumbnail: String::from_str(thumbnail_path), error: e },
        );
    }
    match video {
        FileMetadata::Modified(v) => match thumbnail {
            FileMetadata::Modified(t) => Ok(t < v),
            _ => Ok(true),
        },
        _ => Ok(false),
    }
}

// ---------------------------------------------------------------------------
// Stale previews
// ---------------------------------------------------------------------------

/// One file found in the cache folder.
#[derive(Debug)]
pub struct CacheEntry {
    pub path: String,
    pub is_file: bool,
}

/// A cache file that is a preview picture: its extension reads "jpg" in any
/// ASCII case.
pub open spec fn is_thumbnail_file(path: Seq<char>) -> bool {
    match extension(path) {
        Some(e) => ascii_lower_seq(e) == THUMBNAIL_EXTENSION@,
        None => false,
    }
}

/// The previews that belong to no saved wallpaper, in directory order.
pub open spec fn stale_thumbnails(entries: Seq<CacheEntry>, expected: Seq<Seq<char>>) -> Seq<
    Seq<char>,
>
    decreases entries.len(),
{
    if entries.len() == 0 {
        Seq::empty()
    } else {
        let e = entries.last();
        let rest = stale_thumbnails(entries.drop_last(), expected);
        if e.is_file && is_thumbnail_file(e.path@) && !expected.contains(e.path@) {
            rest.push(e.path@)
        } else {
            rest
        }
    }
}

/// The cleanup deletes exactly the listed files that are previews and that no
/// saved wallpaper needs: a preview in `expected` is never deleted, and
/// neither is a folder or a file of another kind.
pub proof fn lemma_cleanup_deletes_only_unused_previews(
    entries: Seq<CacheEntry>,
    expected: Seq<Seq<char>>,
    p: Seq<char>,
)
    ensures
        stale_thumbnails(entries, expected).contains(p) <==> exists|i: int|
            0 <= i < entries.len() && (#[trigger] entries[i]).path@ == p && entries[i].is_file
                && is_thumbnail_file(p) && !expected.contains(p),
    decreases entries.len(),
{
    if entries.len() > 0 {
        let init = entries.drop_last();
        let e = entries.last();
        let rest = stale_thumbnails(init, expected);
        lemma_cleanup_deletes_only_unused_previews(init, expected, p);
        if rest.contains(p) {
            let i = choose|i: int|
                0 <= i < init.len() && (#[trigger] init[i]).path@ == p && init[i].is_file
                    && is_thumbnail_file(p) && !expected.contains(p);
            assert(entries[i] == init[i]);
        }
        if exists|i: int|
            0 <= i < entries.len() && (#[trigger] entries[i]).path@ == p && entries[i].is_file
                && is_thumbnail_file(p) && !expected.contains(p) {
            let i = choose|i: int|
                0 <= i < entries.len() && (#[trigger] entries[i]).path@ == p && entries[i].is_file
                    && is_thumbnail_file(p) && !expected.contains(p);
            if i < init.len() {
                assert(init[i] == entries[i]);
            } else {
                assert(entries[i] == e);
            }
        }
        if e.is_file && is_thumbnail_file(e.path@) && !expected.contains(e.path@) {
            assert(rest.push(e.path@).contains(p) <==> (rest.contains(p) || e.path@ == p)) by {
                if rest.push(e.path@).contains(p) {
                    let k = choose|k: int| 0 <= k < rest.len() + 1 && rest.push(e.path@)[k] == p;
                    if k < rest.len() {
                        assert(rest[k] == p);
                    }
                }
                if rest.contains(p) {
                    let k = choose|k: int| 0 <= k < rest.len() && rest[k] == p;
                    assert(rest.push(e.path@)[k] == p);
                }
                if e.path@ == p {
                    assert(rest.push(e.path@)[rest.len() as int] == p);
                }
            }
        }
    }
}

/// The previews the saved wallpapers need.
pub open spec fn expected_thumbnails(video_paths: Seq<String>, cache_dir: Seq<char>) -> Seq<
    Seq<char>,
> {
    video_paths.map_values(|v: String| thumbnail_file(v@, cache_dir))
}

/// The cleanup keeps the preview of every saved wallpaper, and lists for
/// deletion exactly the listed preview files (".jpg" in any case) that no
/// saved wallpaper's preview path names.
pub proof fn lemma_saved_previews_are_kept(
    video_paths: Seq<String>,
    cache_dir: Seq<char>,
    entries: Seq<CacheEntry>,
    p: Seq<char>,
)
    ensures
        forall|k: int|
            0 <= k < video_paths.len() ==> !stale_thumbnails(
                entries,
                expected_thumbnails(video_paths, cache_dir),
            ).contains(thumbnail_file(#[trigger] video_paths[k]@, cache_dir)),
        stale_thumbnails(entries, expected_thumbnails(video_paths, cache_dir)).contains(p) <==> (
        (exists|i: int|
            0 <= i < entries.len() && (#[trigger] entries[i]).path@ == p && entries[i].is_file)
            && is_thumbnail_file(p) && forall|k: int|
            0 <= k < video_paths.len() ==> thumbnail_file(#[trigger] video_paths[k]@, cache_dir)
                != p),
{
    let ex = expected_thumbnails(video_paths, cache_dir);
    assert forall|k: int| 0 <= k < video_paths.len() implies !stale_thumbnails(entries, ex).contains(
        thumbnail_file(#[trigger] video_paths[k]@, cache_dir),
    ) by {
        let t = thumbnail_file(video_paths[k]@, cache_dir);
        assert(ex[k] == t);
        assert(ex.contains(t));
        lemma_cleanup_deletes_only_unused_previews(entries, ex, t);
    }
    lemma_cleanup_deletes_only_unused_previews(entries, ex, p);
    if ex.contains(p) {
        let k = choose|k: int| 0 <= k < ex.len() && ex[k] == p;
        assert(thumbnail_file(video_paths[k]@, cache_dir) == p);
    }
    if !ex.contains(p) {
        assert forall|k: int| 0 <= k < video_paths.len() implies thumbnail_file(
            #[trigger] video_paths[k]@,
            cache_dir,
        ) != p by {
            assert(ex[k] == thumbnail_file(video_paths[k]@, cache_dir));
        }
    }
}

fn is_thumbnail_path(path: &str) -> (b: bool)
    ensures
        b == is_thumbnail_file(path@),
{
    match path_extension(path) {
        None => false,
        Some(e) => {
            let v = chars_of(e.as_str());
            let mut lowered: Vec<char> = Vec::new();
            let mut i: usize = 0;
            while i < v.len()
                invariant
                    i <= v.len(),
                    lowered@ == ascii_lower_seq(v@.take(i as int)),
                decreases v.len() - i,
            {
                lowered.push(lower_ascii_char(v[i]));
                i = i + 1;
                assert(ascii_lower_seq(v@.take(i as int)) =~= ascii_lower_seq(
                    v@.take((i - 1) as int),
                ).push(ascii_lower(v@[i - 1])));
            }
            assert(v@.take(v.len() as int) == v@);
            let jpg = chars_of(THUMBNAIL_EXTENSION);
            crate::text::equal_chars(lowered.as_slice(), jpg.as_slice())
        },
    }
}

fn contains_text(v: &Vec<String>, s: &str) -> (b: bool)
    ensures
        b == texts(v@).contains(s@),
{
    let mut i: usize = 0;
    while i < v.len()
        invariant
            i <= v.len(),
            forall|j: int| 0 <= j < i ==> (#[trigger] v@[j])@ != s@,
        decreases v.len() - i,
    {
        if equal_strs(v[i].as_str(), s) {
            assert(texts(v@)[i as int] == s@);
            return true;
        }
        i = i + 1;
    }
    assert forall|j: int| 0 <= j < texts(v@).len() implies texts(v@)[j] != s@ by {
        assert(texts(v@)[j] == v@[j]@);
    }
    false
}

/// The cache files to delete: previews (".jpg" files) that no saved
/// wallpaper's preview path names, in the order they were listed.
pub fn cleanup_stale_thumbnails(video_paths: &Vec<String>, cache_dir: &str, entries: &Vec<CacheEntry>) -> (r:
    Vec<String>)
    ensures
        texts(r@) == stale_thumbnails(entries@, expected_thumbnails(video_paths@, cache_dir@)),
        forall|k: int|
            0 <= k < video_paths@.len() ==> !texts(r@).contains(
                thumbnail_file(#[trigger] video_paths@[k]@, cache_dir@),
            ),
{
    proof {
        lemma_saved_previews_are_kept(video_paths@, cache_dir@, entries@, Seq::empty());
    }
    let mut expected: Vec<String> = Vec::new();
    let mut i: usize = 0;
    while i < video_paths.len()
        invariant
            i <= video_paths.len(),
            texts(expected@) == expected_thumbnails(video_paths@.take(i as int), cache_dir@),
        decreases video_paths.len() - i,
    {
        let t = thumbnail_path_for_video(video_paths[i].as_str(), cache_dir);
        push_string(&mut expected, t);
        i = i + 1;
        assert(expected_thumbnails(video_paths@.take(i as int), cache_dir@) =~= expected_thumbnails(
            video_paths@.take((i - 1) as int),
            cache_dir@,
        ).push(thumbnail_file(video_paths@[i - 1]@, cache_dir@)));
    }
    assert(video_paths@.take(video_paths.len() as int) == video_paths@);
    let ghost ex = texts(expected@);
    let mut stale: Vec<String> = Vec::new();
    let mut k: usize = 0;
    while k < entries.len()
        invariant
            k <= entries.len(),
            texts(expected@) == ex,
            ex == expected_thumbnails(video_paths@, cache_dir@),
            texts(stale@) == stale_thumbnails(entries@.take(k as int), ex),
        decreases entries.len() - k,
    {
        assert(entries@.take(k + 1).drop_last() == entries@.take(k as int));
        let e = &entries[k];
        if e.is_file && is_thumbnail_path(e.path.as_str()) && !contains_text(&expected, e.path.as_str()) {
            push_string(&mut stale, e.path.clone());
        }
        k = k + 1;
    }
    assert(entries@.take(entries.len() as int) == entries@);
    stale
}

} // verus!
