//! Windows path text, as the launcher and the GUI read it: `/` and `\` both
//! separate components, a leading drive (`C:`) or network share
//! (`\\server\share`, which also stands for a root) is a prefix, `.` components
//! are skipped, and a file name splits at its last dot the way `Path` does
//! (`file_name`, `file_stem`, `extension`, `parent`, `join`).
use vstd::prelude::*;
use crate::text::{chars_of, is_ascii_lower, is_ascii_upper, push_chars, string_from_chars};

verus! {

pub open spec fn is_separator(c: char) -> bool {
    c == '/' || c == '\\'
}

pub open spec fn is_ascii_letter(c: char) -> bool {
    is_ascii_lower(c) || is_ascii_upper(c)
}

/// Index of the first separator in `p` at or after `k`, or `p.len()`.
pub open spec fn first_sep_from(p: Seq<char>, k: int) -> int
    decreases p.len() - k,
{
    if k >= p.len() {
        p.len() as int
    } else if is_separator(p[k]) {
        k
    } else {
        first_sep_from(p, k + 1)
    }
}

/// Length of the network prefix `\\server\share` that starts `p` (either
/// separator counts), or 0 when there is none: both names must be non-empty.
pub open spec fn unc_prefix_len(p: Seq<char>) -> int {
    if p.len() >= 2 && is_separator(p[0]) && is_separator(p[1]) {
        let a = first_sep_from(p, 2);
        if a == 2 || a >= p.len() {
            0
        } else {
            let b = first_sep_from(p, a + 1);
            if b == a + 1 {
                0
            } else {
                b
            }
        }
    } else {
        0
    }
}

/// Length of the prefix that starts `p`: a drive (`X:`, length 2), a
/// network share (`\\server\share`), or 0 when there is none.
pub open spec fn prefix_len(p: Seq<char>) -> int {
    if p.len() >= 2 && is_ascii_letter(p[0]) && p[1] == ':' {
        2
    } else {
        unc_prefix_len(p)
    }
}

pub proof fn lemma_first_sep_from(p: Seq<char>, k: int, i: int)
    requires
        0 <= k <= i <= p.len(),
        forall|j: int| k <= j < i ==> !is_separator(#[trigger] p[j]),
        i == p.len() || is_separator(p[i]),
    ensures
        first_sep_from(p, k) == i,
    decreases i - k,
{
    if k < i {
        lemma_first_sep_from(p, k + 1, i);
    }
}

pub proof fn lemma_first_sep_from_bound(p: Seq<char>, k: int)
    requires
        0 <= k <= p.len(),
    ensures
        k <= first_sep_from(p, k) <= p.len(),
    decreases p.len() - k,
{
    if k < p.len() {
        lemma_first_sep_from_bound(p, k + 1);
    }
}

/// A prefix never runs past the path.
pub proof fn lemma_prefix_len_bound(p: Seq<char>)
    ensures
        0 <= prefix_len(p) <= p.len(),
{
    if p.len() >= 2 {
        lemma_first_sep_from_bound(p, 2);
        let a = first_sep_from(p, 2);
        if a < p.len() {
            lemma_first_sep_from_bound(p, a + 1);
        }
    }
}

/// Index of the last separator in `s`, or -1.
pub open spec fn last_sep(s: Seq<char>) -> int
    decreases s.len(),
{
    if s.len() == 0 {
        -1
    } else if is_separator(s.last()) {
        s.len() - 1
    } else {
        last_sep(s.drop_last())
    }
}

/// Index of the last `c` in `s`, or -1.
pub open spec fn last_index_of(s: Seq<char>, c: char) -> int
    decreases s.len(),
{
    if s.len() == 0 {
        -1
    } else if s.last() == c {
        s.len() - 1
    } else {
        last_index_of(s.drop_last(), c)
    }
}

pub proof fn lemma_last_sep_bound(s: Seq<char>)
    ensures
        -1 <= last_sep(s) < s.len(),
        s.len() > 0 && !is_separator(s.last()) ==> last_sep(s) < s.len() - 1,
    decreases s.len(),
{
    if s.len() > 0 {
        lemma_last_sep_bound(s.drop_last());
    }
}

/// `s` without its trailing separators.
pub open spec fn strip_trailing_seps(s: Seq<char>) -> Seq<char>
    decreases s.len(),
{
    if s.len() > 0 && is_separator(s.last()) {
        strip_trailing_seps(s.drop_last())
    } else {
        s
    }
}

/// The last normal component of `q` (a path without its drive prefix),
/// skipping empty and `.` components; `None` when there is none or when
/// it is `..`.
pub open spec fn last_normal_component(q: Seq<char>) -> Option<Seq<char>>
    decreases q.len(),
{
    if q.len() == 0 {
        None
    } else if is_separator(q.last()) {
        last_normal_component(q.drop_last())
    } else {
        let k = last_sep(q) + 1;
        let comp = q.skip(k);
        if comp == seq!['.'] {
            if k == 0 {
                None
            } else {
                proof {
                    lemma_last_sep_bound(q);
                }
                last_normal_component(q.take(k))
            }
        } else if comp == seq!['.', '.'] {
            None
        } else {
            Some(comp)
        }
    }
}

/// `Path::file_name`.
pub open spec fn file_name(p: Seq<char>) -> Option<Seq<char>> {
    last_normal_component(p.skip(prefix_len(p)))
}

/// The stem of a file name: everything before the last dot, unless that dot
/// is the first character or there is none.
pub open spec fn name_stem(name: Seq<char>) -> Seq<char> {
    let i = last_index_of(name, '.');
    if i <= 0 {
        name
    } else {
        name.take(i)
    }
}

/// The extension of a file name: everything after the last dot, when that
/// dot is not the first character.
pub open spec fn name_extension(name: Seq<char>) -> Option<Seq<char>> {
    let i = last_index_of(name, '.');
    if i <= 0 {
        None
    } else {
        Some(name.skip(i + 1))
    }
}

/// `Path::file_stem`.
pub open spec fn file_stem(p: Seq<char>) -> Option<Seq<char>> {
    match file_name(p) {
        Some(name) => Some(name_stem(name)),
        None => None,
    }
}

/// `Path::extension`.
pub open spec fn extension(p: Seq<char>) -> Option<Seq<char>> {
    match file_name(p) {
        Some(name) => name_extension(name),
        None => None,
    }
}

/// `Path::parent`: the path without its last component, keeping the drive and
/// the root; `None` for an empty path, a bare drive or a bare root.
pub open spec fn parent(p: Seq<char>) -> Option<Seq<char>> {
    let lo = prefix_len(p);
    let t = strip_trailing_seps(p.skip(lo));
    if t.len() == 0 {
        None
    } else {
        let j = last_sep(t);
        if j < 0 {
            Some(p.take(lo))
        } else {
            let head = strip_trailing_seps(t.take(j));
            if head.len() == 0 {
                Some(p.take(lo + j + 1))
            } else {
                Some(p.take(lo + head.len()))
            }
        }
    }
}

/// `PathBuf::join`: a path with a drive replaces the base, a rooted path keeps
/// only the base's drive, and otherwise one `\` goes between them unless the
/// base is empty, ends in a separator, or is a bare drive.
pub open spec fn join(base: Seq<char>, rel: Seq<char>) -> Seq<char> {
    if prefix_len(rel) > 0 {
        rel
    } else if rel.len() > 0 && is_separator(rel[0]) {
        base.take(prefix_len(base)) + rel
    } else if base.len() == 0 || is_separator(base.last()) || (prefix_len(base) == 2
        && base.len() == 2) {
        base + rel
    } else {
        base + seq!['\\'] + rel
    }
}

// ---------------------------------------------------------------------------
// Lemmas linking index scans to the recursive definitions
// ---------------------------------------------------------------------------

/// If `s[j]` is a separator and nothing after it is, `j` is the last separator;
/// if nothing in `s` is a separator, there is none.
pub proof fn lemma_last_sep(s: Seq<char>, j: int)
    requires
        -1 <= j < s.len(),
        j >= 0 ==> is_separator(s[j]),
        forall|i: int| j < i < s.len() ==> !is_separator(#[trigger] s[i]),
    ensures
        last_sep(s) == j,
    decreases s.len(),
{
    if s.len() > 0 && j < s.len() - 1 {
        let t = s.drop_last();
        assert forall|i: int| j < i < t.len() implies !is_separator(#[trigger] t[i]) by {
            assert(t[i] == s[i]);
        }
        if j >= 0 {
            assert(t[j] == s[j]);
        }
        lemma_last_sep(t, j);
    }
}

pub proof fn lemma_last_index_of(s: Seq<char>, c: char, j: int)
    requires
        -1 <= j < s.len(),
        j >= 0 ==> s[j] == c,
        forall|i: int| j < i < s.len() ==> #[trigger] s[i] != c,
    ensures
        last_index_of(s, c) == j,
    decreases s.len(),
{
    if s.len() > 0 && j < s.len() - 1 {
        let t = s.drop_last();
        assert forall|i: int| j < i < t.len() implies #[trigger] t[i] != c by {
            assert(t[i] == s[i]);
        }
        if j >= 0 {
            assert(t[j] == s[j]);
        }
        lemma_last_index_of(t, c, j);
    }
}

pub proof fn lemma_strip_trailing_seps(s: Seq<char>, k: int)
    requires
        0 <= k <= s.len(),
        forall|i: int| k <= i < s.len() ==> is_separator(#[trigger] s[i]),
        k == 0 || !is_separator(s[k - 1]),
    ensures
        strip_trailing_seps(s) == s.take(k),
    decreases s.len() - k,
{
    if k == s.len() {
        assert(s.take(k) == s);
    } else {
        let t = s.drop_last();
        assert forall|i: int| k <= i < t.len() implies is_separator(#[trigger] t[i]) by {
            assert(t[i] == s[i]);
        }
        if k > 0 {
            assert(t[k - 1] == s[k - 1]);
        }
        lemma_strip_trailing_seps(t, k);
        assert(t.take(k) == s.take(k));
    }
}

// ---------------------------------------------------------------------------
// Executable versions over character slices
// ---------------------------------------------------------------------------

pub fn is_separator_char(c: char) -> (b: bool)
    ensures
        b == is_separator(c),
{
    c == '/' || c == '\\'
}

/// Index of the first separator of `p` at or after `k`, or `p.len()`.
fn first_separator_from(p: &[char], k: usize) -> (r: usize)
    requires
        k <= p.len(),
    ensures
        r as int == first_sep_from(p@, k as int),
        k <= r <= p.len(),
{
    let mut i: usize = k;
    while i < p.len() && !is_separator_char(p[i])
        invariant
            k <= i <= p.len(),
            forall|j: int| k <= j < i ==> !is_separator(#[trigger] p@[j]),
        decreases p.len() - i,
    {
        i = i + 1;
    }
    proof {
        lemma_first_sep_from(p@, k as int, i as int);
    }
    i
}

pub fn prefix_length(p: &[char]) -> (n: usize)
    ensures
        n as int == prefix_len(p@),
        n <= p.len(),
{
    if p.len() >= 2 {
        let u = p[0] as u32;
        if ((65 <= u && u <= 90) || (97 <= u && u <= 122)) && p[1] == ':' {
            return 2;
        }
        if is_separator_char(p[0]) && is_separator_char(p[1]) {
            let a = first_separator_from(p, 2);
            if a == 2 || a >= p.len() {
                return 0;
            }
            let b = first_separator_from(p, a + 1);
            if b == a + 1 {
                return 0;
            }
            return b;
        }
    }
    0
}

/// Copies `p[from..to]`.
pub fn slice_chars(p: &[char], from: usize, to: usize) -> (r: Vec<char>)
    requires
        from <= to <= p.len(),
    ensures
        r@ == p@.subrange(from as int, to as int),
{
    let mut r: Vec<char> = Vec::new();
    let mut i = from;
    while i < to
        invariant
            from <= i <= to <= p.len(),
            r@ == p@.subrange(from as int, i as int),
        decreases to - i,
    {
        r.push(p[i]);
        i = i + 1;
        assert(p@.subrange(from as int, i as int) == p@.subrange(from as int, i - 1).push(
            p@[i - 1],
        ));
    }
    r
}

/// Index just past the last separator of `p[lo..end]`, as a position in `p`
/// (`lo` when there is none).
fn component_start(p: &[char], lo: usize, end: usize) -> (k: usize)
    requires
        lo <= end <= p.len(),
    ensures
        lo <= k <= end,
        last_sep(p@.subrange(lo as int, end as int)) + 1 == k - lo,
        forall|i: int| k <= i < end ==> !is_separator(#[trigger] p@[i]),
{
    let mut k = end;
    while k > lo && !is_separator_char(p[k - 1])
        invariant
            lo <= k <= end <= p.len(),
            forall|i: int| k <= i < end ==> !is_separator(#[trigger] p@[i]),
        decreases k,
    {
        k = k - 1;
    }
    proof {
        let s = p@.subrange(lo as int, end as int);
        assert forall|i: int| (k - lo - 1) < i < s.len() implies !is_separator(#[trigger] s[i]) by {
            assert(s[i] == p@[i + lo]);
        }
        if k > lo {
            assert(s[k - lo - 1] == p@[k - 1]);
        }
        lemma_last_sep(s, k - lo - 1);
    }
    k
}

/// Position in `p` after dropping the trailing separators of `p[lo..end]`.
fn strip_end(p: &[char], lo: usize, end: usize) -> (e: usize)
    requires
        lo <= end <= p.len(),
    ensures
        lo <= e <= end,
        strip_trailing_seps(p@.subrange(lo as int, end as int)) == p@.subrange(lo as int, e as int),
{
    let mut e = end;
    while e > lo && is_separator_char(p[e - 1])
        invariant
            lo <= e <= end <= p.len(),
            forall|i: int| e <= i < end ==> is_separator(#[trigger] p@[i]),
        decreases e,
    {
        e = e - 1;
    }
    proof {
        let s = p@.subrange(lo as int, end as int);
        assert forall|i: int| (e - lo) <= i < s.len() implies is_separator(#[trigger] s[i]) by {
            assert(s[i] == p@[i + lo]);
        }
        if e > lo {
            assert(s[e - lo - 1] == p@[e - 1]);
        }
        lemma_strip_trailing_seps(s, e - lo);
        assert(s.take(e - lo) == p@.subrange(lo as int, e as int));
    }
    e
}

/// Bounds of `Path::file_name` inside `p`.
pub fn file_name_range(p: &[char]) -> (r: Option<(usize, usize)>)
    ensures
        match r {
            Some((a, b)) => a <= b <= p.len() && file_name(p@) == Some(
                p@.subrange(a as int, b as int),
            ),
            None => file_name(p@) is None,
        },
{
    let lo = prefix_length(p);
    let ghost q = p@.skip(lo as int);
    let mut end = p.len();
    assert(q == p@.subrange(lo as int, end as int));
    loop
        invariant
            lo <= end <= p.len(),
            q == p@.skip(lo as int),
            lo as int == prefix_len(p@),
            last_normal_component(q) == last_normal_component(p@.subrange(lo as int, end as int)),
        decreases end,
    {
        let ghost before = p@.subrange(lo as int, end as int);
        let e = strip_end(p, lo, end);
        proof {
            lemma_strip_component(before);
            assert(strip_trailing_seps(before) == p@.subrange(lo as int, e as int));
        }
        if e == lo {
            return None;
        }
        let k = component_start(p, lo, e);
        let ghost t = p@.subrange(lo as int, e as int);
        assert(t.skip(k - lo) == p@.subrange(k as int, e as int));
        let len = e - k;
        if len == 1 && p[k] == '.' {
            assert(p@.subrange(k as int, e as int) =~= seq!['.']);
            if k == lo {
                return None;
            }
            assert(t.take(k - lo) == p@.subrange(lo as int, k as int));
            end = k;
        } else if len == 2 && p[k] == '.' && p[k + 1] == '.' {
            assert(p@.subrange(k as int, e as int) =~= seq!['.', '.']);
            return None;
        } else {
            proof {
                if len == 1 {
                    assert(p@.subrange(k as int, e as int) != seq!['.']) by {
                        assert(p@.subrange(k as int, e as int)[0] == p@[k as int]);
                    }
                }
                if len == 2 {
                    assert(p@.subrange(k as int, e as int) != seq!['.', '.']) by {
                        assert(p@.subrange(k as int, e as int)[0] == p@[k as int]);
                        assert(p@.subrange(k as int, e as int)[1] == p@[k + 1]);
                    }
                }
            }
            return Some((k, e));
        }
    }
}

/// Dropping trailing separators does not change the last normal component,
/// and the stripped text, when not empty, ends in a non-separator.
proof fn lemma_strip_component(s: Seq<char>)
    ensures
        last_normal_component(s) == last_normal_component(strip_trailing_seps(s)),
        strip_trailing_seps(s).len() > 0 ==> !is_separator(strip_trailing_seps(s).last()),
    decreases s.len(),
{
    if s.len() > 0 && is_separator(s.last()) {
        lemma_strip_component(s.drop_last());
    }
}

/// `Path::file_name`.
pub fn file_name_chars(p: &[char]) -> (r: Option<Vec<char>>)
    ensures
        match r {
            Some(v) => file_name(p@) == Some(v@),
            None => file_name(p@) is None,
        },
{
    match file_name_range(p) {
        Some((a, b)) => Some(slice_chars(p, a, b)),
        None => None,
    }
}

/// Index of the last `c` in `s`, if any.
pub fn last_index_of_char(s: &[char], c: char) -> (r: Option<usize>)
    ensures
        match r {
            Some(i) => i < s.len() && last_index_of(s@, c) == i as int,
            None => last_index_of(s@, c) == -1,
        },
{
    let mut k = s.len();
    while k > 0 && s[k - 1] != c
        invariant
            k <= s.len(),
            forall|i: int| k <= i < s.len() ==> #[trigger] s@[i] != c,
        decreases k,
    {
        k = k - 1;
    }
    proof {
        lemma_last_index_of(s@, c, k - 1);
    }
    if k == 0 {
        None
    } else {
        Some(k - 1)
    }
}

/// `Path::file_stem`.
pub fn file_stem_chars(p: &[char]) -> (r: Option<Vec<char>>)
    ensures
        match r {
            Some(v) => file_stem(p@) == Some(v@),
            None => file_stem(p@) is None,
        },
{
    match file_name_chars(p) {
        None => None,
        Some(name) => {
            match last_index_of_char(name.as_slice(), '.') {
                Some(i) => {
                    if i == 0 {
                        Some(name)
                    } else {
                        let s = slice_chars(name.as_slice(), 0, i);
                        assert(name@.take(i as int) == name@.subrange(0, i as int));
                        Some(s)
                    }
                },
                None => Some(name),
            }
        },
    }
}

/// `Path::extension`.
pub fn extension_chars(p: &[char]) -> (r: Option<Vec<char>>)
    ensures
        match r {
            Some(v) => extension(p@) == Some(v@),
            None => extension(p@) is None,
        },
{
    match file_name_chars(p) {
        None => None,
        Some(name) => {
            match last_index_of_char(name.as_slice(), '.') {
                Some(i) => {
                    if i == 0 {
                        None
                    } else {
                        let s = slice_chars(name.as_slice(), i + 1, name.len());
                        assert(name@.skip(i + 1) == name@.subrange(i + 1, name@.len() as int));
                        Some(s)
                    }
                },
                None => None,
            }
        },
    }
}

/// `Path::parent`.
pub fn parent_chars(p: &[char]) -> (r: Option<Vec<char>>)
    ensures
        match r {
            Some(v) => parent(p@) == Some(v@),
            None => parent(p@) is None,
        },
{
    let lo = prefix_length(p);
    let e = strip_end(p, lo, p.len());
    assert(p@.skip(lo as int) == p@.subrange(lo as int, p.len() as int));
    if e == lo {
        return None;
    }
    let ghost t = p@.subrange(lo as int, e as int);
    let k = component_start(p, lo, e);
    if k == lo {
        let r = slice_chars(p, 0, lo);
        assert(p@.take(lo as int) == p@.subrange(0, lo as int));
        return Some(r);
    }
    // the last separator of `t` sits at `k - 1`
    let h = strip_end(p, lo, k - 1);
    assert(t.take(k - 1 - lo) == p@.subrange(lo as int, k - 1));
    if h == lo {
        let r = slice_chars(p, 0, k);
        assert(p@.take(k as int) == p@.subrange(0, k as int));
        Some(r)
    } else {
        let r = slice_chars(p, 0, h);
        assert(p@.take(h as int) == p@.subrange(0, h as int));
        Some(r)
    }
}

/// `PathBuf::join`.
pub fn join_chars(base: &[char], rel: &[char]) -> (r: Vec<char>)
    ensures
        r@ == join(base@, rel@),
{
    let rp = prefix_length(rel);
    if rp > 0 {
        return slice_chars(rel, 0, rel.len());
    }
    let mut out: Vec<char> = Vec::new();
    if rel.len() > 0 && is_separator_char(rel[0]) {
        let bp = prefix_length(base);
        out = slice_chars(base, 0, bp);
        push_chars(&mut out, rel);
        assert(base@.take(bp as int) == base@.subrange(0, bp as int));
        return out;
    }
    out = slice_chars(base, 0, base.len());
    assert(base@.subrange(0, base.len() as int) == base@);
    let bp = prefix_length(base);
    if !(base.len() == 0 || is_separator_char(base[base.len() - 1]) || (bp == 2 && base.len()
        == 2)) {
        out.push('\\');
    }
    push_chars(&mut out, rel);
    out
}

/// `PathBuf::join` on strings.
pub fn join_path(base: &str, rel: &str) -> (r: String)
    ensures
        r@ == join(base@, rel@),
{
    let b = chars_of(base);
    let c = chars_of(rel);
    let v = join_chars(b.as_slice(), c.as_slice());
    string_from_chars(v.as_slice())
}

/// `Path::file_stem` on a string.
pub fn path_file_stem(path: &str) -> (r: Option<String>)
    ensures
        match r {
            Some(s) => file_stem(path@) == Some(s@),
            None => file_stem(path@) is None,
        },
{
    let p = chars_of(path);
    match file_stem_chars(p.as_slice()) {
        Some(v) => Some(string_from_chars(v.as_slice())),
        None => None,
    }
}

/// `Path::extension` on a string.
pub fn path_extension(path: &str) -> (r: Option<String>)
    ensures
        match r {
            Some(s) => extension(path@) == Some(s@),
            None => extension(path@) is None,
        },
{
    let p = chars_of(path);
    match extension_chars(p.as_slice()) {
        Some(v) => Some(string_from_chars(v.as_slice())),
        None => None,
    }
}

/// `Path::parent` on a string.
pub fn path_parent(path: &str) -> (r: Option<String>)
    ensures
        match r {
            Some(s) => parent(path@) == Some(s@),
            None => parent(path@) is None,
        },
{
    let p = chars_of(path);
    match parent_chars(p.as_slice()) {
        Some(v) => Some(string_from_chars(v.as_slice())),
        None => None,
    }
}

// ---------------------------------------------------------------------------
// Laws: the name after the last separator, and its last dot
// ---------------------------------------------------------------------------

/// No character of `s` is a separator.
pub open spec fn has_no_separator(s: Seq<char>) -> bool {
    forall|i: int| 0 <= i < s.len() ==> !is_separator(#[trigger] s[i])
}

/// No character of `s` is `c`.
pub open spec fn lacks(s: Seq<char>, c: char) -> bool {
    forall|i: int| 0 <= i < s.len() ==> #[trigger] s[i] != c
}

/// A path made of a folder, a separator and a name without separators
/// (neither `.` nor `..`, and not swallowed by the path's prefix) has that
/// name as its file name.
pub proof fn lemma_file_name_after_separator(q: Seq<char>, sep: char, n: Seq<char>)
    requires
        is_separator(sep),
        n.len() > 0,
        has_no_separator(n),
        n != seq!['.'],
        n != seq!['.', '.'],
        prefix_len(q + seq![sep] + n) <= q.len() + 1,
    ensures
        file_name(q + seq![sep] + n) == Some(n),
{
    let p = q + seq![sep] + n;
    let pl = prefix_len(p);
    lemma_prefix_len_bound(p);
    let t = p.skip(pl);
    let k = q.len() + 1 - pl;
    assert(t.skip(k) =~= n);
    assert(t.len() == k + n.len());
    assert(!is_separator(t.last())) by {
        assert(t.last() == n.last());
    }
    assert forall|i: int| k <= i < t.len() implies !is_separator(#[trigger] t[i]) by {
        assert(t[i] == n[i - k]);
    }
    if k > 0 {
        assert(t[k - 1] == sep);
    }
    lemma_last_sep(t, k - 1);
}

/// The stem and the extension of a name split it at its last dot: a name
/// made of a non-empty stem (dots allowed), a dot and a non-empty extension
/// without dots has exactly that stem and that extension.
pub proof fn lemma_split_at_last_dot(q: Seq<char>, sep: char, stem: Seq<char>, ext: Seq<char>)
    requires
        is_separator(sep),
        stem.len() > 0,
        ext.len() > 0,
        has_no_separator(stem),
        has_no_separator(ext),
        lacks(ext, '.'),
        prefix_len(q + seq![sep] + (stem + seq!['.'] + ext)) <= q.len() + 1,
    ensures
        file_stem(q + seq![sep] + (stem + seq!['.'] + ext)) == Some(stem),
        extension(q + seq![sep] + (stem + seq!['.'] + ext)) == Some(ext),
{
    let n = stem + seq!['.'] + ext;
    assert(has_no_separator(n)) by {
        assert forall|i: int| 0 <= i < n.len() implies !is_separator(#[trigger] n[i]) by {
            if i < stem.len() {
                assert(n[i] == stem[i]);
            } else if i > stem.len() {
                assert(n[i] == ext[i - stem.len() - 1]);
            }
        }
    }
    assert(n.len() >= 3);
    lemma_file_name_after_separator(q, sep, n);
    assert forall|i: int| stem.len() < i < n.len() implies #[trigger] n[i] != '.' by {
        assert(n[i] == ext[i - stem.len() - 1]);
    }
    lemma_last_index_of(n, '.', stem.len() as int);
    assert(n.take(stem.len() as int) =~= stem);
    assert(n.skip(stem.len() as int + 1) =~= ext);
}

/// A name without dots is its own stem and has no extension.
pub proof fn lemma_name_without_dot(q: Seq<char>, sep: char, n: Seq<char>)
    requires
        is_separator(sep),
        n.len() > 0,
        has_no_separator(n),
        lacks(n, '.'),
        prefix_len(q + seq![sep] + n) <= q.len() + 1,
    ensures
        file_stem(q + seq![sep] + n) == Some(n),
        extension(q + seq![sep] + n) is None,
{
    assert(n[0] != '.');
    lemma_file_name_after_separator(q, sep, n);
    lemma_last_index_of(n, '.', -1);
}

} // verus!
