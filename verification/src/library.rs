//! The GUI's wallpaper library: importing a video into the saved list,
//! dropping entries whose video is gone, and the text shown on each card.
use vstd::prelude::*;
use crate::shared::SaveWallpaper;
use crate::text::{
    chars_of, is_blank_chars, trim, trim_chars, equal_chars,
    string_from_chars, push_str_chars, is_blank,
};
use crate::win_path::{
    extension, file_stem, has_no_separator, is_separator, lacks, lemma_name_without_dot,
    lemma_split_at_last_dot, path_extension, path_file_stem, prefix_len,
};
use crate::video_info::{file_size_text, format_file_size};

verus! {

// ---------------------------------------------------------------------------
// Dropping entries whose video no longer exists
// ---------------------------------------------------------------------------

/// The entries of `saved` whose video exists: entry `i` stays when
/// `present[i]` is true (an entry with no reported status counts as gone).
pub open spec fn existing_entries(saved: Seq<SaveWallpaper>, present: Seq<bool>) -> Seq<
    SaveWallpaper,
>
    decreases saved.len(),
{
    if saved.len() == 0 {
        Seq::empty()
    } else {
        let n = saved.len() - 1;
        let rest = existing_entries(saved.drop_last(), present);
        if n < present.len() && present[n] {
            rest.push(saved[n])
        } else {
            rest
        }
    }
}

/// Keeps the saved wallpapers whose video still exists, in order, and says
/// whether any entry was dropped (so the saved file must be rewritten).
pub fn read_existing_saved_wallpapers(saved: Vec<SaveWallpaper>, present: &Vec<bool>) -> (r: (
    Vec<SaveWallpaper>,
    bool,
))
    ensures
        r.0@ == existing_entries(saved@, present@),
        r.1 == (r.0@.len() != saved@.len()),
{
    let mut kept: Vec<SaveWallpaper> = Vec::new();
    let mut i: usize = 0;
    while i < saved.len()
        invariant
            i <= saved.len(),
            kept@ == existing_entries(saved@.take(i as int), present@),
        decreases saved.len() - i,
    {
        proof {
            assert(saved@.take(i + 1).drop_last() == saved@.take(i as int));
        }
        if i < present.len() && present[i] {
            kept.push(saved[i].clone());
        }
        i = i + 1;
    }
    assert(saved@.take(saved.len() as int) == saved@);
    let changed = kept.len() != saved.len();
    (kept, changed)
}

// ---------------------------------------------------------------------------
// Importing a video
// ---------------------------------------------------------------------------

/// The (name, path) text of each entry.
pub open spec fn entry_views(saved: Seq<SaveWallpaper>) -> Seq<(Seq<char>, Seq<char>)> {
    saved.map_values(|w: SaveWallpaper| (w.name@, w.path@))
}

/// `i` is the first entry whose path reads `path`.
pub open spec fn first_with_path(entries: Seq<(Seq<char>, Seq<char>)>, path: Seq<char>, i: int) -> bool {
    &&& 0 <= i < entries.len()
    &&& entries[i].1 == path
    &&& forall|j: int| 0 <= j < i ==> (#[trigger] entries[j]).1 != path
}

pub open spec fn has_path(entries: Seq<(Seq<char>, Seq<char>)>, path: Seq<char>) -> bool {
    exists|i: int| 0 <= i < entries.len() && (#[trigger] entries[i]).1 == path
}

/// The name a newly imported video gets: its file stem, or
/// "Untitled wallpaper" when the path has none.
pub open spec fn import_name(path: Seq<char>) -> Seq<char> {
    match file_stem(path) {
        Some(s) => s,
        None => "Untitled wallpaper"@,
    }
}

/// The library after importing `path` named `name`: the first entry with
/// that path is renamed, or a new entry is appended.
pub open spec fn upsert_entry(entries: Seq<(Seq<char>, Seq<char>)>, path: Seq<char>, name: Seq<char>) -> Seq<
    (Seq<char>, Seq<char>),
> {
    if has_path(entries, path) {
        let i = choose|i: int| first_with_path(entries, path, i);
        entries.update(i, (name, path))
    } else {
        entries.push((name, path))
    }
}

pub proof fn lemma_first_with_path_unique(
    entries: Seq<(Seq<char>, Seq<char>)>,
    path: Seq<char>,
    i: int,
    j: int,
)
    requires
        first_with_path(entries, path, i),
        first_with_path(entries, path, j),
    ensures
        i == j,
{
    if i < j {
        assert(entries[i].1 != path);
    } else if j < i {
        assert(entries[j].1 != path);
    }
}

/// When `path` is in the list, the first entry with it exists.
pub proof fn lemma_has_path_first(entries: Seq<(Seq<char>, Seq<char>)>, path: Seq<char>)
    requires
        has_path(entries, path),
    ensures
        exists|i: int| first_with_path(entries, path, i),
    decreases entries.len(),
{
    let k = choose|k: int| 0 <= k < entries.len() && (#[trigger] entries[k]).1 == path;
    if entries[0].1 == path {
        assert(first_with_path(entries, path, 0));
    } else {
        let t = entries.drop_first();
        assert(t[k - 1] == entries[k]);
        lemma_has_path_first(t, path);
        let i = choose|i: int| first_with_path(t, path, i);
        assert forall|j: int| 0 <= j < i + 1 implies (#[trigger] entries[j]).1 != path by {
            if j > 0 {
                assert(entries[j] == t[j - 1]);
            }
        }
        assert(first_with_path(entries, path, i + 1));
    }
}

/// No two entries share a path.
pub open spec fn paths_distinct(entries: Seq<(Seq<char>, Seq<char>)>) -> bool {
    forall|i: int, j: int|
        0 <= i < j < entries.len() ==> (#[trigger] entries[i]).1 != (#[trigger] entries[j]).1
}

/// Importing a video leaves exactly one change: the first entry with its
/// path gets the new name, or a new entry with that path and name is
/// appended; nothing else moves. The list holds the path afterwards.
pub proof fn lemma_import_updates_or_appends(
    entries: Seq<(Seq<char>, Seq<char>)>,
    path: Seq<char>,
    name: Seq<char>,
)
    ensures
        ({
            let r = upsert_entry(entries, path, name);
            &&& has_path(entries, path) ==> (exists|i: int|
                first_with_path(entries, path, i) && r == entries.update(i, (name, path)))
            &&& !has_path(entries, path) ==> r == entries.push((name, path))
            &&& has_path(r, path)
        }),
{
    let r = upsert_entry(entries, path, name);
    if has_path(entries, path) {
        lemma_has_path_first(entries, path);
        let i = choose|i: int| first_with_path(entries, path, i);
        assert(r[i].1 == path);
    } else {
        assert(r[entries.len() as int].1 == path);
    }
}

/// Importing never creates a second entry for a path: a library without
/// duplicate paths stays without them.
pub proof fn lemma_import_keeps_paths_distinct(
    entries: Seq<(Seq<char>, Seq<char>)>,
    path: Seq<char>,
    name: Seq<char>,
)
    requires
        paths_distinct(entries),
    ensures
        paths_distinct(upsert_entry(entries, path, name)),
{
    let r = upsert_entry(entries, path, name);
    if has_path(entries, path) {
        lemma_has_path_first(entries, path);
        let k = choose|i: int| first_with_path(entries, path, i);
        assert forall|i: int, j: int| 0 <= i < j < r.len() implies (#[trigger] r[i]).1 != (
        #[trigger] r[j]).1 by {
            assert(r[i].1 == entries[i].1);
            assert(r[j].1 == entries[j].1);
        }
    } else {
        assert forall|i: int, j: int| 0 <= i < j < r.len() implies (#[trigger] r[i]).1 != (
        #[trigger] r[j]).1 by {
            if j == entries.len() {
                assert(r[i] == entries[i]);
            } else {
                assert(r[i] == entries[i]);
                assert(r[j] == entries[j]);
            }
        }
    }
}

/// Importing the same video twice gives the same library as importing it once.
pub proof fn lemma_import_twice_is_import_once(
    entries: Seq<(Seq<char>, Seq<char>)>,
    path: Seq<char>,
    name: Seq<char>,
)
    ensures
        upsert_entry(upsert_entry(entries, path, name), path, name) == upsert_entry(
            entries,
            path,
            name,
        ),
{
    let r = upsert_entry(entries, path, name);
    if has_path(entries, path) {
        lemma_has_path_first(entries, path);
        let i = choose|i: int| first_with_path(entries, path, i);
        assert forall|j: int| 0 <= j < i implies (#[trigger] r[j]).1 != path by {
            assert(r[j] == entries[j]);
        }
        assert(first_with_path(r, path, i));
        assert(has_path(r, path));
        let k = choose|k: int| first_with_path(r, path, k);
        lemma_first_with_path_unique(r, path, i, k);
        assert(r.update(i, (name, path)) =~= r);
    } else {
        let n = entries.len() as int;
        assert forall|j: int| 0 <= j < n implies (#[trigger] r[j]).1 != path by {
            assert(r[j] == entries[j]);
        }
        assert(first_with_path(r, path, n));
        assert(has_path(r, path));
        let k = choose|k: int| first_with_path(r, path, k);
        lemma_first_with_path_unique(r, path, n, k);
        assert(r.update(n, (name, path)) =~= r);
    }
}

/// A library whose videos all exist is kept as it is (and not rewritten).
pub proof fn lemma_all_present_keeps_library(saved: Seq<SaveWallpaper>, present: Seq<bool>)
    requires
        present.len() >= saved.len(),
        forall|i: int| 0 <= i < saved.len() ==> #[trigger] present[i],
    ensures
        existing_entries(saved, present) == saved,
    decreases saved.len(),
{
    if saved.len() > 0 {
        lemma_all_present_keeps_library(saved.drop_last(), present);
        assert(saved.drop_last().push(saved.last()) =~= saved);
    }
}

/// Refreshing keeps only entries whose video exists, in their order: every
/// kept entry was present, and the list is never longer than before.
pub proof fn lemma_refresh_keeps_only_present(saved: Seq<SaveWallpaper>, present: Seq<bool>)
    ensures
        existing_entries(saved, present).len() <= saved.len(),
        forall|k: int| 0 <= k < existing_entries(saved, present).len() ==> exists|i: int|
            0 <= i < saved.len() && i < present.len() && present[i] && #[trigger] existing_entries(
                saved,
                present,
            )[k] == saved[i],
    decreases saved.len(),
{
    if saved.len() > 0 {
        let t = saved.drop_last();
        lemma_refresh_keeps_only_present(t, present);
        let rest = existing_entries(t, present);
        let r = existing_entries(saved, present);
        assert forall|k: int| 0 <= k < r.len() implies exists|i: int|
            0 <= i < saved.len() && i < present.len() && present[i] && #[trigger] r[k]
                == saved[i] by {
            if k < rest.len() {
                assert(r[k] == rest[k]);
                let i = choose|i: int|
                    0 <= i < t.len() && i < present.len() && present[i] && #[trigger] rest[k]
                        == t[i];
                assert(saved[i] == t[i]);
            } else {
                assert(r[k] == saved[saved.len() - 1]);
            }
        }
    }
}

/// Adds the video at `video_path` to the saved list: when an entry already
/// has this exact path its name is refreshed, otherwise a new entry goes at
/// the end.
pub fn save_file_2(saved: Vec<SaveWallpaper>, video_path: String) -> (r: Vec<SaveWallpaper>)
    ensures
        entry_views(r@) == upsert_entry(entry_views(saved@), video_path@, import_name(video_path@)),
        exists|i: int|
            0 <= i < r@.len() && (#[trigger] r@[i]).path@ == video_path@ && r@[i].name@ == (
            match file_stem(video_path@) {
                Some(s) => s,
                None => "Untitled wallpaper"@,
            }),
{
    let ghost vp = video_path@;
    let r = save_file_2_entries(saved, video_path);
    proof {
        lemma_imported_entry_is_named(entry_views(saved@), vp);
        let i = choose|i: int|
            0 <= i < upsert_entry(entry_views(saved@), vp, import_name(vp)).len()
                && #[trigger] upsert_entry(entry_views(saved@), vp, import_name(vp))[i] == (
                match file_stem(vp) {
                    Some(s) => s,
                    None => "Untitled wallpaper"@,
                },
                vp,
            );
        assert(entry_views(r@)[i] == (r@[i].name@, r@[i].path@));
    }
    r
}

fn save_file_2_entries(saved: Vec<SaveWallpaper>, video_path: String) -> (r: Vec<SaveWallpaper>)
    ensures
        entry_views(r@) == upsert_entry(entry_views(saved@), video_path@, import_name(video_path@)),
{
    let name = match path_file_stem(video_path.as_str()) {
        Some(s) => s,
        None => String::from_str("Untitled wallpaper"),
    };
    let ghost n = name@;
    assert(n == import_name(video_path@));
    let target = chars_of(video_path.as_str());
    let mut list = saved;
    let ghost orig = list@;
    let mut i: usize = 0;
    while i < list.len()
        invariant
            i <= list.len(),
            list@ == orig,
            orig == saved@,
            target@ == video_path@,
            name@ == n,
            n == import_name(video_path@),
            forall|j: int| 0 <= j < i ==> (#[trigger] list@[j]).path@ != video_path@,
        decreases list.len() - i,
    {
        let p = chars_of(list[i].path.as_str());
        if equal_chars(p.as_slice(), target.as_slice()) {
            assert(entry_views(orig)[i as int] == (orig[i as int].name@, orig[i as int].path@));
            assert forall|j: int| 0 <= j < i implies (#[trigger] entry_views(orig)[j]).1 != video_path@ by {
                assert(entry_views(orig)[j].1 == orig[j].path@);
            }
            assert(first_with_path(entry_views(orig), video_path@, i as int));
            let path = list[i].path.clone();
            list.set(i, SaveWallpaper { name, path });
            proof {
                assert(has_path(entry_views(orig), video_path@));
                let k = choose|k: int| first_with_path(entry_views(orig), video_path@, k);
                lemma_first_with_path_unique(entry_views(orig), video_path@, i as int, k);
                assert(entry_views(list@) =~= entry_views(orig).update(i as int, (n, video_path@)));
            }
            return list;
        }
        i = i + 1;
    }
    assert forall|k: int| 0 <= k < entry_views(orig).len() implies (#[trigger] entry_views(orig)[k]).1 != video_path@ by {
        assert(entry_views(orig)[k].1 == orig[k].path@);
    }
    assert(!has_path(entry_views(orig), video_path@));
    list.push(SaveWallpaper { name, path: video_path });
    assert(entry_views(list@) =~= entry_views(orig).push((n, video_path@)));
    list
}

// ---------------------------------------------------------------------------
// Card text
// ---------------------------------------------------------------------------

/// The title on a card: the saved name, unless it is blank or reads "nan"
/// once trimmed; then the file stem of the path, or "Untitled wallpaper".
pub open spec fn card_title(name: Seq<char>, path: Seq<char>) -> Seq<char> {
    if !is_blank(name) && trim(name) != "nan"@ {
        name
    } else {
        match file_stem(path) {
            Some(s) => s,
            None => "Untitled wallpaper"@,
        }
    }
}

pub fn wallpaper_title(saved_wallpaper: &SaveWallpaper) -> (r: String)
    ensures
        r@ == card_title(saved_wallpaper.name@, saved_wallpaper.path@),
{
    let name = chars_of(saved_wallpaper.name.as_str());
    let trimmed = trim_chars(name.as_slice());
    let nan = chars_of("nan");
    if !is_blank_chars(name.as_slice()) && !equal_chars(trimmed.as_slice(), nan.as_slice()) {
        return saved_wallpaper.name.clone();
    }
    match path_file_stem(saved_wallpaper.path.as_str()) {
        Some(s) => s,
        None => String::from_str("Untitled wallpaper"),
    }
}

/// `str::to_uppercase`: the Unicode upper-case mapping of a string.
pub uninterp spec fn unicode_uppercase(s: Seq<char>) -> Seq<char>;

/// Calls `str::to_uppercase`. Claims: the result is a function of the text
/// alone (the Unicode upper-case mapping of each character); what that
/// mapping is, is left unsaid.
#[verifier::external_body]
fn to_uppercase(s: &str) -> (r: String)
    ensures
        r@ == unicode_uppercase(s@),
{
    s.to_uppercase()
}

/// The badge on a card: the path's extension in upper case, or "VIDEO".
pub open spec fn card_format(path: Seq<char>) -> Seq<char> {
    match extension(path) {
        Some(e) => unicode_uppercase(e),
        None => "VIDEO"@,
    }
}

pub fn wallpaper_format(path: &str) -> (r: String)
    ensures
        r@ == card_format(path@),
{
    match path_extension(path) {
        Some(e) => to_uppercase(e.as_str()),
        None => String::from_str("VIDEO"),
    }
}

/// The detail line on a card: resolution and size joined by " | ", either one
/// alone, or "Saved live wallpaper" when neither is known.
pub open spec fn card_details(resolution: Option<Seq<char>>, file_size: Option<Seq<char>>) -> Seq<
    char,
> {
    match (resolution, file_size) {
        (Some(r), Some(s)) => r + " | "@ + s,
        (Some(r), None) => r,
        (None, Some(s)) => s,
        (None, None) => "Saved live wallpaper"@,
    }
}

pub open spec fn opt_view(s: Option<String>) -> Option<Seq<char>> {
    match s {
        Some(x) => Some(x@),
        None => None,
    }
}

pub fn wallpaper_details(resolution: Option<String>, file_size: Option<String>) -> (r: String)
    ensures
        r@ == card_details(opt_view(resolution), opt_view(file_size)),
{
    match (resolution, file_size) {
        (Some(r), Some(s)) => {
            let mut out: Vec<char> = chars_of(r.as_str());
            push_str_chars(&mut out, " | ");
            push_str_chars(&mut out, s.as_str());
            string_from_chars(out.as_slice())
        },
        (Some(r), None) => r,
        (None, Some(s)) => s,
        (None, None) => String::from_str("Saved live wallpaper"),
    }
}

// ---------------------------------------------------------------------------
// Cards
// ---------------------------------------------------------------------------

/// The text and flags of one wallpaper card (the picture itself is drawn by
/// the window).
#[derive(Debug)]
pub struct WallpaperCard {
    pub title: String,
    pub path: String,
    pub format: String,
    pub details: String,
    pub has_thumbnail: bool,
    pub is_loading: bool,
}

/// The card shown at once, while the details and preview load.
pub fn placeholder_wallpaper_card_data(saved_wallpaper: &SaveWallpaper) -> (c: WallpaperCard)
    ensures
        c.title@ == card_title(saved_wallpaper.name@, saved_wallpaper.path@),
        c.path@ == saved_wallpaper.path@,
        c.format@ == card_format(saved_wallpaper.path@),
        c.details@ == "Loading wallpaper info..."@,
        !c.has_thumbnail,
        c.is_loading,
{
    WallpaperCard {
        title: wallpaper_title(saved_wallpaper),
        path: saved_wallpaper.path.clone(),
        format: wallpaper_format(saved_wallpaper.path.as_str()),
        details: String::from_str("Loading wallpaper info..."),
        has_thumbnail: false,
        is_loading: true,
    }
}

pub open spec fn opt_size_text(n: Option<u64>) -> Option<Seq<char>> {
    match n {
        Some(b) => Some(file_size_text(b as nat)),
        None => None,
    }
}

/// The finished card, given what was learnt about the video: its resolution
/// label, its size in bytes, and whether a preview picture could be loaded.
pub fn resolve_wallpaper_card(
    saved_wallpaper: &SaveWallpaper,
    resolution: Option<String>,
    file_size: Option<u64>,
    has_thumbnail: bool,
) -> (c: WallpaperCard)
    ensures
        c.title@ == card_title(saved_wallpaper.name@, saved_wallpaper.path@),
        c.path@ == saved_wallpaper.path@,
        c.format@ == card_format(saved_wallpaper.path@),
        c.details@ == card_details(opt_view(resolution), opt_size_text(file_size)),
        c.has_thumbnail == has_thumbnail,
        !c.is_loading,
{
    let size = match file_size {
        Some(b) => Some(format_file_size(b)),
        None => None,
    };
    let ghost sz = opt_view(size);
    assert(sz == opt_size_text(file_size));
    WallpaperCard {
        title: wallpaper_title(saved_wallpaper),
        path: saved_wallpaper.path.clone(),
        format: wallpaper_format(saved_wallpaper.path.as_str()),
        details: wallpaper_details(resolution, size),
        has_thumbnail,
        is_loading: false,
    }
}

// ---------------------------------------------------------------------------
// Laws: names and badges follow the file name's last dot
// ---------------------------------------------------------------------------

/// The badge of a video named `stem.ext` is the upper-case `ext`, whatever
/// dots the stem holds (`Rain.4K.mp4` shows "MP4").
pub proof fn lemma_badge_is_file_extension(q: Seq<char>, sep: char, stem: Seq<char>, ext: Seq<char>)
    requires
        is_separator(sep),
        stem.len() > 0,
        ext.len() > 0,
        has_no_separator(stem),
        has_no_separator(ext),
        lacks(ext, '.'),
        prefix_len(q + seq![sep] + (stem + seq!['.'] + ext)) <= q.len() + 1,
    ensures
        card_format(q + seq![sep] + (stem + seq!['.'] + ext)) == unicode_uppercase(ext),
{
    lemma_split_at_last_dot(q, sep, stem, ext);
}

/// A video whose name has no dot shows the badge "VIDEO".
pub proof fn lemma_badge_without_extension(q: Seq<char>, sep: char, n: Seq<char>)
    requires
        is_separator(sep),
        n.len() > 0,
        has_no_separator(n),
        lacks(n, '.'),
        prefix_len(q + seq![sep] + n) <= q.len() + 1,
    ensures
        card_format(q + seq![sep] + n) == "VIDEO"@,
{
    lemma_name_without_dot(q, sep, n);
}

/// Importing the video `stem.ext` gives the library an entry with that path
/// named `stem`, everything before the last dot (`Ocean.Waves.4K.mp4` is
/// named "Ocean.Waves.4K").
pub proof fn lemma_imported_video_named_by_stem(
    entries: Seq<(Seq<char>, Seq<char>)>,
    q: Seq<char>,
    sep: char,
    stem: Seq<char>,
    ext: Seq<char>,
)
    requires
        is_separator(sep),
        stem.len() > 0,
        ext.len() > 0,
        has_no_separator(stem),
        has_no_separator(ext),
        lacks(ext, '.'),
        prefix_len(q + seq![sep] + (stem + seq!['.'] + ext)) <= q.len() + 1,
    ensures
        ({
            let p = q + seq![sep] + (stem + seq!['.'] + ext);
            exists|i: int|
                0 <= i < upsert_entry(entries, p, import_name(p)).len() && #[trigger] upsert_entry(
                    entries,
                    p,
                    import_name(p),
                )[i] == (stem, p)
        }),
{
    let p = q + seq![sep] + (stem + seq!['.'] + ext);
    lemma_split_at_last_dot(q, sep, stem, ext);
    lemma_imported_entry_is_named(entries, p);
}

/// Importing a video whose name has no dot names the entry by the whole name.
pub proof fn lemma_imported_video_without_extension(
    entries: Seq<(Seq<char>, Seq<char>)>,
    q: Seq<char>,
    sep: char,
    n: Seq<char>,
)
    requires
        is_separator(sep),
        n.len() > 0,
        has_no_separator(n),
        lacks(n, '.'),
        prefix_len(q + seq![sep] + n) <= q.len() + 1,
    ensures
        ({
            let p = q + seq![sep] + n;
            exists|i: int|
                0 <= i < upsert_entry(entries, p, import_name(p)).len() && #[trigger] upsert_entry(
                    entries,
                    p,
                    import_name(p),
                )[i] == (n, p)
        }),
{
    let p = q + seq![sep] + n;
    lemma_name_without_dot(q, sep, n);
    lemma_imported_entry_is_named(entries, p);
}

/// After an import the library holds the path, named by its file stem (or
/// "Untitled wallpaper" when it has none).
pub proof fn lemma_imported_entry_is_named(entries: Seq<(Seq<char>, Seq<char>)>, p: Seq<char>)
    ensures
        exists|i: int|
            0 <= i < upsert_entry(entries, p, import_name(p)).len() && #[trigger] upsert_entry(
                entries,
                p,
                import_name(p),
            )[i] == (
                match file_stem(p) {
                    Some(s) => s,
                    None => "Untitled wallpaper"@,
                },
                p,
            ),
{
    let name = match file_stem(p) {
        Some(s) => s,
        None => "Untitled wallpaper"@,
    };
    let r = upsert_entry(entries, p, import_name(p));
    if has_path(entries, p) {
        lemma_has_path_first(entries, p);
        let i = choose|i: int| first_with_path(entries, p, i);
        assert(r[i] == (name, p));
    } else {
        assert(r[entries.len() as int] == (name, p));
    }
}

} // verus!
