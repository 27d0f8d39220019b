use ranami_wallpapers::library::{
    placeholder_wallpaper_card_data, read_existing_saved_wallpapers, resolve_wallpaper_card,
    save_file_2, wallpaper_details, wallpaper_format, wallpaper_title,
};
use ranami_wallpapers::shared::SaveWallpaper;

fn entry(name: &str, path: &str) -> SaveWallpaper {
    SaveWallpaper { name: name.to_string(), path: path.to_string() }
}

fn pairs(v: &[SaveWallpaper]) -> Vec<(String, String)> {
    v.iter().map(|w| (w.name.clone(), w.path.clone())).collect()
}

#[test]
fn import_appends_new_video() {
    let saved = vec![entry("Rain", "C:\\v\\rain.mp4")];
    let r = save_file_2(saved, "C:\\v\\Ocean Waves.mp4".to_string());
    assert_eq!(
        pairs(&r),
        vec![
            ("Rain".to_string(), "C:\\v\\rain.mp4".to_string()),
            ("Ocean Waves".to_string(), "C:\\v\\Ocean Waves.mp4".to_string()),
        ]
    );
}

#[test]
fn import_same_path_renames_instead_of_duplicating() {
    let saved = vec![entry("old name", "C:\\v\\rain.mp4"), entry("Other", "C:\\v\\x.mp4")];
    let r = save_file_2(saved, "C:\\v\\rain.mp4".to_string());
    assert_eq!(
        pairs(&r),
        vec![
            ("rain".to_string(), "C:\\v\\rain.mp4".to_string()),
            ("Other".to_string(), "C:\\v\\x.mp4".to_string()),
        ]
    );
    let again = save_file_2(r, "C:\\v\\rain.mp4".to_string());
    assert_eq!(again.len(), 2);
}

#[test]
fn import_only_renames_the_first_match() {
    let saved = vec![entry("a", "C:\\v\\d.mp4"), entry("b", "C:\\v\\d.mp4")];
    let r = save_file_2(saved, "C:\\v\\d.mp4".to_string());
    assert_eq!(pairs(&r)[0].0, "d");
    assert_eq!(pairs(&r)[1].0, "b");
}

#[test]
fn import_without_file_name_is_untitled() {
    let r = save_file_2(Vec::new(), "C:\\".to_string());
    assert_eq!(pairs(&r), vec![("Untitled wallpaper".to_string(), "C:\\".to_string())]);
}

#[test]
fn import_paths_compare_exactly() {
    let saved = vec![entry("rain", "C:\\v\\rain.mp4")];
    let r = save_file_2(saved, "C:\\V\\rain.mp4".to_string());
    assert_eq!(r.len(), 2);
}

#[test]
fn missing_videos_are_dropped() {
    let saved = vec![entry("a", "1"), entry("b", "2"), entry("c", "3")];
    let (kept, changed) = read_existing_saved_wallpapers(saved, &vec![true, false, true]);
    assert_eq!(pairs(&kept), vec![("a".to_string(), "1".to_string()), ("c".to_string(), "3".to_string())]);
    assert!(changed);

    let saved = vec![entry("a", "1"), entry("b", "2")];
    let (kept, changed) = read_existing_saved_wallpapers(saved, &vec![true, true]);
    assert_eq!(kept.len(), 2);
    assert!(!changed);

    let saved = vec![entry("a", "1"), entry("b", "2")];
    let (kept, changed) = read_existing_saved_wallpapers(saved, &vec![true]);
    assert_eq!(pairs(&kept), vec![("a".to_string(), "1".to_string())]);
    assert!(changed);

    let (kept, changed) = read_existing_saved_wallpapers(Vec::new(), &Vec::new());
    assert!(kept.is_empty());
    assert!(!changed);
}

#[test]
fn card_titles() {
    assert_eq!(wallpaper_title(&entry("Sunset", "C:\\v\\x.mp4")), "Sunset");
    assert_eq!(wallpaper_title(&entry("  Sunset ", "C:\\v\\x.mp4")), "  Sunset ");
    assert_eq!(wallpaper_title(&entry("nan", "C:\\v\\x.mp4")), "x");
    assert_eq!(wallpaper_title(&entry(" nan\t", "C:\\v\\x.mp4")), "x");
    assert_eq!(wallpaper_title(&entry("NaN", "C:\\v\\x.mp4")), "NaN");
    assert_eq!(wallpaper_title(&entry("", "C:\\v\\Ocean Waves.mp4")), "Ocean Waves");
    assert_eq!(wallpaper_title(&entry("   ", "C:\\")), "Untitled wallpaper");
}

#[test]
fn card_formats() {
    assert_eq!(wallpaper_format("C:\\v\\a.mp4"), "MP4");
    assert_eq!(wallpaper_format("C:\\v\\a.WebM"), "WEBM");
    assert_eq!(wallpaper_format("C:\\v\\a.straße"), "STRASSE");
    assert_eq!(wallpaper_format("C:\\v\\noext"), "VIDEO");
    assert_eq!(wallpaper_format("C:\\v\\.hidden"), "VIDEO");
}

#[test]
fn card_details() {
    let s = |x: &str| Some(x.to_string());
    assert_eq!(wallpaper_details(s("1920x1080"), s("12.5 MB")), "1920x1080 | 12.5 MB");
    assert_eq!(wallpaper_details(s("1920x1080"), None), "1920x1080");
    assert_eq!(wallpaper_details(None, s("12.5 MB")), "12.5 MB");
    assert_eq!(wallpaper_details(None, None), "Saved live wallpaper");
}

#[test]
fn placeholder_and_resolved_cards() {
    let w = entry("nan", "C:\\v\\Rain.mov");
    let p = placeholder_wallpaper_card_data(&w);
    assert_eq!(p.title, "Rain");
    assert_eq!(p.path, "C:\\v\\Rain.mov");
    assert_eq!(p.format, "MOV");
    assert_eq!(p.details, "Loading wallpaper info...");
    assert!(!p.has_thumbnail);
    assert!(p.is_loading);

    let c = resolve_wallpaper_card(&w, Some("3840x2160".to_string()), Some(96_888_422), true);
    assert_eq!(c.title, "Rain");
    assert_eq!(c.format, "MOV");
    assert_eq!(c.details, "3840x2160 | 92.4 MB");
    assert!(c.has_thumbnail);
    assert!(!c.is_loading);

    let c = resolve_wallpaper_card(&w, None, Some(512), false);
    assert_eq!(c.details, "512 B");
    assert!(!c.has_thumbnail);

    let c = resolve_wallpaper_card(&w, None, None, false);
    assert_eq!(c.details, "Saved live wallpaper");
}
