use ranami_wallpapers::win_path::path_parent;
use ranami_wallpapers::thumbnail::{
    app_data_dir,
    cleanup_stale_thumbnails, command_candidates, command_path, ffmpeg_command_path,
    ffprobe_command_path, needs_regeneration, sanitized_video_stem, stable_path_hash,
    thumbnail_cache_dir, thumbnail_ffmpeg_args, thumbnail_path_for_video, CacheEntry, FileMetadata,
    ThumbnailError,
};

fn strings(v: &[&str]) -> Vec<String> {
    v.iter().map(|s| s.to_string()).collect()
}

#[test]
fn path_hash_is_fnv1a() {
    assert_eq!(stable_path_hash(""), "cbf29ce484222325");
    assert_eq!(stable_path_hash("a"), "af63dc4c8601ec8c");
    assert_eq!(stable_path_hash("C:\\Videos\\Ocean Waves.mp4"), "ad6dd7af155def09");
    assert_eq!(stable_path_hash("C:\\v\\été.mp4"), "30a6b20ec0b10b73");
}

#[test]
fn sanitized_stems() {
    assert_eq!(sanitized_video_stem("C:\\Videos\\Ocean Waves.mp4"), "ocean-waves");
    assert_eq!(sanitized_video_stem("C:\\Videos\\My_Clip-01.mp4"), "my_clip-01");
    assert_eq!(sanitized_video_stem("C:\\Videos\\--Hi!!.mp4"), "hi");
    assert_eq!(sanitized_video_stem("C:\\Videos\\***.mp4"), "wallpaper");
    assert_eq!(sanitized_video_stem("C:\\v\\été.mp4"), "t");
    assert_eq!(sanitized_video_stem("C:\\"), "wallpaper");
    let long = format!("C:\\v\\{}.mp4", "A".repeat(60));
    assert_eq!(sanitized_video_stem(&long), "a".repeat(48));
    let dashed = format!("C:\\v\\{}!b.mp4", "a".repeat(47));
    assert_eq!(sanitized_video_stem(&dashed), format!("{}-", "a".repeat(47)));
}

#[test]
fn cache_locations() {
    assert_eq!(
        thumbnail_cache_dir("C:\\Users\\me\\AppData\\Local"),
        "C:\\Users\\me\\AppData\\Local\\RanamiWallpapers\\cache-wallpaper-thumbnails"
    );
    assert_eq!(app_data_dir("C:\\Users\\me\\AppData\\Local"), "C:\\Users\\me\\AppData\\Local\\RanamiWallpapers");
    assert_eq!(
        thumbnail_path_for_video("C:\\Videos\\Ocean Waves.mp4", "C:\\work\\cache-wallpaper-thumbnails"),
        "C:\\work\\cache-wallpaper-thumbnails\\ocean-waves_ad6dd7af155def09.jpg"
    );
}

#[test]
fn tool_candidates() {
    assert_eq!(
        command_candidates("ffmpeg.exe", Some("C:\\app\\bin\\gui.exe"), Some("C:\\work")),
        strings(&[
            "C:\\app\\bin\\ffmpeg.exe",
            "C:\\app\\release\\ffmpeg.exe",
            "C:\\app\\debug\\ffmpeg.exe",
            "C:\\work\\ffmpeg.exe",
            "C:\\work\\target\\release\\ffmpeg.exe",
            "C:\\work\\rust\\target\\release\\ffmpeg.exe",
        ])
    );
    assert_eq!(command_candidates("ffprobe.exe", Some("C:\\gui.exe"), None), strings(&["C:\\ffprobe.exe"]));
    assert!(command_candidates("ffmpeg.exe", None, None).is_empty());
}

#[test]
fn tool_choice() {
    let c = strings(&["A\\ffmpeg.exe", "B\\ffmpeg.exe", "C\\ffmpeg.exe"]);
    assert_eq!(command_path("ffmpeg.exe", &c, &vec![false, true, true]), "B\\ffmpeg.exe");
    assert_eq!(command_path("ffmpeg.exe", &c, &vec![false, false, false]), "ffmpeg.exe");
    assert_eq!(command_path("ffmpeg.exe", &c, &vec![false]), "ffmpeg.exe");
    assert_eq!(ffmpeg_command_path(&c, &vec![true, false, false]), "A\\ffmpeg.exe");
    assert_eq!(ffprobe_command_path(&Vec::new(), &Vec::new()), "ffprobe.exe");
}

#[test]
fn thumbnail_arguments() {
    assert_eq!(
        thumbnail_ffmpeg_args("C:\\v\\a.mp4", "C:\\c\\a.jpg"),
        strings(&[
            "-y",
            "-ss",
            "00:00:01",
            "-i",
            "C:\\v\\a.mp4",
            "-frames:v",
            "1",
            "-vf",
            "scale=640:360:force_original_aspect_ratio=increase,crop=640:360",
            "-q:v",
            "3",
            "C:\\c\\a.jpg",
        ])
    );
}

#[test]
fn regeneration_rules() {
    let m = FileMetadata::Modified;
    assert!(matches!(needs_regeneration("v", "t", false, FileMetadata::NoModifiedTime, FileMetadata::NoModifiedTime), Ok(true)));
    assert!(matches!(needs_regeneration("v", "t", true, m(10), m(5)), Ok(true)));
    assert!(matches!(needs_regeneration("v", "t", true, m(10), m(10)), Ok(false)));
    assert!(matches!(needs_regeneration("v", "t", true, m(10), m(11)), Ok(false)));
    assert!(matches!(needs_regeneration("v", "t", true, FileMetadata::NoModifiedTime, m(1)), Ok(false)));
    assert!(matches!(needs_regeneration("v", "t", true, m(1), FileMetadata::NoModifiedTime), Ok(true)));
    match needs_regeneration("v", "t", true, FileMetadata::Unreadable("gone".to_string()), FileMetadata::Unreadable("x".to_string())) {
        Err(ThumbnailError::VideoMetadata { video, error }) => {
            assert_eq!(video, "v");
            assert_eq!(error, "gone");
        }
        other => panic!("unexpected {other:?}"),
    }
    match needs_regeneration("v", "t", true, m(3), FileMetadata::Unreadable("denied".to_string())) {
        Err(ThumbnailError::ThumbnailMetadata { thumbnail, error }) => {
            assert_eq!(thumbnail, "t");
            assert_eq!(error, "denied");
        }
        other => panic!("unexpected {other:?}"),
    }
}

#[test]
fn stale_previews_are_listed() {
    let videos = strings(&["C:\\v\\a.mp4"]);
    let keep = thumbnail_path_for_video("C:\\v\\a.mp4", "C:\\c");
    let entries = vec![
        CacheEntry { path: keep.clone(), is_file: true },
        CacheEntry { path: "C:\\c\\old.jpg".to_string(), is_file: true },
        CacheEntry { path: "C:\\c\\notes.txt".to_string(), is_file: true },
        CacheEntry { path: "C:\\c\\sub.jpg".to_string(), is_file: false },
        CacheEntry { path: "C:\\c\\OLD2.JPG".to_string(), is_file: true },
        CacheEntry { path: "C:\\c\\.jpg".to_string(), is_file: true },
    ];
    assert_eq!(
        cleanup_stale_thumbnails(&videos, "C:\\c", &entries),
        strings(&["C:\\c\\old.jpg", "C:\\c\\OLD2.JPG"])
    );
    assert_eq!(
        cleanup_stale_thumbnails(&Vec::new(), "C:\\c", &entries),
        vec![keep, "C:\\c\\old.jpg".to_string(), "C:\\c\\OLD2.JPG".to_string()]
    );
}

#[test]
fn same_name_in_two_folders_gets_two_previews() {
    let a = thumbnail_path_for_video("C:\\one\\video.mp4", "C:\\c");
    let b = thumbnail_path_for_video("D:\\two\\video.mp4", "C:\\c");
    assert_ne!(a, b);
    assert!(a.starts_with("C:\\c\\video_"));
    assert!(b.starts_with("C:\\c\\video_"));
    assert!(a.ends_with(".jpg") && b.ends_with(".jpg"));
}

#[test]
fn candidates_for_program_on_a_share() {
    assert_eq!(
        command_candidates("ffmpeg.exe", Some("\\\\srv\\apps\\gui.exe"), None),
        strings(&["\\\\srv\\apps\\ffmpeg.exe"])
    );
}

#[test]
fn path_hashes_are_sixteen_hex_digits() {
    for p in ["", "a", "C:\\a\\video.mp4", "C:\\b\\video.mp4", "été", "\\\\srv\\x"] {
        let h = stable_path_hash(p);
        assert_eq!(h.len(), 16);
        assert!(h.chars().all(|c| c.is_ascii_digit() || ('a'..='f').contains(&c)));
    }
    assert_ne!(stable_path_hash("C:\\a\\video.mp4"), stable_path_hash("C:\\b\\video.mp4"));
}

#[test]
fn two_folders_same_video_name() {
    let pa = thumbnail_path_for_video("/a/video.mp4", "C:\\cache");
    let pb = thumbnail_path_for_video("/b/video.mp4", "C:\\cache");
    assert_ne!(pa, pb);
    assert_eq!(path_parent(&pa), path_parent(&pb));
    assert_eq!(path_parent(&pa), Some("C:\\cache".to_string()));
    assert!(pa.starts_with("C:\\cache\\video_") && pb.starts_with("C:\\cache\\video_"));
}
