use ranami_wallpapers::win_path::{join_path, path_extension, path_file_stem, path_parent};

fn some(s: &str) -> Option<String> {
    Some(s.to_string())
}

#[test]
fn file_stem_of_windows_paths() {
    assert_eq!(path_file_stem("C:\\Videos\\Ocean Waves.mp4"), some("Ocean Waves"));
    assert_eq!(path_file_stem("C:/Videos/clip.tar.gz"), some("clip.tar"));
    assert_eq!(path_file_stem("C:\\Videos\\.hidden"), some(".hidden"));
    assert_eq!(path_file_stem("C:\\Videos\\noext"), some("noext"));
    assert_eq!(path_file_stem("C:\\Videos\\trailing\\"), some("trailing"));
    assert_eq!(path_file_stem("C:\\Videos\\clip.mp4\\."), some("clip"));
    assert_eq!(path_file_stem("C:\\Videos\\.."), None);
    assert_eq!(path_file_stem("C:\\"), None);
    assert_eq!(path_file_stem("C:"), None);
    assert_eq!(path_file_stem(""), None);
    assert_eq!(path_file_stem("clip."), some("clip"));
}

#[test]
fn extension_of_windows_paths() {
    assert_eq!(path_extension("C:\\Videos\\Ocean Waves.mp4"), some("mp4"));
    assert_eq!(path_extension("C:\\Videos\\Rain.MP4"), some("MP4"));
    assert_eq!(path_extension("C:/Videos/clip.tar.gz"), some("gz"));
    assert_eq!(path_extension("C:\\Videos\\.hidden"), None);
    assert_eq!(path_extension("C:\\Videos\\noext"), None);
    assert_eq!(path_extension("clip."), some(""));
    assert_eq!(path_extension("C:\\a.b\\file"), None);
}

#[test]
fn parent_of_windows_paths() {
    assert_eq!(path_parent("C:\\Users\\me\\app.exe"), some("C:\\Users\\me"));
    assert_eq!(path_parent("C:\\Users\\me"), some("C:\\Users"));
    assert_eq!(path_parent("C:\\Users"), some("C:\\"));
    assert_eq!(path_parent("C:\\"), None);
    assert_eq!(path_parent("C:"), None);
    assert_eq!(path_parent("C:foo"), some("C:"));
    assert_eq!(path_parent("foo"), some(""));
    assert_eq!(path_parent("a\\\\b\\\\"), some("a"));
    assert_eq!(path_parent(""), None);
    assert_eq!(path_parent("\\"), None);
}

#[test]
fn join_windows_paths() {
    assert_eq!(join_path("C:\\work", "cache"), "C:\\work\\cache");
    assert_eq!(join_path("C:\\work\\", "cache"), "C:\\work\\cache");
    assert_eq!(join_path("C:", "cache"), "C:cache");
    assert_eq!(join_path("", "cache"), "cache");
    assert_eq!(join_path("C:\\work", "D:\\other"), "D:\\other");
    assert_eq!(join_path("C:\\work", "\\rooted"), "C:\\rooted");
    assert_eq!(join_path("work", "\\rooted"), "\\rooted");
    assert_eq!(join_path("C:/work", "x.jpg"), "C:/work\\x.jpg");
}

#[test]
fn network_share_prefix() {
    assert_eq!(path_parent("\\\\server\\share"), None);
    assert_eq!(path_parent("\\\\server\\share\\"), None);
    assert_eq!(path_parent("\\\\server\\share\\a"), some("\\\\server\\share\\"));
    assert_eq!(path_parent("//server/share/a/b"), some("//server/share/a"));
    assert_eq!(path_file_stem("\\\\server\\share"), None);
    assert_eq!(path_file_stem("\\\\server\\share\\v.mp4"), some("v"));
    assert_eq!(join_path("\\\\server\\share\\x", "\\y"), "\\\\server\\share\\y");
    assert_eq!(join_path("\\\\server\\share", "x"), "\\\\server\\share\\x");
    assert_eq!(join_path("C:\\a", "\\\\server\\share\\x"), "\\\\server\\share\\x");
}
