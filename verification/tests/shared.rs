use ranami_wallpapers::shared::{
    EngineFailureCode, NamePipeCommands, SaveWallpaper, CREATE_NO_WINDOW, PIPE_NAME,
    SAVE_WALLPAPERS_PATH, STARTUP_FILE_SAVE_NAME, THUMBNAIL_CACHE_DIR, THUMBNAIL_EXTENSION,
    THUMBNAIL_HEIGHT, THUMBNAIL_TIMESTAMP, THUMBNAIL_WIDTH, WM_APP, WM_DESTROY,
    WM_ENGINE_BOOTUP_FAILED, WM_ENGINE_BOOTUP_SUCCESS, WM_ENGINE_D3D11_FMT_NOT_FOUND,
    WM_ENGINE_EXIT, WM_ENGINE_OPEN_GUI, WM_ENGINE_SENT_HWND, WM_ENGINE_TEST,
};

#[test]
fn engine_message_numbers() {
    assert_eq!(WM_APP, 0x8000);
    assert_eq!(WM_ENGINE_TEST, 0x8001);
    assert_eq!(WM_ENGINE_EXIT, 0x8002);
    assert_eq!(WM_ENGINE_BOOTUP_SUCCESS, 0x8003);
    assert_eq!(WM_ENGINE_BOOTUP_FAILED, 0x8004);
    assert_eq!(WM_ENGINE_SENT_HWND, 0x8005);
    assert_eq!(WM_ENGINE_OPEN_GUI, 0x8006);
    assert_eq!(WM_ENGINE_D3D11_FMT_NOT_FOUND, 0x8007);
    assert_eq!(WM_DESTROY, 2);
}

#[test]
fn saved_paths_and_settings() {
    assert_eq!(PIPE_NAME, r"\\.\pipe\RanamiWallpapers");
    assert_eq!(SAVE_WALLPAPERS_PATH, "Save-Wallpapers.json");
    assert_eq!(THUMBNAIL_CACHE_DIR, "cache-wallpaper-thumbnails");
    assert_eq!(THUMBNAIL_EXTENSION, "jpg");
    assert_eq!(THUMBNAIL_WIDTH, "640");
    assert_eq!(THUMBNAIL_HEIGHT, "360");
    assert_eq!(THUMBNAIL_TIMESTAMP, "00:00:01");
    assert_eq!(STARTUP_FILE_SAVE_NAME, "RanamiWallpapers-startup-file.txt");
    assert_eq!(CREATE_NO_WINDOW, 0x08000000);
}

#[test]
fn failure_codes_round_trip() {
    let all = [
        (EngineFailureCode::NoFailure, 0u32),
        (EngineFailureCode::StartupUnknown, 10),
        (EngineFailureCode::StartupParseArgsFailed, 11),
        (EngineFailureCode::StartupOpenInputFailed, 12),
        (EngineFailureCode::StartupStreamInfoFailed, 13),
        (EngineFailureCode::StartupD3D11FormatMissing, 14),
        (EngineFailureCode::StartupHwDeviceInitFailed, 15),
        (EngineFailureCode::StartupHwFramesInitFailed, 16),
        (EngineFailureCode::StartupCodecOpenFailed, 17),
        (EngineFailureCode::StartupDxvaInitFailed, 18),
        (EngineFailureCode::StartupSwapChainFailed, 19),
        (EngineFailureCode::VideoPathInvalid, 20),
        (EngineFailureCode::RuntimeUnknown, 30),
        (EngineFailureCode::RuntimeDecoderLoopFailed, 31),
        (EngineFailureCode::RuntimeVideoProcessorFailed, 32),
        (EngineFailureCode::RuntimePresentFailed, 33),
        (EngineFailureCode::RuntimeDeviceLost, 34),
    ];
    for (e, c) in all {
        assert_eq!(e.code(), c);
        assert_eq!(EngineFailureCode::from_code(c), Some(e));
    }
    for c in [1u32, 9, 21, 29, 35, 0x8000, u32::MAX] {
        assert_eq!(EngineFailureCode::from_code(c), None);
    }
}

#[test]
fn pipe_command_is_taken_once() {
    let mut state = NamePipeCommands::initial();
    assert_eq!(state.video_path, "NONE");
    assert!(!state.wallpaper_changed);
    assert_eq!(state.take_wallpaper_change(), None);

    state = NamePipeCommands::wallpaper_change("C:\\v\\a.mp4".to_string());
    assert!(state.wallpaper_changed);
    assert_eq!(state.take_wallpaper_change(), Some("C:\\v\\a.mp4".to_string()));
    assert!(!state.wallpaper_changed);
    assert_eq!(state.video_path, "C:\\v\\a.mp4");
    assert_eq!(state.take_wallpaper_change(), None);
}

#[test]
fn saved_wallpaper_clone_keeps_fields() {
    let w = SaveWallpaper { name: "Ocean".to_string(), path: "C:\\v\\ocean.mp4".to_string() };
    let c = w.clone();
    assert_eq!(c.name, "Ocean");
    assert_eq!(c.path, "C:\\v\\ocean.mp4");
}
