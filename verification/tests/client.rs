use ranami_wallpapers::client::{
    client_init, client_window_message, files_check_list_names, get_static_wallpaper_save_path,
    open_gui_decision, should_copy_legacy_file, startup_wallpaper, static_wallpaper_ffmpeg_args,
    tray_args, wallpaper_engine_args, ClientWindowAction, ErrorClient, GuiChild, GuiCommand,
    StartupAction, ENGINE_BUFFER_COUNT,
};
use ranami_wallpapers::shared::{
    WM_DESTROY, WM_ENGINE_EXIT, WM_ENGINE_OPEN_GUI, WM_ENGINE_SENT_HWND, WM_ENGINE_TEST,
};

#[test]
fn required_files() {
    assert_eq!(
        files_check_list_names(),
        vec![
            "swscale-8.dll",
            "swresample-5.dll",
            "postproc-58.dll",
            "avutil-59.dll",
            "avformat-61.dll",
            "avfilter-10.dll",
            "avdevice-61.dll",
            "avcodec-61.dll",
            "AliveWallpaperEngine.exe",
        ]
    );
}

#[test]
fn client_init_reports_first_missing_file() {
    assert!(client_init(&vec![true; 9]).is_ok());
    let mut present = vec![true; 9];
    present[3] = false;
    present[8] = false;
    match client_init(&present) {
        Err(ErrorClient::MissingFile(name)) => assert_eq!(name, "avutil-59.dll"),
        other => panic!("unexpected {other:?}"),
    }
    let mut present = vec![true; 9];
    present[8] = false;
    match client_init(&present) {
        Err(ErrorClient::MissingFile(name)) => assert_eq!(name, "AliveWallpaperEngine.exe"),
        other => panic!("unexpected {other:?}"),
    }
    match client_init(&vec![true, true]) {
        Err(ErrorClient::MissingFile(name)) => assert_eq!(name, "postproc-58.dll"),
        other => panic!("unexpected {other:?}"),
    }
}

#[test]
fn startup_decisions() {
    assert!(matches!(startup_wallpaper(None, false), StartupAction::Nothing));
    assert!(matches!(startup_wallpaper(Some("  \n".to_string()), true), StartupAction::OpenGui));
    assert!(matches!(startup_wallpaper(Some("C:\\v\\a.mp4".to_string()), false), StartupAction::OpenGui));
    match startup_wallpaper(Some("C:\\v\\a.mp4".to_string()), true) {
        StartupAction::StartEngine(p) => assert_eq!(p, "C:\\v\\a.mp4"),
        other => panic!("unexpected {other:?}"),
    }
}

#[test]
fn child_process_arguments() {
    assert_eq!(ENGINE_BUFFER_COUNT, "3");
    assert_eq!(
        wallpaper_engine_args("C:\\v\\a.mp4", ENGINE_BUFFER_COUNT, 132456),
        vec!["C:\\v\\a.mp4".to_string(), "3".to_string(), "132456".to_string()]
    );
    assert_eq!(tray_args(0), vec!["0".to_string()]);
    assert_eq!(tray_args(65814), vec!["65814".to_string()]);
}

#[test]
fn launcher_window_messages() {
    assert_eq!(client_window_message(WM_DESTROY, 0, 7), ClientWindowAction::Quit);
    assert_eq!(client_window_message(WM_ENGINE_SENT_HWND, 4242, 0), ClientWindowAction::StoreEngineHwnd(4242));
    assert_eq!(client_window_message(WM_ENGINE_TEST, 0, 0), ClientWindowAction::LogTest);
    assert_eq!(client_window_message(WM_ENGINE_EXIT, 0, 0), ClientWindowAction::ExitAll { forward_to: None });
    assert_eq!(
        client_window_message(WM_ENGINE_EXIT, 0, 99),
        ClientWindowAction::ExitAll { forward_to: Some(99) }
    );
    assert_eq!(client_window_message(WM_ENGINE_OPEN_GUI, 0, 0), ClientWindowAction::OpenGui);
    assert_eq!(client_window_message(0x0010, 0, 0), ClientWindowAction::Default);
}

#[test]
fn gui_is_launched_once() {
    assert_eq!(open_gui_decision(GuiChild::NotStarted), GuiCommand::Launch);
    assert_eq!(open_gui_decision(GuiChild::Exited), GuiCommand::Launch);
    assert_eq!(open_gui_decision(GuiChild::Running), GuiCommand::Keep);
    assert_eq!(open_gui_decision(GuiChild::Unknown), GuiCommand::KeepAndLog);
}

#[test]
fn legacy_file_copy() {
    assert!(should_copy_legacy_file("C:\\new\\f.txt", false, "f.txt", true));
    assert!(!should_copy_legacy_file("C:\\new\\f.txt", true, "f.txt", true));
    assert!(!should_copy_legacy_file("C:\\new\\f.txt", false, "f.txt", false));
    assert!(!should_copy_legacy_file("f.txt", false, "f.txt", true));
}

#[test]
fn static_wallpaper_files() {
    assert_eq!(
        get_static_wallpaper_save_path("C:\\Videos\\Ocean Waves.mp4", "C:\\cache"),
        "C:\\cache\\ad6dd7af155def09_Ocean Waves.jpg"
    );
    assert_eq!(get_static_wallpaper_save_path("", "C:\\cache"), "C:\\cache\\cbf29ce484222325_err.jpg");
    let args = static_wallpaper_ffmpeg_args("C:\\v\\a.mp4", 2560, 1440, "C:\\cache\\x.jpg");
    assert_eq!(args[0], "-y");
    assert_eq!(args[2], "00:00:01");
    assert_eq!(args[4], "C:\\v\\a.mp4");
    assert_eq!(args[8], "scale=2560:1440:force_original_aspect_ratio=increase,crop=2560:1440");
    assert_eq!(args[11], "C:\\cache\\x.jpg");
    assert_eq!(args.len(), 12);
}
