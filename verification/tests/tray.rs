use ranami_wallpapers::client::tray_args;
use ranami_wallpapers::shared::{WM_ENGINE_EXIT, WM_ENGINE_OPEN_GUI, WM_ENGINE_TEST};
use ranami_wallpapers::tray::{
    get_client_data, tray_menu_command, ClientData, TrayArgsError, TrayMenuItem, DEFAULT_CLIENT_PID,
};

fn args(v: &[&str]) -> Vec<String> {
    v.iter().map(|s| s.to_string()).collect()
}

#[test]
fn tray_command_line() {
    assert_eq!(get_client_data(&args(&["tray.exe"])), Err(TrayArgsError::MissingHwnd));
    assert_eq!(get_client_data(&args(&["tray.exe", "abc"])), Err(TrayArgsError::InvalidHwnd));
    assert_eq!(get_client_data(&args(&["tray.exe", ""])), Err(TrayArgsError::InvalidHwnd));
    assert_eq!(get_client_data(&args(&["tray.exe", "-5"])), Err(TrayArgsError::InvalidHwnd));
    assert_eq!(
        get_client_data(&args(&["tray.exe", "65814"])),
        Ok(ClientData { client_hwnd: 65814, client_pid: DEFAULT_CLIENT_PID })
    );
    assert_eq!(
        get_client_data(&args(&["tray.exe", "+12", "3000"])),
        Ok(ClientData { client_hwnd: 12, client_pid: 3000 })
    );
    assert_eq!(
        get_client_data(&args(&["tray.exe", "12", "pid"])),
        Ok(ClientData { client_hwnd: 12, client_pid: 4 })
    );
    assert_eq!(
        get_client_data(&args(&["tray.exe", "12", "4294967296"])),
        Ok(ClientData { client_hwnd: 12, client_pid: 4 })
    );
}

#[test]
fn tray_reads_back_launcher_hwnd() {
    for hwnd in [0usize, 1, 65814, usize::MAX] {
        let mut a = args(&["tray.exe"]);
        a.extend(tray_args(hwnd));
        assert_eq!(get_client_data(&a), Ok(ClientData { client_hwnd: hwnd, client_pid: 4 }));
    }
}

#[test]
fn tray_menu() {
    assert_eq!(tray_menu_command(TrayMenuItem::Test), (WM_ENGINE_TEST, false));
    assert_eq!(tray_menu_command(TrayMenuItem::ExitRanami), (WM_ENGINE_EXIT, true));
    assert_eq!(tray_menu_command(TrayMenuItem::ChangeWallpaper), (WM_ENGINE_OPEN_GUI, false));
}

#[test]
fn client_data_constructor() {
    assert_eq!(ClientData::new(7, 99), ClientData { client_hwnd: 7, client_pid: 99 });
}
