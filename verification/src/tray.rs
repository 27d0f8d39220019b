//! The tray process: reading the launcher's window handle from its command
//! line, and the message each menu entry sends.
use vstd::prelude::*;
use crate::shared::{WM_ENGINE_EXIT, WM_ENGINE_OPEN_GUI, WM_ENGINE_TEST};
use crate::text::{chars_of, decimal, lemma_parse_decimal, opt_nat, parse_unsigned, parse_unsigned_chars};
use crate::thumbnail::texts;

verus! {

/// The process id assumed when none is given (the system process).
pub const DEFAULT_CLIENT_PID: u32 = 4;

/// Who the tray talks to.
#[derive(Debug, Clone, Copy, PartialEq, Eq, Structural)]
pub struct ClientData {
    pub client_hwnd: usize,
    pub client_pid: u32,
}

impl ClientData {
    pub fn new(client_hwnd: usize, client_pid: u32) -> (r: ClientData)
        ensures
            r == (ClientData { client_hwnd, client_pid }),
    {
        ClientData { client_hwnd, client_pid }
    }
}

/// Why the tray cannot start.
#[derive(Debug, Clone, Copy, PartialEq, Eq, Structural)]
pub enum TrayArgsError {
    /// No window handle was given ("No HWND GIVEN!").
    MissingHwnd,
    /// The window handle is not a decimal number that fits.
    InvalidHwnd,
}

/// What the tray's command line means: argument 1 is the launcher's window
/// handle in decimal; argument 2, optional, a process id (4 when absent or
/// unreadable).
pub open spec fn client_data_of(args: Seq<Seq<char>>) -> Result<ClientData, TrayArgsError> {
    if args.len() < 2 {
        Err(TrayArgsError::MissingHwnd)
    } else {
        match parse_unsigned(args[1], usize::MAX as nat) {
            None => Err(TrayArgsError::InvalidHwnd),
            Some(h) => Ok(
                ClientData {
                    client_hwnd: h as usize,
                    client_pid: if args.len() >= 3 {
                        match parse_unsigned(args[2], u32::MAX as nat) {
                            Some(p) => p as u32,
                            None => DEFAULT_CLIENT_PID,
                        }
                    } else {
                        DEFAULT_CLIENT_PID
                    },
                },
            ),
        }
    }
}

/// Reads the tray's command line (`args[0]` is the program).
pub fn get_client_data(args: &Vec<String>) -> (r: Result<ClientData, TrayArgsError>)
    ensures
        r == client_data_of(texts(args@)),
{
    if args.len() < 2 {
        return Err(TrayArgsError::MissingHwnd);
    }
    assert(texts(args@)[1] == args@[1]@);
    let h = chars_of(args[1].as_str());
    let hwnd = match parse_unsigned_chars(h.as_slice(), usize::MAX as u64) {
        None => {
            return Err(TrayArgsError::InvalidHwnd);
        },
        Some(v) => v as usize,
    };
    let mut pid = DEFAULT_CLIENT_PID;
    if args.len() >= 3 {
        assert(texts(args@)[2] == args@[2]@);
        let p = chars_of(args[2].as_str());
        match parse_unsigned_chars(p.as_slice(), 0xffff_ffff) {
            Some(v) => {
                pid = v as u32;
            },
            None => {},
        }
    }
    Ok(ClientData::new(hwnd, pid))
}

/// The launcher starts the tray with its window handle, and the tray reads
/// back exactly that handle (with the default process id).
pub proof fn lemma_tray_reads_launcher_hwnd(program: Seq<char>, client_hwnd: usize)
    ensures
        client_data_of(seq![program, decimal(client_hwnd as nat)]) == Ok::<
            ClientData,
            TrayArgsError,
        >(ClientData { client_hwnd, client_pid: DEFAULT_CLIENT_PID }),
{
    lemma_parse_decimal(client_hwnd as nat, usize::MAX as nat);
}

/// The tray's menu entries.
#[derive(Debug, Clone, Copy, PartialEq, Eq, Structural)]
pub enum TrayMenuItem {
    Test,
    ExitRanami,
    ChangeWallpaper,
}

/// What a menu click does: the message posted to the launcher window, and
/// whether the tray then quits.
pub open spec fn menu_command(item: TrayMenuItem) -> (u32, bool) {
    match item {
        TrayMenuItem::Test => (WM_ENGINE_TEST, false),
        TrayMenuItem::ExitRanami => (WM_ENGINE_EXIT, true),
        TrayMenuItem::ChangeWallpaper => (WM_ENGINE_OPEN_GUI, false),
    }
}

pub fn tray_menu_command(item: TrayMenuItem) -> (r: (u32, bool))
    ensures
        r == menu_command(item),
{
    match item {
        TrayMenuItem::Test => (WM_ENGINE_TEST, false),
        TrayMenuItem::ExitRanami => (WM_ENGINE_EXIT, true),
        TrayMenuItem::ChangeWallpaper => (WM_ENGINE_OPEN_GUI, false),
    }
}

} // verus!
