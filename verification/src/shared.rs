//! Values shared by the launcher, the GUI and the tray: window-message ids,
//! named-pipe and storage names, the saved-wallpaper record, the named-pipe
//! command, and the engine's failure codes.
use vstd::prelude::*;

verus! {

// ---------------------------------------------------------------------------
// Custom window messages (`WM_APP` is 0x8000)
// ---------------------------------------------------------------------------

pub const WM_APP: u32 = 0x8000;

pub const WM_ENGINE_TEST: u32 = WM_APP + 1;

pub const WM_ENGINE_EXIT: u32 = WM_APP + 2;

pub const WM_ENGINE_BOOTUP_SUCCESS: u32 = WM_APP + 3;

pub const WM_ENGINE_BOOTUP_FAILED: u32 = WM_APP + 4;

pub const WM_ENGINE_SENT_HWND: u32 = WM_APP + 5;

pub const WM_ENGINE_OPEN_GUI: u32 = WM_APP + 6;

pub const WM_ENGINE_D3D11_FMT_NOT_FOUND: u32 = WM_APP + 7;

/// The system message a window receives when it is being destroyed.
pub const WM_DESTROY: u32 = 0x0002;

// ---------------------------------------------------------------------------
// Named pipe, storage names and thumbnail settings
// ---------------------------------------------------------------------------

pub const PIPE_NAME: &'static str = "\\\\.\\pipe\\RanamiWallpapers";

/// The application's folder under `%LOCALAPPDATA%`.
pub const APP_DATA_FOLDER: &'static str = "RanamiWallpapers";

pub const SAVE_WALLPAPERS_PATH: &'static str = "Save-Wallpapers.json";

pub const THUMBNAIL_CACHE_DIR: &'static str = "cache-wallpaper-thumbnails";

pub const THUMBNAIL_EXTENSION: &'static str = "jpg";

pub const THUMBNAIL_WIDTH: &'static str = "640";

pub const THUMBNAIL_HEIGHT: &'static str = "360";

pub const THUMBNAIL_TIMESTAMP: &'static str = "00:00:01";

pub const STARTUP_FILE_SAVE_NAME: &'static str = "RanamiWallpapers-startup-file.txt";

/// Extension of the cached static desktop picture (a JPEG).
pub const STATIC_WALLPAPER_EXTENSION: &'static str = "jpg";

/// Process-creation flag that keeps console tools from opening a window.
pub const CREATE_NO_WINDOW: u32 = 0x08000000;

// ---------------------------------------------------------------------------
// Saved wallpapers and the named-pipe command
// ---------------------------------------------------------------------------

/// One entry of the wallpaper library: a display name and the video's path.
#[derive(Debug, Default)]
pub struct SaveWallpaper {
    pub name: String,
    pub path: String,
}

impl Clone for SaveWallpaper {
    fn clone(&self) -> (r: Self)
        ensures
            r == *self,
    {
        SaveWallpaper { name: self.name.clone(), path: self.path.clone() }
    }
}


/// What the GUI sends the launcher through the named pipe, and the
/// launcher's record of the last command it received.
#[derive(Clone, Debug, Default)]
pub struct NamePipeCommands {
    pub video_path: String,
    pub wallpaper_changed: bool,
}

impl NamePipeCommands {
    /// The launcher's state before any command arrives.
    pub fn initial() -> (c: NamePipeCommands)
        ensures
            c.video_path@ == "NONE"@,
            !c.wallpaper_changed,
    {
        NamePipeCommands { video_path: String::from_str("NONE"), wallpaper_changed: false }
    }

    /// The command the GUI sends when the user picks a wallpaper.
    pub fn wallpaper_change(video_path: String) -> (c: NamePipeCommands)
        ensures
            c.video_path@ == video_path@,
            c.wallpaper_changed,
    {
        NamePipeCommands { video_path, wallpaper_changed: true }
    }

    /// Consumes a pending wallpaper change: gives its path and clears the flag;
    /// gives nothing and changes nothing when no change is pending.
    pub fn take_wallpaper_change(&mut self) -> (r: Option<String>)
        ensures
            final(self).video_path@ == old(self).video_path@,
            !final(self).wallpaper_changed,
            old(self).wallpaper_changed ==> (r matches Some(p) && p@ == old(self).video_path@),
            !old(self).wallpaper_changed ==> r is None,
    {
        if self.wallpaper_changed {
            self.wallpaper_changed = false;
            Some(self.video_path.clone())
        } else {
            None
        }
    }
}

// ---------------------------------------------------------------------------
// Engine failure codes
// ---------------------------------------------------------------------------

/// Why the native engine failed, with the numeric code the engine uses.
#[derive(Debug, Clone, Copy, PartialEq, Eq, Structural)]
pub enum EngineFailureCode {
    NoFailure,
    StartupUnknown,
    StartupParseArgsFailed,
    StartupOpenInputFailed,
    StartupStreamInfoFailed,
    StartupD3D11FormatMissing,
    StartupHwDeviceInitFailed,
    StartupHwFramesInitFailed,
    StartupCodecOpenFailed,
    StartupDxvaInitFailed,
    StartupSwapChainFailed,
    VideoPathInvalid,
    RuntimeUnknown,
    RuntimeDecoderLoopFailed,
    RuntimeVideoProcessorFailed,
    RuntimePresentFailed,
    RuntimeDeviceLost,
}

/// The numeric code of each failure.
pub open spec fn failure_code(e: EngineFailureCode) -> u32 {
    match e {
        EngineFailureCode::NoFailure => 0,
        EngineFailureCode::StartupUnknown => 10,
        EngineFailureCode::StartupParseArgsFailed => 11,
        EngineFailureCode::StartupOpenInputFailed => 12,
        EngineFailureCode::StartupStreamInfoFailed => 13,
        EngineFailureCode::StartupD3D11FormatMissing => 14,
        EngineFailureCode::StartupHwDeviceInitFailed => 15,
        EngineFailureCode::StartupHwFramesInitFailed => 16,
        EngineFailureCode::StartupCodecOpenFailed => 17,
        EngineFailureCode::StartupDxvaInitFailed => 18,
        EngineFailureCode::StartupSwapChainFailed => 19,
        EngineFailureCode::VideoPathInvalid => 20,
        EngineFailureCode::RuntimeUnknown => 30,
        EngineFailureCode::RuntimeDecoderLoopFailed => 31,
        EngineFailureCode::RuntimeVideoProcessorFailed => 32,
        EngineFailureCode::RuntimePresentFailed => 33,
        EngineFailureCode::RuntimeDeviceLost => 34,
    }
}

/// The codes in use: 0, 10 through 20, and 30 through 34.
pub open spec fn is_failure_code(c: u32) -> bool {
    c == 0 || (10 <= c <= 20) || (30 <= c <= 34)
}

impl EngineFailureCode {
    /// The failure's numeric code (`code as u32`).
    pub fn code(&self) -> (c: u32)
        ensures
            c == failure_code(*self),
    {
        match self {
            EngineFailureCode::NoFailure => 0,
            EngineFailureCode::StartupUnknown => 10,
            EngineFailureCode::StartupParseArgsFailed => 11,
            EngineFailureCode::StartupOpenInputFailed => 12,
            EngineFailureCode::StartupStreamInfoFailed => 13,
            EngineFailureCode::StartupD3D11FormatMissing => 14,
            EngineFailureCode::StartupHwDeviceInitFailed => 15,
            EngineFailureCode::StartupHwFramesInitFailed => 16,
            EngineFailureCode::StartupCodecOpenFailed => 17,
            EngineFailureCode::StartupDxvaInitFailed => 18,
            EngineFailureCode::StartupSwapChainFailed => 19,
            EngineFailureCode::VideoPathInvalid => 20,
            EngineFailureCode::RuntimeUnknown => 30,
            EngineFailureCode::RuntimeDecoderLoopFailed => 31,
            EngineFailureCode::RuntimeVideoProcessorFailed => 32,
            EngineFailureCode::RuntimePresentFailed => 33,
            EngineFailureCode::RuntimeDeviceLost => 34,
        }
    }

    /// The failure with numeric code `c`, if any.
    pub fn from_code(c: u32) -> (r: Option<EngineFailureCode>)
        ensures
            match r {
                Some(e) => failure_code(e) == c,
                None => !is_failure_code(c),
            },
    {
        match c {
            0 => Some(EngineFailureCode::NoFailure),
            10 => Some(EngineFailureCode::StartupUnknown),
            11 => Some(EngineFailureCode::StartupParseArgsFailed),
            12 => Some(EngineFailureCode::StartupOpenInputFailed),
            13 => Some(EngineFailureCode::StartupStreamInfoFailed),
            14 => Some(EngineFailureCode::StartupD3D11FormatMissing),
            15 => Some(EngineFailureCode::StartupHwDeviceInitFailed),
            16 => Some(EngineFailureCode::StartupHwFramesInitFailed),
            17 => Some(EngineFailureCode::StartupCodecOpenFailed),
            18 => Some(EngineFailureCode::StartupDxvaInitFailed),
            19 => Some(EngineFailureCode::StartupSwapChainFailed),
            20 => Some(EngineFailureCode::VideoPathInvalid),
            30 => Some(EngineFailureCode::RuntimeUnknown),
            31 => Some(EngineFailureCode::RuntimeDecoderLoopFailed),
            32 => Some(EngineFailureCode::RuntimeVideoProcessorFailed),
            33 => Some(EngineFailureCode::RuntimePresentFailed),
            34 => Some(EngineFailureCode::RuntimeDeviceLost),
            _ => None,
        }
    }
}

/// Distinct failures have distinct codes, every code in use names a failure,
/// and decoding a failure's code gives that failure back.
pub proof fn lemma_failure_code_roundtrip(e: EngineFailureCode, f: EngineFailureCode)
    ensures
        is_failure_code(failure_code(e)),
        failure_code(e) == failure_code(f) ==> e == f,
{
}

/// Every number in the code ranges belongs to exactly one failure.
pub proof fn lemma_failure_code_onto(c: u32)
    requires
        is_failure_code(c),
    ensures
        exists|e: EngineFailureCode| failure_code(e) == c,
{
    if c == 0 {
        assert(failure_code(EngineFailureCode::NoFailure) == c);
    } else if c == 10 {
        assert(failure_code(EngineFailureCode::StartupUnknown) == c);
    } else if c == 11 {
        assert(failure_code(EngineFailureCode::StartupParseArgsFailed) == c);
    } else if c == 12 {
        assert(failure_code(EngineFailureCode::StartupOpenInputFailed) == c);
    } else if c == 13 {
        assert(failure_code(EngineFailureCode::StartupStreamInfoFailed) == c);
    } else if c == 14 {
        assert(failure_code(EngineFailureCode::StartupD3D11FormatMissing) == c);
    } else if c == 15 {
        assert(failure_code(EngineFailureCode::StartupHwDeviceInitFailed) == c);
    } else if c == 16 {
        assert(failure_code(EngineFailureCode::StartupHwFramesInitFailed) == c);
    } else if c == 17 {
        assert(failure_code(EngineFailureCode::StartupCodecOpenFailed) == c);
    } else if c == 18 {
        assert(failure_code(EngineFailureCode::StartupDxvaInitFailed) == c);
    } else if c == 19 {
        assert(failure_code(EngineFailureCode::StartupSwapChainFailed) == c);
    } else if c == 20 {
        assert(failure_code(EngineFailureCode::VideoPathInvalid) == c);
    } else if c == 30 {
        assert(failure_code(EngineFailureCode::RuntimeUnknown) == c);
    } else if c == 31 {
        assert(failure_code(EngineFailureCode::RuntimeDecoderLoopFailed) == c);
    } else if c == 32 {
        assert(failure_code(EngineFailureCode::RuntimeVideoProcessorFailed) == c);
    } else if c == 33 {
        assert(failure_code(EngineFailureCode::RuntimePresentFailed) == c);
    } else {
        assert(failure_code(EngineFailureCode::RuntimeDeviceLost) == c);
    }
}

} // verus!
