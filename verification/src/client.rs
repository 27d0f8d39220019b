//! The launcher's decisions outside its main loop: the runtime-file check,
//! what to do with the saved startup wallpaper, the arguments it starts the
//! engine and the tray with, its hidden window's messages, the GUI child,
//! the legacy-file migration, and the static desktop picture.
use vstd::prelude::*;
use crate::shared::{
    STATIC_WALLPAPER_EXTENSION, WM_DESTROY, WM_ENGINE_EXIT, WM_ENGINE_OPEN_GUI,
    WM_ENGINE_SENT_HWND, WM_ENGINE_TEST,
};
use crate::text::{
    chars_of, decimal, decimal_string, is_blank, is_blank_chars, push_str_chars, string_from_chars,
};
use crate::thumbnail::{
    frame_grab_args, frame_grab_arguments, path_hash_text, scale_crop_filter, stable_path_hash,
    texts,
};
use crate::win_path::{file_stem, join, join_path, path_file_stem};

verus! {

// ---------------------------------------------------------------------------
// Runtime files
// ---------------------------------------------------------------------------

/// Why the launcher refuses to start.
#[derive(Debug)]
pub enum ErrorClient {
    MissingFile(String),
}

/// The files the launcher needs beside it, in the order they are checked.
pub open spec fn files_check_list() -> Seq<Seq<char>> {
    seq![
        "swscale-8.dll"@,
        "swresample-5.dll"@,
        "postproc-58.dll"@,
        "avutil-59.dll"@,
        "avformat-61.dll"@,
        "avfilter-10.dll"@,
        "avdevice-61.dll"@,
        "avcodec-61.dll"@,
        "AliveWallpaperEngine.exe"@,
    ]
}

/// The files the launcher checks for, in order.
pub fn files_check_list_names() -> (v: Vec<&'static str>)
    ensures
        v@.len() == files_check_list().len(),
        forall|i: int| 0 <= i < v@.len() ==> (#[trigger] v@[i])@ == files_check_list()[i],
{
    let v = vec![
        "swscale-8.dll",
        "swresample-5.dll",
        "postproc-58.dll",
        "avutil-59.dll",
        "avformat-61.dll",
        "avfilter-10.dll",
        "avdevice-61.dll",
        "avcodec-61.dll",
        "AliveWallpaperEngine.exe",
    ];
    assert(v@.len() == 9);
    v
}

/// `i` is the first listed file that is missing (`present[i]` tells whether
/// the `i`-th file exists; a file without a reported status is missing).
pub open spec fn first_missing(present: Seq<bool>, i: int) -> bool {
    &&& 0 <= i < files_check_list().len()
    &&& (i >= present.len() || !present[i])
    &&& forall|j: int| 0 <= j < i ==> j < present.len() && #[trigger] present[j]
}

/// Checks the runtime files: the first missing one is reported, in list
/// order; `Ok` when all exist.
pub fn client_init(present: &Vec<bool>) -> (r: Result<(), ErrorClient>)
    ensures
        match r {
            Ok(()) => forall|i: int| !first_missing(present@, i),
            Err(ErrorClient::MissingFile(name)) => exists|i: int|
                first_missing(present@, i) && name@ == files_check_list()[i],
        },
{
    let files = files_check_list_names();
    let mut i: usize = 0;
    while i < files.len()
        invariant
            i <= files.len(),
            files@.len() == files_check_list().len(),
            forall|k: int| 0 <= k < files@.len() ==> (#[trigger] files@[k])@ == files_check_list()[k],
            i <= present@.len(),
            forall|j: int| 0 <= j < i ==> #[trigger] present@[j],
        decreases files.len() - i,
    {
        if i >= present.len() || !present[i] {
            assert(files_check_list().len() == 9);
            assert(i < 9);
            assert(i >= present@.len() || !present@[i as int]);
            assert(first_missing(present@, i as int));
            return Err(ErrorClient::MissingFile(String::from_str(files[i])));
        }
        i = i + 1;
    }
    assert forall|k: int| !first_missing(present@, k) by {
        if first_missing(present@, k) {
            assert(present@[k]);
        }
    }
    Ok(())
}

/// Each missing file is the one reported: a check with exactly one file
/// absent names that file.
pub proof fn lemma_client_init_names_missing_file(present: Seq<bool>, i: int)
    requires
        present.len() == files_check_list().len(),
        0 <= i < present.len(),
        !present[i],
        forall|j: int| 0 <= j < present.len() && j != i ==> #[trigger] present[j],
    ensures
        first_missing(present, i),
        forall|k: int| #[trigger] first_missing(present, k) ==> k == i,
{
    assert forall|k: int| #[trigger] first_missing(present, k) implies k == i by {
        if k < i {
            assert(present[k]);
        } else if k > i {
            assert(present[i]);
        }
    }
}

// ---------------------------------------------------------------------------
// The startup wallpaper
// ---------------------------------------------------------------------------

/// What the launcher does with the startup file before its loop.
#[derive(Debug)]
pub enum StartupAction {
    /// The file could not be read: start idle.
    Nothing,
    /// Blank file or missing video: ask the GUI to open.
    OpenGui,
    /// Start the engine with this saved wallpaper.
    StartEngine(String),
}

pub enum StartupView {
    Nothing,
    OpenGui,
    StartEngine(Seq<char>),
}

impl View for StartupAction {
    type V = StartupView;

    open spec fn view(&self) -> StartupView {
        match self {
            StartupAction::Nothing => StartupView::Nothing,
            StartupAction::OpenGui => StartupView::OpenGui,
            StartupAction::StartEngine(p) => StartupView::StartEngine(p@),
        }
    }
}

/// The startup decision: nothing when the file could not be read; the GUI
/// when it is blank or names no existing file; otherwise the engine with the
/// saved wallpaper.
pub open spec fn startup_decision(contents: Option<Seq<char>>, path_exists: bool) -> StartupView {
    match contents {
        None => StartupView::Nothing,
        Some(c) => if is_blank(c) || !path_exists {
            StartupView::OpenGui
        } else {
            StartupView::StartEngine(c)
        },
    }
}

pub open spec fn opt_contents(s: Option<String>) -> Option<Seq<char>> {
    match s {
        Some(x) => Some(x@),
        None => None,
    }
}

/// `contents` is what the startup file holds (when it could be read) and
/// `path_exists` whether that text names an existing file.
pub fn startup_wallpaper(contents: Option<String>, path_exists: bool) -> (r: StartupAction)
    ensures
        r@ == startup_decision(opt_contents(contents), path_exists),
{
    match contents {
        None => StartupAction::Nothing,
        Some(c) => {
            let v = chars_of(c.as_str());
            if is_blank_chars(v.as_slice()) || !path_exists {
                StartupAction::OpenGui
            } else {
                StartupAction::StartEngine(c)
            }
        },
    }
}

// ---------------------------------------------------------------------------
// Child process arguments
// ---------------------------------------------------------------------------

/// How many decoded frames the engine may queue.
pub const ENGINE_BUFFER_COUNT: &'static str = "3";

/// The engine's command line: video path, frame-queue size, and the launcher
/// window's handle in decimal.
pub fn wallpaper_engine_args(video_path: &str, buffer_count: &str, client_hwnd: usize) -> (r: Vec<
    String,
>)
    ensures
        texts(r@) == seq![video_path@, buffer_count@, decimal(client_hwnd as nat)],
{
    let mut v: Vec<String> = Vec::new();
    v.push(String::from_str(video_path));
    v.push(String::from_str(buffer_count));
    v.push(decimal_string(client_hwnd as u64));
    assert(texts(v@) =~= seq![video_path@, buffer_count@, decimal(client_hwnd as nat)]);
    v
}

/// The tray's command line: the launcher window's handle in decimal.
pub fn tray_args(client_hwnd: usize) -> (r: Vec<String>)
    ensures
        texts(r@) == seq![decimal(client_hwnd as nat)],
{
    let mut v: Vec<String> = Vec::new();
    v.push(decimal_string(client_hwnd as u64));
    assert(texts(v@) =~= seq![decimal(client_hwnd as nat)]);
    v
}

// ---------------------------------------------------------------------------
// The hidden window's messages
// ---------------------------------------------------------------------------

/// What the launcher's hidden window does with a message.
#[derive(Debug, PartialEq, Eq, Structural)]
pub enum ClientWindowAction {
    /// Leave the message loop.
    Quit,
    /// Remember the engine window's handle.
    StoreEngineHwnd(usize),
    /// Note the tray's test message.
    LogTest,
    /// Pass the exit on to the engine window (when one is known), stop the
    /// GUI, and leave the message loop.
    ExitAll { forward_to: Option<usize> },
    /// Open the GUI or keep the one that runs.
    OpenGui,
    /// Leave the message to the system.
    Default,
}

pub open spec fn window_action(msg: u32, lparam: isize, engine_hwnd: usize) -> ClientWindowAction {
    if msg == WM_DESTROY {
        ClientWindowAction::Quit
    } else if msg == WM_ENGINE_SENT_HWND {
        ClientWindowAction::StoreEngineHwnd(lparam as usize)
    } else if msg == WM_ENGINE_TEST {
        ClientWindowAction::LogTest
    } else if msg == WM_ENGINE_EXIT {
        ClientWindowAction::ExitAll {
            forward_to: if engine_hwnd == 0 {
                None
            } else {
                Some(engine_hwnd)
            },
        }
    } else if msg == WM_ENGINE_OPEN_GUI {
        ClientWindowAction::OpenGui
    } else {
        ClientWindowAction::Default
    }
}

/// The hidden window's handling of `msg` (with its `lparam`), given the
/// engine window's handle as last reported (0 when none).
pub fn client_window_message(msg: u32, lparam: isize, engine_hwnd: usize) -> (r: ClientWindowAction)
    ensures
        r == window_action(msg, lparam, engine_hwnd),
{
    if msg == WM_DESTROY {
        ClientWindowAction::Quit
    } else if msg == WM_ENGINE_SENT_HWND {
        ClientWindowAction::StoreEngineHwnd(lparam as usize)
    } else if msg == WM_ENGINE_TEST {
        ClientWindowAction::LogTest
    } else if msg == WM_ENGINE_EXIT {
        let forward_to = if engine_hwnd == 0 {
            None
        } else {
            Some(engine_hwnd)
        };
        ClientWindowAction::ExitAll { forward_to }
    } else if msg == WM_ENGINE_OPEN_GUI {
        ClientWindowAction::OpenGui
    } else {
        ClientWindowAction::Default
    }
}

/// The GUI child as the launcher finds it.
#[derive(Debug, Clone, Copy, PartialEq, Eq, Structural)]
pub enum GuiChild {
    NotStarted,
    Exited,
    Running,
    /// Its state could not be queried.
    Unknown,
}

#[derive(Debug, Clone, Copy, PartialEq, Eq, Structural)]
pub enum GuiCommand {
    /// Start a GUI process.
    Launch,
    /// Keep the one there is.
    Keep,
    /// Keep the one there is and log that it could not be queried.
    KeepAndLog,
}

/// A request to open the GUI starts one unless one is still running.
pub fn open_gui_decision(child: GuiChild) -> (c: GuiCommand)
    ensures
        c == (match child {
            GuiChild::NotStarted | GuiChild::Exited => GuiCommand::Launch,
            GuiChild::Running => GuiCommand::Keep,
            GuiChild::Unknown => GuiCommand::KeepAndLog,
        }),
{
    match child {
        GuiChild::NotStarted => GuiCommand::Launch,
        GuiChild::Exited => GuiCommand::Launch,
        GuiChild::Running => GuiCommand::Keep,
        GuiChild::Unknown => GuiCommand::KeepAndLog,
    }
}

// ---------------------------------------------------------------------------
// Moving a file from its legacy location
// ---------------------------------------------------------------------------

/// A file kept under its old location is copied to the new one once: when
/// the new one does not exist yet, the old one does, and they differ.
pub fn should_copy_legacy_file(
    current_path: &str,
    current_exists: bool,
    legacy_path: &str,
    legacy_exists: bool,
) -> (b: bool)
    ensures
        b == (!current_exists && legacy_path@ != current_path@ && legacy_exists),
{
    if current_exists {
        return false;
    }
    !crate::text::equal_strs(legacy_path, current_path) && legacy_exists
}

// ---------------------------------------------------------------------------
// The static desktop picture
// ---------------------------------------------------------------------------

/// Where the static picture for a video is cached: `{hash}_{stem}.jpg` in the
/// cache folder (stem "err" when the path has none).
pub open spec fn static_wallpaper_file(video_path: Seq<char>, dir: Seq<char>) -> Seq<char> {
    let stem = match file_stem(video_path) {
        Some(s) => s,
        None => "err"@,
    };
    join(dir, path_hash_text(video_path) + seq!['_'] + stem + seq!['.'] + STATIC_WALLPAPER_EXTENSION@)
}

pub fn get_static_wallpaper_save_path(video_path: &str, static_wallpaper_dir: &str) -> (r: String)
    ensures
        r@ == static_wallpaper_file(video_path@, static_wallpaper_dir@),
{
    let hash = stable_path_hash(video_path);
    let stem = match path_file_stem(video_path) {
        Some(s) => s,
        None => String::from_str("err"),
    };
    let mut name: Vec<char> = chars_of(hash.as_str());
    name.push('_');
    push_str_chars(&mut name, stem.as_str());
    name.push('.');
    push_str_chars(&mut name, STATIC_WALLPAPER_EXTENSION);
    let n = string_from_chars(name.as_slice());
    join_path(static_wallpaper_dir, n.as_str())
}

/// The ffmpeg arguments that make the screen-sized static picture of a video.
pub fn static_wallpaper_ffmpeg_args(video_path: &str, width: u64, height: u64, output_path: &str) -> (r:
    Vec<String>)
    ensures
        texts(r@) == frame_grab_args(
            video_path@,
            scale_crop_filter(decimal(width as nat), decimal(height as nat)),
            output_path@,
        ),
{
    let w = decimal_string(width);
    let h = decimal_string(height);
    let filter = crate::thumbnail::scale_crop_filter_text(w.as_str(), h.as_str());
    frame_grab_arguments(video_path, filter, output_path)
}

} // verus!
