//! The still desktop picture shown behind the live wallpaper: one frame of
//! the video at the primary screen's size, made once and cached, then set
//! as the desktop picture. As with the card previews, the job asks for one
//! thing at a time and the caller answers with the matching event.
use vstd::prelude::*;
use crate::client::{get_static_wallpaper_save_path, static_wallpaper_ffmpeg_args, static_wallpaper_file};
use crate::text::decimal;
use crate::thumbnail::{frame_grab_args, scale_crop_filter, texts};

verus! {

#[derive(Debug, Clone, Copy, PartialEq, Eq, Structural)]
pub enum StillPhase {
    CheckingCached,
    ReadingScreen,
    RunningFfmpeg,
    CheckingOutput,
    SettingDesktop,
    Done,
}

/// The state of one still-picture request.
#[derive(Debug)]
pub struct StillJob {
    pub video_path: String,
    pub picture_path: String,
    pub width: u64,
    pub height: u64,
    pub phase: StillPhase,
}

/// Why no still picture was set.
#[derive(Debug)]
pub enum StillError {
    /// The primary screen's size could not be read.
    ScreenSize { error: String },
    /// ffmpeg could not be started.
    FfmpegStart { video: String, error: String },
    /// ffmpeg ended with a failure; `code` is its exit code, or 2627 when it
    /// has none.
    FfmpegFailed { video: String, code: i32 },
    /// ffmpeg reported success but wrote no picture.
    PictureMissing { picture: String },
    /// The desktop picture could not be set.
    DesktopNotSet { picture: String },
}

/// The answer to the job's last request.
#[derive(Debug)]
pub enum StillEvent {
    Exists(bool),
    /// The primary screen's width and height, or why they are unknown.
    ScreenSize(Result<(u64, u64), String>),
    /// `Ok((success, exit code))` when ffmpeg ran, the error text when it
    /// could not start.
    FfmpegFinished(Result<(bool, Option<i32>), String>),
    OutputExists(bool),
    DesktopSet(bool),
}

/// What the job asks the caller to do next.
#[derive(Debug)]
pub enum StillAction {
    CheckCached(String),
    ReadScreenSize,
    /// Run `program` with `args`, without a console window.
    RunFfmpeg { program: String, args: Vec<String> },
    CheckOutputExists(String),
    SetDesktop(String),
    Finished(Result<(), StillError>),
    Idle,
}

pub struct StillView {
    pub video: Seq<char>,
    pub picture: Seq<char>,
    pub width: u64,
    pub height: u64,
    pub phase: StillPhase,
}

pub enum StillErrorView {
    ScreenSize { error: Seq<char> },
    FfmpegStart { video: Seq<char>, error: Seq<char> },
    FfmpegFailed { video: Seq<char>, code: i32 },
    PictureMissing { picture: Seq<char> },
    DesktopNotSet { picture: Seq<char> },
}

pub enum StillEventView {
    Exists(bool),
    ScreenSize(Result<(u64, u64), Seq<char>>),
    FfmpegFinished(Result<(bool, Option<i32>), Seq<char>>),
    OutputExists(bool),
    DesktopSet(bool),
}

pub enum StillActionView {
    CheckCached(Seq<char>),
    ReadScreenSize,
    RunFfmpeg { program: Seq<char>, args: Seq<Seq<char>> },
    CheckOutputExists(Seq<char>),
    SetDesktop(Seq<char>),
    Finished(Result<(), StillErrorView>),
    Idle,
}

impl View for StillJob {
    type V = StillView;

    open spec fn view(&self) -> StillView {
        StillView {
            video: self.video_path@,
            picture: self.picture_path@,
            width: self.width,
            height: self.height,
            phase: self.phase,
        }
    }
}

impl View for StillError {
    type V = StillErrorView;

    open spec fn view(&self) -> StillErrorView {
        match self {
            StillError::ScreenSize { error } => StillErrorView::ScreenSize { error: error@ },
            StillError::FfmpegStart { video, error } => StillErrorView::FfmpegStart {
                video: video@,
                error: error@,
            },
            StillError::FfmpegFailed { video, code } => StillErrorView::FfmpegFailed {
                video: video@,
                code: *code,
            },
            StillError::PictureMissing { picture } => StillErrorView::PictureMissing {
                picture: picture@,
            },
            StillError::DesktopNotSet { picture } => StillErrorView::DesktopNotSet {
                picture: picture@,
            },
        }
    }
}

impl View for StillEvent {
    type V = StillEventView;

    open spec fn view(&self) -> StillEventView {
        match self {
            StillEvent::Exists(b) => StillEventView::Exists(*b),
            StillEvent::ScreenSize(r) => StillEventView::ScreenSize(
                match r {
                    Ok(wh) => Ok(*wh),
                    Err(e) => Err(e@),
                },
            ),
            StillEvent::FfmpegFinished(r) => StillEventView::FfmpegFinished(
                match r {
                    Ok(sc) => Ok(*sc),
                    Err(e) => Err(e@),
                },
            ),
            StillEvent::OutputExists(b) => StillEventView::OutputExists(*b),
            StillEvent::DesktopSet(b) => StillEventView::DesktopSet(*b),
        }
    }
}

impl View for StillAction {
    type V = StillActionView;

    open spec fn view(&self) -> StillActionView {
        match self {
            StillAction::CheckCached(p) => StillActionView::CheckCached(p@),
            StillAction::ReadScreenSize => StillActionView::ReadScreenSize,
            StillAction::RunFfmpeg { program, args } => StillActionView::RunFfmpeg {
                program: program@,
                args: texts(args@),
            },
            StillAction::CheckOutputExists(p) => StillActionView::CheckOutputExists(p@),
            StillAction::SetDesktop(p) => StillActionView::SetDesktop(p@),
            StillAction::Finished(r) => StillActionView::Finished(
                match r {
                    Ok(()) => Ok(()),
                    Err(e) => Err(e@),
                },
            ),
            StillAction::Idle => StillActionView::Idle,
        }
    }
}

/// The ffmpeg arguments that make the job's picture at the screen's size.
pub open spec fn still_args(j: StillView) -> Seq<Seq<char>> {
    frame_grab_args(
        j.video,
        scale_crop_filter(decimal(j.width as nat), decimal(j.height as nat)),
        j.picture,
    )
}

/// The request the job is waiting on.
pub open spec fn pending_still_action(j: StillView) -> StillActionView {
    match j.phase {
        StillPhase::CheckingCached => StillActionView::CheckCached(j.picture),
        StillPhase::ReadingScreen => StillActionView::ReadScreenSize,
        StillPhase::RunningFfmpeg => StillActionView::RunFfmpeg {
            program: "ffmpeg.exe"@,
            args: still_args(j),
        },
        StillPhase::CheckingOutput => StillActionView::CheckOutputExists(j.picture),
        StillPhase::SettingDesktop => StillActionView::SetDesktop(j.picture),
        StillPhase::Done => StillActionView::Idle,
    }
}

pub open spec fn still_phase(j: StillView, phase: StillPhase) -> StillView {
    StillView { phase, ..j }
}

pub open spec fn still_finish(j: StillView, r: Result<(), StillErrorView>) -> (StillView, StillActionView) {
    (still_phase(j, StillPhase::Done), StillActionView::Finished(r))
}

/// One step of a still-picture request: a cached picture is set at once;
/// otherwise the screen's size is read, ffmpeg makes the picture, and it is
/// set only when ffmpeg succeeded and the picture exists. Any failure ends
/// the job without touching the desktop. An answer that does not fit the
/// pending request changes nothing and repeats the request.
pub open spec fn still_step(j: StillView, e: StillEventView) -> (StillView, StillActionView) {
    match (j.phase, e) {
        (StillPhase::CheckingCached, StillEventView::Exists(cached)) => {
            if cached {
                (still_phase(j, StillPhase::SettingDesktop), StillActionView::SetDesktop(j.picture))
            } else {
                (still_phase(j, StillPhase::ReadingScreen), StillActionView::ReadScreenSize)
            }
        },
        (StillPhase::ReadingScreen, StillEventView::ScreenSize(r)) => match r {
            Err(error) => still_finish(j, Err(StillErrorView::ScreenSize { error })),
            Ok((w, h)) => {
                let n = StillView { width: w, height: h, phase: StillPhase::RunningFfmpeg, ..j };
                (n, StillActionView::RunFfmpeg { program: "ffmpeg.exe"@, args: still_args(n) })
            },
        },
        (StillPhase::RunningFfmpeg, StillEventView::FfmpegFinished(r)) => match r {
            Err(error) => still_finish(j, Err(StillErrorView::FfmpegStart { video: j.video, error })),
            Ok((success, code)) => if success {
                (still_phase(j, StillPhase::CheckingOutput), StillActionView::CheckOutputExists(j.picture))
            } else {
                still_finish(
                    j,
                    Err(
                        StillErrorView::FfmpegFailed {
                            video: j.video,
                            code: match code {
                                Some(c) => c,
                                None => 2627,
                            },
                        },
                    ),
                )
            },
        },
        (StillPhase::CheckingOutput, StillEventView::OutputExists(present)) => {
            if present {
                (still_phase(j, StillPhase::SettingDesktop), StillActionView::SetDesktop(j.picture))
            } else {
                still_finish(j, Err(StillErrorView::PictureMissing { picture: j.picture }))
            }
        },
        (StillPhase::SettingDesktop, StillEventView::DesktopSet(ok)) => {
            if ok {
                still_finish(j, Ok(()))
            } else {
                still_finish(j, Err(StillErrorView::DesktopNotSet { picture: j.picture }))
            }
        },
        _ => (j, pending_still_action(j)),
    }
}

impl StillJob {
    /// Starts the still picture of `video_path`, kept in `picture_dir`; the
    /// first request is whether that picture is cached already.
    pub fn new(video_path: &str, picture_dir: &str) -> (r: (StillJob, StillAction))
        ensures
            r.0@ == (StillView {
                video: video_path@,
                picture: static_wallpaper_file(video_path@, picture_dir@),
                width: 0,
                height: 0,
                phase: StillPhase::CheckingCached,
            }),
            r.1@ == StillActionView::CheckCached(static_wallpaper_file(video_path@, picture_dir@)),
    {
        let picture = get_static_wallpaper_save_path(video_path, picture_dir);
        let p2 = picture.clone();
        (
            StillJob {
                video_path: String::from_str(video_path),
                picture_path: picture,
                width: 0,
                height: 0,
                phase: StillPhase::CheckingCached,
            },
            StillAction::CheckCached(p2),
        )
    }

    fn finish(&mut self, r: Result<(), StillError>) -> (a: StillAction)
        ensures
            (final(self)@, a@) == still_finish(
                old(self)@,
                match r {
                    Ok(()) => Ok(()),
                    Err(e) => Err(e@),
                },
            ),
    {
        self.phase = StillPhase::Done;
        StillAction::Finished(r)
    }

    fn run_ffmpeg(&self) -> (a: StillAction)
        ensures
            a@ == (StillActionView::RunFfmpeg { program: "ffmpeg.exe"@, args: still_args(self@) }),
    {
        StillAction::RunFfmpeg {
            program: String::from_str("ffmpeg.exe"),
            args: static_wallpaper_ffmpeg_args(
                self.video_path.as_str(),
                self.width,
                self.height,
                self.picture_path.as_str(),
            ),
        }
    }

    /// The request the job is waiting on.
    pub fn pending(&self) -> (a: StillAction)
        ensures
            a@ == pending_still_action(self@),
    {
        match self.phase {
            StillPhase::CheckingCached => StillAction::CheckCached(self.picture_path.clone()),
            StillPhase::ReadingScreen => StillAction::ReadScreenSize,
            StillPhase::RunningFfmpeg => self.run_ffmpeg(),
            StillPhase::CheckingOutput => StillAction::CheckOutputExists(self.picture_path.clone()),
            StillPhase::SettingDesktop => StillAction::SetDesktop(self.picture_path.clone()),
            StillPhase::Done => StillAction::Idle,
        }
    }

    /// Takes the answer to the pending request and gives the next request.
    pub fn step(&mut self, event: StillEvent) -> (a: StillAction)
        ensures
            (final(self)@, a@) == still_step(old(self)@, event@),
    {
        match (self.phase, event) {
            (StillPhase::CheckingCached, StillEvent::Exists(cached)) => {
                if cached {
                    self.phase = StillPhase::SettingDesktop;
                    StillAction::SetDesktop(self.picture_path.clone())
                } else {
                    self.phase = StillPhase::ReadingScreen;
                    StillAction::ReadScreenSize
                }
            },
            (StillPhase::ReadingScreen, StillEvent::ScreenSize(r)) => match r {
                Err(error) => self.finish(Err(StillError::ScreenSize { error })),
                Ok((w, h)) => {
                    self.width = w;
                    self.height = h;
                    self.phase = StillPhase::RunningFfmpeg;
                    self.run_ffmpeg()
                },
            },
            (StillPhase::RunningFfmpeg, StillEvent::FfmpegFinished(r)) => match r {
                Err(error) => {
                    let video = self.video_path.clone();
                    self.finish(Err(StillError::FfmpegStart { video, error }))
                },
                Ok((success, code)) => {
                    if success {
                        self.phase = StillPhase::CheckingOutput;
                        StillAction::CheckOutputExists(self.picture_path.clone())
                    } else {
                        let video = self.video_path.clone();
                        let code = match code {
                            Some(c) => c,
                            None => 2627,
                        };
                        self.finish(Err(StillError::FfmpegFailed { video, code }))
                    }
                },
            },
            (StillPhase::CheckingOutput, StillEvent::OutputExists(present)) => {
                if present {
                    self.phase = StillPhase::SettingDesktop;
                    StillAction::SetDesktop(self.picture_path.clone())
                } else {
                    let picture = self.picture_path.clone();
                    self.finish(Err(StillError::PictureMissing { picture }))
                }
            },
            (StillPhase::SettingDesktop, StillEvent::DesktopSet(ok)) => {
                if ok {
                    self.finish(Ok(()))
                } else {
                    let picture = self.picture_path.clone();
                    self.finish(Err(StillError::DesktopNotSet { picture }))
                }
            },
            (_, _) => self.pending(),
        }
    }
}

/// The desktop is only ever set to the job's own picture, and only when it
/// was cached already or ffmpeg succeeded and the picture exists; a job that
/// failed never sets it. (While the request is pending, an answer that does
/// not fit repeats it.)
pub proof fn lemma_desktop_set_only_with_a_picture(j: StillView, e: StillEventView, p: Seq<char>)
    requires
        j.phase != StillPhase::SettingDesktop,
        still_step(j, e).1 == StillActionView::SetDesktop(p),
    ensures
        p == j.picture,
        (j.phase == StillPhase::CheckingCached && e == StillEventView::Exists(true)) || (j.phase
            == StillPhase::CheckingOutput && e == StillEventView::OutputExists(true)),
{
}

/// A cached picture is reused: no screen size is read and ffmpeg does not run.
pub proof fn lemma_cached_still_is_reused(j: StillView)
    requires
        j.phase == StillPhase::CheckingCached,
    ensures
        still_step(j, StillEventView::Exists(true)) == (
            still_phase(j, StillPhase::SettingDesktop),
            StillActionView::SetDesktop(j.picture),
        ),
{
}

/// A finished job asks for nothing more, whatever it is told.
pub proof fn lemma_finished_still_stays_finished(j: StillView, e: StillEventView)
    requires
        j.phase == StillPhase::Done,
    ensures
        still_step(j, e) == (j, StillActionView::Idle),
{
}

} // verus!
