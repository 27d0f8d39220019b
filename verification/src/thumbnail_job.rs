//! Getting a card preview, as a sequence of decisions between file-system
//! and process work: the job asks for one thing at a time (does the video
//! exist, where is `%LOCALAPPDATA%`, ...) and the caller answers with
//! the matching event, until the job finishes with the preview's path or an
//! error.
use vstd::prelude::*;
use crate::shared::{THUMBNAIL_HEIGHT, THUMBNAIL_WIDTH};
use crate::thumbnail::{
    FileMetadata, FileMetadataView, ThumbnailError, ThumbnailErrorView, cache_dir_path,
    chosen_command, command_candidate_paths, command_candidates, ffmpeg_command_path,
    frame_grab_args, needs_regeneration, regeneration, result_view, scale_crop_filter, texts,
    thumbnail_cache_dir, thumbnail_ffmpeg_args, thumbnail_file, thumbnail_path_for_video,
};

verus! {

#[derive(Debug, Clone, Copy, PartialEq, Eq, Structural)]
pub enum ThumbnailPhase {
    CheckingVideo,
    ReadingLocalAppData,
    CreatingCacheDir,
    ReadingTimes,
    LocatingTool,
    CheckingCandidates,
    RunningFfmpeg,
    CheckingOutput,
    Done,
}

/// The state of one preview request.
#[derive(Debug)]
pub struct ThumbnailJob {
    pub video_path: String,
    pub phase: ThumbnailPhase,
    pub cache_dir: String,
    pub thumbnail_path: String,
    pub candidates: Vec<String>,
    pub ffmpeg: String,
}

/// The answer to the job's last request.
#[derive(Debug)]
pub enum ThumbnailEvent {
    VideoExists(bool),
    /// The value of `%LOCALAPPDATA%`, or why it could not be read.
    LocalAppData(Result<String, String>),
    /// `None` when the cache folder exists now; the error text otherwise.
    CacheDirCreated(Option<String>),
    FileTimes { thumbnail_exists: bool, video: FileMetadata, thumbnail: FileMetadata },
    /// The running executable's path and the working directory, when known.
    ToolLocations { current_exe: Option<String>, current_dir: Option<String> },
    /// Whether each candidate ffmpeg location exists.
    CandidatesChecked(Vec<bool>),
    /// `Ok(success)` when ffmpeg ran, the error text when it could not start.
    FfmpegFinished(Result<bool, String>),
    OutputExists(bool),
}

/// What the job asks the caller to do next.
#[derive(Debug)]
pub enum ThumbnailAction {
    CheckVideoExists(String),
    ReadLocalAppData,
    CreateCacheDir(String),
    ReadFileTimes { video: String, thumbnail: String },
    ReadToolLocations,
    CheckCandidates(Vec<String>),
    RunFfmpeg { program: String, args: Vec<String> },
    CheckOutputExists(String),
    Finished(Result<String, ThumbnailError>),
    Idle,
}

pub struct JobView {
    pub video: Seq<char>,
    pub phase: ThumbnailPhase,
    pub cache_dir: Seq<char>,
    pub thumbnail: Seq<char>,
    pub candidates: Seq<Seq<char>>,
    pub ffmpeg: Seq<char>,
}

pub enum EventView {
    VideoExists(bool),
    LocalAppData(Result<Seq<char>, Seq<char>>),
    CacheDirCreated(Option<Seq<char>>),
    FileTimes { thumbnail_exists: bool, video: FileMetadataView, thumbnail: FileMetadataView },
    ToolLocations { current_exe: Option<Seq<char>>, current_dir: Option<Seq<char>> },
    CandidatesChecked(Seq<bool>),
    FfmpegFinished(Result<bool, Seq<char>>),
    OutputExists(bool),
}

pub enum ActionView {
    CheckVideoExists(Seq<char>),
    ReadLocalAppData,
    CreateCacheDir(Seq<char>),
    ReadFileTimes { video: Seq<char>, thumbnail: Seq<char> },
    ReadToolLocations,
    CheckCandidates(Seq<Seq<char>>),
    RunFfmpeg { program: Seq<char>, args: Seq<Seq<char>> },
    CheckOutputExists(Seq<char>),
    Finished(Result<Seq<char>, ThumbnailErrorView>),
    Idle,
}

pub open spec fn opt_seq(s: Option<String>) -> Option<Seq<char>> {
    match s {
        Some(x) => Some(x@),
        None => None,
    }
}

impl View for ThumbnailJob {
    type V = JobView;

    open spec fn view(&self) -> JobView {
        JobView {
            video: self.video_path@,
            phase: self.phase,
            cache_dir: self.cache_dir@,
            thumbnail: self.thumbnail_path@,
            candidates: texts(self.candidates@),
            ffmpeg: self.ffmpeg@,
        }
    }
}

impl View for ThumbnailEvent {
    type V = EventView;

    open spec fn view(&self) -> EventView {
        match self {
            ThumbnailEvent::VideoExists(b) => EventView::VideoExists(*b),
            ThumbnailEvent::LocalAppData(r) => EventView::LocalAppData(
                match r {
                    Ok(d) => Ok(d@),
                    Err(e) => Err(e@),
                },
            ),
            ThumbnailEvent::CacheDirCreated(e) => EventView::CacheDirCreated(opt_seq(*e)),
            ThumbnailEvent::FileTimes { thumbnail_exists, video, thumbnail } =>
                EventView::FileTimes {
                thumbnail_exists: *thumbnail_exists,
                video: video@,
                thumbnail: thumbnail@,
            },
            ThumbnailEvent::ToolLocations { current_exe, current_dir } =>
                EventView::ToolLocations {
                current_exe: opt_seq(*current_exe),
                current_dir: opt_seq(*current_dir),
            },
            ThumbnailEvent::CandidatesChecked(v) => EventView::CandidatesChecked(v@),
            ThumbnailEvent::FfmpegFinished(r) => EventView::FfmpegFinished(
                match r {
                    Ok(b) => Ok(*b),
                    Err(e) => Err(e@),
                },
            ),
            ThumbnailEvent::OutputExists(b) => EventView::OutputExists(*b),
        }
    }
}

impl View for ThumbnailAction {
    type V = ActionView;

    open spec fn view(&self) -> ActionView {
        match self {
            ThumbnailAction::CheckVideoExists(p) => ActionView::CheckVideoExists(p@),
            ThumbnailAction::ReadLocalAppData => ActionView::ReadLocalAppData,
            ThumbnailAction::CreateCacheDir(d) => ActionView::CreateCacheDir(d@),
            ThumbnailAction::ReadFileTimes { video, thumbnail } => ActionView::ReadFileTimes {
                video: video@,
                thumbnail: thumbnail@,
            },
            ThumbnailAction::ReadToolLocations => ActionView::ReadToolLocations,
            ThumbnailAction::CheckCandidates(c) => ActionView::CheckCandidates(texts(c@)),
            ThumbnailAction::RunFfmpeg { program, args } => ActionView::RunFfmpeg {
                program: program@,
                args: texts(args@),
            },
            ThumbnailAction::CheckOutputExists(p) => ActionView::CheckOutputExists(p@),
            ThumbnailAction::Finished(r) => ActionView::Finished(
                match r {
                    Ok(p) => Ok(p@),
                    Err(e) => Err(e@),
                },
            ),
            ThumbnailAction::Idle => ActionView::Idle,
        }
    }
}

/// The ffmpeg arguments for the job's preview.
pub open spec fn job_ffmpeg_args(j: JobView) -> Seq<Seq<char>> {
    frame_grab_args(j.video, scale_crop_filter(THUMBNAIL_WIDTH@, THUMBNAIL_HEIGHT@), j.thumbnail)
}

/// The request the job is waiting on in its current phase.
pub open spec fn pending_action(j: JobView) -> ActionView {
    match j.phase {
        ThumbnailPhase::CheckingVideo => ActionView::CheckVideoExists(j.video),
        ThumbnailPhase::ReadingLocalAppData => ActionView::ReadLocalAppData,
        ThumbnailPhase::CreatingCacheDir => ActionView::CreateCacheDir(j.cache_dir),
        ThumbnailPhase::ReadingTimes => ActionView::ReadFileTimes {
            video: j.video,
            thumbnail: j.thumbnail,
        },
        ThumbnailPhase::LocatingTool => ActionView::ReadToolLocations,
        ThumbnailPhase::CheckingCandidates => ActionView::CheckCandidates(j.candidates),
        ThumbnailPhase::RunningFfmpeg => ActionView::RunFfmpeg {
            program: j.ffmpeg,
            args: job_ffmpeg_args(j),
        },
        ThumbnailPhase::CheckingOutput => ActionView::CheckOutputExists(j.thumbnail),
        ThumbnailPhase::Done => ActionView::Idle,
    }
}

pub open spec fn with_phase(j: JobView, phase: ThumbnailPhase) -> JobView {
    JobView { phase, ..j }
}

pub open spec fn finish(j: JobView, r: Result<Seq<char>, ThumbnailErrorView>) -> (JobView, ActionView) {
    (with_phase(j, ThumbnailPhase::Done), ActionView::Finished(r))
}

/// One step of a preview request: the next state and the next request, given
/// the answer `e` to the pending one. An answer that does not fit the
/// pending request changes nothing and repeats the request.
pub open spec fn job_step(j: JobView, e: EventView) -> (JobView, ActionView) {
    match (j.phase, e) {
        (ThumbnailPhase::CheckingVideo, EventView::VideoExists(present)) => {
            if present {
                (with_phase(j, ThumbnailPhase::ReadingLocalAppData), ActionView::ReadLocalAppData)
            } else {
                finish(j, Err(ThumbnailErrorView::VideoNotFound { video: j.video }))
            }
        },
        (ThumbnailPhase::ReadingLocalAppData, EventView::LocalAppData(r)) => match r {
            Err(error) => finish(j, Err(ThumbnailErrorView::LocalAppData { error })),
            Ok(d) => {
                let n = JobView {
                    phase: ThumbnailPhase::CreatingCacheDir,
                    cache_dir: cache_dir_path(d),
                    ..j
                };
                (n, ActionView::CreateCacheDir(n.cache_dir))
            },
        },
        (ThumbnailPhase::CreatingCacheDir, EventView::CacheDirCreated(r)) => match r {
            Some(error) => finish(
                j,
                Err(ThumbnailErrorView::CreateCacheDir { dir: j.cache_dir, error }),
            ),
            None => {
                let n = JobView {
                    phase: ThumbnailPhase::ReadingTimes,
                    thumbnail: thumbnail_file(j.video, j.cache_dir),
                    ..j
                };
                (n, ActionView::ReadFileTimes { video: n.video, thumbnail: n.thumbnail })
            },
        },
        (
            ThumbnailPhase::ReadingTimes,
            EventView::FileTimes { thumbnail_exists, video, thumbnail },
        ) => match regeneration(j.video, j.thumbnail, thumbnail_exists, video, thumbnail) {
            Err(err) => finish(j, Err(err)),
            Ok(false) => finish(j, Ok(j.thumbnail)),
            Ok(true) => (with_phase(j, ThumbnailPhase::LocatingTool), ActionView::ReadToolLocations),
        },
        (ThumbnailPhase::LocatingTool, EventView::ToolLocations { current_exe, current_dir }) => {
            let n = JobView {
                phase: ThumbnailPhase::CheckingCandidates,
                candidates: command_candidate_paths("ffmpeg.exe"@, current_exe, current_dir),
                ..j
            };
            (n, ActionView::CheckCandidates(n.candidates))
        },
        (ThumbnailPhase::CheckingCandidates, EventView::CandidatesChecked(present)) => {
            let n = JobView {
                phase: ThumbnailPhase::RunningFfmpeg,
                ffmpeg: chosen_command("ffmpeg.exe"@, j.candidates, present),
                ..j
            };
            (n, ActionView::RunFfmpeg { program: n.ffmpeg, args: job_ffmpeg_args(n) })
        },
        (ThumbnailPhase::RunningFfmpeg, EventView::FfmpegFinished(r)) => match r {
            Err(error) => finish(
                j,
                Err(ThumbnailErrorView::FfmpegStart { command: j.ffmpeg, video: j.video, error }),
            ),
            Ok(false) => finish(j, Err(ThumbnailErrorView::FfmpegFailed { video: j.video })),
            Ok(true) => (
                with_phase(j, ThumbnailPhase::CheckingOutput),
                ActionView::CheckOutputExists(j.thumbnail),
            ),
        },
        (ThumbnailPhase::CheckingOutput, EventView::OutputExists(present)) => {
            if present {
                finish(j, Ok(j.thumbnail))
            } else {
                finish(j, Err(ThumbnailErrorView::ThumbnailMissing { thumbnail: j.thumbnail }))
            }
        },
        _ => (j, pending_action(j)),
    }
}

/// Starts the preview request for `video_path`: the first request is
/// whether the video exists.
pub fn load_or_create_thumbnail_path(video_path: String) -> (r: (ThumbnailJob, ThumbnailAction))
    ensures
        r.0@ == (JobView {
            video: video_path@,
            phase: ThumbnailPhase::CheckingVideo,
            cache_dir: Seq::empty(),
            thumbnail: Seq::empty(),
            candidates: Seq::empty(),
            ffmpeg: Seq::empty(),
        }),
        r.1@ == ActionView::CheckVideoExists(video_path@),
{
    let job = ThumbnailJob {
        video_path: video_path.clone(),
        phase: ThumbnailPhase::CheckingVideo,
        cache_dir: String::new(),
        thumbnail_path: String::new(),
        candidates: Vec::new(),
        ffmpeg: String::new(),
    };
    assert(texts(job.candidates@) =~= Seq::empty());
    (job, ThumbnailAction::CheckVideoExists(video_path))
}

fn clone_strings(v: &Vec<String>) -> (r: Vec<String>)
    ensures
        texts(r@) == texts(v@),
{
    let mut r: Vec<String> = Vec::new();
    let mut i: usize = 0;
    while i < v.len()
        invariant
            i <= v.len(),
            r@.len() == i,
            forall|k: int| 0 <= k < i ==> #[trigger] r@[k] == v@[k],
        decreases v.len() - i,
    {
        let c = v[i].clone();
        r.push(c);
        i = i + 1;
    }
    assert(texts(r@) =~= texts(v@));
    r
}

fn as_str_opt(s: &Option<String>) -> (r: Option<&str>)
    ensures
        crate::thumbnail::opt_str(r) == opt_seq(*s),
{
    match s {
        Some(x) => Some(x.as_str()),
        None => None,
    }
}

impl ThumbnailJob {
    /// The request the job is waiting on.
    pub fn pending(&self) -> (a: ThumbnailAction)
        ensures
            a@ == pending_action(self@),
    {
        match self.phase {
            ThumbnailPhase::CheckingVideo => ThumbnailAction::CheckVideoExists(self.video_path.clone()),
            ThumbnailPhase::ReadingLocalAppData => ThumbnailAction::ReadLocalAppData,
            ThumbnailPhase::CreatingCacheDir => ThumbnailAction::CreateCacheDir(self.cache_dir.clone()),
            ThumbnailPhase::ReadingTimes => ThumbnailAction::ReadFileTimes {
                video: self.video_path.clone(),
                thumbnail: self.thumbnail_path.clone(),
            },
            ThumbnailPhase::LocatingTool => ThumbnailAction::ReadToolLocations,
            ThumbnailPhase::CheckingCandidates => ThumbnailAction::CheckCandidates(
                clone_strings(&self.candidates),
            ),
            ThumbnailPhase::RunningFfmpeg => ThumbnailAction::RunFfmpeg {
                program: self.ffmpeg.clone(),
                args: thumbnail_ffmpeg_args(self.video_path.as_str(), self.thumbnail_path.as_str()),
            },
            ThumbnailPhase::CheckingOutput => ThumbnailAction::CheckOutputExists(
                self.thumbnail_path.clone(),
            ),
            ThumbnailPhase::Done => ThumbnailAction::Idle,
        }
    }

    fn finish(&mut self, r: Result<String, ThumbnailError>) -> (a: ThumbnailAction)
        ensures
            (final(self)@, a@) == finish(
                old(self)@,
                match r {
                    Ok(p) => Ok(p@),
                    Err(e) => Err(e@),
                },
            ),
    {
        self.phase = ThumbnailPhase::Done;
        ThumbnailAction::Finished(r)
    }

    /// Takes the answer to the pending request and gives the next request.
    pub fn step(&mut self, event: ThumbnailEvent) -> (a: ThumbnailAction)
        ensures
            (final(self)@, a@) == job_step(old(self)@, event@),
    {
        let ghost e = event@;
        match (self.phase, event) {
            (ThumbnailPhase::CheckingVideo, ThumbnailEvent::VideoExists(present)) => {
                if present {
                    self.phase = ThumbnailPhase::ReadingLocalAppData;
                    ThumbnailAction::ReadLocalAppData
                } else {
                    let v = self.video_path.clone();
                    self.finish(Err(ThumbnailError::VideoNotFound { video: v }))
                }
            },
            (ThumbnailPhase::ReadingLocalAppData, ThumbnailEvent::LocalAppData(r)) => match r {
                Err(error) => self.finish(Err(ThumbnailError::LocalAppData { error })),
                Ok(d) => {
                    self.cache_dir = thumbnail_cache_dir(d.as_str());
                    self.phase = ThumbnailPhase::CreatingCacheDir;
                    ThumbnailAction::CreateCacheDir(self.cache_dir.clone())
                },
            },
            (ThumbnailPhase::CreatingCacheDir, ThumbnailEvent::CacheDirCreated(r)) => match r {
                Some(error) => {
                    let dir = self.cache_dir.clone();
                    self.finish(Err(ThumbnailError::CreateCacheDir { dir, error }))
                },
                None => {
                    self.thumbnail_path = thumbnail_path_for_video(
                        self.video_path.as_str(),
                        self.cache_dir.as_str(),
                    );
                    self.phase = ThumbnailPhase::ReadingTimes;
                    ThumbnailAction::ReadFileTimes {
                        video: self.video_path.clone(),
                        thumbnail: self.thumbnail_path.clone(),
                    }
                },
            },
            (
                ThumbnailPhase::ReadingTimes,
                ThumbnailEvent::FileTimes { thumbnail_exists, video, thumbnail },
            ) => {
                let d = needs_regeneration(
                    self.video_path.as_str(),
                    self.thumbnail_path.as_str(),
                    thumbnail_exists,
                    video,
                    thumbnail,
                );
                match d {
                    Err(err) => self.finish(Err(err)),
                    Ok(false) => {
                        let t = self.thumbnail_path.clone();
                        self.finish(Ok(t))
                    },
                    Ok(true) => {
                        self.phase = ThumbnailPhase::LocatingTool;
                        ThumbnailAction::ReadToolLocations
                    },
                }
            },
            (
                ThumbnailPhase::LocatingTool,
                ThumbnailEvent::ToolLocations { current_exe, current_dir },
            ) => {
                self.candidates = command_candidates(
                    "ffmpeg.exe",
                    as_str_opt(&current_exe),
                    as_str_opt(&current_dir),
                );
                self.phase = ThumbnailPhase::CheckingCandidates;
                ThumbnailAction::CheckCandidates(clone_strings(&self.candidates))
            },
            (ThumbnailPhase::CheckingCandidates, ThumbnailEvent::CandidatesChecked(present)) => {
                self.ffmpeg = ffmpeg_command_path(&self.candidates, &present);
                self.phase = ThumbnailPhase::RunningFfmpeg;
                ThumbnailAction::RunFfmpeg {
                    program: self.ffmpeg.clone(),
                    args: thumbnail_ffmpeg_args(self.video_path.as_str(), self.thumbnail_path.as_str()),
                }
            },
            (ThumbnailPhase::RunningFfmpeg, ThumbnailEvent::FfmpegFinished(r)) => match r {
                Err(error) => {
                    let command = self.ffmpeg.clone();
                    let video = self.video_path.clone();
                    self.finish(Err(ThumbnailError::FfmpegStart { command, video, error }))
                },
                Ok(false) => {
                    let video = self.video_path.clone();
                    self.finish(Err(ThumbnailError::FfmpegFailed { video }))
                },
                Ok(true) => {
                    self.phase = ThumbnailPhase::CheckingOutput;
                    ThumbnailAction::CheckOutputExists(self.thumbnail_path.clone())
                },
            },
            (ThumbnailPhase::CheckingOutput, ThumbnailEvent::OutputExists(present)) => {
                if present {
                    let t = self.thumbnail_path.clone();
                    self.finish(Ok(t))
                } else {
                    let thumbnail = self.thumbnail_path.clone();
                    self.finish(Err(ThumbnailError::ThumbnailMissing { thumbnail }))
                }
            },
            _ => self.pending(),
        }
    }
}

// ---------------------------------------------------------------------------
// What every run of the job keeps
// ---------------------------------------------------------------------------

/// Past the cache-folder phase, the job's preview path is the one the cache
/// names for its video.
pub open spec fn job_wf(j: JobView) -> bool {
    match j.phase {
        ThumbnailPhase::ReadingTimes | ThumbnailPhase::LocatingTool
        | ThumbnailPhase::CheckingCandidates | ThumbnailPhase::RunningFfmpeg
        | ThumbnailPhase::CheckingOutput => j.thumbnail == thumbnail_file(j.video, j.cache_dir),
        _ => true,
    }
}

/// Every step keeps the job well formed and never changes which video it is
/// for; a finished job that succeeded names the cached preview of that video
/// in the cache folder, and ffmpeg is only ever told to write that preview.
pub proof fn lemma_job_step_keeps_preview_path(j: JobView, e: EventView)
    requires
        job_wf(j),
    ensures
        job_wf(job_step(j, e).0),
        job_step(j, e).0.video == j.video,
        job_step(j, e).1 matches ActionView::Finished(Ok(p)) ==> p == thumbnail_file(
            j.video,
            j.cache_dir,
        ),
        job_step(j, e).1 matches ActionView::RunFfmpeg { program, args } ==> args.last()
            == thumbnail_file(j.video, job_step(j, e).0.cache_dir),
{
}

/// A preview that exists and is at least as new as its video is used as it
/// is: the job finishes with its path without running ffmpeg.
pub proof fn lemma_fresh_preview_is_reused(j: JobView, video_time: i128, thumbnail_time: i128)
    requires
        j.phase == ThumbnailPhase::ReadingTimes,
        video_time <= thumbnail_time,
    ensures
        job_step(
            j,
            EventView::FileTimes {
                thumbnail_exists: true,
                video: FileMetadataView::Modified(video_time),
                thumbnail: FileMetadataView::Modified(thumbnail_time),
            },
        ).1 == ActionView::Finished(Ok(j.thumbnail)),
{
}

/// A missing preview, or one older than its video, is rebuilt: the job goes
/// on to find ffmpeg.
pub proof fn lemma_stale_preview_is_rebuilt(
    j: JobView,
    video: FileMetadataView,
    thumbnail: FileMetadataView,
    present: bool,
)
    requires
        j.phase == ThumbnailPhase::ReadingTimes,
        !present || (video is Modified && thumbnail is Modified && thumbnail->Modified_0
            < video->Modified_0),
    ensures
        job_step(j, EventView::FileTimes { thumbnail_exists: present, video, thumbnail }).1
            == ActionView::ReadToolLocations,
{
}

} // verus!
