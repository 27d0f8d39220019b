//! The launcher's main loop as a state machine. Each pass checks for
//! too many engine crashes, keeps the tray alive, keeps the engine stopped
//! while a maximized window is in front, restarts the engine after a crash
//! or once the window is no longer maximized, switches
//! to the wallpaper the GUI sent (asking first for the still desktop picture
//! of a newly selected wallpaper), and watches the engine's exit. The caller
//! performs each requested action and answers with the matching event.
use vstd::prelude::*;
use crate::client::{startup_decision, StartupView};
use crate::text::{chars_of, equal_strs, is_blank, is_blank_chars};

verus! {

/// More crashes than this and the launcher gives up.
pub const MAX_ENGINE_CRASHES: u32 = 5;

#[derive(Debug, Clone, Copy, PartialEq, Eq, Structural)]
pub enum LoopPhase {
    /// Start of a pass: waiting for `Tick`.
    Top,
    SpawningTray,
    PollingTray,
    CheckingForeground,
    PostingOpenGui,
    ReadingPipe,
    StoppingCore,
    MakingStill,
    StartingCore,
    SavingStartup,
    PollingCore,
    KillingTray,
    PollingTrayAgain,
    Finished,
}

/// How a child process was found when polled.
#[derive(Debug, Clone, Copy, PartialEq, Eq, Structural)]
pub enum ChildStatus {
    Running,
    ExitedSuccess,
    ExitedFailure,
}

/// The launcher's loop state.
#[derive(Debug)]
pub struct ClientLoop {
    pub core_running: bool,
    pub tray_running: bool,
    pub current_wallpaper: Option<String>,
    pub next_wallpaper: Option<String>,
    /// The wallpaper whose still desktop picture was last asked for.
    pub still_wallpaper: Option<String>,
    pub ranami_crash: bool,
    pub crash_count: u32,
    pub phase: LoopPhase,
}

/// The answer to the loop's last request.
#[derive(Debug)]
pub enum LoopEvent {
    /// A pass begins; `hard_crash` is the engine's hard-crash flag.
    Tick { hard_crash: bool },
    TraySpawned(bool),
    TrayPolled(ChildStatus),
    /// Whether a maximized window is in the foreground.
    Foreground { zoomed: bool },
    /// The requested effect was carried out.
    Done,
    /// The wallpaper the GUI asked for since the last pass, if any.
    Pipe(Option<String>),
    CoreStarted(bool),
    CorePolled(ChildStatus),
}

/// What the loop asks the caller to do.
#[derive(Debug)]
pub enum LoopAction {
    /// Clear the engine window handle, kill engine and tray, leave the loop.
    Shutdown,
    SpawnTray,
    PollTray,
    CheckForeground,
    /// Kill the engine and begin the next pass at once (answer `Tick`).
    KillCoreAndRestart,
    PostOpenGui,
    ReadPipe,
    /// Kill and reap the engine, then kill and reap the tray and clear the
    /// engine window handle.
    StopCoreForSwitch,
    /// Make and set the still desktop picture of this newly selected
    /// wallpaper in the background, then answer `Done`.
    MakeStill(String),
    StartCore(String),
    SaveStartup(String),
    PollCore,
    /// Kill and reap the tray and clear the engine window handle.
    KillTray,
    /// Sleep 10 ms, then answer `Tick`.
    Sleep,
    /// Kill the tray, clear the engine window handle, leave the loop.
    Exit,
    /// Leave the loop with the error from starting the engine.
    Fail,
    /// The loop is over.
    Idle,
}

pub struct LoopView {
    pub core_running: bool,
    pub tray_running: bool,
    pub current: Option<Seq<char>>,
    pub next: Option<Seq<char>>,
    pub still: Option<Seq<char>>,
    pub crash: bool,
    pub crash_count: nat,
    pub phase: LoopPhase,
}

pub enum LoopEventView {
    Tick { hard_crash: bool },
    TraySpawned(bool),
    TrayPolled(ChildStatus),
    Foreground { zoomed: bool },
    Done,
    Pipe(Option<Seq<char>>),
    CoreStarted(bool),
    CorePolled(ChildStatus),
}

pub enum LoopActionView {
    Shutdown,
    SpawnTray,
    PollTray,
    CheckForeground,
    KillCoreAndRestart,
    PostOpenGui,
    ReadPipe,
    StopCoreForSwitch,
    MakeStill(Seq<char>),
    StartCore(Seq<char>),
    SaveStartup(Seq<char>),
    PollCore,
    KillTray,
    Sleep,
    Exit,
    Fail,
    Idle,
}

pub open spec fn opt_text(s: Option<String>) -> Option<Seq<char>> {
    match s {
        Some(x) => Some(x@),
        None => None,
    }
}

impl View for ClientLoop {
    type V = LoopView;

    open spec fn view(&self) -> LoopView {
        LoopView {
            core_running: self.core_running,
            tray_running: self.tray_running,
            current: opt_text(self.current_wallpaper),
            next: opt_text(self.next_wallpaper),
            still: opt_text(self.still_wallpaper),
            crash: self.ranami_crash,
            crash_count: self.crash_count as nat,
            phase: self.phase,
        }
    }
}

impl View for LoopEvent {
    type V = LoopEventView;

    open spec fn view(&self) -> LoopEventView {
        match self {
            LoopEvent::Tick { hard_crash } => LoopEventView::Tick { hard_crash: *hard_crash },
            LoopEvent::TraySpawned(b) => LoopEventView::TraySpawned(*b),
            LoopEvent::TrayPolled(s) => LoopEventView::TrayPolled(*s),
            LoopEvent::Foreground { zoomed } => LoopEventView::Foreground { zoomed: *zoomed },
            LoopEvent::Done => LoopEventView::Done,
            LoopEvent::Pipe(p) => LoopEventView::Pipe(opt_text(*p)),
            LoopEvent::CoreStarted(b) => LoopEventView::CoreStarted(*b),
            LoopEvent::CorePolled(s) => LoopEventView::CorePolled(*s),
        }
    }
}

impl View for LoopAction {
    type V = LoopActionView;

    open spec fn view(&self) -> LoopActionView {
        match self {
            LoopAction::Shutdown => LoopActionView::Shutdown,
            LoopAction::SpawnTray => LoopActionView::SpawnTray,
            LoopAction::PollTray => LoopActionView::PollTray,
            LoopAction::CheckForeground => LoopActionView::CheckForeground,
            LoopAction::KillCoreAndRestart => LoopActionView::KillCoreAndRestart,
            LoopAction::PostOpenGui => LoopActionView::PostOpenGui,
            LoopAction::ReadPipe => LoopActionView::ReadPipe,
            LoopAction::StopCoreForSwitch => LoopActionView::StopCoreForSwitch,
            LoopAction::MakeStill(p) => LoopActionView::MakeStill(p@),
            LoopAction::StartCore(p) => LoopActionView::StartCore(p@),
            LoopAction::SaveStartup(p) => LoopActionView::SaveStartup(p@),
            LoopAction::PollCore => LoopActionView::PollCore,
            LoopAction::KillTray => LoopActionView::KillTray,
            LoopAction::Sleep => LoopActionView::Sleep,
            LoopAction::Exit => LoopActionView::Exit,
            LoopAction::Fail => LoopActionView::Fail,
            LoopAction::Idle => LoopActionView::Idle,
        }
    }
}

// ---------------------------------------------------------------------------
// The transition function
// ---------------------------------------------------------------------------

pub open spec fn phase_to(s: LoopView, phase: LoopPhase) -> LoopView {
    LoopView { phase, ..s }
}

/// The end of a pass: sleep, then the next pass.
pub open spec fn end_of_pass(s: LoopView) -> (LoopView, LoopActionView) {
    (phase_to(s, LoopPhase::Top), LoopActionView::Sleep)
}

/// After the engine was looked at: look at the tray once more, if there is one.
pub open spec fn tray_again(s: LoopView) -> (LoopView, LoopActionView) {
    if s.tray_running {
        (phase_to(s, LoopPhase::PollingTrayAgain), LoopActionView::PollTray)
    } else {
        end_of_pass(s)
    }
}

/// After the wallpaper decision: look at the engine, if it runs.
pub open spec fn core_check(s: LoopView) -> (LoopView, LoopActionView) {
    if s.core_running {
        (phase_to(s, LoopPhase::PollingCore), LoopActionView::PollCore)
    } else {
        tray_again(s)
    }
}

/// Start the engine with `w`; for a wallpaper whose still picture was not
/// the last one asked for (a new selection), ask for its still picture first.
pub open spec fn start_or_still(s: LoopView, w: Seq<char>) -> (LoopView, LoopActionView) {
    if s.still != Some(w) {
        (
            LoopView { still: Some(w), phase: LoopPhase::MakingStill, ..s },
            LoopActionView::MakeStill(w),
        )
    } else {
        (phase_to(s, LoopPhase::StartingCore), LoopActionView::StartCore(w))
    }
}

/// Switch to `s.next` unless it is already the current wallpaper.
pub open spec fn switch_decision(s: LoopView) -> (LoopView, LoopActionView) {
    match s.next {
        Some(w) => if s.current != Some(w) {
            if s.core_running {
                (
                    LoopView {
                        core_running: false,
                        tray_running: false,
                        phase: LoopPhase::StoppingCore,
                        ..s
                    },
                    LoopActionView::StopCoreForSwitch,
                )
            } else {
                start_or_still(s, w)
            }
        } else {
            core_check(s)
        },
        None => core_check(s),
    }
}

/// The request the loop is waiting on in its current phase.
pub open spec fn pending_loop_action(s: LoopView) -> LoopActionView {
    match s.phase {
        LoopPhase::Top => LoopActionView::Sleep,
        LoopPhase::SpawningTray => LoopActionView::SpawnTray,
        LoopPhase::PollingTray => LoopActionView::PollTray,
        LoopPhase::CheckingForeground => LoopActionView::CheckForeground,
        LoopPhase::PostingOpenGui => LoopActionView::PostOpenGui,
        LoopPhase::ReadingPipe => LoopActionView::ReadPipe,
        LoopPhase::StoppingCore => LoopActionView::StopCoreForSwitch,
        LoopPhase::MakingStill => match s.still {
            Some(w) => LoopActionView::MakeStill(w),
            None => LoopActionView::Fail,
        },
        LoopPhase::StartingCore => match s.next {
            Some(w) => LoopActionView::StartCore(w),
            None => LoopActionView::Fail,
        },
        LoopPhase::SavingStartup => match s.current {
            Some(w) => LoopActionView::SaveStartup(w),
            None => LoopActionView::Fail,
        },
        LoopPhase::PollingCore => LoopActionView::PollCore,
        LoopPhase::KillingTray => LoopActionView::KillTray,
        LoopPhase::PollingTrayAgain => LoopActionView::PollTray,
        LoopPhase::Finished => LoopActionView::Idle,
    }
}

/// One step of the loop: the next state and request, given the answer `e` to
/// the pending request. An answer that does not fit the pending request
/// changes nothing and repeats the request.
pub open spec fn loop_step(s: LoopView, e: LoopEventView) -> (LoopView, LoopActionView) {
    match (s.phase, e) {
        (LoopPhase::Top, LoopEventView::Tick { hard_crash }) => {
            if s.crash_count > MAX_ENGINE_CRASHES || hard_crash {
                (
                    LoopView {
                        core_running: false,
                        tray_running: false,
                        phase: LoopPhase::Finished,
                        ..s
                    },
                    LoopActionView::Shutdown,
                )
            } else if !s.tray_running {
                (
                    LoopView { next: None, phase: LoopPhase::SpawningTray, ..s },
                    LoopActionView::SpawnTray,
                )
            } else {
                (
                    LoopView { next: None, phase: LoopPhase::PollingTray, ..s },
                    LoopActionView::PollTray,
                )
            }
        },
        (LoopPhase::SpawningTray, LoopEventView::TraySpawned(ok)) => {
            if ok {
                (
                    LoopView { tray_running: true, phase: LoopPhase::PollingTray, ..s },
                    LoopActionView::PollTray,
                )
            } else {
                (phase_to(s, LoopPhase::CheckingForeground), LoopActionView::CheckForeground)
            }
        },
        (LoopPhase::PollingTray, LoopEventView::TrayPolled(st)) => match st {
            ChildStatus::Running => (
                phase_to(s, LoopPhase::CheckingForeground),
                LoopActionView::CheckForeground,
            ),
            ChildStatus::ExitedSuccess => (
                LoopView { tray_running: false, phase: LoopPhase::Finished, ..s },
                LoopActionView::Exit,
            ),
            ChildStatus::ExitedFailure => (
                LoopView { tray_running: false, phase: LoopPhase::CheckingForeground, ..s },
                LoopActionView::CheckForeground,
            ),
        },
        (LoopPhase::CheckingForeground, LoopEventView::Foreground { zoomed }) => {
            if zoomed && s.core_running {
                (
                    LoopView { core_running: false, crash: true, phase: LoopPhase::Top, ..s },
                    LoopActionView::KillCoreAndRestart,
                )
            } else if zoomed && s.crash {
                // the engine stays stopped while the window is maximized; the
                // GUI's commands wait in the pipe
                tray_again(s)
            } else if s.crash {
                match s.current {
                    Some(w) => if !is_blank(w) {
                        (
                            LoopView {
                                crash: false,
                                current: None,
                                next: Some(w),
                                phase: LoopPhase::ReadingPipe,
                                ..s
                            },
                            LoopActionView::ReadPipe,
                        )
                    } else {
                        (
                            LoopView {
                                crash: false,
                                current: None,
                                phase: LoopPhase::PostingOpenGui,
                                ..s
                            },
                            LoopActionView::PostOpenGui,
                        )
                    },
                    None => (
                        LoopView { crash: false, phase: LoopPhase::ReadingPipe, ..s },
                        LoopActionView::ReadPipe,
                    ),
                }
            } else {
                (phase_to(s, LoopPhase::ReadingPipe), LoopActionView::ReadPipe)
            }
        },
        (LoopPhase::PostingOpenGui, LoopEventView::Done) => (
            phase_to(s, LoopPhase::ReadingPipe),
            LoopActionView::ReadPipe,
        ),
        (LoopPhase::ReadingPipe, LoopEventView::Pipe(p)) => {
            let s1 = LoopView {
                next: match p {
                    Some(w) => Some(w),
                    None => s.next,
                },
                ..s
            };
            switch_decision(s1)
        },
        (LoopPhase::StoppingCore, LoopEventView::Done) => match s.next {
            Some(w) => start_or_still(s, w),
            None => (phase_to(s, LoopPhase::Finished), LoopActionView::Fail),
        },
        (LoopPhase::MakingStill, LoopEventView::Done) => match s.next {
            Some(w) => (phase_to(s, LoopPhase::StartingCore), LoopActionView::StartCore(w)),
            None => (phase_to(s, LoopPhase::Finished), LoopActionView::Fail),
        },
        (LoopPhase::StartingCore, LoopEventView::CoreStarted(ok)) => {
            if !ok {
                (phase_to(s, LoopPhase::Finished), LoopActionView::Fail)
            } else {
                match s.next {
                    Some(w) => (
                        LoopView {
                            core_running: true,
                            current: Some(w),
                            phase: LoopPhase::SavingStartup,
                            ..s
                        },
                        LoopActionView::SaveStartup(w),
                    ),
                    None => (phase_to(s, LoopPhase::Finished), LoopActionView::Fail),
                }
            }
        },
        (LoopPhase::SavingStartup, LoopEventView::Done) => core_check(s),
        (LoopPhase::PollingCore, LoopEventView::CorePolled(st)) => match st {
            ChildStatus::Running => tray_again(s),
            ChildStatus::ExitedSuccess => (
                LoopView {
                    core_running: false,
                    tray_running: false,
                    phase: LoopPhase::Finished,
                    ..s
                },
                LoopActionView::Exit,
            ),
            ChildStatus::ExitedFailure => (
                LoopView {
                    core_running: false,
                    crash: true,
                    crash_count: s.crash_count + 1,
                    tray_running: false,
                    phase: LoopPhase::KillingTray,
                    ..s
                },
                LoopActionView::KillTray,
            ),
        },
        (LoopPhase::KillingTray, LoopEventView::Done) => tray_again(s),
        (LoopPhase::PollingTrayAgain, LoopEventView::TrayPolled(st)) => match st {
            ChildStatus::Running => end_of_pass(s),
            ChildStatus::ExitedSuccess => (
                LoopView { tray_running: false, phase: LoopPhase::Finished, ..s },
                LoopActionView::Exit,
            ),
            ChildStatus::ExitedFailure => end_of_pass(LoopView { tray_running: false, ..s }),
        },
        _ => (s, pending_loop_action(s)),
    }
}

/// The crash counter can only grow past the limit on the step that ends a
/// pass with an engine failure; it is at most one above the limit.
pub open spec fn loop_wf(s: LoopView) -> bool {
    &&& s.crash_count <= MAX_ENGINE_CRASHES + 1
    &&& s.phase != LoopPhase::Top && s.phase != LoopPhase::Finished
        ==> s.crash_count <= MAX_ENGINE_CRASHES
        || s.phase == LoopPhase::KillingTray || s.phase == LoopPhase::PollingTrayAgain
    &&& (s.phase == LoopPhase::StoppingCore || s.phase == LoopPhase::MakingStill || s.phase
        == LoopPhase::StartingCore) ==> (s.next is Some && s.current != s.next)
    &&& (s.phase == LoopPhase::MakingStill || s.phase == LoopPhase::StartingCore) ==> s.still
        == s.next
    &&& s.phase == LoopPhase::SavingStartup ==> s.current is Some
    &&& s.current is Some && s.phase != LoopPhase::MakingStill && s.phase != LoopPhase::StartingCore
        && s.phase != LoopPhase::Finished ==> s.still == s.current
}

// ---------------------------------------------------------------------------
// The executable machine
// ---------------------------------------------------------------------------

fn clone_opt(s: &Option<String>) -> (r: Option<String>)
    ensures
        opt_text(r) == opt_text(*s),
{
    match s {
        Some(x) => Some(x.clone()),
        None => None,
    }
}

fn same_text(a: &Option<String>, b: &str) -> (r: bool)
    ensures
        r == (opt_text(*a) == Some(b@)),
{
    match a {
        Some(x) => equal_strs(x.as_str(), b),
        None => false,
    }
}

impl ClientLoop {
    /// The loop's state before its first pass: `current_wallpaper` is the
    /// wallpaper the engine was started with, if it was.
    pub fn new(current_wallpaper: Option<String>) -> (r: ClientLoop)
        ensures
            r@ == (LoopView {
                core_running: current_wallpaper is Some,
                tray_running: false,
                current: opt_text(current_wallpaper),
                next: None,
                still: opt_text(current_wallpaper),
                crash: false,
                crash_count: 0,
                phase: LoopPhase::Top,
            }),
            loop_wf(r@),
    {
        let core_running = current_wallpaper.is_some();
        let still_wallpaper = clone_opt(&current_wallpaper);
        ClientLoop {
            core_running,
            tray_running: false,
            current_wallpaper,
            next_wallpaper: None,
            still_wallpaper,
            ranami_crash: false,
            crash_count: 0,
            phase: LoopPhase::Top,
        }
    }

    /// The request the loop is waiting on.
    pub fn pending(&self) -> (a: LoopAction)
        ensures
            a@ == pending_loop_action(self@),
    {
        match self.phase {
            LoopPhase::Top => LoopAction::Sleep,
            LoopPhase::SpawningTray => LoopAction::SpawnTray,
            LoopPhase::PollingTray => LoopAction::PollTray,
            LoopPhase::CheckingForeground => LoopAction::CheckForeground,
            LoopPhase::PostingOpenGui => LoopAction::PostOpenGui,
            LoopPhase::ReadingPipe => LoopAction::ReadPipe,
            LoopPhase::StoppingCore => LoopAction::StopCoreForSwitch,
            LoopPhase::MakingStill => match &self.still_wallpaper {
                Some(w) => LoopAction::MakeStill(w.clone()),
                None => LoopAction::Fail,
            },
            LoopPhase::StartingCore => match &self.next_wallpaper {
                Some(w) => LoopAction::StartCore(w.clone()),
                None => LoopAction::Fail,
            },
            LoopPhase::SavingStartup => match &self.current_wallpaper {
                Some(w) => LoopAction::SaveStartup(w.clone()),
                None => LoopAction::Fail,
            },
            LoopPhase::PollingCore => LoopAction::PollCore,
            LoopPhase::KillingTray => LoopAction::KillTray,
            LoopPhase::PollingTrayAgain => LoopAction::PollTray,
            LoopPhase::Finished => LoopAction::Idle,
        }
    }

    fn tray_again(&mut self) -> (a: LoopAction)
        ensures
            (final(self)@, a@) == tray_again(old(self)@),
    {
        if self.tray_running {
            self.phase = LoopPhase::PollingTrayAgain;
            LoopAction::PollTray
        } else {
            self.phase = LoopPhase::Top;
            LoopAction::Sleep
        }
    }

    fn core_check(&mut self) -> (a: LoopAction)
        ensures
            (final(self)@, a@) == core_check(old(self)@),
    {
        if self.core_running {
            self.phase = LoopPhase::PollingCore;
            LoopAction::PollCore
        } else {
            self.tray_again()
        }
    }

    fn start_or_still(&mut self, w: String) -> (a: LoopAction)
        ensures
            (final(self)@, a@) == start_or_still(old(self)@, w@),
    {
        if !same_text(&self.still_wallpaper, w.as_str()) {
            self.still_wallpaper = Some(w.clone());
            self.phase = LoopPhase::MakingStill;
            LoopAction::MakeStill(w)
        } else {
            self.phase = LoopPhase::StartingCore;
            LoopAction::StartCore(w)
        }
    }

    fn switch_decision(&mut self) -> (a: LoopAction)
        ensures
            (final(self)@, a@) == switch_decision(old(self)@),
    {
        match &self.next_wallpaper {
            Some(w) => {
                if !same_text(&self.current_wallpaper, w.as_str()) {
                    if self.core_running {
                        self.core_running = false;
                        self.tray_running = false;
                        self.phase = LoopPhase::StoppingCore;
                        LoopAction::StopCoreForSwitch
                    } else {
                        let w2 = w.clone();
                        self.start_or_still(w2)
                    }
                } else {
                    self.core_check()
                }
            },
            None => self.core_check(),
        }
    }

    /// Takes the answer to the pending request and gives the next request.
    pub fn step(&mut self, event: LoopEvent) -> (a: LoopAction)
        requires
            loop_wf(old(self)@),
        ensures
            (final(self)@, a@) == loop_step(old(self)@, event@),
            loop_wf(final(self)@),
    {
        let ghost e = event@;
        proof {
            lemma_loop_step_keeps_wf(self@, e);
        }
        match (self.phase, event) {
            (LoopPhase::Top, LoopEvent::Tick { hard_crash }) => {
                if self.crash_count > MAX_ENGINE_CRASHES || hard_crash {
                    self.core_running = false;
                    self.tray_running = false;
                    self.phase = LoopPhase::Finished;
                    LoopAction::Shutdown
                } else if !self.tray_running {
                    self.next_wallpaper = None;
                    self.phase = LoopPhase::SpawningTray;
                    LoopAction::SpawnTray
                } else {
                    self.next_wallpaper = None;
                    self.phase = LoopPhase::PollingTray;
                    LoopAction::PollTray
                }
            },
            (LoopPhase::SpawningTray, LoopEvent::TraySpawned(ok)) => {
                if ok {
                    self.tray_running = true;
                    self.phase = LoopPhase::PollingTray;
                    LoopAction::PollTray
                } else {
                    self.phase = LoopPhase::CheckingForeground;
                    LoopAction::CheckForeground
                }
            },
            (LoopPhase::PollingTray, LoopEvent::TrayPolled(st)) => match st {
                ChildStatus::Running => {
                    self.phase = LoopPhase::CheckingForeground;
                    LoopAction::CheckForeground
                },
                ChildStatus::ExitedSuccess => {
                    self.tray_running = false;
                    self.phase = LoopPhase::Finished;
                    LoopAction::Exit
                },
                ChildStatus::ExitedFailure => {
                    self.tray_running = false;
                    self.phase = LoopPhase::CheckingForeground;
                    LoopAction::CheckForeground
                },
            },
            (LoopPhase::CheckingForeground, LoopEvent::Foreground { zoomed }) => {
                if zoomed && self.core_running {
                    self.core_running = false;
                    self.ranami_crash = true;
                    self.phase = LoopPhase::Top;
                    LoopAction::KillCoreAndRestart
                } else if zoomed && self.ranami_crash {
                    self.tray_again()
                } else if self.ranami_crash {
                    self.ranami_crash = false;
                    match self.current_wallpaper.take() {
                        Some(w) => {
                            let v = chars_of(w.as_str());
                            if !is_blank_chars(v.as_slice()) {
                                self.next_wallpaper = Some(w);
                                self.phase = LoopPhase::ReadingPipe;
                                LoopAction::ReadPipe
                            } else {
                                self.phase = LoopPhase::PostingOpenGui;
                                LoopAction::PostOpenGui
                            }
                        },
                        None => {
                            self.phase = LoopPhase::ReadingPipe;
                            LoopAction::ReadPipe
                        },
                    }
                } else {
                    self.phase = LoopPhase::ReadingPipe;
                    LoopAction::ReadPipe
                }
            },
            (LoopPhase::PostingOpenGui, LoopEvent::Done) => {
                self.phase = LoopPhase::ReadingPipe;
                LoopAction::ReadPipe
            },
            (LoopPhase::ReadingPipe, LoopEvent::Pipe(p)) => {
                if let Some(w) = p {
                    self.next_wallpaper = Some(w);
                }
                self.switch_decision()
            },
            (LoopPhase::StoppingCore, LoopEvent::Done) => match &self.next_wallpaper {
                Some(w) => {
                    let w2 = w.clone();
                    self.start_or_still(w2)
                },
                None => {
                    self.phase = LoopPhase::Finished;
                    LoopAction::Fail
                },
            },
            (LoopPhase::MakingStill, LoopEvent::Done) => match &self.next_wallpaper {
                Some(w) => {
                    let w2 = w.clone();
                    self.phase = LoopPhase::StartingCore;
                    LoopAction::StartCore(w2)
                },
                None => {
                    self.phase = LoopPhase::Finished;
                    LoopAction::Fail
                },
            },
            (LoopPhase::StartingCore, LoopEvent::CoreStarted(ok)) => {
                if !ok {
                    self.phase = LoopPhase::Finished;
                    LoopAction::Fail
                } else {
                    match clone_opt(&self.next_wallpaper) {
                        Some(w) => {
                            let w2 = w.clone();
                            self.core_running = true;
                            self.current_wallpaper = Some(w);
                            self.phase = LoopPhase::SavingStartup;
                            LoopAction::SaveStartup(w2)
                        },
                        None => {
                            self.phase = LoopPhase::Finished;
                            LoopAction::Fail
                        },
                    }
                }
            },
            (LoopPhase::SavingStartup, LoopEvent::Done) => self.core_check(),
            (LoopPhase::PollingCore, LoopEvent::CorePolled(st)) => match st {
                ChildStatus::Running => self.tray_again(),
                ChildStatus::ExitedSuccess => {
                    self.core_running = false;
                    self.tray_running = false;
                    self.phase = LoopPhase::Finished;
                    LoopAction::Exit
                },
                ChildStatus::ExitedFailure => {
                    self.core_running = false;
                    self.ranami_crash = true;
                    self.crash_count = self.crash_count + 1;
                    self.tray_running = false;
                    self.phase = LoopPhase::KillingTray;
                    LoopAction::KillTray
                },
            },
            (LoopPhase::KillingTray, LoopEvent::Done) => self.tray_again(),
            (LoopPhase::PollingTrayAgain, LoopEvent::TrayPolled(st)) => match st {
                ChildStatus::Running => {
                    self.phase = LoopPhase::Top;
                    LoopAction::Sleep
                },
                ChildStatus::ExitedSuccess => {
                    self.tray_running = false;
                    self.phase = LoopPhase::Finished;
                    LoopAction::Exit
                },
                ChildStatus::ExitedFailure => {
                    self.tray_running = false;
                    self.phase = LoopPhase::Top;
                    LoopAction::Sleep
                },
            },
            _ => self.pending(),
        }
    }
}

// ---------------------------------------------------------------------------
// What every run of the loop keeps
// ---------------------------------------------------------------------------

/// Every step keeps the loop well formed; the crash counter never goes down
/// and grows by at most one, and only when the engine exits with a failure.
pub proof fn lemma_loop_step_keeps_wf(s: LoopView, e: LoopEventView)
    requires
        loop_wf(s),
    ensures
        loop_wf(loop_step(s, e).0),
        s.crash_count <= loop_step(s, e).0.crash_count <= s.crash_count + 1,
        loop_step(s, e).0.crash_count == s.crash_count + 1 ==> s.phase == LoopPhase::PollingCore
            && e == LoopEventView::CorePolled(ChildStatus::ExitedFailure),
{
}

/// A pass that starts with more than `MAX_ENGINE_CRASHES` crashes, or with
/// the hard-crash flag set, shuts everything down.
pub proof fn lemma_too_many_crashes_shut_down(s: LoopView, hard_crash: bool)
    requires
        s.phase == LoopPhase::Top,
        s.crash_count > MAX_ENGINE_CRASHES || hard_crash,
    ensures
        loop_step(s, LoopEventView::Tick { hard_crash }).1 == LoopActionView::Shutdown,
        loop_step(s, LoopEventView::Tick { hard_crash }).0.phase == LoopPhase::Finished,
{
}

/// The engine is only started with a wallpaper other than the current one,
/// and once started that wallpaper becomes current and is saved for the
/// next launch.
pub proof fn lemma_start_only_new_wallpaper(s: LoopView, e: LoopEventView, w: Seq<char>)
    requires
        loop_wf(s),
    ensures
        loop_step(s, e).1 == LoopActionView::StartCore(w) ==> s.current != Some(w)
            && loop_step(s, e).0.next == Some(w),
        (s.phase == LoopPhase::StartingCore && e == LoopEventView::CoreStarted(true) && s.next
            == Some(w)) ==> loop_step(s, e).0.current == Some(w) && loop_step(s, e).1
            == LoopActionView::SaveStartup(w),
{
}

/// The last wallpaper is remembered: once the engine starts with `w`, `w`
/// is saved for the next launch, which starts the engine with it again
/// while its file exists (a blank path opens the GUI instead).
pub proof fn lemma_started_wallpaper_is_restored(s: LoopView, w: Seq<char>)
    requires
        s.phase == LoopPhase::StartingCore,
        s.next == Some(w),
    ensures
        loop_step(s, LoopEventView::CoreStarted(true)).1 == LoopActionView::SaveStartup(w),
        !is_blank(w) ==> startup_decision(Some(w), true) == StartupView::StartEngine(w),
        is_blank(w) ==> startup_decision(Some(w), true) == StartupView::OpenGui,
        startup_decision(Some(w), false) == StartupView::OpenGui,
{
}

/// A wallpaper the GUI sends that is already showing restarts nothing.
pub proof fn lemma_same_wallpaper_is_not_restarted(s: LoopView, w: Seq<char>)
    requires
        s.phase == LoopPhase::ReadingPipe,
        s.current == Some(w),
    ensures
        !(loop_step(s, LoopEventView::Pipe(Some(w))).1 is StartCore),
        !(loop_step(s, LoopEventView::Pipe(Some(w))).1 is StopCoreForSwitch),
{
}

/// A different wallpaper from the GUI replaces the running engine: it is
/// stopped first, then started with the new wallpaper.
pub proof fn lemma_new_wallpaper_is_switched_to(s: LoopView, w: Seq<char>)
    requires
        loop_wf(s),
        s.phase == LoopPhase::ReadingPipe,
        s.current != Some(w),
    ensures
        s.core_running ==> ({
            let (s1, a1) = loop_step(s, LoopEventView::Pipe(Some(w)));
            &&& a1 == LoopActionView::StopCoreForSwitch
            &&& starts_after_still(s1, w)
        }),
        !s.core_running ==> ({
            let (s1, a1) = loop_step(s, LoopEventView::Pipe(Some(w)));
            &&& (if s.still != Some(w) {
                a1 == LoopActionView::MakeStill(w) && loop_step(s1, LoopEventView::Done).1
                    == LoopActionView::StartCore(w)
            } else {
                a1 == LoopActionView::StartCore(w)
            })
        }),
{
}

/// From `s`, answering `Done` starts the engine with `w`, after asking for
/// the still picture of `w` when it was not the last one asked for.
pub open spec fn starts_after_still(s: LoopView, w: Seq<char>) -> bool {
    let (s2, a2) = loop_step(s, LoopEventView::Done);
    if s.still != Some(w) {
        a2 == LoopActionView::MakeStill(w) && loop_step(s2, LoopEventView::Done).1
            == LoopActionView::StartCore(w)
    } else {
        a2 == LoopActionView::StartCore(w)
    }
}

/// The still desktop picture is asked for only for a newly selected
/// wallpaper: never for the one whose picture was asked for last, so not
/// when the same wallpaper is started again after a crash or a maximized
/// window. The engine is started with that wallpaper right after. (While
/// the request is pending, an answer that does not fit repeats it.)
pub proof fn lemma_still_only_for_new_selection(s: LoopView, e: LoopEventView, w: Seq<char>)
    requires
        loop_wf(s),
        s.phase != LoopPhase::MakingStill,
        loop_step(s, e).1 == LoopActionView::MakeStill(w),
    ensures
        s.still != Some(w),
        s.current != Some(w),
        loop_step(s, e).0.still == Some(w),
        loop_step(loop_step(s, e).0, LoopEventView::Done).1 == LoopActionView::StartCore(w),
{
}

/// A maximized window in front of a running engine stops the engine and
/// starts the pass over, counting no crash and keeping the current
/// wallpaper.
pub proof fn lemma_maximized_window_stops_engine(s: LoopView)
    requires
        s.phase == LoopPhase::CheckingForeground,
        s.core_running,
    ensures
        ({
            let (s1, a1) = loop_step(s, LoopEventView::Foreground { zoomed: true });
            &&& a1 == LoopActionView::KillCoreAndRestart
            &&& !s1.core_running
            &&& s1.crash
            &&& s1.crash_count == s.crash_count
            &&& s1.current == s.current
            &&& s1.phase == LoopPhase::Top
        }),
{
}

/// While the window stays maximized the stopped engine stays stopped: the
/// pass only looks after the tray and ends, without reading the pipe or
/// starting anything, and the wallpaper to restore is kept.
pub proof fn lemma_maximized_window_keeps_engine_stopped(s: LoopView)
    requires
        s.phase == LoopPhase::CheckingForeground,
        !s.core_running,
        s.crash,
    ensures
        ({
            let (s1, a1) = loop_step(s, LoopEventView::Foreground { zoomed: true });
            &&& a1 == LoopActionView::PollTray || a1 == LoopActionView::Sleep
            &&& s1 == LoopView { phase: s1.phase, ..s }
            &&& s1.phase == LoopPhase::PollingTrayAgain || s1.phase == LoopPhase::Top
            &&& s1.phase == LoopPhase::PollingTrayAgain ==> ({
                let (s2, a2) = loop_step(s1, LoopEventView::TrayPolled(ChildStatus::Running));
                &&& a2 == LoopActionView::Sleep
                &&& s2 == LoopView { phase: LoopPhase::Top, ..s }
            })
        }),
{
}

/// After an engine crash, or once a maximized window is no longer in front,
/// the same wallpaper is started again (when it is not blank and the GUI
/// sent nothing new).
pub proof fn lemma_crash_restarts_wallpaper(s: LoopView, w: Seq<char>)
    requires
        loop_wf(s),
        s.phase == LoopPhase::CheckingForeground,
        s.crash,
        !s.core_running,
        s.current == Some(w),
        !is_blank(w),
    ensures
        ({
            let (s1, a1) = loop_step(s, LoopEventView::Foreground { zoomed: false });
            &&& a1 == LoopActionView::ReadPipe
            &&& !s1.crash
            &&& loop_step(s1, LoopEventView::Pipe(None)).1 == LoopActionView::StartCore(w)
        }),
{
}

/// A tray that exits with a failure never ends the loop: it is forgotten,
/// the pass goes on (to the foreground check, or to the pause before the
/// next pass), and the next pass spawns a new tray. Only a tray that exits
/// successfully ends the loop.
pub proof fn lemma_failed_tray_is_respawned(s: LoopView, hard_crash: bool)
    requires
        loop_wf(s),
        s.phase == LoopPhase::PollingTray || s.phase == LoopPhase::PollingTrayAgain,
    ensures
        ({
            let (s1, a1) = loop_step(s, LoopEventView::TrayPolled(ChildStatus::ExitedFailure));
            &&& a1 != LoopActionView::Exit
            &&& s1.phase != LoopPhase::Finished
            &&& !s1.tray_running
            &&& s1 == LoopView { tray_running: false, phase: s1.phase, ..s }
            &&& s.phase == LoopPhase::PollingTray ==> a1 == LoopActionView::CheckForeground
            &&& s.phase == LoopPhase::PollingTrayAgain ==> a1 == LoopActionView::Sleep && ({
                let (s2, a2) = loop_step(s1, LoopEventView::Tick { hard_crash });
                (s.crash_count <= MAX_ENGINE_CRASHES && !hard_crash) ==> a2
                    == LoopActionView::SpawnTray
            })
        }),
        loop_step(s, LoopEventView::TrayPolled(ChildStatus::ExitedSuccess)).1 == LoopActionView::Exit,
        loop_step(s, LoopEventView::TrayPolled(ChildStatus::Running)).1 != LoopActionView::Exit,
{
}

/// An engine that exits cleanly ends the loop; one that fails counts as a
/// crash.
pub proof fn lemma_engine_exit(s: LoopView)
    requires
        s.phase == LoopPhase::PollingCore,
    ensures
        loop_step(s, LoopEventView::CorePolled(ChildStatus::ExitedSuccess)).1
            == LoopActionView::Exit,
        ({
            let (s1, a1) = loop_step(s, LoopEventView::CorePolled(ChildStatus::ExitedFailure));
            &&& a1 == LoopActionView::KillTray
            &&& s1.crash
            &&& s1.crash_count == s.crash_count + 1
            &&& !s1.core_running
        }),
{
}

} // verus!
