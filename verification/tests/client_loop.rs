use ranami_wallpapers::client_loop::{ChildStatus, ClientLoop, LoopAction, LoopEvent, LoopPhase, MAX_ENGINE_CRASHES};

fn s(x: &str) -> String {
    x.to_string()
}

/// Runs the start of a pass with a living tray (spawning one if needed) and
/// no maximized window; gives the action after the foreground check.
fn begin_pass(l: &mut ClientLoop, zoomed: bool) -> LoopAction {
    let a = l.step(LoopEvent::Tick { hard_crash: false });
    let a = match a {
        LoopAction::SpawnTray => l.step(LoopEvent::TraySpawned(true)),
        other => other,
    };
    assert!(matches!(a, LoopAction::PollTray), "{a:?}");
    let a = l.step(LoopEvent::TrayPolled(ChildStatus::Running));
    assert!(matches!(a, LoopAction::CheckForeground));
    l.step(LoopEvent::Foreground { zoomed })
}

#[test]
fn quiet_pass_polls_and_sleeps() {
    let mut l = ClientLoop::new(Some(s("C:\\v\\a.mp4")));
    assert!(matches!(l.pending(), LoopAction::Sleep));
    assert!(matches!(begin_pass(&mut l, false), LoopAction::ReadPipe));
    assert!(matches!(l.step(LoopEvent::Pipe(None)), LoopAction::PollCore));
    assert!(matches!(l.step(LoopEvent::CorePolled(ChildStatus::Running)), LoopAction::PollTray));
    assert!(matches!(l.step(LoopEvent::TrayPolled(ChildStatus::Running)), LoopAction::Sleep));
    assert_eq!(l.phase, LoopPhase::Top);
    assert_eq!(l.crash_count, 0);
}

#[test]
fn new_wallpaper_from_gui_replaces_engine() {
    let mut l = ClientLoop::new(Some(s("C:\\v\\a.mp4")));
    begin_pass(&mut l, false);
    assert!(matches!(l.step(LoopEvent::Pipe(Some(s("C:\\v\\b.mp4")))), LoopAction::StopCoreForSwitch));
    match l.step(LoopEvent::Done) {
        LoopAction::MakeStill(p) => assert_eq!(p, "C:\\v\\b.mp4"),
        other => panic!("unexpected {other:?}"),
    }
    match l.step(LoopEvent::Done) {
        LoopAction::StartCore(p) => assert_eq!(p, "C:\\v\\b.mp4"),
        other => panic!("unexpected {other:?}"),
    }
    match l.step(LoopEvent::CoreStarted(true)) {
        LoopAction::SaveStartup(p) => assert_eq!(p, "C:\\v\\b.mp4"),
        other => panic!("unexpected {other:?}"),
    }
    assert_eq!(l.current_wallpaper, Some(s("C:\\v\\b.mp4")));
    assert!(matches!(l.step(LoopEvent::Done), LoopAction::PollCore));
    // the tray was stopped with the old engine, so the pass ends without it
    assert!(matches!(l.step(LoopEvent::CorePolled(ChildStatus::Running)), LoopAction::Sleep));
    assert!(matches!(l.step(LoopEvent::Tick { hard_crash: false }), LoopAction::SpawnTray));
}

#[test]
fn same_wallpaper_from_gui_restarts_nothing() {
    let mut l = ClientLoop::new(Some(s("C:\\v\\a.mp4")));
    begin_pass(&mut l, false);
    assert!(matches!(l.step(LoopEvent::Pipe(Some(s("C:\\v\\a.mp4")))), LoopAction::PollCore));
}

#[test]
fn first_wallpaper_starts_engine() {
    let mut l = ClientLoop::new(None);
    assert!(!l.core_running);
    begin_pass(&mut l, true);
    match l.step(LoopEvent::Pipe(Some(s("C:\\v\\a.mp4")))) {
        LoopAction::MakeStill(p) => assert_eq!(p, "C:\\v\\a.mp4"),
        other => panic!("unexpected {other:?}"),
    }
    match l.step(LoopEvent::Done) {
        LoopAction::StartCore(p) => assert_eq!(p, "C:\\v\\a.mp4"),
        other => panic!("unexpected {other:?}"),
    }
    assert!(matches!(l.step(LoopEvent::CoreStarted(false)), LoopAction::Fail));
    assert!(matches!(l.pending(), LoopAction::Idle));
}

#[test]
fn crash_restarts_same_wallpaper() {
    let mut l = ClientLoop::new(Some(s("C:\\v\\a.mp4")));
    begin_pass(&mut l, false);
    l.step(LoopEvent::Pipe(None));
    assert!(matches!(l.step(LoopEvent::CorePolled(ChildStatus::ExitedFailure)), LoopAction::KillTray));
    assert_eq!(l.crash_count, 1);
    assert!(matches!(l.step(LoopEvent::Done), LoopAction::Sleep));
    assert!(matches!(begin_pass(&mut l, false), LoopAction::ReadPipe));
    match l.step(LoopEvent::Pipe(None)) {
        LoopAction::StartCore(p) => assert_eq!(p, "C:\\v\\a.mp4"),
        other => panic!("unexpected {other:?}"),
    }
}

#[test]
fn crash_with_blank_wallpaper_opens_gui() {
    let mut l = ClientLoop::new(Some(s("  ")));
    begin_pass(&mut l, false);
    l.step(LoopEvent::Pipe(None));
    l.step(LoopEvent::CorePolled(ChildStatus::ExitedFailure));
    l.step(LoopEvent::Done);
    assert!(matches!(begin_pass(&mut l, false), LoopAction::PostOpenGui));
    assert!(matches!(l.step(LoopEvent::Done), LoopAction::ReadPipe));
    assert_eq!(l.current_wallpaper, None);
}

#[test]
fn too_many_crashes_shut_down() {
    let mut l = ClientLoop::new(Some(s("C:\\v\\a.mp4")));
    for round in 1..=(MAX_ENGINE_CRASHES + 1) {
        let a = begin_pass(&mut l, false);
        let a = if round == 1 {
            a
        } else {
            assert!(matches!(a, LoopAction::ReadPipe));
            let a = l.step(LoopEvent::Pipe(None));
            assert!(matches!(a, LoopAction::StartCore(_)));
            l.step(LoopEvent::CoreStarted(true));
            l.step(LoopEvent::Done)
        };
        let a = if round == 1 { l.step(LoopEvent::Pipe(None)) } else { a };
        assert!(matches!(a, LoopAction::PollCore), "{a:?}");
        l.step(LoopEvent::CorePolled(ChildStatus::ExitedFailure));
        l.step(LoopEvent::Done);
        assert_eq!(l.crash_count, round);
    }
    assert!(matches!(l.step(LoopEvent::Tick { hard_crash: false }), LoopAction::Shutdown));
    assert!(matches!(l.pending(), LoopAction::Idle));
}

#[test]
fn hard_crash_shuts_down() {
    let mut l = ClientLoop::new(None);
    assert!(matches!(l.step(LoopEvent::Tick { hard_crash: true }), LoopAction::Shutdown));
}

#[test]
fn maximized_window_keeps_engine_stopped_until_restored() {
    let mut l = ClientLoop::new(Some(s("C:\\v\\a.mp4")));
    assert!(matches!(begin_pass(&mut l, true), LoopAction::KillCoreAndRestart));
    assert!(!l.core_running);
    // still maximized: the pass only looks after the tray, nothing starts
    for _ in 0..3 {
        assert!(matches!(begin_pass(&mut l, true), LoopAction::PollTray));
        assert!(matches!(l.step(LoopEvent::TrayPolled(ChildStatus::Running)), LoopAction::Sleep));
        assert!(!l.core_running);
    }
    // the window is restored: the wallpaper comes back
    assert!(matches!(begin_pass(&mut l, false), LoopAction::ReadPipe));
    match l.step(LoopEvent::Pipe(None)) {
        LoopAction::StartCore(p) => assert_eq!(p, "C:\\v\\a.mp4"),
        other => panic!("unexpected {other:?}"),
    }
    assert_eq!(l.crash_count, 0);
}

#[test]
fn clean_exits_end_the_loop() {
    let mut l = ClientLoop::new(Some(s("C:\\v\\a.mp4")));
    begin_pass(&mut l, false);
    l.step(LoopEvent::Pipe(None));
    assert!(matches!(l.step(LoopEvent::CorePolled(ChildStatus::ExitedSuccess)), LoopAction::Exit));

    let mut l = ClientLoop::new(None);
    l.step(LoopEvent::Tick { hard_crash: false });
    l.step(LoopEvent::TraySpawned(true));
    assert!(matches!(l.step(LoopEvent::TrayPolled(ChildStatus::ExitedSuccess)), LoopAction::Exit));

    let mut l = ClientLoop::new(None);
    l.step(LoopEvent::Tick { hard_crash: false });
    assert!(matches!(l.step(LoopEvent::TraySpawned(false)), LoopAction::CheckForeground));
}

#[test]
fn wrong_answer_repeats_request() {
    let mut l = ClientLoop::new(None);
    assert!(matches!(l.step(LoopEvent::Done), LoopAction::Sleep));
    assert_eq!(l.phase, LoopPhase::Top);
}

#[test]
fn still_picture_only_for_a_new_selection() {
    // a -> b -> a: each is a new selection and gets its still picture
    let mut l = ClientLoop::new(Some(s("a.mp4")));
    for (w, _) in [("b.mp4", 0), ("a.mp4", 1)] {
        begin_pass(&mut l, false);
        assert!(matches!(l.step(LoopEvent::Pipe(Some(s(w)))), LoopAction::StopCoreForSwitch));
        match l.step(LoopEvent::Done) {
            LoopAction::MakeStill(p) => assert_eq!(p, w),
            other => panic!("unexpected {other:?}"),
        }
        assert!(matches!(l.step(LoopEvent::Done), LoopAction::StartCore(_)));
        assert!(matches!(l.step(LoopEvent::CoreStarted(true)), LoopAction::SaveStartup(_)));
        l.step(LoopEvent::Done);
        l.step(LoopEvent::CorePolled(ChildStatus::Running));
    }
    // a crash restarts "a.mp4" without a new still picture
    l.step(LoopEvent::Tick { hard_crash: false });
    l.step(LoopEvent::TraySpawned(true));
    l.step(LoopEvent::TrayPolled(ChildStatus::Running));
    l.step(LoopEvent::Foreground { zoomed: false });
    l.step(LoopEvent::Pipe(None));
    assert!(matches!(l.step(LoopEvent::CorePolled(ChildStatus::ExitedFailure)), LoopAction::KillTray));
    l.step(LoopEvent::Done);
    assert!(matches!(begin_pass(&mut l, false), LoopAction::ReadPipe));
    match l.step(LoopEvent::Pipe(None)) {
        LoopAction::StartCore(p) => assert_eq!(p, "a.mp4"),
        other => panic!("unexpected {other:?}"),
    }
}
