use ranami_wallpapers::still::{StillAction, StillError, StillEvent, StillJob, StillPhase};

const PICTURE: &str = "C:\\s\\ad6dd7af155def09_Ocean Waves.jpg";

fn start() -> StillJob {
    let (job, a) = StillJob::new("C:\\Videos\\Ocean Waves.mp4", "C:\\s");
    match a {
        StillAction::CheckCached(p) => assert_eq!(p, PICTURE),
        other => panic!("unexpected {other:?}"),
    }
    job
}

#[test]
fn cached_still_is_set_without_ffmpeg() {
    let mut j = start();
    match j.step(StillEvent::Exists(true)) {
        StillAction::SetDesktop(p) => assert_eq!(p, PICTURE),
        other => panic!("unexpected {other:?}"),
    }
    assert!(matches!(j.step(StillEvent::DesktopSet(true)), StillAction::Finished(Ok(()))));
    assert!(matches!(j.pending(), StillAction::Idle));
}

#[test]
fn missing_still_is_made_at_screen_size() {
    let mut j = start();
    assert!(matches!(j.step(StillEvent::Exists(false)), StillAction::ReadScreenSize));
    match j.step(StillEvent::ScreenSize(Ok((2560, 1440)))) {
        StillAction::RunFfmpeg { program, args } => {
            assert_eq!(program, "ffmpeg.exe");
            assert_eq!(args[4], "C:\\Videos\\Ocean Waves.mp4");
            assert_eq!(args[8], "scale=2560:1440:force_original_aspect_ratio=increase,crop=2560:1440");
            assert_eq!(args[11], PICTURE);
        }
        other => panic!("unexpected {other:?}"),
    }
    assert!(matches!(j.step(StillEvent::FfmpegFinished(Ok((true, Some(0))))), StillAction::CheckOutputExists(_)));
    assert!(matches!(j.step(StillEvent::OutputExists(true)), StillAction::SetDesktop(_)));
    match j.step(StillEvent::DesktopSet(false)) {
        StillAction::Finished(Err(StillError::DesktopNotSet { picture })) => assert_eq!(picture, PICTURE),
        other => panic!("unexpected {other:?}"),
    }
}

#[test]
fn failures_never_set_the_desktop() {
    let mut j = start();
    j.step(StillEvent::Exists(false));
    assert!(matches!(
        j.step(StillEvent::ScreenSize(Err("No screen found".to_string()))),
        StillAction::Finished(Err(StillError::ScreenSize { .. }))
    ));

    let mut j = start();
    j.step(StillEvent::Exists(false));
    j.step(StillEvent::ScreenSize(Ok((10, 10))));
    match j.step(StillEvent::FfmpegFinished(Ok((false, None)))) {
        StillAction::Finished(Err(StillError::FfmpegFailed { code, .. })) => assert_eq!(code, 2627),
        other => panic!("unexpected {other:?}"),
    }

    let mut j = start();
    j.step(StillEvent::Exists(false));
    j.step(StillEvent::ScreenSize(Ok((10, 10))));
    match j.step(StillEvent::FfmpegFinished(Ok((false, Some(1))))) {
        StillAction::Finished(Err(StillError::FfmpegFailed { code, .. })) => assert_eq!(code, 1),
        other => panic!("unexpected {other:?}"),
    }

    let mut j = start();
    j.step(StillEvent::Exists(false));
    j.step(StillEvent::ScreenSize(Ok((10, 10))));
    assert!(matches!(
        j.step(StillEvent::FfmpegFinished(Err("not found".to_string()))),
        StillAction::Finished(Err(StillError::FfmpegStart { .. }))
    ));

    let mut j = start();
    j.step(StillEvent::Exists(false));
    j.step(StillEvent::ScreenSize(Ok((10, 10))));
    j.step(StillEvent::FfmpegFinished(Ok((true, Some(0)))));
    assert!(matches!(
        j.step(StillEvent::OutputExists(false)),
        StillAction::Finished(Err(StillError::PictureMissing { .. }))
    ));
    assert_eq!(j.phase, StillPhase::Done);
    assert!(matches!(j.step(StillEvent::DesktopSet(true)), StillAction::Idle));
}
