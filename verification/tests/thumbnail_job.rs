use ranami_wallpapers::thumbnail::{FileMetadata, ThumbnailError};
use ranami_wallpapers::thumbnail_job::{
    load_or_create_thumbnail_path, ThumbnailAction, ThumbnailEvent, ThumbnailJob, ThumbnailPhase,
};

const VIDEO: &str = "C:\\Videos\\Ocean Waves.mp4";
const THUMB: &str = "C:\\Local\\RanamiWallpapers\\cache-wallpaper-thumbnails\\ocean-waves_ad6dd7af155def09.jpg";

fn start() -> ThumbnailJob {
    let (job, action) = load_or_create_thumbnail_path(VIDEO.to_string());
    assert!(matches!(action, ThumbnailAction::CheckVideoExists(ref v) if v == VIDEO));
    job
}

fn to_times(job: &mut ThumbnailJob) {
    assert!(matches!(job.step(ThumbnailEvent::VideoExists(true)), ThumbnailAction::ReadLocalAppData));
    match job.step(ThumbnailEvent::LocalAppData(Ok("C:\\Local".to_string()))) {
        ThumbnailAction::CreateCacheDir(d) => assert_eq!(d, "C:\\Local\\RanamiWallpapers\\cache-wallpaper-thumbnails"),
        other => panic!("unexpected {other:?}"),
    }
    match job.step(ThumbnailEvent::CacheDirCreated(None)) {
        ThumbnailAction::ReadFileTimes { video, thumbnail } => {
            assert_eq!(video, VIDEO);
            assert_eq!(thumbnail, THUMB);
        }
        other => panic!("unexpected {other:?}"),
    }
}

#[test]
fn fresh_preview_is_reused() {
    let mut job = start();
    to_times(&mut job);
    let a = job.step(ThumbnailEvent::FileTimes {
        thumbnail_exists: true,
        video: FileMetadata::Modified(100),
        thumbnail: FileMetadata::Modified(200),
    });
    match a {
        ThumbnailAction::Finished(Ok(p)) => assert_eq!(p, THUMB),
        other => panic!("unexpected {other:?}"),
    }
    assert_eq!(job.phase, ThumbnailPhase::Done);
    assert!(matches!(job.pending(), ThumbnailAction::Idle));
}

#[test]
fn missing_preview_is_built_with_ffmpeg() {
    let mut job = start();
    to_times(&mut job);
    let a = job.step(ThumbnailEvent::FileTimes {
        thumbnail_exists: false,
        video: FileMetadata::NoModifiedTime,
        thumbnail: FileMetadata::NoModifiedTime,
    });
    assert!(matches!(a, ThumbnailAction::ReadToolLocations));
    match job.step(ThumbnailEvent::ToolLocations {
        current_exe: Some("C:\\app\\bin\\gui.exe".to_string()),
        current_dir: Some("C:\\work".to_string()),
    }) {
        ThumbnailAction::CheckCandidates(c) => {
            assert_eq!(c.len(), 6);
            assert_eq!(c[0], "C:\\app\\bin\\ffmpeg.exe");
        }
        other => panic!("unexpected {other:?}"),
    }
    match job.step(ThumbnailEvent::CandidatesChecked(vec![false, false, false, true, false, false])) {
        ThumbnailAction::RunFfmpeg { program, args } => {
            assert_eq!(program, "C:\\work\\ffmpeg.exe");
            assert_eq!(args[4], VIDEO);
            assert_eq!(args[11], THUMB);
            assert_eq!(args.len(), 12);
        }
        other => panic!("unexpected {other:?}"),
    }
    match job.step(ThumbnailEvent::FfmpegFinished(Ok(true))) {
        ThumbnailAction::CheckOutputExists(p) => assert_eq!(p, THUMB),
        other => panic!("unexpected {other:?}"),
    }
    match job.step(ThumbnailEvent::OutputExists(true)) {
        ThumbnailAction::Finished(Ok(p)) => assert_eq!(p, THUMB),
        other => panic!("unexpected {other:?}"),
    }
}

#[test]
fn job_errors() {
    let mut job = start();
    match job.step(ThumbnailEvent::VideoExists(false)) {
        ThumbnailAction::Finished(Err(ThumbnailError::VideoNotFound { video })) => assert_eq!(video, VIDEO),
        other => panic!("unexpected {other:?}"),
    }

    let mut job = start();
    job.step(ThumbnailEvent::VideoExists(true));
    match job.step(ThumbnailEvent::LocalAppData(Err("denied".to_string()))) {
        ThumbnailAction::Finished(Err(ThumbnailError::LocalAppData { error })) => assert_eq!(error, "denied"),
        other => panic!("unexpected {other:?}"),
    }

    let mut job = start();
    job.step(ThumbnailEvent::VideoExists(true));
    job.step(ThumbnailEvent::LocalAppData(Ok("C:\\Local".to_string())));
    match job.step(ThumbnailEvent::CacheDirCreated(Some("full".to_string()))) {
        ThumbnailAction::Finished(Err(ThumbnailError::CreateCacheDir { dir, error })) => {
            assert_eq!(dir, "C:\\Local\\RanamiWallpapers\\cache-wallpaper-thumbnails");
            assert_eq!(error, "full");
        }
        other => panic!("unexpected {other:?}"),
    }

    let mut job = start();
    to_times(&mut job);
    match job.step(ThumbnailEvent::FileTimes {
        thumbnail_exists: true,
        video: FileMetadata::Unreadable("gone".to_string()),
        thumbnail: FileMetadata::Modified(1),
    }) {
        ThumbnailAction::Finished(Err(ThumbnailError::VideoMetadata { video, error })) => {
            assert_eq!(video, VIDEO);
            assert_eq!(error, "gone");
        }
        other => panic!("unexpected {other:?}"),
    }

    let mut job = start();
    to_times(&mut job);
    job.step(ThumbnailEvent::FileTimes {
        thumbnail_exists: true,
        video: FileMetadata::Modified(9),
        thumbnail: FileMetadata::Modified(1),
    });
    job.step(ThumbnailEvent::ToolLocations { current_exe: None, current_dir: None });
    match job.step(ThumbnailEvent::CandidatesChecked(Vec::new())) {
        ThumbnailAction::RunFfmpeg { program, .. } => assert_eq!(program, "ffmpeg.exe"),
        other => panic!("unexpected {other:?}"),
    }
    match job.step(ThumbnailEvent::FfmpegFinished(Err("not found".to_string()))) {
        ThumbnailAction::Finished(Err(ThumbnailError::FfmpegStart { command, video, error })) => {
            assert_eq!(command, "ffmpeg.exe");
            assert_eq!(video, VIDEO);
            assert_eq!(error, "not found");
        }
        other => panic!("unexpected {other:?}"),
    }
}

#[test]
fn ffmpeg_failure_and_missing_output() {
    for (ran, exists) in [(false, true), (true, false)] {
        let mut job = start();
        to_times(&mut job);
        job.step(ThumbnailEvent::FileTimes {
            thumbnail_exists: false,
            video: FileMetadata::NoModifiedTime,
            thumbnail: FileMetadata::NoModifiedTime,
        });
        job.step(ThumbnailEvent::ToolLocations { current_exe: None, current_dir: None });
        job.step(ThumbnailEvent::CandidatesChecked(Vec::new()));
        let a = job.step(ThumbnailEvent::FfmpegFinished(Ok(ran)));
        if !ran {
            assert!(matches!(a, ThumbnailAction::Finished(Err(ThumbnailError::FfmpegFailed { .. }))));
        } else {
            let a = job.step(ThumbnailEvent::OutputExists(exists));
            match a {
                ThumbnailAction::Finished(Err(ThumbnailError::ThumbnailMissing { thumbnail })) => {
                    assert_eq!(thumbnail, THUMB)
                }
                other => panic!("unexpected {other:?}"),
            }
        }
    }
}

#[test]
fn unexpected_answer_repeats_request() {
    let mut job = start();
    match job.step(ThumbnailEvent::OutputExists(true)) {
        ThumbnailAction::CheckVideoExists(v) => assert_eq!(v, VIDEO),
        other => panic!("unexpected {other:?}"),
    }
    assert_eq!(job.phase, ThumbnailPhase::CheckingVideo);
}
