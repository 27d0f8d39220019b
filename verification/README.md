# Ranami Wallpapers (verified core)

Ranami Wallpapers shows videos as live desktop wallpapers on Windows. It is
made of three programs: a launcher that manages the native playback engine,
a library window where videos are imported and picked, and a tray menu.

This crate holds their decision logic, verified with Verus:

- `src/library.rs`: importing a video into the saved library, dropping
  entries whose video is gone, and the text on each wallpaper card.
- `src/refresh.rs`: the worker that fills in the cards after a refresh and
  stops once a newer refresh has begun.
- `src/thumbnail.rs`, `src/thumbnail_job.rs`, `src/preview.rs`: the preview
  cache (file names, when a preview is rebuilt, which cached files are
  stale, how ffmpeg is found and called) and decoding a preview picture.
- `src/video_info.rs`: the resolution read from ffprobe / ffmpeg output and
  the file-size label.
- `src/client.rs`, `src/client_loop.rs`: the launcher's start-up checks, its
  window messages and its main loop as a state machine.
- `src/still.rs`: the still desktop picture made for a newly selected
  wallpaper.
- `src/tray.rs`: the tray's command line and menu.
- `src/shared.rs`, `src/text.rs`, `src/win_path.rs`: shared constants and
  types, character helpers, and Windows path text.

`app/` is the program around it: files, processes, the named pipe, Win32
calls, the tray icon and the file dialog. It performs what the library
decides.
