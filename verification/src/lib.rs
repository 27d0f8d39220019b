use vstd::prelude::*;

pub mod text;
pub mod win_path;
pub mod shared;
pub mod library;
pub mod video_info;
pub mod thumbnail;
pub mod thumbnail_job;
pub mod client;
pub mod client_loop;
pub mod tray;
pub mod preview;
pub mod refresh;
pub mod still;

verus! {
}
