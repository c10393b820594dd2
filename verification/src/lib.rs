//! A client library for the Music Player Daemon text protocol: command
//! rendering, response framing, parsing of track and status records and the
//! binary transfer of cover art, all over plain values. Connecting, sending
//! and reading are left to the caller, which hands over what it read.

pub mod api;
pub mod binary;
pub mod order;
pub mod pairs;
pub mod palette;
pub mod player;
pub mod protocol;
pub mod search;
pub mod status;
pub mod text;
pub mod tracks;

pub use api::{
    get_album_art, get_album_tracks, get_albums, get_library, get_mpd_status, get_queue,
    mpd_enqueue, mpd_next, mpd_play_path, mpd_previous, mpd_seek_current, mpd_set_queue,
    mpd_set_random, mpd_set_repeat, mpd_set_volume, mpd_stop, mpd_toggle_play, AlbumArt,
};
pub use pairs::ResponseLine;
pub use status::MpdStatus;
pub use tracks::{AlbumSummary, Track};
