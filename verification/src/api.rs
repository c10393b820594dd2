//! The operations of the client. Each takes what was read from the server
//! (or nothing) and gives what the operation sends or reports; connecting,
//! sending and reading are the caller's.

use vstd::prelude::*;
use crate::binary::{detect_mime, mime_of};
use crate::pairs::{last_value, last_value_of, pair_views, parse_pairs, pairs_of_lines, ResponseLine};
use crate::protocol::{
    enqueue_command, enqueue_command_text, find_album_command, find_album_command_text,
    play_command, play_paths_command, texts,
};
use crate::status::{disconnected_status, disconnected_view, read_mpd_status, status_view, MpdStatus};
use crate::text::{chars_of, decimal, push_decimal, same_chars};
use crate::tracks::{
    album_views, parse_tracks, summarize, summarize_albums, track_views, tracks_of, AlbumSummary,
    Track,
};

verus! {

/// A cover image and its MIME type.
#[derive(Debug, Clone, PartialEq, Eq)]
pub struct AlbumArt {
    pub mime: String,
    pub data: Vec<u8>,
}

/// The tracks of a listing reply, or the error that stopped the exchange.
pub open spec fn listing_outcome(
    response: Result<Vec<ResponseLine>, String>,
    r: Result<Vec<Track>, String>,
) -> bool {
    match response {
        Ok(lines) => r matches Ok(ts) && track_views(ts@) == tracks_of(lines@),
        Err(e) => r matches Err(m) && m@ == e@,
    }
}

fn tracks_from(response: Result<Vec<ResponseLine>, String>) -> (r: Result<Vec<Track>, String>)
    ensures
        listing_outcome(response, r),
{
    match response {
        Ok(lines) => Ok(parse_tracks(&lines)),
        Err(e) => Err(e),
    }
}

/// The whole library, from the reply to `listallinfo`.
pub fn get_library(response: Result<Vec<ResponseLine>, String>) -> (r: Result<Vec<Track>, String>)
    ensures
        listing_outcome(response, r),
{
    tracks_from(response)
}

/// The queue, from the reply to `playlistinfo`.
pub fn get_queue(response: Result<Vec<ResponseLine>, String>) -> (r: Result<Vec<Track>, String>)
    ensures
        listing_outcome(response, r),
{
    tracks_from(response)
}

/// The search for the tracks of one album; its reply is a listing, read by
/// [`get_library`].
pub fn get_album_tracks(album_artist: String, album: String) -> (r: String)
    ensures
        r@ == find_album_command(album_artist@, album@),
{
    find_album_command_text(album_artist.as_str(), album.as_str())
}

/// The albums of the library, from the library or the error that kept it
/// from being read.
pub fn get_albums(library: Result<Vec<Track>, String>) -> (r: Result<Vec<AlbumSummary>, String>)
    ensures
        match library {
            Ok(ts) => r matches Ok(albums) && album_views(albums@) == summarize(track_views(ts@)),
            Err(e) => r matches Err(m) && m@ == e@,
        },
{
    match library {
        Ok(ts) => Ok(summarize_albums(&ts)),
        Err(e) => Err(e),
    }
}

/// The player's status, from the replies to `status` and `currentsong`; a
/// failed exchange gives the disconnected status with its error.
pub fn get_mpd_status(replies: Result<(Vec<ResponseLine>, Vec<ResponseLine>), String>) -> (r:
    MpdStatus)
    ensures
        match replies {
            Ok((status, song)) => r@ == status_view(pairs_of_lines(status@), pairs_of_lines(song@)),
            Err(e) => r@ == disconnected_view(e@),
        },
{
    match replies {
        Ok((status, song)) => read_mpd_status(&status, &song),
        Err(e) => disconnected_status(e),
    }
}

/// Plays one song: the queue becomes that song alone.
pub fn mpd_play_path(path: String) -> (r: String)
    ensures
        r@ == play_command(seq![path@], 0),
{
    let paths = vec![path];
    assert(texts(paths@) =~= seq![paths@[0]@]);
    play_paths_command(&paths, 0)
}

/// The message for a request that names no track.
pub open spec fn no_tracks_error() -> Seq<char> {
    "No tracks were sent to MPD"@
}

/// Replaces the queue with `paths` and plays from `index` (clamped to the
/// last path). Refused when `paths` is empty.
pub fn mpd_set_queue(paths: Vec<String>, index: usize) -> (r: Result<String, String>)
    ensures
        paths@.len() == 0 ==> (r matches Err(e) && e@ == no_tracks_error()),
        paths@.len() > 0 ==> (r matches Ok(c) && c@ == play_command(texts(paths@), index as nat)),
{
    if paths.len() == 0 {
        return Err(String::from_str("No tracks were sent to MPD"));
    }
    let last = paths.len() - 1;
    let index = if index <= last {
        index
    } else {
        last
    };
    Ok(play_paths_command(&paths, index))
}

/// Appends `paths` to the queue. Refused when `paths` is empty.
pub fn mpd_enqueue(paths: Vec<String>) -> (r: Result<String, String>)
    ensures
        paths@.len() == 0 ==> (r matches Err(e) && e@ == no_tracks_error()),
        paths@.len() > 0 ==> (r matches Ok(c) && c@ == enqueue_command(texts(paths@))),
{
    if paths.len() == 0 {
        return Err(String::from_str("No tracks were sent to MPD"));
    }
    Ok(enqueue_command_text(&paths))
}

/// A command that sets a player option on or off.
pub open spec fn switch_command(name: Seq<char>, enabled: bool) -> Seq<char> {
    name + decimal(
        if enabled {
            1
        } else {
            0
        },
    )
}

/// Turns repeat on or off.
pub fn mpd_set_repeat(enabled: bool) -> (r: String)
    ensures
        r@ == switch_command("repeat "@, enabled),
{
    let mut r = String::from_str("repeat ");
    push_decimal(
        &mut r,
        if enabled {
            1
        } else {
            0
        },
    );
    r
}

/// Turns shuffle on or off.
pub fn mpd_set_random(enabled: bool) -> (r: String)
    ensures
        r@ == switch_command("random "@, enabled),
{
    let mut r = String::from_str("random ");
    push_decimal(
        &mut r,
        if enabled {
            1
        } else {
            0
        },
    );
    r
}

/// Pauses when the reply to `status` says the player is playing, and
/// plays otherwise.
pub fn mpd_toggle_play(status: &[ResponseLine]) -> (r: String)
    ensures
        r@ == if last_value(pairs_of_lines(status@), "state"@) == Some("play"@) {
            "pause 1"@
        } else {
            "play"@
        },
{
    let pairs = parse_pairs(status);
    let playing = match last_value_of(&pairs, "state") {
        Some(s) => same_chars(&chars_of(s.as_str()), &chars_of("play")),
        None => false,
    };
    if playing {
        String::from_str("pause 1")
    } else {
        String::from_str("play")
    }
}

/// Stops playback.
pub fn mpd_stop() -> (r: String)
    ensures
        r@ == "stop"@,
{
    String::from_str("stop")
}

/// Skips to the next song.
pub fn mpd_next() -> (r: String)
    ensures
        r@ == "next"@,
{
    String::from_str("next")
}

/// Goes back to the previous song.
pub fn mpd_previous() -> (r: String)
    ensures
        r@ == "previous"@,
{
    String::from_str("previous")
}

/// Sets the volume, in percent; more than 100 counts as 100.
pub fn mpd_set_volume(volume: u32) -> (r: String)
    ensures
        r@ == "setvol "@ + decimal(
            if volume <= 100 {
                volume as nat
            } else {
                100
            },
        ),
{
    let mut r = String::from_str("setvol ");
    push_decimal(
        &mut r,
        if volume <= 100 {
            volume as u64
        } else {
            100
        },
    );
    r
}

/// Seeks to `seconds` into the current song.
pub fn mpd_seek_current(seconds: u32) -> (r: String)
    ensures
        r@ == "seekcur "@ + decimal(seconds as nat),
{
    let mut r = String::from_str("seekcur ");
    push_decimal(&mut r, seconds as u64);
    r
}

/// A cover image from the data a cover fetch gave, or the error that ended
/// it; the MIME type is read from the data.
pub fn get_album_art(fetched: Result<Vec<u8>, String>) -> (r: Result<AlbumArt, String>)
    ensures
        match fetched {
            Ok(d) => r matches Ok(art) && art.data@ == d@ && art.mime@ == mime_of(d@),
            Err(e) => r matches Err(m) && m@ == e@,
        },
{
    match fetched {
        Ok(data) => {
            let mime = String::from_str(detect_mime(&data));
            Ok(AlbumArt { mime, data })
        },
        Err(e) => Err(e),
    }
}

} // verus!
