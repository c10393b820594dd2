//! The player status: read from the replies to `status` and `currentsong`,
//! or the placeholder reported while the server cannot be reached.

use vstd::prelude::*;
use crate::pairs::{
    find_last, last_value, last_value_of, last_with_key, pair_views, parse_pairs, pairs_of_lines,
    Pair, PairView, ResponseLine,
};
use crate::text::{chars_of, decimal, parse_i32, parse_signed, parse_u32, parse_unsigned, same_chars};

verus! {

/// What the player is doing, as the status bar shows it.
#[derive(Debug, Clone, PartialEq, Eq)]
pub struct MpdStatus {
    pub connected: bool,
    /// `play`, `pause` or `stop`.
    pub state: String,
    /// Seconds played of the current song.
    pub elapsed: u32,
    /// Length of the current song in seconds.
    pub duration: u32,
    /// The volume in percent, `-1` where unknown.
    pub volume: i32,
    pub file: String,
    pub title: String,
    pub artist: String,
    pub album: String,
    /// The server's error message, or why it could not be reached.
    pub error: String,
    /// The position of the current song in the queue, `-1` where none.
    pub song: i32,
    pub playlist_version: u32,
    pub playlist_length: u32,
    pub repeat: bool,
    pub random: bool,
}

/// The mathematical content of an [`MpdStatus`].
pub struct StatusView {
    pub connected: bool,
    pub state: Seq<char>,
    pub elapsed: u32,
    pub duration: u32,
    pub volume: i32,
    pub file: Seq<char>,
    pub title: Seq<char>,
    pub artist: Seq<char>,
    pub album: Seq<char>,
    pub error: Seq<char>,
    pub song: i32,
    pub playlist_version: u32,
    pub playlist_length: u32,
    pub repeat: bool,
    pub random: bool,
}

impl View for MpdStatus {
    type V = StatusView;

    open spec fn view(&self) -> StatusView {
        StatusView {
            connected: self.connected,
            state: self.state@,
            elapsed: self.elapsed,
            duration: self.duration,
            volume: self.volume,
            file: self.file@,
            title: self.title@,
            artist: self.artist@,
            album: self.album@,
            error: self.error@,
            song: self.song,
            playlist_version: self.playlist_version,
            playlist_length: self.playlist_length,
            repeat: self.repeat,
            random: self.random,
        }
    }
}

/// The status reported while the server cannot be reached: disconnected,
/// stopped, with the reason as the error and `-1` for volume and song.
pub open spec fn disconnected_view(error: Seq<char>) -> StatusView {
    StatusView {
        connected: false,
        state: "stop"@,
        elapsed: 0,
        duration: 0,
        volume: -1i32,
        file: seq![],
        title: seq![],
        artist: seq![],
        album: seq![],
        error,
        song: -1i32,
        playlist_version: 0,
        playlist_length: 0,
        repeat: false,
        random: false,
    }
}

/// The status reported while the server cannot be reached.
pub fn disconnected_status(error: String) -> (r: MpdStatus)
    ensures
        r@ == disconnected_view(error@),
{
    MpdStatus {
        connected: false,
        state: String::from_str("stop"),
        elapsed: 0,
        duration: 0,
        volume: -1,
        file: String::new(),
        title: String::new(),
        artist: String::new(),
        album: String::new(),
        error,
        song: -1i32,
        playlist_version: 0,
        playlist_length: 0,
        repeat: false,
        random: false,
    }
}

/// A field's value, or nothing where it is absent.
pub open spec fn text_or_empty(v: Option<Seq<char>>) -> Seq<char> {
    match v {
        Some(s) => s,
        None => seq![],
    }
}

/// The whole seconds of a field, zero where it is absent or not a number.
pub open spec fn seconds_or_zero(p: Option<PairView>) -> u32 {
    match p {
        Some(q) => match q.seconds {
            Some(s) => s,
            None => 0,
        },
        None => 0,
    }
}

/// A field read as an `i32`, `-1` where it is absent or not one.
pub open spec fn signed_or_minus_one(v: Option<Seq<char>>) -> i32 {
    match v {
        Some(s) => match parse_signed(s, i32::MAX as nat) {
            Some(n) => n as i32,
            None => -1i32,
        },
        None => -1i32,
    }
}

/// A field read as a `u32`, zero where it is absent or not one.
pub open spec fn unsigned_or_zero(v: Option<Seq<char>>) -> u32 {
    match v {
        Some(s) => match parse_unsigned(s, u32::MAX as nat) {
            Some(n) => n as u32,
            None => 0,
        },
        None => 0,
    }
}

/// A flag field: set where its value is exactly `1`.
pub open spec fn flag(v: Option<Seq<char>>) -> bool {
    v == Some("1"@)
}

/// The status read from the pairs of the `status` reply and of the
/// `currentsong` reply, each field taken from the last pair with its key.
/// The length comes from the status, else from the song.
pub open spec fn status_view(st: Seq<PairView>, song: Seq<PairView>) -> StatusView {
    StatusView {
        connected: true,
        state: match last_value(st, "state"@) {
            Some(s) => s,
            None => "stop"@,
        },
        elapsed: seconds_or_zero(last_with_key(st, "elapsed"@)),
        duration: match last_with_key(st, "duration"@) {
            Some(p) => seconds_or_zero(Some(p)),
            None => seconds_or_zero(last_with_key(song, "duration"@)),
        },
        volume: signed_or_minus_one(last_value(st, "volume"@)),
        file: text_or_empty(last_value(song, "file"@)),
        title: text_or_empty(last_value(song, "Title"@)),
        artist: text_or_empty(last_value(song, "Artist"@)),
        album: text_or_empty(last_value(song, "Album"@)),
        error: text_or_empty(last_value(st, "error"@)),
        song: signed_or_minus_one(last_value(st, "song"@)),
        playlist_version: unsigned_or_zero(last_value(st, "playlist"@)),
        playlist_length: unsigned_or_zero(last_value(st, "playlistlength"@)),
        repeat: flag(last_value(st, "repeat"@)),
        random: flag(last_value(st, "random"@)),
    }
}

fn text_or_empty_of(v: Option<String>) -> (r: String)
    ensures
        r@ == match v {
            Some(s) => s@,
            None => Seq::<char>::empty(),
        },
{
    match v {
        Some(s) => s,
        None => String::new(),
    }
}

fn seconds_of(pairs: &[Pair], key: &str) -> (r: u32)
    ensures
        r == seconds_or_zero(last_with_key(pair_views(pairs@), key@)),
{
    match find_last(pairs, key) {
        Some(i) => match pairs[i].seconds {
            Some(s) => s,
            None => 0,
        },
        None => 0,
    }
}

fn signed_of(pairs: &[Pair], key: &str) -> (r: i32)
    ensures
        r == signed_or_minus_one(last_value(pair_views(pairs@), key@)),
{
    match last_value_of(pairs, key) {
        Some(v) => match parse_i32(&chars_of(v.as_str())) {
            Some(n) => n,
            None => -1,
        },
        None => -1,
    }
}

fn unsigned_of(pairs: &[Pair], key: &str) -> (r: u32)
    ensures
        r == unsigned_or_zero(last_value(pair_views(pairs@), key@)),
{
    match last_value_of(pairs, key) {
        Some(v) => match parse_u32(&chars_of(v.as_str())) {
            Some(n) => n,
            None => 0,
        },
        None => 0,
    }
}

fn flag_of(pairs: &[Pair], key: &str) -> (r: bool)
    ensures
        r == flag(last_value(pair_views(pairs@), key@)),
{
    match last_value_of(pairs, key) {
        Some(v) => same_chars(&chars_of(v.as_str()), &chars_of("1")),
        None => false,
    }
}

/// The status read from the replies to `status` and `currentsong`.
pub fn read_mpd_status(status: &[ResponseLine], song: &[ResponseLine]) -> (r: MpdStatus)
    ensures
        r@ == status_view(pairs_of_lines(status@), pairs_of_lines(song@)),
{
    let st = parse_pairs(status);
    let sg = parse_pairs(song);
    let state = match last_value_of(&st, "state") {
        Some(s) => s,
        None => String::from_str("stop"),
    };
    let duration = match find_last(&st, "duration") {
        Some(i) => match st[i].seconds {
            Some(s) => s,
            None => 0,
        },
        None => seconds_of(&sg, "duration"),
    };
    MpdStatus {
        connected: true,
        state,
        elapsed: seconds_of(&st, "elapsed"),
        duration,
        volume: signed_of(&st, "volume"),
        file: text_or_empty_of(last_value_of(&sg, "file")),
        title: text_or_empty_of(last_value_of(&sg, "Title")),
        artist: text_or_empty_of(last_value_of(&sg, "Artist")),
        album: text_or_empty_of(last_value_of(&sg, "Album")),
        error: text_or_empty_of(last_value_of(&st, "error")),
        song: signed_of(&st, "song"),
        playlist_version: unsigned_of(&st, "playlist"),
        playlist_length: unsigned_of(&st, "playlistlength"),
        repeat: flag_of(&st, "repeat"),
        random: flag_of(&st, "random"),
    }
}

/// The shuffle and repeat flags are read from the `status` reply alone: each
/// is set exactly when the last pair with its key there has the value `1`,
/// and is clear where that pair is absent or has another value, whatever the
/// `currentsong` reply holds. Every other field of the `status` reply (state,
/// elapsed time, volume, error, song position, playlist version and length)
/// is likewise the same whatever the `currentsong` reply holds, and the song's
/// file, title, artist and album are the same whatever the `status` reply holds.
pub proof fn lemma_status_fields_come_from_their_reply(
    st: Seq<PairView>,
    st2: Seq<PairView>,
    song: Seq<PairView>,
    song2: Seq<PairView>,
)
    ensures
        status_view(st, song).random <==> last_value(st, "random"@) == Some("1"@),
        status_view(st, song).repeat <==> last_value(st, "repeat"@) == Some("1"@),
        status_view(st, song).random == status_view(st, song2).random,
        status_view(st, song).repeat == status_view(st, song2).repeat,
        status_view(st, song).state == status_view(st, song2).state,
        status_view(st, song).elapsed == status_view(st, song2).elapsed,
        status_view(st, song).volume == status_view(st, song2).volume,
        status_view(st, song).error == status_view(st, song2).error,
        status_view(st, song).song == status_view(st, song2).song,
        status_view(st, song).playlist_version == status_view(st, song2).playlist_version,
        status_view(st, song).playlist_length == status_view(st, song2).playlist_length,
        status_view(st, song).file == status_view(st2, song).file,
        status_view(st, song).title == status_view(st2, song).title,
        status_view(st, song).artist == status_view(st2, song).artist,
        status_view(st, song).album == status_view(st2, song).album,
{
}

/// How the status reads its fields: a status read from replies is always
/// connected; the state is the `state` value, `stop` where there is none;
/// the volume and song position are the numbers written there, `-1` where
/// they are absent; the playlist version and length are the numbers written
/// there, zero where absent; the elapsed time is zero without an `elapsed`
/// pair, and the length zero where neither reply has a `duration` pair; the
/// texts of the song and the error are empty where absent.
pub proof fn lemma_status_reads_fields(st: Seq<PairView>, song: Seq<PairView>, n: nat)
    ensures
        status_view(st, song).connected,
        last_value(st, "state"@) matches Some(x) ==> status_view(st, song).state == x,
        last_value(st, "state"@) is None ==> status_view(st, song).state == "stop"@,
        (n <= i32::MAX && last_value(st, "volume"@) == Some(decimal(n))) ==> status_view(
            st,
            song,
        ).volume as int == n,
        last_value(st, "volume"@) is None ==> status_view(st, song).volume == -1,
        (n <= i32::MAX && last_value(st, "song"@) == Some(decimal(n))) ==> status_view(
            st,
            song,
        ).song as int == n,
        last_value(st, "song"@) is None ==> status_view(st, song).song == -1,
        (n <= u32::MAX && last_value(st, "playlist"@) == Some(decimal(n))) ==> status_view(
            st,
            song,
        ).playlist_version == n,
        last_value(st, "playlist"@) is None ==> status_view(st, song).playlist_version == 0,
        (n <= u32::MAX && last_value(st, "playlistlength"@) == Some(decimal(n))) ==> status_view(
            st,
            song,
        ).playlist_length == n,
        last_value(st, "playlistlength"@) is None ==> status_view(st, song).playlist_length == 0,
        last_with_key(st, "elapsed"@) is None ==> status_view(st, song).elapsed == 0,
        (last_with_key(st, "duration"@) is None && last_with_key(song, "duration"@) is None)
            ==> status_view(st, song).duration == 0,
        last_value(song, "file"@) is None ==> status_view(st, song).file.len() == 0,
        last_value(song, "file"@) matches Some(f) ==> status_view(st, song).file == f,
        last_value(song, "Title"@) matches Some(x) ==> status_view(st, song).title == x,
        last_value(st, "error"@) is None ==> status_view(st, song).error.len() == 0,
        last_value(st, "error"@) matches Some(x) ==> status_view(st, song).error == x,
{
    if n <= u32::MAX {
        crate::text::lemma_decimal_reads_back(n, u32::MAX as nat);
    }
    if n <= i32::MAX {
        crate::text::lemma_decimal_reads_back(n, i32::MAX as nat);
        let d = decimal(n);
        if d.len() > 0 && d[0] == '-' {
            assert(crate::text::all_digits(d));
            assert(crate::text::is_digit(d[0]));
        }
    }
}

} // verus!
