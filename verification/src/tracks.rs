//! Track records: reading them from a listing response, the fields derived
//! from them, and the album summary of a library.

use vstd::prelude::*;
use crate::pairs::{
    first_value, first_value_of, first_with_key, find_first, pair_views, Pair, PairView,
    ResponseLine,
};
use crate::protocol::is_ok_line;
use crate::text::{
    before_first, chars_of, decimal, first_chars, last_index_of, last_index_of_char,
    parse_u32, parse_unsigned, push_char, push_decimal, push_two_digits, same_chars, split_once,
    split_once_chars, starts_with, starts_with_chars, string_of_range, two_digits,
};

verus! {

/// One song as the library and the queue list it.
#[derive(Debug, Clone, PartialEq, Eq)]
pub struct Track {
    pub title: String,
    pub artist: String,
    pub album: String,
    pub album_artist: String,
    pub genre: String,
    pub year: u32,
    pub track_number: u32,
    /// The length, as `minutes:seconds`.
    pub duration: String,
    /// The song's URI on the server.
    pub path: String,
}

/// The mathematical content of a [`Track`].
pub struct TrackView {
    pub title: Seq<char>,
    pub artist: Seq<char>,
    pub album: Seq<char>,
    pub album_artist: Seq<char>,
    pub genre: Seq<char>,
    pub year: u32,
    pub track_number: u32,
    pub duration: Seq<char>,
    pub path: Seq<char>,
}

impl View for Track {
    type V = TrackView;

    open spec fn view(&self) -> TrackView {
        TrackView {
            title: self.title@,
            artist: self.artist@,
            album: self.album@,
            album_artist: self.album_artist@,
            genre: self.genre@,
            year: self.year,
            track_number: self.track_number,
            duration: self.duration@,
            path: self.path@,
        }
    }
}

/// The views of a sequence of tracks.
pub open spec fn track_views(ts: Seq<Track>) -> Seq<TrackView> {
    ts.map_values(|t: Track| t@)
}

// ---------------------------------------------------------------------------
// Derived fields
// ---------------------------------------------------------------------------

/// A number of seconds as `minutes:seconds`, the seconds in two digits.
pub open spec fn duration_text(seconds: nat) -> Seq<char> {
    decimal(seconds / 60) + seq![':'] + two_digits(seconds % 60)
}

/// Formats a number of seconds as `minutes:seconds`, e.g. `3:07`.
pub fn format_duration(seconds: u32) -> (r: String)
    ensures
        r@ == duration_text(seconds as nat),
{
    let mut r = String::new();
    push_decimal(&mut r, (seconds / 60) as u64);
    push_char(&mut r, ':');
    push_two_digits(&mut r, (seconds % 60) as u64);
    r
}

/// A length reads back from its text: the text is the minutes, a `:` and
/// exactly two digits; the minutes read as a number, the two digits are the
/// seconds below sixty, and minutes times sixty plus seconds is the length.
pub proof fn lemma_duration_reads_back(seconds: nat)
    requires
        seconds <= u32::MAX,
    ensures
        ({
            let t = duration_text(seconds);
            let i = t.len() - 3;
            &&& t.len() >= 4
            &&& t[i] == ':'
            &&& crate::text::all_digits(t.skip(i + 1))
            &&& crate::text::digits_value(t.skip(i + 1)) < 60
            &&& parse_unsigned(t.take(i), u32::MAX as nat) matches Some(m)
            &&& m * 60 + crate::text::digits_value(t.skip(i + 1)) == seconds
        }),
{
    let m = seconds / 60;
    let r = seconds % 60;
    crate::text::lemma_two_digits_read_back(r);
    crate::text::lemma_decimal_reads_back(m, u32::MAX as nat);
    let d = decimal(m);
    let t = duration_text(seconds);
    assert(d.len() >= 1) by {
        crate::text::lemma_decimal_reads_back(m, u32::MAX as nat);
    }
    let i = t.len() - 3;
    assert(i == d.len());
    assert(t.take(i) =~= d);
    assert(t.skip(i + 1) =~= two_digits(r));
    assert(t[i] == ':');
}

/// The title a track gets from its path when it has none: the file name
/// without its extension. Where the file name has no `.`, the whole path.
pub open spec fn title_from_path_text(path: Seq<char>) -> Seq<char> {
    let name = match last_index_of(path, '/') {
        Some(i) => path.skip(i + 1),
        None => path,
    };
    match last_index_of(name, '.') {
        Some(j) => name.take(j),
        None => path,
    }
}

/// How a path gives a title: for a path made of a directory part (empty, or
/// ending with `/`) and a file name without `/`, the title is the file name
/// up to its last `.`; where the file name has no `.`, the whole path.
pub proof fn lemma_title_from_file_name(path: Seq<char>, dir: Seq<char>, name: Seq<char>)
    requires
        path == dir + name,
        dir.len() == 0 || dir.last() == '/',
        !name.contains('/'),
    ensures
        !name.contains('.') ==> title_from_path_text(path) == path,
        forall|stem: Seq<char>, ext: Seq<char>|
            name == stem + seq!['.'] + ext && !ext.contains('.') ==> title_from_path_text(path)
                == stem,
{
    crate::text::lemma_last_index_of_append(dir, name, '/');
    if dir.len() == 0 {
        assert(dir + name =~= name);
        crate::text::lemma_last_index_of_append(Seq::<char>::empty(), name, '/');
        assert(Seq::<char>::empty() + name =~= name);
    } else {
        assert(dir =~= dir.drop_last().push('/'));
        assert(path.skip(dir.len() as int) =~= name);
    }
    assert(last_index_of(Seq::<char>::empty(), '.') is None);
    if !name.contains('.') {
        crate::text::lemma_last_index_of_append(Seq::<char>::empty(), name, '.');
        assert(Seq::<char>::empty() + name =~= name);
    }
    assert forall|stem: Seq<char>, ext: Seq<char>|
        name == stem + seq!['.'] + ext && !ext.contains('.') implies title_from_path_text(path)
        == stem by {
        crate::text::lemma_last_index_of_append(stem + seq!['.'], ext, '.');
        assert((stem + seq!['.']).last() == '.');
        assert(name.take(stem.len() as int) =~= stem);
    }
}

/// The title a track gets from its path when it has none.
pub fn title_from_path(path: &str) -> (r: String)
    ensures
        r@ == title_from_path_text(path@),
{
    let cs = chars_of(path);
    let len = cs.len();
    proof {
        crate::text::lemma_last_index_of_bounds(cs@, '/');
    }
    let ghost name_text = match last_index_of(cs@, '/') {
        Some(i) => cs@.skip(i + 1),
        None => cs@,
    };
    let start: usize = match last_index_of_char(&cs, '/') {
        Some(i) => {
            assert(cs@.subrange(i + 1, len as int) =~= name_text);
            i + 1
        },
        None => {
            assert(cs@.subrange(0, len as int) =~= name_text);
            0
        },
    };
    let name = string_of_range(&cs, start, len);
    let ns = chars_of(name.as_str());
    proof {
        crate::text::lemma_last_index_of_bounds(ns@, '.');
    }
    match last_index_of_char(&ns, '.') {
        Some(j) => {
            assert(ns@.subrange(0, j as int) =~= ns@.take(j as int));
            string_of_range(&ns, 0, j)
        },
        None => String::from_str(path),
    }
}

/// A parsed number, or zero where there is none.
pub open spec fn number_or_zero(n: Option<nat>) -> u32 {
    match n {
        Some(v) => v as u32,
        None => 0,
    }
}

/// The year of a date: its first four characters read as a number.
pub open spec fn year_of(date: Seq<char>) -> u32 {
    number_or_zero(parse_unsigned(first_chars(date, 4), u32::MAX as nat))
}

/// The number of a track: the text before any `/` (as in `3/12`) read as a
/// number.
pub open spec fn track_number_of(text: Seq<char>) -> u32 {
    number_or_zero(parse_unsigned(before_first(text, '/'), u32::MAX as nat))
}

/// The seconds of a track's length: those of its `duration` field, or of
/// its `Time` field where it has no `duration`.
pub open spec fn track_seconds(ps: Seq<PairView>) -> Option<u32> {
    match first_with_key(ps, "duration"@) {
        Some(p) => p.seconds,
        None => match first_with_key(ps, "Time"@) {
            Some(p) => p.seconds,
            None => None,
        },
    }
}

/// A field's value, or `default` where the field is absent.
pub open spec fn value_or(v: Option<Seq<char>>, default: Seq<char>) -> Seq<char> {
    match v {
        Some(s) => s,
        None => default,
    }
}

/// The first present of two optional values.
pub open spec fn either(a: Option<Seq<char>>, b: Option<Seq<char>>) -> Option<Seq<char>> {
    match a {
        Some(s) => Some(s),
        None => b,
    }
}

/// The track a record's pairs describe, each field taken from the first
/// pair with its key: none without a `file` pair. A missing title comes from
/// the path, a missing artist is `Unknown Artist`, a missing album
/// `Unknown Album`; the album artist is `AlbumArtist`, else `Album Artist`,
/// else the artist; the year comes from `Date`, else `OriginalDate`.
pub open spec fn track_of(ps: Seq<PairView>) -> Option<TrackView> {
    match first_value(ps, "file"@) {
        None => None,
        Some(path) => {
            let artist = value_or(first_value(ps, "Artist"@), "Unknown Artist"@);
            Some(
                TrackView {
                    title: value_or(first_value(ps, "Title"@), title_from_path_text(path)),
                    artist,
                    album: value_or(first_value(ps, "Album"@), "Unknown Album"@),
                    album_artist: value_or(
                        either(first_value(ps, "AlbumArtist"@), first_value(ps, "Album Artist"@)),
                        artist,
                    ),
                    genre: value_or(first_value(ps, "Genre"@), seq![]),
                    year: match either(first_value(ps, "Date"@), first_value(ps, "OriginalDate"@)) {
                        Some(d) => year_of(d),
                        None => 0,
                    },
                    track_number: match first_value(ps, "Track"@) {
                        Some(t) => track_number_of(t),
                        None => 0,
                    },
                    duration: match track_seconds(ps) {
                        Some(s) => duration_text(s as nat),
                        None => "0:00"@,
                    },
                    path,
                },
            )
        },
    }
}

fn value_or_default(v: Option<String>, default: String) -> (r: String)
    ensures
        r@ == match v {
            Some(s) => s@,
            None => default@,
        },
{
    match v {
        Some(s) => s,
        None => default,
    }
}

fn either_value(a: Option<String>, b: Option<String>) -> (r: Option<String>)
    ensures
        r == match a {
            Some(s) => Some(s),
            None => b,
        },
{
    match a {
        Some(s) => Some(s),
        None => b,
    }
}

/// The year of a date field.
fn year_from(date: &str) -> (r: u32)
    ensures
        r == year_of(date@),
{
    let cs = chars_of(date);
    let n: usize = if cs.len() <= 4 {
        cs.len()
    } else {
        4
    };
    let head = string_of_range(&cs, 0, n);
    assert(cs@.subrange(0, n as int) =~= first_chars(cs@, 4));
    let hs = chars_of(head.as_str());
    match parse_u32(&hs) {
        Some(v) => v,
        None => 0,
    }
}

/// The number of a track field such as `3` or `3/12`.
fn track_number_from(text: &str) -> (r: u32)
    ensures
        r == track_number_of(text@),
{
    let cs = chars_of(text);
    let slash = chars_of("/");
    assert(slash@ =~= seq!['/']) by {
        reveal_strlit("/");
    }
    let end: usize = match split_once_chars(&cs, &slash) {
        Some((end, _)) => end,
        None => cs.len(),
    };
    let head = string_of_range(&cs, 0, end);
    assert(cs@.subrange(0, end as int) =~= before_first(cs@, '/'));
    let hs = chars_of(head.as_str());
    match parse_u32(&hs) {
        Some(v) => v,
        None => 0,
    }
}

/// The seconds of a track's length from its pairs.
fn track_seconds_of(pairs: &[Pair]) -> (r: Option<u32>)
    ensures
        r == track_seconds(pair_views(pairs@)),
{
    match find_first(pairs, "duration") {
        Some(i) => pairs[i].seconds,
        None => match find_first(pairs, "Time") {
            Some(i) => pairs[i].seconds,
            None => None,
        },
    }
}

/// The track a record's pairs describe (see [`track_of`]).
pub fn track_from_pairs(pairs: &[Pair]) -> (r: Option<Track>)
    ensures
        match track_of(pair_views(pairs@)) {
            Some(v) => r matches Some(t) && t@ == v,
            None => r is None,
        },
{
    let ghost ps = pair_views(pairs@);
    let path = match first_value_of(pairs, "file") {
        Some(p) => p,
        None => return None,
    };
    let title = match first_value_of(pairs, "Title") {
        Some(t) => t,
        None => title_from_path(path.as_str()),
    };
    let artist = value_or_default(
        first_value_of(pairs, "Artist"),
        String::from_str("Unknown Artist"),
    );
    let album = value_or_default(first_value_of(pairs, "Album"), String::from_str("Unknown Album"));
    let album_artist = value_or_default(
        either_value(first_value_of(pairs, "AlbumArtist"), first_value_of(pairs, "Album Artist")),
        artist.clone(),
    );
    let genre = value_or_default(first_value_of(pairs, "Genre"), String::new());
    let year = match either_value(first_value_of(pairs, "Date"), first_value_of(pairs, "OriginalDate")) {
        Some(d) => year_from(d.as_str()),
        None => 0,
    };
    let track_number = match first_value_of(pairs, "Track") {
        Some(t) => track_number_from(t.as_str()),
        None => 0,
    };
    let duration = match track_seconds_of(pairs) {
        Some(s) => format_duration(s),
        None => String::from_str("0:00"),
    };
    Some(Track { title, artist, album, album_artist, genre, year, track_number, duration, path })
}


// ---------------------------------------------------------------------------
// Listings
// ---------------------------------------------------------------------------

/// What a line of a listing contributes: nothing for the closing `OK` (or a
/// greeting) and for lines without `": "`; a `file` pair that opens a new
/// record for a `file: ` line; any other `key: value` pair to the record
/// being read.
pub open spec fn line_entry(line: ResponseLine) -> Option<(bool, PairView)> {
    let t = line.text@;
    if is_ok_line(t) {
        None
    } else if starts_with(t, "file: "@) {
        Some((true, PairView { key: "file"@, value: t.skip(6), seconds: line.seconds }))
    } else {
        match split_once(t, ": "@) {
            Some((key, value)) => Some((false, PairView { key, value, seconds: line.seconds })),
            None => None,
        }
    }
}

/// How a listing line is read: the closing `OK` adds nothing; a line
/// `<key>: <value>`, whose key holds no `": "`, gives the pair of that key
/// and value, and opens a new record exactly when the key is `file`.
pub proof fn lemma_line_pairs(line: ResponseLine, k: Seq<char>, v: Seq<char>)
    ensures
        line.text@ == "OK"@ ==> line_entry(line) is None,
        (line.text@ == k + ": "@ + v && !crate::text::contains(k, ": "@) && !is_ok_line(
            line.text@,
        )) ==> line_entry(line) == Some(
            (k == "file"@, PairView { key: k, value: v, seconds: line.seconds }),
        ),
{
    reveal_strlit(": ");
    reveal_strlit("file: ");
    reveal_strlit("file");
    let t = line.text@;
    if t == k + ": "@ + v && !crate::text::contains(k, ": "@) && !is_ok_line(t) {
        let n = k.len() as int;
        assert(t[n] == ':' && t[n + 1] == ' ');
        assert(t.take(n) =~= k);
        assert(t.skip(n + 2) =~= v);
        if k == "file"@ {
            assert(t.take(6) =~= "file: "@);
            assert(t.skip(6) =~= v);
        } else {
            if starts_with(t, "file: "@) {
                assert(t.take(6)[4] == ':' && t.take(6)[5] == ' ');
                if n < 4 {
                    assert(t.take(6)[n] == t[n]);
                    assert(false);
                } else if n == 4 {
                    assert(k =~= "file"@) by {
                        assert forall|j: int| 0 <= j < 4 implies k[j] == "file"@[j] by {
                            assert(t.take(6)[j] == t[j]);
                            assert(t[j] == k[j]);
                        }
                    }
                } else if n == 5 {
                    assert(t.take(6)[5] == t[5]);
                } else {
                    assert(k[4] == t[4] && k[5] == t[5]);
                    assert(t.take(6)[4] == t[4] && t.take(6)[5] == t[5]);
                    assert(k.subrange(4, 6) =~= ": "@);
                    assert(crate::text::occurs_at(k, ": "@, 4));
                }
            }
            assert(!starts_with(t, "file: "@));
            assert(t.subrange(n, n + 2) =~= ": "@);
            assert forall|j: int| 0 <= j < n implies !crate::text::occurs_at(t, ": "@, j) by {
                if crate::text::occurs_at(t, ": "@, j) {
                    assert(t.subrange(j, j + 2)[0] == t[j] && t.subrange(j, j + 2)[1] == t[j + 1]);
                    if j + 2 <= n {
                        assert(k.subrange(j, j + 2) =~= t.subrange(j, j + 2));
                        assert(crate::text::occurs_at(k, ": "@, j));
                    } else {
                        assert(j == n - 1);
                        assert(t[j + 1] == ':');
                    }
                }
            }
            assert(crate::text::is_first_occurrence(t, ": "@, n));
            let i = choose|i: int| crate::text::is_first_occurrence(t, ": "@, i);
            assert(i == n) by {
                if i < n {
                    assert(!crate::text::occurs_at(t, ": "@, i));
                }
                if i > n {
                    assert(!crate::text::occurs_at(t, ": "@, n));
                }
            }
        }
    }
}

/// The tracks read so far, with the finished record's track appended where
/// its pairs make one.
pub open spec fn close_record(ts: Seq<TrackView>, record: Seq<PairView>) -> Seq<TrackView> {
    match track_of(record) {
        Some(t) => ts.push(t),
        None => ts,
    }
}

/// The tracks finished and the record being read after the given lines.
pub open spec fn scan(lines: Seq<ResponseLine>) -> (Seq<TrackView>, Seq<PairView>)
    decreases lines.len(),
{
    if lines.len() == 0 {
        (seq![], seq![])
    } else {
        let (ts, record) = scan(lines.drop_last());
        match line_entry(lines.last()) {
            None => (ts, record),
            Some((true, p)) => (close_record(ts, record), seq![p]),
            Some((false, p)) => (ts, record.push(p)),
        }
    }
}

/// The tracks of a listing: one per record that a `file: ` line opens, in
/// order; the pairs before the first `file: ` line make no track.
pub open spec fn tracks_of(lines: Seq<ResponseLine>) -> Seq<TrackView> {
    close_record(scan(lines).0, scan(lines).1)
}

/// What a line contributes to a listing (see [`line_entry`]).
fn entry_of_line(line: &ResponseLine) -> (r: Option<(bool, Pair)>)
    ensures
        match line_entry(*line) {
            Some((opens, p)) => r matches Some((o, q)) && o == opens && q@ == p,
            None => r is None,
        },
{
    let t = chars_of(line.text.as_str());
    let ok = same_chars(&t, &chars_of("OK")) || starts_with_chars(&t, &chars_of("OK MPD"));
    if ok {
        return None;
    }
    let file_prefix = chars_of("file: ");
    if starts_with_chars(&t, &file_prefix) {
        assert(file_prefix@.len() == 6) by {
            reveal_strlit("file: ");
        }
        let value = string_of_range(&t, file_prefix.len(), t.len());
        assert(t@.subrange(6, t@.len() as int) =~= t@.skip(6));
        return Some((true, Pair { key: String::from_str("file"), value, seconds: line.seconds }));
    }
    match split_once_chars(&t, &chars_of(": ")) {
        Some((end, start)) => {
            let key = string_of_range(&t, 0, end);
            let value = string_of_range(&t, start, t.len());
            assert(t@.subrange(0, end as int) =~= t@.take(end as int));
            assert(t@.subrange(start as int, t@.len() as int) =~= t@.skip(start as int));
            Some((false, Pair { key, value, seconds: line.seconds }))
        },
        None => None,
    }
}

/// The tracks of a listing response such as `listallinfo` or
/// `playlistinfo` gives (see [`tracks_of`]).
pub fn parse_tracks(lines: &[ResponseLine]) -> (r: Vec<Track>)
    ensures
        track_views(r@) == tracks_of(lines@),
{
    let mut tracks: Vec<Track> = Vec::new();
    let mut current: Vec<Pair> = Vec::new();
    let mut i: usize = 0;
    while i < lines.len()
        invariant
            i <= lines@.len(),
            (track_views(tracks@), pair_views(current@)) == scan(lines@.take(i as int)),
        decreases lines@.len() - i,
    {
        assert(lines@.take(i + 1).drop_last() =~= lines@.take(i as int));
        assert(lines@.take(i + 1).last() == lines@[i as int]);
        let ghost ts0 = tracks@;
        let ghost cur0 = current@;
        match entry_of_line(&lines[i]) {
            None => {},
            Some((true, p)) => {
                match track_from_pairs(&current) {
                    Some(t) => {
                        tracks.push(t);
                        assert(track_views(tracks@) =~= track_views(ts0).push(tracks@.last()@));
                    },
                    None => {},
                }
                current = Vec::new();
                current.push(p);
                assert(pair_views(current@) =~= seq![current@[0]@]);
            },
            Some((false, p)) => {
                current.push(p);
                assert(pair_views(current@) =~= pair_views(cur0).push(current@.last()@));
            },
        }
        i = i + 1;
    }
    assert(lines@.take(lines@.len() as int) =~= lines@);
    let ghost ts0 = tracks@;
    match track_from_pairs(&current) {
        Some(t) => {
            tracks.push(t);
            assert(track_views(tracks@) =~= track_views(ts0).push(tracks@.last()@));
        },
        None => {},
    }
    tracks
}


/// The paths named by the `file: ` lines of a listing, in order.
pub open spec fn file_paths(lines: Seq<ResponseLine>) -> Seq<Seq<char>>
    decreases lines.len(),
{
    if lines.len() == 0 {
        seq![]
    } else {
        match line_entry(lines.last()) {
            Some((true, p)) => file_paths(lines.drop_last()).push(p.value),
            _ => file_paths(lines.drop_last()),
        }
    }
}

/// The paths of a sequence of tracks.
pub open spec fn track_paths(ts: Seq<TrackView>) -> Seq<Seq<char>> {
    ts.map_values(|t: TrackView| t.path)
}

proof fn lemma_pair_line_is_not_file(line: ResponseLine)
    ensures
        line_entry(line) matches Some((false, p)) ==> p.key != "file"@,
{
    let t = line.text@;
    if !is_ok_line(t) && !starts_with(t, "file: "@) {
        if let Some((key, value)) = split_once(t, ": "@) {
            let i = choose|i: int| crate::text::is_first_occurrence(t, ": "@, i);
            if key == "file"@ {
                reveal_strlit("file");
                reveal_strlit(": ");
                reveal_strlit("file: ");
                assert(key.len() == 4);
                assert(i == 4);
                assert(t.subrange(4, 6) == ": "@);
                assert(t.take(6) =~= "file: "@) by {
                    assert forall|j: int| 0 <= j < 6 implies t.take(6)[j] == "file: "@[j] by {
                        if j < 4 {
                            assert(t.take(4)[j] == t[j]);
                        } else {
                            assert(t.subrange(4, 6)[j - 4] == t[j]);
                        }
                    }
                }
                assert(false);
            }
        }
    }
}

proof fn lemma_no_file_pair(ps: Seq<PairView>)
    requires
        forall|j: int| 0 <= j < ps.len() ==> ps[j].key != "file"@,
    ensures
        first_with_key(ps, "file"@) is None,
    decreases ps.len(),
{
    if ps.len() > 0 {
        lemma_no_file_pair(ps.drop_first());
    }
}

/// What reading a listing keeps true: the records after the first hold a
/// `file` pair first and nowhere else, and the paths of the tracks finished,
/// followed by that of the record being read, are the paths named so far.
spec fn scan_keeps_paths(lines: Seq<ResponseLine>) -> bool {
    let (ts, record) = scan(lines);
    &&& forall|j: int| 1 <= j < record.len() ==> record[j].key != "file"@
    &&& if record.len() > 0 && record[0].key == "file"@ {
        track_paths(ts).push(record[0].value) == file_paths(lines)
    } else {
        &&& forall|j: int| 0 <= j < record.len() ==> record[j].key != "file"@
        &&& track_paths(ts) == file_paths(lines)
    }
}

proof fn lemma_close_record_paths(ts: Seq<TrackView>, record: Seq<PairView>)
    ensures
        record.len() > 0 && record[0].key == "file"@ ==> track_paths(close_record(ts, record))
            == track_paths(ts).push(record[0].value),
        (forall|j: int| 0 <= j < record.len() ==> record[j].key != "file"@) ==> close_record(
            ts,
            record,
        ) == ts,
{
    if record.len() > 0 && record[0].key == "file"@ {
        let t = track_of(record)->0;
        assert(track_paths(ts.push(t)) =~= track_paths(ts).push(t.path));
    }
    if forall|j: int| 0 <= j < record.len() ==> record[j].key != "file"@ {
        lemma_no_file_pair(record);
    }
}

proof fn lemma_scan_keeps_paths(lines: Seq<ResponseLine>)
    ensures
        scan_keeps_paths(lines),
    decreases lines.len(),
{
    if lines.len() == 0 {
        assert(track_paths(Seq::<TrackView>::empty()) =~= Seq::<Seq<char>>::empty());
    } else {
        let prefix = lines.drop_last();
        lemma_scan_keeps_paths(prefix);
        lemma_pair_line_is_not_file(lines.last());
        let (ts, record) = scan(prefix);
        lemma_close_record_paths(ts, record);
        match line_entry(lines.last()) {
            None => {},
            Some((true, p)) => {
                reveal_strlit("file");
            },
            Some((false, p)) => {
                let record2 = record.push(p);
                assert(forall|j: int| 0 <= j < record.len() ==> record2[j] == record[j]);
            },
        }
    }
}

/// A listing gives one track per `file: ` line, in the order of those
/// lines, each with the path that line names.
pub proof fn lemma_one_track_per_file_line(lines: Seq<ResponseLine>)
    ensures
        track_paths(tracks_of(lines)) == file_paths(lines),
{
    lemma_scan_keeps_paths(lines);
    let (ts, record) = scan(lines);
    lemma_close_record_paths(ts, record);
}


/// The lines of a listing that open a record.
pub open spec fn opens_record(line: ResponseLine) -> bool {
    line_entry(line) matches Some((true, _))
}

proof fn lemma_scan_split(l1: Seq<ResponseLine>, l2: Seq<ResponseLine>)
    requires
        l2.len() > 0,
        opens_record(l2[0]),
    ensures
        scan(l1 + l2) == (tracks_of(l1) + scan(l2).0, scan(l2).1),
    decreases l2.len(),
{
    if l2.len() == 1 {
        assert((l1 + l2).drop_last() =~= l1);
        assert(l2.drop_last() =~= Seq::<ResponseLine>::empty());
        assert((l1 + l2).last() == l2[0]);
        assert(first_value(Seq::<PairView>::empty(), "file"@) is None);
        assert(tracks_of(l1) + Seq::<TrackView>::empty() =~= tracks_of(l1));
    } else {
        lemma_scan_split(l1, l2.drop_last());
        assert((l1 + l2).drop_last() =~= l1 + l2.drop_last());
        assert((l1 + l2).last() == l2.last());
        let (ts2, r2) = scan(l2.drop_last());
        let t1 = tracks_of(l1);
        match track_of(r2) {
            Some(t) => {
                assert((t1 + ts2).push(t) =~= t1 + ts2.push(t));
            },
            None => {},
        }
    }
}

/// A listing splits at any line that opens a record: the tracks of the
/// whole are the tracks of the part before that line followed by the tracks
/// of the rest. So no pair is ever carried from one record to another.
pub proof fn lemma_listing_splits_at_records(l1: Seq<ResponseLine>, l2: Seq<ResponseLine>)
    requires
        l2.len() > 0,
        opens_record(l2[0]),
    ensures
        tracks_of(l1 + l2) == tracks_of(l1) + tracks_of(l2),
{
    lemma_scan_split(l1, l2);
    let (ts2, r2) = scan(l2);
    let t1 = tracks_of(l1);
    match track_of(r2) {
        Some(t) => {
            assert((t1 + ts2).push(t) =~= t1 + ts2.push(t));
        },
        None => {},
    }
}

/// The pairs that lines which open no record add to the record being read,
/// in order.
pub open spec fn added_pairs(lines: Seq<ResponseLine>) -> Seq<PairView>
    decreases lines.len(),
{
    if lines.len() == 0 {
        seq![]
    } else {
        match line_entry(lines.last()) {
            Some((false, p)) => added_pairs(lines.drop_last()).push(p),
            _ => added_pairs(lines.drop_last()),
        }
    }
}

proof fn lemma_scan_one_record(f: ResponseLine, p: PairView, rest: Seq<ResponseLine>)
    requires
        line_entry(f) == Some((true, p)),
        forall|j: int| 0 <= j < rest.len() ==> !opens_record(#[trigger] rest[j]),
    ensures
        scan(seq![f] + rest) == (Seq::<TrackView>::empty(), seq![p] + added_pairs(rest)),
    decreases rest.len(),
{
    if rest.len() == 0 {
        assert(seq![f] + rest =~= seq![f]);
        assert(seq![f].drop_last() =~= Seq::<ResponseLine>::empty());
        assert(first_value(Seq::<PairView>::empty(), "file"@) is None);
        assert(seq![p] + added_pairs(rest) =~= seq![p]);
        assert(scan(Seq::<ResponseLine>::empty()) == (Seq::<TrackView>::empty(), Seq::<PairView>::empty()));
        assert(close_record(Seq::<TrackView>::empty(), Seq::<PairView>::empty()) =~= Seq::<TrackView>::empty());
        assert(scan(seq![f]) == (Seq::<TrackView>::empty(), seq![p]));
    } else {
        let init = rest.drop_last();
        assert forall|j: int| 0 <= j < init.len() implies !opens_record(#[trigger] init[j]) by {
            assert(init[j] == rest[j]);
        }
        lemma_scan_one_record(f, p, init);
        assert((seq![f] + rest).drop_last() =~= seq![f] + init);
        assert((seq![f] + rest).last() == rest.last());
        assert(!opens_record(rest[rest.len() - 1]));
        match line_entry(rest.last()) {
            Some((false, q)) => {
                assert((seq![p] + added_pairs(init)).push(q) =~= seq![p] + added_pairs(init).push(q));
            },
            _ => {
                assert(added_pairs(rest) == added_pairs(init));
            },
        }
    }
}

/// A record is the `file: ` line that opens it and the lines up to the next
/// such line: those lines give exactly one track, the one described by the
/// `file` pair followed by the pairs the other lines hold, in order.
pub proof fn lemma_record_makes_one_track(f: ResponseLine, p: PairView, rest: Seq<ResponseLine>)
    requires
        line_entry(f) == Some((true, p)),
        forall|j: int| 0 <= j < rest.len() ==> !opens_record(#[trigger] rest[j]),
    ensures
        track_of(seq![p] + added_pairs(rest)) is Some,
        tracks_of(seq![f] + rest) == seq![track_of(seq![p] + added_pairs(rest))->0],
{
    lemma_scan_one_record(f, p, rest);
    reveal_strlit("file");
    let rec = seq![p] + added_pairs(rest);
    assert(rec[0] == p);
    assert(p.key == "file"@);
    assert(first_with_key(rec, "file"@) == Some(p));
    assert(Seq::<TrackView>::empty().push(track_of(rec)->0) =~= seq![track_of(rec)->0]);
}

// ---------------------------------------------------------------------------
// Albums
// ---------------------------------------------------------------------------

/// One album of the library.
#[derive(Debug, Clone, PartialEq, Eq)]
pub struct AlbumSummary {
    pub album: String,
    pub album_artist: String,
    pub year: u32,
}

/// The mathematical content of an [`AlbumSummary`].
pub struct AlbumView {
    pub album: Seq<char>,
    pub album_artist: Seq<char>,
    pub year: u32,
}

impl View for AlbumSummary {
    type V = AlbumView;

    open spec fn view(&self) -> AlbumView {
        AlbumView { album: self.album@, album_artist: self.album_artist@, year: self.year }
    }
}

/// The views of a sequence of album summaries.
pub open spec fn album_views(s: Seq<AlbumSummary>) -> Seq<AlbumView> {
    s.map_values(|a: AlbumSummary| a@)
}

/// What tells two albums apart: the album name and the album artist,
/// joined by the control character U+0001.
pub open spec fn album_key(album: Seq<char>, album_artist: Seq<char>) -> Seq<char> {
    album + seq!['\u{1}'] + album_artist
}

/// Album keys tell albums apart by name and album artist: for album names
/// without the separator U+0001, two keys are the same exactly when both the
/// names and the album artists are.
pub proof fn lemma_album_key_separates(
    a1: Seq<char>,
    aa1: Seq<char>,
    a2: Seq<char>,
    aa2: Seq<char>,
)
    requires
        !a1.contains('\u{1}'),
        !a2.contains('\u{1}'),
    ensures
        album_key(a1, aa1) == album_key(a2, aa2) <==> (a1 == a2 && aa1 == aa2),
{
    let k1 = album_key(a1, aa1);
    let k2 = album_key(a2, aa2);
    if k1 == k2 {
        assert(k1[a1.len() as int] == '\u{1}');
        assert(k2[a2.len() as int] == '\u{1}');
        if a1.len() < a2.len() {
            assert(k2[a1.len() as int] == a2[a1.len() as int]);
            assert(false);
        }
        if a2.len() < a1.len() {
            assert(k1[a2.len() as int] == a1[a2.len() as int]);
            assert(false);
        }
        assert(a1 =~= k1.take(a1.len() as int));
        assert(a2 =~= k2.take(a2.len() as int));
        assert(aa1 =~= k1.skip(a1.len() as int + 1));
        assert(aa2 =~= k2.skip(a2.len() as int + 1));
    }
}

/// The album key of a track.
pub open spec fn track_album_key(t: TrackView) -> Seq<char> {
    album_key(t.album, t.album_artist)
}

/// The album key of a summary.
pub open spec fn summary_key(a: AlbumView) -> Seq<char> {
    album_key(a.album, a.album_artist)
}

/// The album of a track, with the track's year.
pub open spec fn summary_of(t: TrackView) -> AlbumView {
    AlbumView { album: t.album, album_artist: t.album_artist, year: t.year }
}

/// The album key occurs among the tracks.
pub open spec fn has_album(ts: Seq<TrackView>, key: Seq<char>) -> bool {
    exists|j: int| 0 <= j < ts.len() && track_album_key(ts[j]) == key
}

/// The albums of a list of tracks: one summary per album key, taken from
/// the first track with that key, in the order of those first tracks.
pub open spec fn summarize(ts: Seq<TrackView>) -> Seq<AlbumView>
    decreases ts.len(),
{
    if ts.len() == 0 {
        seq![]
    } else if has_album(ts.drop_last(), track_album_key(ts.last())) {
        summarize(ts.drop_last())
    } else {
        summarize(ts.drop_last()).push(summary_of(ts.last()))
    }
}

/// The album key of a track.
fn album_key_of(album: &String, album_artist: &String) -> (r: String)
    ensures
        r@ == album_key(album@, album_artist@),
{
    let mut key = album.clone();
    push_char(&mut key, '\u{1}');
    key.append(album_artist.as_str());
    assert(key@ =~= album_key(album@, album_artist@));
    key
}

/// The albums of a list of tracks (see [`summarize`]).
pub fn summarize_albums(tracks: &[Track]) -> (r: Vec<AlbumSummary>)
    ensures
        album_views(r@) == summarize(track_views(tracks@)),
{
    let ghost ts = track_views(tracks@);
    let mut seen: Vec<String> = Vec::new();
    let mut out: Vec<AlbumSummary> = Vec::new();
    let mut i: usize = 0;
    while i < tracks.len()
        invariant
            i <= tracks@.len(),
            ts == track_views(tracks@),
            album_views(out@) == summarize(ts.take(i as int)),
            forall|k: Seq<char>|
                has_album(ts.take(i as int), k) <==> exists|m: int|
                    0 <= m < seen@.len() && (#[trigger] seen@[m])@ == k,
        decreases tracks@.len() - i,
    {
        let t = &tracks[i];
        let key = album_key_of(&t.album, &t.album_artist);
        let ghost prefix = ts.take(i as int);
        let ghost next = ts.take(i + 1);
        assert(next.drop_last() =~= prefix);
        assert(next.last() == t@);
        let mut found = false;
        let mut m: usize = 0;
        while m < seen.len()
            invariant
                m <= seen@.len(),
                found == exists|q: int| 0 <= q < m && (#[trigger] seen@[q])@ == key@,
            decreases seen@.len() - m,
        {
            if seen[m] == key {
                found = true;
            }
            m = m + 1;
        }
        let ghost out0 = out@;
        let ghost seen0 = seen@;
        if !found {
            out.push(
                AlbumSummary {
                    album: t.album.clone(),
                    album_artist: t.album_artist.clone(),
                    year: t.year,
                },
            );
            assert(album_views(out@) =~= album_views(out0).push(summary_of(t@)));
            seen.push(key);
        }
        assert forall|k: Seq<char>| has_album(next, k) <==> exists|q: int|
            0 <= q < seen@.len() && (#[trigger] seen@[q])@ == k by {
            if has_album(next, k) {
                let j = choose|j: int| 0 <= j < next.len() && track_album_key(next[j]) == k;
                if j < i {
                    assert(has_album(prefix, k)) by {
                        assert(prefix[j] == next[j]);
                    }
                    let q = choose|q: int| 0 <= q < seen0.len() && (#[trigger] seen0[q])@ == k;
                    assert(seen@[q] == seen0[q]);
                } else if !found {
                    assert(seen@[seen@.len() - 1]@ == k);
                }
            }
            if exists|q: int| 0 <= q < seen@.len() && (#[trigger] seen@[q])@ == k {
                let q = choose|q: int| 0 <= q < seen@.len() && (#[trigger] seen@[q])@ == k;
                if q < seen0.len() {
                    assert(seen0[q] == seen@[q]);
                    assert(has_album(prefix, k));
                    let j = choose|j: int| 0 <= j < prefix.len() && track_album_key(prefix[j]) == k;
                    assert(next[j] == prefix[j]);
                } else {
                    assert(track_album_key(next[i as int]) == k);
                }
            }
        }
        i = i + 1;
    }
    assert(ts.take(tracks@.len() as int) =~= ts);
    out
}


/// Each summary comes from the first track with its album key.
pub open spec fn from_first_track(ts: Seq<TrackView>, a: AlbumView) -> bool {
    exists|j: int|
        0 <= j < ts.len() && a == summary_of(ts[j]) && !has_album(
            ts.take(j),
            track_album_key(ts[j]),
        )
}

/// Each album summary is that of the first track with its album key.
pub proof fn lemma_summaries_from_first_tracks(ts: Seq<TrackView>)
    ensures
        forall|i: int|
            0 <= i < summarize(ts).len() ==> from_first_track(ts, #[trigger] summarize(ts)[i]),
    decreases ts.len(),
{
    if ts.len() > 0 {
        let prefix = ts.drop_last();
        lemma_summaries_from_first_tracks(prefix);
        let before = summarize(prefix);
        let out = summarize(ts);
        assert forall|i: int| 0 <= i < before.len() implies from_first_track(
            ts,
            #[trigger] before[i],
        ) by {
            let j = choose|j: int|
                0 <= j < prefix.len() && before[i] == summary_of(prefix[j]) && !has_album(
                    prefix.take(j),
                    track_album_key(prefix[j]),
                );
            assert(prefix.take(j) =~= ts.take(j));
            assert(ts[j] == prefix[j]);
        }
        if !has_album(prefix, track_album_key(ts.last())) {
            assert forall|i: int| 0 <= i < out.len() implies from_first_track(
                ts,
                #[trigger] out[i],
            ) by {
                if i < before.len() {
                    assert(out[i] == before[i]);
                } else {
                    assert(ts.take(ts.len() - 1) =~= prefix);
                }
            }
        }
    }
}

/// Every track's album has a summary.
pub proof fn lemma_summaries_cover_tracks(ts: Seq<TrackView>)
    ensures
        forall|j: int|
            0 <= j < ts.len() ==> exists|i: int|
                0 <= i < summarize(ts).len() && summary_key(summarize(ts)[i]) == track_album_key(
                    #[trigger] ts[j],
                ),
    decreases ts.len(),
{
    if ts.len() > 0 {
        let prefix = ts.drop_last();
        let key = track_album_key(ts.last());
        lemma_summaries_cover_tracks(prefix);
        let before = summarize(prefix);
        let out = summarize(ts);
        assert forall|j: int| 0 <= j < ts.len() implies exists|i: int|
            0 <= i < out.len() && summary_key(out[i]) == track_album_key(#[trigger] ts[j]) by {
            if j < prefix.len() {
                assert(ts[j] == prefix[j]);
                let i = choose|i: int|
                    0 <= i < before.len() && summary_key(before[i]) == track_album_key(prefix[j]);
                assert(out[i] == before[i]);
            } else if has_album(prefix, key) {
                let k = choose|k: int| 0 <= k < prefix.len() && track_album_key(prefix[k]) == key;
                assert(prefix[k] == ts[k]);
            } else {
                assert(out[before.len() as int] == summary_of(ts.last()));
            }
        }
    }
}

/// No two album summaries share an album key.
pub proof fn lemma_summaries_distinct(ts: Seq<TrackView>)
    ensures
        forall|i: int, j: int|
            0 <= i < j < summarize(ts).len() ==> summary_key(summarize(ts)[i]) != summary_key(
                summarize(ts)[j],
            ),
    decreases ts.len(),
{
    if ts.len() > 0 {
        let prefix = ts.drop_last();
        let key = track_album_key(ts.last());
        lemma_summaries_distinct(prefix);
        lemma_summaries_from_first_tracks(prefix);
        let before = summarize(prefix);
        if !has_album(prefix, key) {
            assert forall|i: int| 0 <= i < before.len() implies summary_key(
                #[trigger] before[i],
            ) != key by {
                assert(from_first_track(prefix, before[i]));
                let j = choose|j: int|
                    0 <= j < prefix.len() && before[i] == summary_of(prefix[j]) && !has_album(
                        prefix.take(j),
                        track_album_key(prefix[j]),
                    );
                assert(summary_key(before[i]) == track_album_key(prefix[j]));
            }
        }
    }
}

/// How a record's pairs give a track's names: the path is the first
/// `file` value; the artist is the first `Artist` value, else
/// `Unknown Artist`; the album artist is the first `AlbumArtist` value,
/// else the first `Album Artist` value, else the track's artist (so a
/// record with an artist but no album artist gets its artist); the title is
/// the first `Title` value; the album the first `Album` value, else
/// `Unknown Album`; the genre the first `Genre` value, else empty.
pub proof fn lemma_record_names(ps: Seq<PairView>, path: Seq<char>)
    requires
        first_value(ps, "file"@) == Some(path),
    ensures
        track_of(ps) is Some,
        track_of(ps)->0.path == path,
        first_value(ps, "Artist"@) matches Some(a) ==> track_of(ps)->0.artist == a,
        first_value(ps, "Artist"@) is None ==> track_of(ps)->0.artist == "Unknown Artist"@,
        first_value(ps, "AlbumArtist"@) matches Some(a) ==> track_of(ps)->0.album_artist == a,
        first_value(ps, "AlbumArtist"@) is None ==> (first_value(ps, "Album Artist"@) matches Some(a)
            ==> track_of(ps)->0.album_artist == a),
        first_value(ps, "AlbumArtist"@) is None && first_value(ps, "Album Artist"@) is None
            ==> track_of(ps)->0.album_artist == track_of(ps)->0.artist,
        first_value(ps, "AlbumArtist"@) is None && first_value(ps, "Album Artist"@) is None ==> (
        first_value(ps, "Artist"@) matches Some(a) ==> track_of(ps)->0.album_artist == a),
        first_value(ps, "Title"@) matches Some(t) ==> track_of(ps)->0.title == t,
        first_value(ps, "Title"@) is None ==> track_of(ps)->0.title == title_from_path_text(path),
        first_value(ps, "Album"@) matches Some(a) ==> track_of(ps)->0.album == a,
        first_value(ps, "Album"@) is None ==> track_of(ps)->0.album == "Unknown Album"@,
        first_value(ps, "Genre"@) matches Some(g) ==> track_of(ps)->0.genre == g,
        first_value(ps, "Genre"@) is None ==> track_of(ps)->0.genre.len() == 0,
{
}

/// How a record's pairs give a track's numbers: the year is the first four
/// characters of the first `Date` value (else of the first `OriginalDate`
/// value) read as a number, zero where that fails or neither is present;
/// the track number is what precedes any `/` in the first `Track` value,
/// read as a number, zero where that fails or it is absent; the length is
/// the seconds of the first `duration` pair (else of the first `Time` pair)
/// as `minutes:seconds`, `0:00` where there are none.
pub proof fn lemma_record_numbers(ps: Seq<PairView>, path: Seq<char>)
    requires
        first_value(ps, "file"@) == Some(path),
    ensures
        first_value(ps, "Date"@) matches Some(d) ==> track_of(ps)->0.year == match parse_unsigned(
            first_chars(d, 4),
            u32::MAX as nat,
        ) {
            Some(n) => n as u32,
            None => 0u32,
        },
        first_value(ps, "Date"@) is None ==> (first_value(ps, "OriginalDate"@) matches Some(d)
            ==> track_of(ps)->0.year == match parse_unsigned(first_chars(d, 4), u32::MAX as nat) {
            Some(n) => n as u32,
            None => 0u32,
        }),
        first_value(ps, "Date"@) is None && first_value(ps, "OriginalDate"@) is None ==> track_of(
            ps,
        )->0.year == 0,
        first_value(ps, "Track"@) matches Some(t) ==> track_of(ps)->0.track_number == match parse_unsigned(
            before_first(t, '/'),
            u32::MAX as nat,
        ) {
            Some(n) => n as u32,
            None => 0u32,
        },
        first_value(ps, "Track"@) is None ==> track_of(ps)->0.track_number == 0,
        first_with_key(ps, "duration"@) matches Some(p) ==> track_of(ps)->0.duration == match p.seconds {
            Some(sec) => decimal(sec as nat / 60) + seq![':'] + two_digits(sec as nat % 60),
            None => "0:00"@,
        },
        first_with_key(ps, "duration"@) is None ==> (first_with_key(ps, "Time"@) matches Some(p)
            ==> track_of(ps)->0.duration == match p.seconds {
            Some(sec) => decimal(sec as nat / 60) + seq![':'] + two_digits(sec as nat % 60),
            None => "0:00"@,
        }),
{
}

} // verus!
