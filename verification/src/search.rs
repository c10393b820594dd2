//! The search box: which tracks of the library a query shows.

use vstd::prelude::*;
use crate::text::{chars_of, contains, contains_chars};
use crate::tracks::{track_views, Track, TrackView};

verus! {

/// What std's `str::to_lowercase` gives for a text: its lowercase mapping
/// under Unicode's rules, a function of the text alone.
pub uninterp spec fn lowercase(s: Seq<char>) -> Seq<char>;

/// What std's `str::trim` gives for a text: the text without its leading
/// and trailing Unicode white space, a function of the text alone.
pub uninterp spec fn trimmed(s: Seq<char>) -> Seq<char>;

/// The lowercase form of a text (std's `str::to_lowercase`).
#[verifier::external_body]
fn to_lowercase(s: &str) -> (r: String)
    ensures
        r@ == lowercase(s@),
{
    s.to_lowercase()
}

/// A text without its leading and trailing white space (std's `str::trim`).
#[verifier::external_body]
fn trim(s: &str) -> (r: &str)
    ensures
        r@ == trimmed(s@),
{
    s.trim()
}

/// What a query searches for: the query trimmed and in lowercase.
pub open spec fn needle_of(query: Seq<char>) -> Seq<char> {
    lowercase(trimmed(query))
}

/// A track matches a search when the search is empty or its title, artist,
/// album or album artist contains it, compared in lowercase.
pub open spec fn matches_search(needle: Seq<char>, t: TrackView) -> bool {
    needle.len() == 0 || contains(lowercase(t.title), needle) || contains(lowercase(t.artist), needle)
        || contains(lowercase(t.album), needle) || contains(lowercase(t.album_artist), needle)
}

/// The positions of the tracks that match a search, in order.
pub open spec fn visible_of(ts: Seq<TrackView>, needle: Seq<char>) -> Seq<usize>
    decreases ts.len(),
{
    if ts.len() == 0 {
        seq![]
    } else if matches_search(needle, ts.last()) {
        visible_of(ts.drop_last(), needle).push((ts.len() - 1) as usize)
    } else {
        visible_of(ts.drop_last(), needle)
    }
}

/// What a query searches for.
pub fn search_needle(query: &str) -> (r: Vec<char>)
    ensures
        r@ == needle_of(query@),
{
    let t = trim(query);
    let l = to_lowercase(t);
    chars_of(l.as_str())
}

fn field_contains(field: &String, needle: &[char]) -> (r: bool)
    ensures
        r == contains(lowercase(field@), needle@),
{
    let l = to_lowercase(field.as_str());
    contains_chars(&chars_of(l.as_str()), needle)
}

/// Whether a track matches a search.
pub fn track_matches(needle: &[char], t: &Track) -> (r: bool)
    ensures
        r == matches_search(needle@, t@),
{
    needle.len() == 0 || field_contains(&t.title, needle) || field_contains(&t.artist, needle)
        || field_contains(&t.album, needle) || field_contains(&t.album_artist, needle)
}

/// The positions of the tracks a query shows, in order.
pub fn visible_tracks(tracks: &[Track], query: &str) -> (r: Vec<usize>)
    ensures
        r@ == visible_of(track_views(tracks@), needle_of(query@)),
{
    let needle = search_needle(query);
    let ghost ts = track_views(tracks@);
    let mut r: Vec<usize> = Vec::new();
    let mut i: usize = 0;
    while i < tracks.len()
        invariant
            ts == track_views(tracks@),
            i <= tracks@.len(),
            needle@ == needle_of(query@),
            r@ == visible_of(ts.take(i as int), needle@),
        decreases tracks@.len() - i,
    {
        assert(ts.take(i + 1).drop_last() =~= ts.take(i as int));
        assert(ts.take(i + 1).last() == tracks@[i as int]@);
        if track_matches(&needle, &tracks[i]) {
            r.push(i);
        }
        i = i + 1;
    }
    assert(ts.take(tracks@.len() as int) =~= ts);
    r
}

/// Position `x` is among those shown.
pub open spec fn shows(v: Seq<usize>, x: int) -> bool {
    exists|k: int| 0 <= k < v.len() && v[k] as int == x
}

/// The search shows positions of the library in increasing order, and
/// exactly those of the tracks that match it.
pub proof fn lemma_visible_positions(ts: Seq<TrackView>, needle: Seq<char>)
    requires
        ts.len() <= usize::MAX,
    ensures
        forall|k: int|
            0 <= k < visible_of(ts, needle).len() ==> (#[trigger] visible_of(ts, needle)[k]) < ts.len(),
        forall|k: int, l: int|
            0 <= k < l < visible_of(ts, needle).len() ==> visible_of(ts, needle)[k] < visible_of(
                ts,
                needle,
            )[l],
        forall|x: int|
            0 <= x < ts.len() ==> (shows(visible_of(ts, needle), x) <==> matches_search(
                needle,
                #[trigger] ts[x],
            )),
    decreases ts.len(),
{
    if ts.len() > 0 {
        let prefix = ts.drop_last();
        lemma_visible_positions(prefix, needle);
        let v0 = visible_of(prefix, needle);
        let v = visible_of(ts, needle);
        let last = (ts.len() - 1) as usize;
        assert(last as int == ts.len() - 1);
        assert forall|x: int| 0 <= x < ts.len() implies (shows(v, x) <==> matches_search(
            needle,
            #[trigger] ts[x],
        )) by {
            if x < ts.len() - 1 {
                assert(ts[x] == prefix[x]);
                if shows(v, x) {
                    let k = choose|k: int| 0 <= k < v.len() && v[k] as int == x;
                    if k < v0.len() {
                        assert(v0[k] == v[k]);
                    }
                }
                if shows(v0, x) {
                    let k = choose|k: int| 0 <= k < v0.len() && v0[k] as int == x;
                    assert(v[k] == v0[k]);
                }
            } else {
                if matches_search(needle, ts.last()) {
                    assert(v[v.len() - 1] == last);
                } else if shows(v, x) {
                    let k = choose|k: int| 0 <= k < v.len() && v[k] as int == x;
                    assert(v0[k] == v[k]);
                }
            }
        }
    }
}

/// A search shows a track exactly when the search is empty or the track's
/// title, artist, album or album artist, in lowercase, contains it: a track
/// whose lowercased album artist (or title, artist, album) contains a
/// non-empty search is shown whatever its other fields hold, and a track none
/// of whose four fields contains it is hidden.
pub proof fn lemma_search_fields(ts: Seq<TrackView>, needle: Seq<char>, x: int)
    requires
        ts.len() <= usize::MAX,
        0 <= x < ts.len(),
    ensures
        needle.len() == 0 ==> shows(visible_of(ts, needle), x),
        contains(lowercase(ts[x].title), needle) ==> shows(visible_of(ts, needle), x),
        contains(lowercase(ts[x].artist), needle) ==> shows(visible_of(ts, needle), x),
        contains(lowercase(ts[x].album), needle) ==> shows(visible_of(ts, needle), x),
        contains(lowercase(ts[x].album_artist), needle) ==> shows(visible_of(ts, needle), x),
        shows(visible_of(ts, needle), x) ==> (needle.len() == 0 || contains(
            lowercase(ts[x].title),
            needle,
        ) || contains(lowercase(ts[x].artist), needle) || contains(lowercase(ts[x].album), needle)
            || contains(lowercase(ts[x].album_artist), needle)),
{
    lemma_visible_positions(ts, needle);
    assert(shows(visible_of(ts, needle), x) <==> matches_search(needle, ts[x]));
}

} // verus!
