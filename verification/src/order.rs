//! The order the library is listed in: by album artist, album, track number
//! and title, ties kept in the order they came in.

use vstd::prelude::*;
use crate::text::chars_of;
use crate::tracks::{track_views, Track, TrackView};

verus! {

/// The order of `String`'s comparison: character by character by code
/// point (UTF-8 keeps it), a proper prefix first.
pub open spec fn text_before(a: Seq<char>, b: Seq<char>) -> bool
    decreases a.len(),
{
    if a.len() == 0 {
        b.len() > 0
    } else if b.len() == 0 {
        false
    } else if a[0] != b[0] {
        (a[0] as int) < (b[0] as int)
    } else {
        text_before(a.drop_first(), b.drop_first())
    }
}

proof fn lemma_text_irreflexive(a: Seq<char>)
    ensures
        !text_before(a, a),
    decreases a.len(),
{
    if a.len() > 0 {
        lemma_text_irreflexive(a.drop_first());
    }
}

proof fn lemma_text_transitive(a: Seq<char>, b: Seq<char>, c: Seq<char>)
    requires
        text_before(a, b),
        text_before(b, c),
    ensures
        text_before(a, c),
    decreases a.len(),
{
    if a.len() > 0 && b.len() > 0 && c.len() > 0 && a[0] == b[0] && b[0] == c[0] {
        lemma_text_transitive(a.drop_first(), b.drop_first(), c.drop_first());
    }
}

proof fn lemma_text_total(a: Seq<char>, b: Seq<char>)
    ensures
        text_before(a, b) || text_before(b, a) || a == b,
    decreases a.len(),
{
    if a.len() > 0 && b.len() > 0 {
        if a[0] == b[0] {
            lemma_text_total(a.drop_first(), b.drop_first());
            if a.drop_first() == b.drop_first() {
                assert(a =~= seq![a[0]] + a.drop_first());
                assert(b =~= seq![b[0]] + b.drop_first());
            }
        } else {
            assert((a[0] as int) != (b[0] as int));
        }
    } else if a.len() == 0 && b.len() == 0 {
        assert(a =~= b);
    }
}

/// `String`'s order as [`text_before`] has it: a text comes before any
/// longer text that begins with it, never after it; and after a common
/// beginning, the first character that differs decides, by code point.
pub proof fn lemma_text_order(p: Seq<char>, a: Seq<char>, b: Seq<char>)
    ensures
        b.len() > 0 ==> text_before(p, p + b),
        !text_before(p + a, p),
        (a.len() > 0 && b.len() > 0 && a[0] != b[0]) ==> (text_before(p + a, p + b) <==> (a[0] as int)
            < (b[0] as int)),
    decreases p.len(),
{
    if p.len() == 0 {
        assert(p + a =~= a);
        assert(p + b =~= b);
    } else {
        lemma_text_order(p.drop_first(), a, b);
        assert((p + a).drop_first() =~= p.drop_first() + a);
        assert((p + b).drop_first() =~= p.drop_first() + b);
        assert((p + a)[0] == p[0]);
        assert((p + b)[0] == p[0]);
    }
}

/// Two tracks have the same sort key.
pub open spec fn same_key(x: TrackView, y: TrackView) -> bool {
    x.album_artist == y.album_artist && x.album == y.album && x.track_number == y.track_number
        && x.title == y.title
}

/// `x` sorts before `y`: by album artist, then album, then track number,
/// then title.
pub open spec fn track_before(x: TrackView, y: TrackView) -> bool {
    text_before(x.album_artist, y.album_artist) || (x.album_artist == y.album_artist && (
    text_before(x.album, y.album) || (x.album == y.album && (x.track_number < y.track_number || (
    x.track_number == y.track_number && text_before(x.title, y.title))))))
}

proof fn lemma_track_irreflexive(x: TrackView)
    ensures
        !track_before(x, x),
{
    lemma_text_irreflexive(x.album_artist);
    lemma_text_irreflexive(x.album);
    lemma_text_irreflexive(x.title);
}

proof fn lemma_track_transitive(x: TrackView, y: TrackView, z: TrackView)
    requires
        track_before(x, y) || same_key(x, y),
        track_before(y, z) || same_key(y, z),
        track_before(x, y) || track_before(y, z),
    ensures
        track_before(x, z),
{
    if text_before(x.album_artist, y.album_artist) && text_before(y.album_artist, z.album_artist) {
        lemma_text_transitive(x.album_artist, y.album_artist, z.album_artist);
    }
    if text_before(x.album, y.album) && text_before(y.album, z.album) {
        lemma_text_transitive(x.album, y.album, z.album);
    }
    if text_before(x.title, y.title) && text_before(y.title, z.title) {
        lemma_text_transitive(x.title, y.title, z.title);
    }
}

proof fn lemma_track_total(x: TrackView, y: TrackView)
    ensures
        track_before(x, y) || track_before(y, x) || same_key(x, y),
{
    lemma_text_total(x.album_artist, y.album_artist);
    lemma_text_total(x.album, y.album);
    lemma_text_total(x.title, y.title);
}

/// Track `i` of `ts` comes before track `j` in the listing: its key sorts
/// first, or the keys are the same and it came first.
pub open spec fn placed_before(ts: Seq<TrackView>, i: int, j: int) -> bool {
    track_before(ts[i], ts[j]) || (same_key(ts[i], ts[j]) && i < j)
}

/// Position `x` occurs in `ord`.
pub open spec fn lists(ord: Seq<usize>, x: int) -> bool {
    exists|k: int| 0 <= k < ord.len() && ord[k] as int == x
}

/// `ord` lists every position of `ts` once, in listing order: the order a
/// stable sort by the key gives.
pub open spec fn is_stable_order(ts: Seq<TrackView>, ord: Seq<usize>) -> bool {
    &&& ord.len() == ts.len()
    &&& forall|k: int| 0 <= k < ord.len() ==> (#[trigger] ord[k]) < ts.len()
    &&& forall|x: int| 0 <= x < ts.len() ==> #[trigger] lists(ord, x)
    &&& forall|k: int, l: int|
        0 <= k < l < ord.len() ==> placed_before(ts, ord[k] as int, ord[l] as int)
}

/// The result of one comparison.
pub enum Rank {
    Before,
    Same,
    After,
}

/// Compares two texts as `String`'s comparison does.
pub fn compare_text(a: &[char], b: &[char]) -> (r: Rank)
    ensures
        r is Before <==> text_before(a@, b@),
        r is Same <==> a@ == b@,
        r is After <==> text_before(b@, a@),
{
    let alen = a.len();
    let blen = b.len();
    let mut i: usize = 0;
    proof {
        lemma_text_total(a@, b@);
        lemma_text_irreflexive(a@);
        if text_before(a@, b@) && text_before(b@, a@) {
            lemma_text_transitive(a@, b@, a@);
        }
        assert(a@.skip(0) =~= a@);
        assert(b@.skip(0) =~= b@);
    }
    while i < alen && i < blen && a[i] == b[i]
        invariant
            alen == a@.len(),
            blen == b@.len(),
            i <= alen,
            i <= blen,
            text_before(a@, b@) == text_before(a@.skip(i as int), b@.skip(i as int)),
            text_before(b@, a@) == text_before(b@.skip(i as int), a@.skip(i as int)),
            a@.take(i as int) == b@.take(i as int),
        decreases alen - i,
    {
        assert(a@.skip(i as int).drop_first() =~= a@.skip(i + 1));
        assert(b@.skip(i as int).drop_first() =~= b@.skip(i + 1));
        assert(a@.take(i + 1) =~= a@.take(i as int).push(a@[i as int]));
        assert(b@.take(i + 1) =~= b@.take(i as int).push(b@[i as int]));
        i = i + 1;
    }
    if i == alen && i == blen {
        assert(a@ =~= a@.take(i as int));
        assert(b@ =~= b@.take(i as int));
        Rank::Same
    } else if i == alen {
        assert(a@.skip(i as int).len() == 0);
        assert(a@ != b@);
        Rank::Before
    } else if i == blen {
        assert(b@.skip(i as int).len() == 0);
        assert(a@.len() != b@.len());
        Rank::After
    } else {
        assert(a@.skip(i as int)[0] == a@[i as int]);
        assert(b@.skip(i as int)[0] == b@[i as int]);
        assert(a@[i as int] != b@[i as int]);
        if a[i] < b[i] {
            Rank::Before
        } else {
            Rank::After
        }
    }
}


/// The sort key of a track, as characters.
struct SortKey {
    artist: Vec<char>,
    album: Vec<char>,
    number: u32,
    title: Vec<char>,
}

spec fn key_matches(k: SortKey, t: TrackView) -> bool {
    k.artist@ == t.album_artist && k.album@ == t.album && k.number == t.track_number && k.title@
        == t.title
}

fn key_of(t: &Track) -> (k: SortKey)
    ensures
        key_matches(k, t@),
{
    SortKey {
        artist: chars_of(t.album_artist.as_str()),
        album: chars_of(t.album.as_str()),
        number: t.track_number,
        title: chars_of(t.title.as_str()),
    }
}

fn compare_keys(x: &SortKey, y: &SortKey, Ghost(tx): Ghost<TrackView>, Ghost(ty): Ghost<TrackView>) -> (r: Rank)
    requires
        key_matches(*x, tx),
        key_matches(*y, ty),
    ensures
        r is Before <==> track_before(tx, ty),
        r is Same <==> same_key(tx, ty),
        r is After <==> track_before(ty, tx),
{
    proof {
        lemma_track_total(tx, ty);
        lemma_track_irreflexive(tx);
        if track_before(tx, ty) && track_before(ty, tx) {
            lemma_track_transitive(tx, ty, tx);
        }
        if same_key(tx, ty) {
            lemma_track_irreflexive(tx);
        }
    }
    match compare_text(&x.artist, &y.artist) {
        Rank::Before => return Rank::Before,
        Rank::After => return Rank::After,
        Rank::Same => {},
    }
    match compare_text(&x.album, &y.album) {
        Rank::Before => return Rank::Before,
        Rank::After => return Rank::After,
        Rank::Same => {},
    }
    if x.number < y.number {
        return Rank::Before;
    }
    if x.number > y.number {
        return Rank::After;
    }
    compare_text(&x.title, &y.title)
}

/// The listing order of the tracks: every position once, sorted by album
/// artist, album, track number and title, ties in the order they came in.
pub fn stable_order(tracks: &[Track]) -> (ord: Vec<usize>)
    ensures
        is_stable_order(track_views(tracks@), ord@),
{
    let ghost ts = track_views(tracks@);
    let n = tracks.len();
    let mut keys: Vec<SortKey> = Vec::new();
    let mut i: usize = 0;
    while i < n
        invariant
            n == tracks@.len(),
            ts == track_views(tracks@),
            i <= n,
            keys@.len() == i,
            forall|j: int| 0 <= j < i ==> key_matches(#[trigger] keys@[j], ts[j]),
        decreases n - i,
    {
        keys.push(key_of(&tracks[i]));
        i = i + 1;
    }
    let mut ord: Vec<usize> = Vec::new();
    let mut i: usize = 0;
    while i < n
        invariant
            n == tracks@.len(),
            ts == track_views(tracks@),
            ts.len() == n,
            i <= n,
            keys@.len() == n,
            forall|j: int| 0 <= j < n ==> key_matches(#[trigger] keys@[j], ts[j]),
            ord@.len() == i,
            forall|k: int| 0 <= k < ord@.len() ==> (#[trigger] ord@[k]) < i,
            forall|x: int| 0 <= x < i ==> #[trigger] lists(ord@, x),
            forall|k: int, l: int|
                0 <= k < l < ord@.len() ==> placed_before(ts, ord@[k] as int, ord@[l] as int),
        decreases n - i,
    {
        let mut lo: usize = 0;
        let mut hi: usize = ord.len();
        while lo < hi
            invariant
                n == tracks@.len(),
                ts.len() == n,
                i < n,
                keys@.len() == n,
                forall|j: int| 0 <= j < n ==> key_matches(#[trigger] keys@[j], ts[j]),
                ord@.len() == i,
                forall|k: int| 0 <= k < ord@.len() ==> (#[trigger] ord@[k]) < i,
                forall|k: int, l: int|
                    0 <= k < l < ord@.len() ==> placed_before(ts, ord@[k] as int, ord@[l] as int),
                lo <= hi <= ord@.len(),
                forall|k: int| 0 <= k < lo ==> !track_before(ts[i as int], ts[#[trigger] ord@[k] as int]),
                forall|k: int|
                    hi <= k < ord@.len() ==> track_before(ts[i as int], ts[#[trigger] ord@[k] as int]),
            decreases hi - lo,
        {
            let mid = lo + (hi - lo) / 2;
            let m = ord[mid];
            let c = compare_keys(&keys[i], &keys[m], Ghost(ts[i as int]), Ghost(ts[m as int]));
            if c.is_before() {
                proof {
                    assert forall|k: int| mid <= k < ord@.len() implies track_before(
                        ts[i as int],
                        ts[#[trigger] ord@[k] as int],
                    ) by {
                        if k > mid {
                            assert(placed_before(ts, ord@[mid as int] as int, ord@[k] as int));
                            lemma_track_transitive(ts[i as int], ts[m as int], ts[ord@[k] as int]);
                        }
                    }
                }
                hi = mid;
            } else {
                proof {
                    assert forall|k: int| 0 <= k < mid + 1 implies !track_before(
                        ts[i as int],
                        ts[#[trigger] ord@[k] as int],
                    ) by {
                        if k < mid && track_before(ts[i as int], ts[ord@[k] as int]) {
                            assert(placed_before(ts, ord@[k] as int, ord@[mid as int] as int));
                            lemma_track_transitive(ts[i as int], ts[ord@[k] as int], ts[m as int]);
                        }
                    }
                }
                lo = mid + 1;
            }
        }
        let ghost old_ord = ord@;
        ord.insert(lo, i);
        proof {
            let new_ord = ord@;
            assert(new_ord == old_ord.insert(lo as int, i));
            assert forall|k: int| 0 <= k < new_ord.len() implies (#[trigger] new_ord[k]) < i + 1 by {
                if k < lo {
                    assert(new_ord[k] == old_ord[k]);
                } else if k > lo {
                    assert(new_ord[k] == old_ord[k - 1]);
                }
            }
            assert forall|x: int| 0 <= x < i + 1 implies #[trigger] lists(new_ord, x) by {
                if x == i {
                    assert(new_ord[lo as int] == i);
                } else {
                    assert(lists(old_ord, x));
                    let k = choose|k: int| 0 <= k < old_ord.len() && old_ord[k] as int == x;
                    if k < lo {
                        assert(new_ord[k] == old_ord[k]);
                    } else {
                        assert(new_ord[k + 1] == old_ord[k]);
                    }
                }
            }
            assert forall|k: int, l: int| 0 <= k < l < new_ord.len() implies placed_before(
                ts,
                new_ord[k] as int,
                new_ord[l] as int,
            ) by {
                let a = new_ord[k] as int;
                let b = new_ord[l] as int;
                if k < lo && l < lo {
                    assert(new_ord[k] == old_ord[k] && new_ord[l] == old_ord[l]);
                } else if k < lo && l == lo {
                    assert(new_ord[k] == old_ord[k]);
                    lemma_track_total(ts[i as int], ts[a]);
                    assert(a < i);
                } else if k < lo && l > lo {
                    assert(new_ord[k] == old_ord[k] && new_ord[l] == old_ord[l - 1]);
                } else if k == lo {
                    assert(new_ord[l] == old_ord[l - 1]);
                } else {
                    assert(new_ord[k] == old_ord[k - 1] && new_ord[l] == old_ord[l - 1]);
                }
            }
        }
        i = i + 1;
    }
    ord
}

proof fn lemma_placed_before_asymmetric(ts: Seq<TrackView>, a: int, b: int)
    requires
        placed_before(ts, a, b),
    ensures
        !placed_before(ts, b, a),
{
    lemma_track_irreflexive(ts[a]);
    lemma_track_irreflexive(ts[b]);
    if track_before(ts[a], ts[b]) && track_before(ts[b], ts[a]) {
        lemma_track_transitive(ts[a], ts[b], ts[a]);
    }
}

proof fn lemma_placed_before_total(ts: Seq<TrackView>, a: int, b: int)
    requires
        a != b,
    ensures
        placed_before(ts, a, b) || placed_before(ts, b, a),
{
    lemma_track_total(ts[a], ts[b]);
}

proof fn lemma_orders_agree_up_to(ts: Seq<TrackView>, o1: Seq<usize>, o2: Seq<usize>, k: int)
    requires
        is_stable_order(ts, o1),
        is_stable_order(ts, o2),
        0 <= k < o1.len(),
    ensures
        forall|j: int| 0 <= j <= k ==> o1[j] == o2[j],
    decreases k,
{
    if k > 0 {
        lemma_orders_agree_up_to(ts, o1, o2, k - 1);
    }
    let a = o1[k] as int;
    let b = o2[k] as int;
    if a != b {
        lemma_placed_before_total(ts, a, b);
        if placed_before(ts, a, b) {
            assert(lists(o2, a));
            let m = choose|m: int| 0 <= m < o2.len() && o2[m] as int == a;
            if m < k {
                assert(o1[m] == o2[m]);
                lemma_placed_before_asymmetric(ts, o1[m] as int, o1[k] as int);
                lemma_track_irreflexive(ts[a]);
            } else {
                assert(m != k);
                lemma_placed_before_asymmetric(ts, a, b);
            }
        } else {
            assert(lists(o1, b));
            let m = choose|m: int| 0 <= m < o1.len() && o1[m] as int == b;
            if m < k {
                assert(o1[m] == o2[m]);
                lemma_placed_before_asymmetric(ts, o2[m] as int, o2[k] as int);
                lemma_track_irreflexive(ts[b]);
            } else {
                assert(m != k);
                lemma_placed_before_asymmetric(ts, b, a);
            }
        }
    }
}

/// The listing order is determined by the tracks: any two orders that list
/// every position once, sorted with ties in the order they came in, are the same.
pub proof fn lemma_stable_order_unique(ts: Seq<TrackView>, o1: Seq<usize>, o2: Seq<usize>)
    requires
        is_stable_order(ts, o1),
        is_stable_order(ts, o2),
    ensures
        o1 == o2,
{
    if o1.len() > 0 {
        lemma_orders_agree_up_to(ts, o1, o2, o1.len() - 1);
    }
    assert(o1 =~= o2);
}

/// The tracks of `ts` at the positions `ord` lists, in that order.
pub open spec fn arranged(ts: Seq<TrackView>, ord: Seq<usize>) -> Seq<TrackView> {
    ord.map_values(|k: usize| ts[k as int])
}

/// A copy of a track, field by field.
pub fn copy_track(t: &Track) -> (r: Track)
    ensures
        r@ == t@,
{
    Track {
        title: t.title.clone(),
        artist: t.artist.clone(),
        album: t.album.clone(),
        album_artist: t.album_artist.clone(),
        genre: t.genre.clone(),
        year: t.year,
        track_number: t.track_number,
        duration: t.duration.clone(),
        path: t.path.clone(),
    }
}

/// The tracks in listing order: sorted by album artist, album, track number
/// and title, tracks with the same key in the order they came in.
pub fn sort_tracks(tracks: &[Track]) -> (r: Vec<Track>)
    ensures
        exists|ord: Seq<usize>|
            is_stable_order(track_views(tracks@), ord) && track_views(r@) == arranged(
                track_views(tracks@),
                ord,
            ),
{
    let ghost ts = track_views(tracks@);
    let ord = stable_order(tracks);
    let mut out: Vec<Track> = Vec::new();
    let mut k: usize = 0;
    while k < ord.len()
        invariant
            ts == track_views(tracks@),
            is_stable_order(ts, ord@),
            k <= ord@.len(),
            track_views(out@) == arranged(ts, ord@).take(k as int),
        decreases ord@.len() - k,
    {
        let ghost before = out@;
        let t = copy_track(&tracks[ord[k]]);
        out.push(t);
        assert(track_views(out@) =~= track_views(before).push(t@));
        assert(arranged(ts, ord@).take(k + 1) =~= arranged(ts, ord@).take(k as int).push(
            ts[ord@[k as int] as int],
        ));
        k = k + 1;
    }
    assert(arranged(ts, ord@).take(ord@.len() as int) =~= arranged(ts, ord@));
    out
}

impl Rank {
    /// Whether the first sorts before the second.
    pub fn is_before(&self) -> (r: bool)
        ensures
            r == (*self is Before),
    {
        match self {
            Rank::Before => true,
            _ => false,
        }
    }
}

proof fn lemma_text_asymmetric(a: Seq<char>, b: Seq<char>)
    requires
        text_before(a, b),
    ensures
        !text_before(b, a),
        a != b,
{
    lemma_text_irreflexive(a);
    if text_before(b, a) {
        lemma_text_transitive(a, b, a);
    }
}

/// The listing is ordered lexicographically by (album artist, album, track
/// number, title), each text in `String`'s order: of any two listed tracks,
/// the earlier one's album artist is not after the later one's; with equal
/// album artists, its album is not after; with equal albums too, its track
/// number is not greater; with equal track numbers too, its title is not
/// after; and with equal titles too, it came first in the input.
pub proof fn lemma_listing_sorted(ts: Seq<TrackView>, ord: Seq<usize>, k: int, l: int)
    requires
        is_stable_order(ts, ord),
        0 <= k < l < ord.len(),
    ensures
        ({
            let x = arranged(ts, ord)[k];
            let y = arranged(ts, ord)[l];
            &&& !text_before(y.album_artist, x.album_artist)
            &&& x.album_artist == y.album_artist ==> !text_before(y.album, x.album)
            &&& (x.album_artist == y.album_artist && x.album == y.album) ==> x.track_number
                <= y.track_number
            &&& (x.album_artist == y.album_artist && x.album == y.album && x.track_number
                == y.track_number) ==> !text_before(y.title, x.title)
            &&& (x.album_artist == y.album_artist && x.album == y.album && x.track_number
                == y.track_number && x.title == y.title) ==> ord[k] < ord[l]
        }),
{
    let a = ord[k] as int;
    let b = ord[l] as int;
    let x = ts[a];
    let y = ts[b];
    assert(arranged(ts, ord)[k] == x);
    assert(arranged(ts, ord)[l] == y);
    assert(placed_before(ts, a, b));
    lemma_text_irreflexive(x.album_artist);
    lemma_text_irreflexive(x.album);
    lemma_text_irreflexive(x.title);
    if text_before(x.album_artist, y.album_artist) {
        lemma_text_asymmetric(x.album_artist, y.album_artist);
    }
    if text_before(x.album, y.album) {
        lemma_text_asymmetric(x.album, y.album);
    }
    if text_before(x.title, y.title) {
        lemma_text_asymmetric(x.title, y.title);
    }
}

} // verus!
