//! The player window's state and its decisions: what each event does to the
//! state and which requests it leads to, and the texts the window shows.
//! Drawing, images and running the requests are the caller's.

use vstd::prelude::*;
use crate::order::{arranged, is_stable_order, lemma_stable_order_unique, sort_tracks};
use crate::search::{needle_of, visible_of, visible_tracks};
use crate::status::{MpdStatus, StatusView};
use crate::text::{decimal, push_decimal};
use crate::tracks::{duration_text, format_duration, track_views, Track, TrackView};

verus! {

/// Something that happened: a reply arrived or the user acted.
pub enum Event {
    /// The library listing arrived, or the error that kept it.
    LibraryLoaded(Result<Vec<Track>, String>),
    /// A status arrived.
    StatusLoaded(MpdStatus),
    /// The cover fetch for this path ended (with an image or not).
    AlbumArtLoaded(String),
    /// A command ended, with its error if it failed.
    CommandFinished(Result<(), String>),
    /// The search text changed.
    SearchChanged(String),
    /// A track of the list was chosen, by its position in the library.
    TrackDoubleClicked(usize),
    /// The periodic timer fired.
    Tick,
    PlayPause,
    Stop,
    Next,
    Previous,
    Shuffle,
    Repeat,
    /// The volume slider moved.
    VolumeChanged(u8),
}

/// A request for the caller to run.
pub enum Effect {
    /// Read the library; its outcome comes back as `LibraryLoaded`.
    FetchLibrary,
    /// Read the status; it comes back as `StatusLoaded`.
    FetchStatus,
    /// Fetch the cover of this path; the end comes back as `AlbumArtLoaded`.
    FetchArt(String),
    /// Replace the queue with these paths and play from this position.
    SetQueue(Vec<String>, usize),
    TogglePlay,
    Stop,
    Next,
    Previous,
    SetRandom(bool),
    SetRepeat(bool),
    SetVolume(u32),
}

/// The mathematical content of an [`Event`].
pub enum EventView {
    LibraryLoaded(Result<Seq<TrackView>, Seq<char>>),
    StatusLoaded(StatusView),
    AlbumArtLoaded(Seq<char>),
    CommandFinished(Result<(), Seq<char>>),
    SearchChanged(Seq<char>),
    TrackDoubleClicked(usize),
    Tick,
    PlayPause,
    Stop,
    Next,
    Previous,
    Shuffle,
    Repeat,
    VolumeChanged(u8),
}

/// The mathematical content of an [`Effect`].
pub enum EffectView {
    FetchLibrary,
    FetchStatus,
    FetchArt(Seq<char>),
    SetQueue(Seq<Seq<char>>, usize),
    TogglePlay,
    Stop,
    Next,
    Previous,
    SetRandom(bool),
    SetRepeat(bool),
    SetVolume(u32),
}

impl View for Event {
    type V = EventView;

    open spec fn view(&self) -> EventView {
        match self {
            Event::LibraryLoaded(r) => EventView::LibraryLoaded(
                match r {
                    Ok(ts) => Ok(track_views(ts@)),
                    Err(e) => Err(e@),
                },
            ),
            Event::StatusLoaded(s) => EventView::StatusLoaded(s@),
            Event::AlbumArtLoaded(p) => EventView::AlbumArtLoaded(p@),
            Event::CommandFinished(r) => EventView::CommandFinished(
                match r {
                    Ok(()) => Ok(()),
                    Err(e) => Err(e@),
                },
            ),
            Event::SearchChanged(q) => EventView::SearchChanged(q@),
            Event::TrackDoubleClicked(i) => EventView::TrackDoubleClicked(*i),
            Event::Tick => EventView::Tick,
            Event::PlayPause => EventView::PlayPause,
            Event::Stop => EventView::Stop,
            Event::Next => EventView::Next,
            Event::Previous => EventView::Previous,
            Event::Shuffle => EventView::Shuffle,
            Event::Repeat => EventView::Repeat,
            Event::VolumeChanged(v) => EventView::VolumeChanged(*v),
        }
    }
}

/// The characters of each string, in order.
pub open spec fn string_views(v: Seq<String>) -> Seq<Seq<char>> {
    v.map_values(|s: String| s@)
}

impl View for Effect {
    type V = EffectView;

    open spec fn view(&self) -> EffectView {
        match self {
            Effect::FetchLibrary => EffectView::FetchLibrary,
            Effect::FetchStatus => EffectView::FetchStatus,
            Effect::FetchArt(p) => EffectView::FetchArt(p@),
            Effect::SetQueue(ps, i) => EffectView::SetQueue(string_views(ps@), *i),
            Effect::TogglePlay => EffectView::TogglePlay,
            Effect::Stop => EffectView::Stop,
            Effect::Next => EffectView::Next,
            Effect::Previous => EffectView::Previous,
            Effect::SetRandom(b) => EffectView::SetRandom(*b),
            Effect::SetRepeat(b) => EffectView::SetRepeat(*b),
            Effect::SetVolume(v) => EffectView::SetVolume(*v),
        }
    }
}

/// The views of a sequence of effects.
pub open spec fn effect_views(v: Seq<Effect>) -> Seq<EffectView> {
    v.map_values(|e: Effect| e@)
}

/// The state of the player window.
pub struct Player {
    /// The library, in listing order.
    pub tracks: Vec<Track>,
    /// The positions of the tracks the search shows.
    pub visible: Vec<usize>,
    pub search: String,
    /// The track last chosen.
    pub selected: Option<usize>,
    /// The track the server is playing, where the library has it.
    pub current: Option<usize>,
    pub status: Option<MpdStatus>,
    /// The line shown at the top right.
    pub status_message: String,
    pub error: Option<String>,
    pub loading: bool,
    pub volume: u8,
    pub shuffle: bool,
    pub repeat: bool,
    /// The paths whose cover fetch has ended.
    pub art_paths: Vec<String>,
    /// The path whose cover was asked for last.
    pub wanted_art_path: Option<String>,
}

/// The mathematical content of a [`Player`].
#[verifier::ext_equal]
pub struct PlayerView {
    pub tracks: Seq<TrackView>,
    pub visible: Seq<usize>,
    pub search: Seq<char>,
    pub selected: Option<usize>,
    pub current: Option<usize>,
    pub status: Option<StatusView>,
    pub status_message: Seq<char>,
    pub error: Option<Seq<char>>,
    pub loading: bool,
    pub volume: u8,
    pub shuffle: bool,
    pub repeat: bool,
    pub art_paths: Seq<Seq<char>>,
    pub wanted_art_path: Option<Seq<char>>,
}

impl View for Player {
    type V = PlayerView;

    open spec fn view(&self) -> PlayerView {
        PlayerView {
            tracks: track_views(self.tracks@),
            visible: self.visible@,
            search: self.search@,
            selected: self.selected,
            current: self.current,
            status: match self.status {
                Some(s) => Some(s@),
                None => None,
            },
            status_message: self.status_message@,
            error: match self.error {
                Some(e) => Some(e@),
                None => None,
            },
            loading: self.loading,
            volume: self.volume,
            shuffle: self.shuffle,
            repeat: self.repeat,
            art_paths: string_views(self.art_paths@),
            wanted_art_path: match self.wanted_art_path {
                Some(p) => Some(p@),
                None => None,
            },
        }
    }
}

// ---------------------------------------------------------------------------
// The decisions, as functions of the state
// ---------------------------------------------------------------------------

/// The listing order of a library (see [`is_stable_order`]).
pub open spec fn listing_order(ts: Seq<TrackView>) -> Seq<usize> {
    choose|ord: Seq<usize>| is_stable_order(ts, ord)
}

/// A library in listing order.
pub open spec fn listed(ts: Seq<TrackView>) -> Seq<TrackView> {
    arranged(ts, listing_order(ts))
}

/// The path of the cover to fetch for track `index`: none for a position
/// outside the library, for a path whose fetch has ended, or for the path
/// asked for last.
pub open spec fn art_request(p: PlayerView, index: int) -> Option<Seq<char>> {
    if index < 0 || index >= p.tracks.len() {
        None
    } else {
        let path = p.tracks[index].path;
        if p.art_paths.contains(path) || p.wanted_art_path == Some(path) {
            None
        } else {
            Some(path)
        }
    }
}

/// Asks for the cover of track `index` where [`art_request`] says so.
pub open spec fn ensure_art(p: PlayerView, index: int) -> (PlayerView, Seq<EffectView>) {
    match art_request(p, index) {
        Some(path) => (
            PlayerView { wanted_art_path: Some(path), ..p },
            seq![EffectView::FetchArt(path)],
        ),
        None => (p, seq![]),
    }
}

/// The first position of a track with the given path.
pub open spec fn position_of(ts: Seq<TrackView>, path: Seq<char>) -> Option<int>
    decreases ts.len(),
{
    if ts.len() == 0 {
        None
    } else if ts[0].path == path {
        Some(0)
    } else {
        match position_of(ts.drop_first(), path) {
            Some(i) => Some(i + 1),
            None => None,
        }
    }
}

proof fn lemma_position_of_bounds(ts: Seq<TrackView>, path: Seq<char>)
    ensures
        position_of(ts, path) matches Some(k) ==> 0 <= k < ts.len() && ts[k].path == path,
        position_of(ts, path) is None ==> forall|j: int| 0 <= j < ts.len() ==> ts[j].path != path,
    decreases ts.len(),
{
    if ts.len() > 0 {
        lemma_position_of_bounds(ts.drop_first(), path);
        assert forall|j: int| 0 < j < ts.len() implies ts[j] == ts.drop_first()[j - 1] by {}
    }
}

/// Follows the status: where it names a song, the current track becomes
/// that song's first position in the library (none where it is missing),
/// and its cover is asked for.
pub open spec fn sync_current(p: PlayerView) -> (PlayerView, Seq<EffectView>) {
    match p.status {
        Some(s) => if s.file.len() > 0 {
            match position_of(p.tracks, s.file) {
                Some(i) => ensure_art(PlayerView { current: Some(i as usize), ..p }, i),
                None => (PlayerView { current: None, ..p }, seq![]),
            }
        } else {
            (p, seq![])
        },
        None => (p, seq![]),
    }
}

/// The line a status gives the window.
pub open spec fn status_line(s: StatusView) -> Seq<char> {
    if s.connected {
        if s.error.len() == 0 {
            "MPD connected"@
        } else {
            "MPD audio error: "@ + s.error
        }
    } else {
        "MPD disconnected: "@ + s.error
    }
}

/// A volume clamped to 0..=100.
pub open spec fn clamp_volume(v: i32) -> u8 {
    if v < 0 {
        0
    } else if v > 100 {
        100
    } else {
        v as u8
    }
}

/// The paths of the library, in order.
pub open spec fn library_paths(ts: Seq<TrackView>) -> Seq<Seq<char>> {
    ts.map_values(|t: TrackView| t.path)
}

/// What an event does to the window's state and which requests it makes.
pub open spec fn step(p: PlayerView, e: EventView) -> (PlayerView, Seq<EffectView>) {
    match e {
        EventView::LibraryLoaded(Ok(ts)) => {
            let sorted = listed(ts);
            sync_current(
                PlayerView {
                    loading: false,
                    tracks: sorted,
                    visible: visible_of(sorted, needle_of(p.search)),
                    status_message: decimal(sorted.len()) + " tracks loaded"@,
                    error: None,
                    ..p
                },
            )
        },
        EventView::LibraryLoaded(Err(m)) => (
            PlayerView {
                loading: false,
                error: Some(m),
                status_message: "MPD library unavailable"@,
                ..p
            },
            seq![],
        ),
        EventView::StatusLoaded(s) => sync_current(
            PlayerView {
                volume: clamp_volume(s.volume),
                shuffle: s.random,
                repeat: s.repeat,
                status_message: status_line(s),
                status: Some(s),
                ..p
            },
        ),
        EventView::AlbumArtLoaded(path) => (
            PlayerView {
                art_paths: if p.art_paths.contains(path) {
                    p.art_paths
                } else {
                    p.art_paths.push(path)
                },
                ..p
            },
            seq![],
        ),
        EventView::CommandFinished(r) => (
            PlayerView {
                error: match r {
                    Ok(()) => p.error,
                    Err(m) => Some(m),
                },
                ..p
            },
            seq![EffectView::FetchStatus],
        ),
        EventView::SearchChanged(q) => (
            PlayerView { search: q, visible: visible_of(p.tracks, needle_of(q)), ..p },
            seq![],
        ),
        EventView::TrackDoubleClicked(i) => {
            let (p1, art) = ensure_art(PlayerView { selected: Some(i), ..p }, i as int);
            (p1, art.push(EffectView::SetQueue(library_paths(p.tracks), i)))
        },
        EventView::Tick => (p, seq![EffectView::FetchStatus]),
        EventView::PlayPause => (p, seq![EffectView::TogglePlay]),
        EventView::Stop => (p, seq![EffectView::Stop]),
        EventView::Next => (p, seq![EffectView::Next]),
        EventView::Previous => (p, seq![EffectView::Previous]),
        EventView::Shuffle => (
            PlayerView { shuffle: !p.shuffle, ..p },
            seq![EffectView::SetRandom(!p.shuffle)],
        ),
        EventView::Repeat => (
            PlayerView { repeat: !p.repeat, ..p },
            seq![EffectView::SetRepeat(!p.repeat)],
        ),
        EventView::VolumeChanged(v) => (
            PlayerView { volume: v, ..p },
            seq![EffectView::SetVolume(v as u32)],
        ),
    }
}


/// The window's state at start: loading, volume 70, nothing else yet.
pub open spec fn booted() -> PlayerView {
    PlayerView {
        tracks: seq![],
        visible: seq![],
        search: seq![],
        selected: None,
        current: None,
        status: None,
        status_message: "Loading MPD library..."@,
        error: None,
        loading: true,
        volume: 70,
        shuffle: false,
        repeat: false,
        art_paths: seq![],
        wanted_art_path: None,
    }
}

fn contains_string(v: &Vec<String>, s: &String) -> (r: bool)
    ensures
        r == string_views(v@).contains(s@),
{
    let mut i: usize = 0;
    while i < v.len()
        invariant
            i <= v@.len(),
            forall|j: int| 0 <= j < i ==> v@[j]@ != s@,
        decreases v@.len() - i,
    {
        if v[i] == *s {
            assert(string_views(v@)[i as int] == s@);
            return true;
        }
        i = i + 1;
    }
    assert forall|j: int| 0 <= j < string_views(v@).len() implies string_views(v@)[j] != s@ by {
        assert(string_views(v@)[j] == v@[j]@);
    }
    false
}

fn paths_of(tracks: &Vec<Track>) -> (r: Vec<String>)
    ensures
        string_views(r@) == library_paths(track_views(tracks@)),
{
    let mut r: Vec<String> = Vec::new();
    let mut i: usize = 0;
    while i < tracks.len()
        invariant
            i <= tracks@.len(),
            string_views(r@) == library_paths(track_views(tracks@)).take(i as int),
        decreases tracks@.len() - i,
    {
        let ghost before = r@;
        r.push(tracks[i].path.clone());
        assert(string_views(r@) =~= string_views(before).push(tracks@[i as int].path@));
        assert(library_paths(track_views(tracks@)).take(i + 1) =~= library_paths(
            track_views(tracks@),
        ).take(i as int).push(tracks@[i as int].path@));
        i = i + 1;
    }
    assert(library_paths(track_views(tracks@)).take(tracks@.len() as int) =~= library_paths(
        track_views(tracks@),
    ));
    r
}

impl Player {
    /// The window at start, and its first requests: the library and the
    /// status.
    pub fn boot() -> (r: (Player, Vec<Effect>))
        ensures
            r.0@ == booted(),
            effect_views(r.1@) == seq![EffectView::FetchLibrary, EffectView::FetchStatus],
    {
        let p = Player {
            tracks: Vec::new(),
            visible: Vec::new(),
            search: String::new(),
            selected: None,
            current: None,
            status: None,
            status_message: String::from_str("Loading MPD library..."),
            error: None,
            loading: true,
            volume: 70,
            shuffle: false,
            repeat: false,
            art_paths: Vec::new(),
            wanted_art_path: None,
        };
        let effects = vec![Effect::FetchLibrary, Effect::FetchStatus];
        assert(effect_views(effects@) =~= seq![EffectView::FetchLibrary, EffectView::FetchStatus]);
        assert(p@ =~= booted());
        (p, effects)
    }

    /// Asks for the cover of track `index` where [`art_request`] says so.
    pub fn ensure_art_for_index(&mut self, index: usize) -> (r: Vec<Effect>)
        ensures
            (final(self)@, effect_views(r@)) == ensure_art(old(self)@, index as int),
    {
        let ghost p = self@;
        if index >= self.tracks.len() {
            let r: Vec<Effect> = Vec::new();
            assert(effect_views(r@) =~= Seq::<EffectView>::empty());
            return r;
        }
        let path = self.tracks[index].path.clone();
        assert(path@ == p.tracks[index as int].path);
        let known = contains_string(&self.art_paths, &path);
        let wanted = match &self.wanted_art_path {
            Some(w) => *w == path,
            None => false,
        };
        if known || wanted {
            let r: Vec<Effect> = Vec::new();
            assert(effect_views(r@) =~= Seq::<EffectView>::empty());
            return r;
        }
        self.wanted_art_path = Some(path.clone());
        let r = vec![Effect::FetchArt(path)];
        assert(effect_views(r@) =~= seq![EffectView::FetchArt(p.tracks[index as int].path)]);
        assert(self@ =~= PlayerView { wanted_art_path: Some(p.tracks[index as int].path), ..p });
        r
    }

    /// Where the library has the song the status names, its position.
    fn position_of_path(&self, path: &String) -> (r: Option<usize>)
        ensures
            match position_of(track_views(self.tracks@), path@) {
                Some(k) => r matches Some(i) && i as int == k,
                None => r is None,
            },
    {
        let ghost ts = track_views(self.tracks@);
        let mut i: usize = 0;
        assert(ts.skip(0) =~= ts);
        proof {
            lemma_position_of_bounds(ts, path@);
        }
        while i < self.tracks.len()
            invariant
                ts == track_views(self.tracks@),
                i <= ts.len(),
                position_of(ts, path@) == match position_of(ts.skip(i as int), path@) {
                    Some(k) => Some(k + i),
                    None => None,
                },
            decreases ts.len() - i,
        {
            assert(ts.skip(i as int)[0] == ts[i as int]);
            if self.tracks[i].path == *path {
                return Some(i);
            }
            assert(ts.skip(i as int).drop_first() =~= ts.skip(i + 1));
            i = i + 1;
        }
        None
    }

    /// Follows the status (see [`sync_current`]).
    pub fn sync_current_from_status(&mut self) -> (r: Vec<Effect>)
        ensures
            (final(self)@, effect_views(r@)) == sync_current(old(self)@),
    {
        let ghost p = self@;
        let file: Option<String> = match &self.status {
            Some(s) => if s.file.as_str().is_empty() {
                None
            } else {
                Some(s.file.clone())
            },
            None => None,
        };
        match file {
            Some(f) => {
                let current = self.position_of_path(&f);
                self.current = current;
                assert(self@ =~= PlayerView { current, ..p });
                proof {
                    lemma_position_of_bounds(p.tracks, f@);
                }
                match current {
                    Some(i) => self.ensure_art_for_index(i),
                    None => {
                        let r: Vec<Effect> = Vec::new();
                        assert(effect_views(r@) =~= Seq::<EffectView>::empty());
                        r
                    },
                }
            },
            None => {
                let r: Vec<Effect> = Vec::new();
                assert(effect_views(r@) =~= Seq::<EffectView>::empty());
                r
            },
        }
    }

    /// Takes one event (see [`step`]): updates the state and gives the
    /// requests to run, in order.
    pub fn update(&mut self, event: Event) -> (r: Vec<Effect>)
        ensures
            (final(self)@, effect_views(r@)) == step(old(self)@, event@),
    {
        let ghost p = self@;
        let ghost e = event@;
        match event {
            Event::LibraryLoaded(Ok(tracks)) => {
                let sorted = sort_tracks(&tracks);
                proof {
                    let ts = track_views(tracks@);
                    let ord = choose|ord: Seq<usize>|
                        is_stable_order(ts, ord) && track_views(sorted@) == arranged(ts, ord);
                    lemma_stable_order_unique(ts, ord, listing_order(ts));
                }
                self.loading = false;
                self.tracks = sorted;
                self.visible = visible_tracks(&self.tracks, self.search.as_str());
                let mut m = String::new();
                push_decimal(&mut m, self.tracks.len() as u64);
                m.append(" tracks loaded");
                self.status_message = m;
                self.error = None;
                let ghost p1 = self@;
                assert(p1 =~= PlayerView {
                    loading: false,
                    tracks: listed(track_views(tracks@)),
                    visible: visible_of(listed(track_views(tracks@)), needle_of(p.search)),
                    status_message: decimal(listed(track_views(tracks@)).len()) + " tracks loaded"@,
                    error: None,
                    ..p
                });
                self.sync_current_from_status()
            },
            Event::LibraryLoaded(Err(m)) => {
                self.loading = false;
                self.error = Some(m);
                self.status_message = String::from_str("MPD library unavailable");
                let r: Vec<Effect> = Vec::new();
                assert(effect_views(r@) =~= Seq::<EffectView>::empty());
                assert(self@ =~= step(p, e).0);
                r
            },
            Event::StatusLoaded(st) => {
                let v = st.volume;
                self.volume = if v < 0 {
                    0
                } else if v > 100 {
                    100
                } else {
                    v as u8
                };
                self.shuffle = st.random;
                self.repeat = st.repeat;
                let mut m = String::new();
                if st.connected {
                    if st.error.as_str().is_empty() {
                        m.append("MPD connected");
                    } else {
                        m.append("MPD audio error: ");
                        m.append(st.error.as_str());
                    }
                } else {
                    m.append("MPD disconnected: ");
                    m.append(st.error.as_str());
                }
                self.status_message = m;
                self.status = Some(st);
                assert(self@ =~= PlayerView {
                    volume: clamp_volume(st@.volume),
                    shuffle: st@.random,
                    repeat: st@.repeat,
                    status_message: status_line(st@),
                    status: Some(st@),
                    ..p
                });
                self.sync_current_from_status()
            },
            Event::AlbumArtLoaded(path) => {
                if !contains_string(&self.art_paths, &path) {
                    let ghost before = self.art_paths@;
                    self.art_paths.push(path);
                    assert(string_views(self.art_paths@) =~= string_views(before).push(
                        self.art_paths@.last()@,
                    ));
                }
                let r: Vec<Effect> = Vec::new();
                assert(effect_views(r@) =~= Seq::<EffectView>::empty());
                assert(self@ =~= step(p, e).0);
                r
            },
            Event::CommandFinished(res) => {
                match res {
                    Ok(()) => {},
                    Err(m) => {
                        self.error = Some(m);
                    },
                }
                let r = vec![Effect::FetchStatus];
                assert(effect_views(r@) =~= seq![EffectView::FetchStatus]);
                assert(self@ =~= step(p, e).0);
                r
            },
            Event::SearchChanged(q) => {
                self.search = q;
                self.visible = visible_tracks(&self.tracks, self.search.as_str());
                let r: Vec<Effect> = Vec::new();
                assert(effect_views(r@) =~= Seq::<EffectView>::empty());
                assert(self@ =~= step(p, e).0);
                r
            },
            Event::TrackDoubleClicked(index) => {
                self.selected = Some(index);
                let paths = paths_of(&self.tracks);
                let mut r = self.ensure_art_for_index(index);
                let ghost art = effect_views(r@);
                r.push(Effect::SetQueue(paths, index));
                assert(effect_views(r@) =~= art.push(
                    EffectView::SetQueue(library_paths(p.tracks), index),
                ));
                r
            },
            Event::Tick => {
                let r = vec![Effect::FetchStatus];
                assert(effect_views(r@) =~= seq![EffectView::FetchStatus]);
                r
            },
            Event::PlayPause => {
                let r = vec![Effect::TogglePlay];
                assert(effect_views(r@) =~= seq![EffectView::TogglePlay]);
                r
            },
            Event::Stop => {
                let r = vec![Effect::Stop];
                assert(effect_views(r@) =~= seq![EffectView::Stop]);
                r
            },
            Event::Next => {
                let r = vec![Effect::Next];
                assert(effect_views(r@) =~= seq![EffectView::Next]);
                r
            },
            Event::Previous => {
                let r = vec![Effect::Previous];
                assert(effect_views(r@) =~= seq![EffectView::Previous]);
                r
            },
            Event::Shuffle => {
                let enabled = !self.shuffle;
                self.shuffle = enabled;
                let r = vec![Effect::SetRandom(enabled)];
                assert(effect_views(r@) =~= seq![EffectView::SetRandom(enabled)]);
                assert(self@ =~= step(p, e).0);
                r
            },
            Event::Repeat => {
                let enabled = !self.repeat;
                self.repeat = enabled;
                let r = vec![Effect::SetRepeat(enabled)];
                assert(effect_views(r@) =~= seq![EffectView::SetRepeat(enabled)]);
                assert(self@ =~= step(p, e).0);
                r
            },
            Event::VolumeChanged(v) => {
                self.volume = v;
                let r = vec![Effect::SetVolume(v as u32)];
                assert(effect_views(r@) =~= seq![EffectView::SetVolume(v as u32)]);
                assert(self@ =~= step(p, e).0);
                r
            },
        }
    }
}

/// The list shows what the search selects from the library.
pub open spec fn list_follows_search(p: PlayerView) -> bool {
    p.visible == visible_of(p.tracks, needle_of(p.search))
}

/// Every event keeps the list in step with the library and the search.
pub proof fn lemma_step_keeps_list(p: PlayerView, e: EventView)
    requires
        list_follows_search(p),
    ensures
        list_follows_search(step(p, e).0),
{
}

/// After a status that names a song, the current track is that song where
/// the library has it, and none where it does not.
pub proof fn lemma_status_selects_playing_track(p: PlayerView, s: StatusView)
    requires
        s.file.len() > 0,
        p.tracks.len() <= usize::MAX,
    ensures
        ({
            let q = step(p, EventView::StatusLoaded(s)).0;
            &&& q.current matches Some(i) ==> (i as int) < q.tracks.len() && q.tracks[i as int].path
                == s.file
            &&& q.current is None ==> forall|j: int|
                0 <= j < q.tracks.len() ==> q.tracks[j].path != s.file
        }),
{
    lemma_position_of_bounds(p.tracks, s.file);
}

/// A loaded library is shown in listing order: where `ord` is the order a
/// stable sort by album artist, album, track number and title gives, the
/// window's library becomes the loaded tracks arranged by `ord`, the list
/// shows what the current search selects from it, the loading ends, no error
/// is left and the message counts the tracks.
pub proof fn lemma_library_shown_in_listing_order(
    p: PlayerView,
    ts: Seq<TrackView>,
    ord: Seq<usize>,
)
    requires
        is_stable_order(ts, ord),
    ensures
        ({
            let q = step(p, EventView::LibraryLoaded(Ok(ts))).0;
            &&& q.tracks == arranged(ts, ord)
            &&& q.tracks.len() == ts.len()
            &&& q.visible == visible_of(arranged(ts, ord), needle_of(p.search))
            &&& q.search == p.search
            &&& !q.loading
            &&& q.error is None
            &&& q.status_message == decimal(ts.len()) + " tracks loaded"@
        }),
{
    lemma_stable_order_unique(ts, listing_order(ts), ord);
}

/// A status sets the window's controls: shuffle and repeat follow the
/// server's flags, the volume is the server's clamped to 0..=100, and the
/// message says whether the server is reachable and what error it reports;
/// the library, the search and the list are left as they are.
pub proof fn lemma_status_sets_controls(p: PlayerView, s: StatusView)
    ensures
        ({
            let q = step(p, EventView::StatusLoaded(s)).0;
            &&& q.shuffle == s.random
            &&& q.repeat == s.repeat
            &&& q.status == Some(s)
            &&& (0 <= s.volume <= 100 ==> q.volume as int == s.volume as int)
            &&& (s.volume < 0 ==> q.volume == 0)
            &&& (s.volume > 100 ==> q.volume == 100)
            &&& (s.connected && s.error.len() == 0 ==> q.status_message == "MPD connected"@)
            &&& (s.connected && s.error.len() > 0 ==> q.status_message == "MPD audio error: "@
                + s.error)
            &&& (!s.connected ==> q.status_message == "MPD disconnected: "@ + s.error)
            &&& q.tracks == p.tracks
            &&& q.search == p.search
            &&& q.visible == p.visible
        }),
{
}

/// Shuffle and repeat each flip their setting and ask the server for the
/// new one; flipping twice gives back the state. A volume change takes the
/// new volume and asks the server for it.
pub proof fn lemma_controls_flip(p: PlayerView, v: u8)
    ensures
        step(p, EventView::Shuffle).0.shuffle == !p.shuffle,
        step(p, EventView::Shuffle).1 == seq![EffectView::SetRandom(!p.shuffle)],
        step(step(p, EventView::Shuffle).0, EventView::Shuffle).0 == p,
        step(p, EventView::Repeat).0.repeat == !p.repeat,
        step(p, EventView::Repeat).1 == seq![EffectView::SetRepeat(!p.repeat)],
        step(step(p, EventView::Repeat).0, EventView::Repeat).0 == p,
        step(p, EventView::VolumeChanged(v)).0.volume == v,
        step(p, EventView::VolumeChanged(v)).1 == seq![EffectView::SetVolume(v as u32)],
{
    assert(step(step(p, EventView::Shuffle).0, EventView::Shuffle).0 =~= p);
    assert(step(step(p, EventView::Repeat).0, EventView::Repeat).0 =~= p);
}

/// Choosing a track selects it and, as the last request, replaces the queue
/// with the paths of the whole library in order, playing from its position.
pub proof fn lemma_choice_plays_library(p: PlayerView, i: usize)
    ensures
        ({
            let (q, fx) = step(p, EventView::TrackDoubleClicked(i));
            &&& q.selected == Some(i)
            &&& q.tracks == p.tracks
            &&& fx.len() >= 1
            &&& fx.last() matches EffectView::SetQueue(paths, k) && k == i && paths.len()
                == p.tracks.len() && (forall|j: int|
                0 <= j < paths.len() ==> #[trigger] paths[j] == p.tracks[j].path)
        }),
{
}

/// A finished command always asks for the status again; its error, where
/// it failed, becomes the window's error, and a success leaves the error as
/// it was.
pub proof fn lemma_command_refreshes_status(p: PlayerView, r: Result<(), Seq<char>>)
    ensures
        step(p, EventView::CommandFinished(r)).1 == seq![EffectView::FetchStatus],
        r matches Err(m) ==> step(p, EventView::CommandFinished(r)).0.error == Some(m),
        r is Ok ==> step(p, EventView::CommandFinished(r)).0 == p,
{
    if r is Ok {
        assert(step(p, EventView::CommandFinished(r)).0 =~= p);
    }
}

/// A cover is asked for at most once: no event asks for the cover of a
/// path whose fetch has ended or that was asked for last, and a path asked
/// for becomes the one asked for last. A path whose fetch ends is remembered.
pub proof fn lemma_cover_asked_once(p: PlayerView, e: EventView, path: Seq<char>)
    ensures
        step(p, e).1.contains(EffectView::FetchArt(path)) ==> (!p.art_paths.contains(path)
            && p.wanted_art_path != Some(path) && step(p, e).0.wanted_art_path == Some(path)),
        e == EventView::AlbumArtLoaded(path) ==> step(p, e).0.art_paths.contains(path),
{
    let fx = step(p, e).1;
    if fx.contains(EffectView::FetchArt(path)) {
        let k = choose|k: int| 0 <= k < fx.len() && fx[k] == EffectView::FetchArt(path);
        assert(fx[k] == EffectView::FetchArt(path));
    }
    if e == EventView::AlbumArtLoaded(path) && !p.art_paths.contains(path) {
        assert(p.art_paths.push(path)[p.art_paths.len() as int] == path);
    }
}

// ---------------------------------------------------------------------------
// What the window shows
// ---------------------------------------------------------------------------

/// The most rows the track list draws.
pub const TRACK_RENDER_LIMIT: usize = 1200;

/// A number of seconds as `minutes:seconds`.
pub fn format_seconds(seconds: u32) -> (r: String)
    ensures
        r@ == duration_text(seconds as nat),
{
    format_duration(seconds)
}

/// The track the window presents: the current one, else the one chosen
/// last, where the library has it.
pub open spec fn presented(p: PlayerView) -> Option<int> {
    match p.current {
        Some(i) if (i as int) < p.tracks.len() => Some(i as int),
        _ => match p.selected {
            Some(j) if (j as int) < p.tracks.len() => Some(j as int),
            _ => None,
        },
    }
}

/// The caption over the track list: how many rows are drawn of how many
/// match.
pub open spec fn caption_text(shown: nat, matching: nat) -> Seq<char> {
    "showing "@ + decimal(shown) + " of "@ + decimal(matching)
}

/// The cells of one row of the track list.
pub struct RowCells {
    pub number: String,
    pub title: String,
    pub artist: String,
    pub album: String,
    pub duration: String,
}

/// The texts of the now-playing panel.
pub struct NowPlaying {
    pub title: String,
    pub artist: String,
    pub album: String,
}

/// The texts and state of the bottom bar.
pub struct PlayerBar {
    pub playing: bool,
    pub elapsed: String,
    pub duration: String,
    pub play_label: String,
    pub shuffle_label: String,
    pub repeat_label: String,
    pub volume: String,
}

/// The player is playing.
pub open spec fn is_playing(p: PlayerView) -> bool {
    p.status matches Some(s) && s.state == "play"@
}

impl Player {
    /// The track the window presents (see [`presented`]).
    pub fn current_track(&self) -> (r: Option<usize>)
        ensures
            match presented(self@) {
                Some(i) => r matches Some(k) && k as int == i,
                None => r is None,
            },
    {
        match self.current {
            Some(i) => if i < self.tracks.len() {
                return Some(i);
            },
            None => {},
        }
        match self.selected {
            Some(j) => if j < self.tracks.len() {
                return Some(j);
            },
            None => {},
        }
        None
    }

    /// The positions of the rows the list draws: the first
    /// [`TRACK_RENDER_LIMIT`] of those that match.
    pub fn rows_shown(&self) -> (r: Vec<usize>)
        ensures
            r@ == if self.visible@.len() <= TRACK_RENDER_LIMIT {
                self.visible@
            } else {
                self.visible@.take(TRACK_RENDER_LIMIT as int)
            },
    {
        let n = if self.visible.len() <= TRACK_RENDER_LIMIT {
            self.visible.len()
        } else {
            TRACK_RENDER_LIMIT
        };
        let mut r: Vec<usize> = Vec::new();
        let mut i: usize = 0;
        while i < n
            invariant
                n <= self.visible@.len(),
                n == if self.visible@.len() <= TRACK_RENDER_LIMIT {
                    self.visible@.len()
                } else {
                    TRACK_RENDER_LIMIT as nat
                },
                i <= n,
                r@ == self.visible@.take(i as int),
            decreases n - i,
        {
            r.push(self.visible[i]);
            i = i + 1;
            assert(r@ =~= self.visible@.take(i as int));
        }
        assert(self.visible@.len() <= TRACK_RENDER_LIMIT ==> self.visible@.take(n as int)
            =~= self.visible@);
        r
    }

    /// Whether more tracks match than the list draws.
    pub fn rows_truncated(&self) -> (r: bool)
        ensures
            r == (self.visible@.len() > TRACK_RENDER_LIMIT),
    {
        self.visible.len() > TRACK_RENDER_LIMIT
    }

    /// The caption over the track list.
    pub fn library_caption(&self) -> (r: String)
        ensures
            r@ == caption_text(
                if self.visible@.len() <= TRACK_RENDER_LIMIT {
                    self.visible@.len()
                } else {
                    TRACK_RENDER_LIMIT as nat
                },
                self.visible@.len(),
            ),
    {
        let total = self.visible.len();
        let shown = if total <= TRACK_RENDER_LIMIT {
            total
        } else {
            TRACK_RENDER_LIMIT
        };
        let mut r = String::from_str("showing ");
        push_decimal(&mut r, shown as u64);
        r.append(" of ");
        push_decimal(&mut r, total as u64);
        r
    }

    /// The cells of the row for track `index`; the title of the current
    /// track is marked with `▶`.
    pub fn track_row(&self, index: usize) -> (r: RowCells)
        requires
            index < self.tracks@.len(),
        ensures
            ({
                let t = self@.tracks[index as int];
                &&& r.number@ == decimal(t.track_number as nat)
                &&& r.title@ == if self.current == Some(index) {
                    "▶ "@ + t.title
                } else {
                    t.title
                }
                &&& r.artist@ == t.artist
                &&& r.album@ == t.album
                &&& r.duration@ == t.duration
            }),
    {
        let t = &self.tracks[index];
        let mut number = String::new();
        push_decimal(&mut number, t.track_number as u64);
        let is_current = match self.current {
            Some(c) => c == index,
            None => false,
        };
        let title = if is_current {
            let mut s = String::from_str("▶ ");
            s.append(t.title.as_str());
            s
        } else {
            t.title.clone()
        };
        RowCells {
            number,
            title,
            artist: t.artist.clone(),
            album: t.album.clone(),
            duration: t.duration.clone(),
        }
    }

    /// The texts of the now-playing panel: the presented track's title,
    /// artist and album, or `No track selected` and blanks.
    pub fn now_playing(&self) -> (r: NowPlaying)
        ensures
            match presented(self@) {
                Some(i) => r.title@ == self@.tracks[i].title && r.artist@ == self@.tracks[i].artist
                    && r.album@ == self@.tracks[i].album,
                None => r.title@ == "No track selected"@ && r.artist@ == Seq::<char>::empty()
                    && r.album@ == Seq::<char>::empty(),
            },
    {
        match self.current_track() {
            Some(i) => {
                let t = &self.tracks[i];
                NowPlaying {
                    title: t.title.clone(),
                    artist: t.artist.clone(),
                    album: t.album.clone(),
                }
            },
            None => NowPlaying {
                title: String::from_str("No track selected"),
                artist: String::new(),
                album: String::new(),
            },
        }
    }

    /// The path whose cover the window shows: the presented track's.
    pub fn art_path(&self) -> (r: Option<String>)
        ensures
            match presented(self@) {
                Some(i) => r matches Some(p) && p@ == self@.tracks[i].path,
                None => r is None,
            },
    {
        match self.current_track() {
            Some(i) => Some(self.tracks[i].path.clone()),
            None => None,
        }
    }

    /// The texts of the bottom bar: the play button shows pause while
    /// playing; the times come from the status, the length from the
    /// presented track while there is no status.
    pub fn player_bar(&self) -> (r: PlayerBar)
        ensures
            r.playing == is_playing(self@),
            r.play_label@ == if is_playing(self@) {
                "⏸"@
            } else {
                "▶"@
            },
            r.elapsed@ == match self@.status {
                Some(s) => duration_text(s.elapsed as nat),
                None => "0:00"@,
            },
            r.duration@ == match self@.status {
                Some(s) => duration_text(s.duration as nat),
                None => match presented(self@) {
                    Some(i) => self@.tracks[i].duration,
                    None => "0:00"@,
                },
            },
            r.shuffle_label@ == if self.shuffle {
                "Shuffle ON"@
            } else {
                "Shuffle"@
            },
            r.repeat_label@ == if self.repeat {
                "Repeat ON"@
            } else {
                "Repeat"@
            },
            r.volume@ == decimal(self.volume as nat),
    {
        let playing = match &self.status {
            Some(s) => s.state == String::from_str("play"),
            None => false,
        };
        let elapsed = match &self.status {
            Some(s) => format_seconds(s.elapsed),
            None => String::from_str("0:00"),
        };
        let duration = match &self.status {
            Some(s) => format_seconds(s.duration),
            None => match self.current_track() {
                Some(i) => self.tracks[i].duration.clone(),
                None => String::from_str("0:00"),
            },
        };
        let mut volume = String::new();
        push_decimal(&mut volume, self.volume as u64);
        PlayerBar {
            playing,
            elapsed,
            duration,
            play_label: String::from_str(
                if playing {
                    "⏸"
                } else {
                    "▶"
                },
            ),
            shuffle_label: String::from_str(
                if self.shuffle {
                    "Shuffle ON"
                } else {
                    "Shuffle"
                },
            ),
            repeat_label: String::from_str(
                if self.repeat {
                    "Repeat ON"
                } else {
                    "Repeat"
                },
            ),
            volume,
        }
    }
}

} // verus!
