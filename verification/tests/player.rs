use musicbee_iced::order::{sort_tracks, stable_order};
use musicbee_iced::player::{format_seconds, Effect, Event, Player};
use musicbee_iced::search::visible_tracks;
use musicbee_iced::status::disconnected_status;
use musicbee_iced::{MpdStatus, Track};

fn track(artist: &str, album: &str, n: u32, title: &str, path: &str) -> Track {
    Track {
        title: title.to_string(),
        artist: artist.to_string(),
        album: album.to_string(),
        album_artist: artist.to_string(),
        genre: String::new(),
        year: 0,
        track_number: n,
        duration: "1:00".to_string(),
        path: path.to_string(),
    }
}

fn playing(file: &str) -> MpdStatus {
    MpdStatus {
        connected: true,
        state: "play".to_string(),
        elapsed: 65,
        duration: 200,
        volume: 150,
        file: file.to_string(),
        title: String::new(),
        artist: String::new(),
        album: String::new(),
        error: String::new(),
        song: 0,
        playlist_version: 1,
        playlist_length: 1,
        repeat: true,
        random: false,
    }
}

#[test]
fn sorts_by_artist_album_number_title_stably() {
    let tracks = vec![
        track("B", "x", 1, "t", "p0"),
        track("A", "y", 2, "t", "p1"),
        track("A", "y", 1, "z", "p2"),
        track("A", "x", 9, "t", "p3"),
        track("A", "y", 1, "z", "p4"),
        track("a", "a", 0, "a", "p5"),
        track("", "", 0, "", "p6"),
    ];
    let order = stable_order(&tracks);
    assert_eq!(order, vec![6, 3, 2, 4, 1, 0, 5]);
    let sorted = sort_tracks(&tracks);
    let paths: Vec<&str> = sorted.iter().map(|t| t.path.as_str()).collect();
    assert_eq!(paths, vec!["p6", "p3", "p2", "p4", "p1", "p0", "p5"]);
    let mut expected = tracks.clone();
    expected.sort_by(|a, b| {
        a.album_artist
            .cmp(&b.album_artist)
            .then(a.album.cmp(&b.album))
            .then(a.track_number.cmp(&b.track_number))
            .then(a.title.cmp(&b.title))
    });
    assert_eq!(sorted, expected);
}

#[test]
fn sort_matches_string_order_beyond_ascii() {
    let tracks = vec![
        track("é", "", 0, "", "0"),
        track("z", "", 0, "", "1"),
        track("Z", "", 0, "", "2"),
        track("日本", "", 0, "", "3"),
        track("zz", "", 0, "", "4"),
    ];
    let mut expected = tracks.clone();
    expected.sort_by(|a, b| a.album_artist.cmp(&b.album_artist));
    assert_eq!(sort_tracks(&tracks), expected);
}

#[test]
fn search_is_trimmed_and_case_insensitive() {
    let tracks = vec![
        track("Björk", "Post", 1, "Army of Me", "a"),
        track("Other", "Thing", 1, "Hello", "b"),
    ];
    assert_eq!(visible_tracks(&tracks, "  BJÖRK "), vec![0]);
    assert_eq!(visible_tracks(&tracks, ""), vec![0, 1]);
    assert_eq!(visible_tracks(&tracks, "   "), vec![0, 1]);
    assert_eq!(visible_tracks(&tracks, "hell"), vec![1]);
    assert_eq!(visible_tracks(&tracks, "post"), vec![0]);
    assert_eq!(visible_tracks(&tracks, "zzz"), Vec::<usize>::new());
}

#[test]
fn boot_asks_for_library_and_status() {
    let (p, effects) = Player::boot();
    assert!(p.loading);
    assert_eq!(p.volume, 70);
    assert_eq!(p.status_message, "Loading MPD library...");
    assert!(matches!(effects.as_slice(), [Effect::FetchLibrary, Effect::FetchStatus]));
}

#[test]
fn library_then_status_selects_current_and_asks_for_art() {
    let (mut p, _) = Player::boot();
    let effects = p.update(Event::LibraryLoaded(Ok(vec![
        track("B", "b", 1, "second", "b.mp3"),
        track("A", "a", 1, "first", "a.mp3"),
    ])));
    assert!(effects.is_empty());
    assert!(!p.loading);
    assert_eq!(p.status_message, "2 tracks loaded");
    assert_eq!(p.tracks[0].path, "a.mp3");
    assert_eq!(p.visible, vec![0, 1]);

    let effects = p.update(Event::StatusLoaded(playing("b.mp3")));
    assert_eq!(p.current, Some(1));
    assert_eq!(p.volume, 100);
    assert!(p.repeat);
    assert!(!p.shuffle);
    assert_eq!(p.status_message, "MPD connected");
    match effects.as_slice() {
        [Effect::FetchArt(path)] => assert_eq!(path, "b.mp3"),
        _ => panic!("expected an art request"),
    }
    assert_eq!(p.wanted_art_path.as_deref(), Some("b.mp3"));
    assert!(p.update(Event::StatusLoaded(playing("b.mp3"))).is_empty());
    assert!(p.update(Event::AlbumArtLoaded("b.mp3".to_string())).is_empty());
    assert_eq!(p.art_paths, vec!["b.mp3".to_string()]);
    p.update(Event::AlbumArtLoaded("b.mp3".to_string()));
    assert_eq!(p.art_paths.len(), 1);

    let effects = p.update(Event::StatusLoaded(playing("missing.mp3")));
    assert!(effects.is_empty());
    assert_eq!(p.current, None);
}

#[test]
fn status_messages() {
    let (mut p, _) = Player::boot();
    p.update(Event::StatusLoaded(disconnected_status("MPD connection failed: refused".to_string())));
    assert_eq!(p.status_message, "MPD disconnected: MPD connection failed: refused");
    assert_eq!(p.volume, 0);
    let mut s = playing("");
    s.error = "decoder".to_string();
    s.volume = 42;
    p.update(Event::StatusLoaded(s));
    assert_eq!(p.status_message, "MPD audio error: decoder");
    assert_eq!(p.volume, 42);
    p.update(Event::LibraryLoaded(Err("boom".to_string())));
    assert_eq!(p.error.as_deref(), Some("boom"));
    assert_eq!(p.status_message, "MPD library unavailable");
}

#[test]
fn user_actions_make_requests() {
    let (mut p, _) = Player::boot();
    p.update(Event::LibraryLoaded(Ok(vec![track("A", "a", 1, "x", "x.mp3"), track("A", "a", 2, "y", "y.mp3")])));
    let effects = p.update(Event::TrackDoubleClicked(1));
    assert_eq!(p.selected, Some(1));
    match effects.as_slice() {
        [Effect::FetchArt(a), Effect::SetQueue(paths, 1)] => {
            assert_eq!(a, "y.mp3");
            assert_eq!(paths, &vec!["x.mp3".to_string(), "y.mp3".to_string()]);
        }
        _ => panic!("unexpected effects"),
    }
    assert!(matches!(p.update(Event::Shuffle).as_slice(), [Effect::SetRandom(true)]));
    assert!(p.shuffle);
    assert!(matches!(p.update(Event::Repeat).as_slice(), [Effect::SetRepeat(true)]));
    assert!(matches!(p.update(Event::VolumeChanged(33)).as_slice(), [Effect::SetVolume(33)]));
    assert_eq!(p.volume, 33);
    assert!(matches!(p.update(Event::Tick).as_slice(), [Effect::FetchStatus]));
    assert!(matches!(p.update(Event::PlayPause).as_slice(), [Effect::TogglePlay]));
    assert!(matches!(p.update(Event::Stop).as_slice(), [Effect::Stop]));
    assert!(matches!(p.update(Event::Next).as_slice(), [Effect::Next]));
    assert!(matches!(p.update(Event::Previous).as_slice(), [Effect::Previous]));
    assert!(matches!(p.update(Event::CommandFinished(Err("ACK".to_string()))).as_slice(), [Effect::FetchStatus]));
    assert_eq!(p.error.as_deref(), Some("ACK"));
    p.update(Event::CommandFinished(Ok(())));
    assert_eq!(p.error.as_deref(), Some("ACK"));
    p.update(Event::SearchChanged("Y".to_string()));
    assert_eq!(p.visible, vec![1]);
    assert!(p.update(Event::TrackDoubleClicked(7)).len() == 1);
}

#[test]
fn window_texts() {
    assert_eq!(format_seconds(125), "2:05");
    let (mut p, _) = Player::boot();
    let bar = p.player_bar();
    assert_eq!((bar.elapsed.as_str(), bar.duration.as_str(), bar.play_label.as_str()), ("0:00", "0:00", "▶"));
    assert_eq!(p.now_playing().title, "No track selected");
    assert_eq!(p.library_caption(), "showing 0 of 0");
    p.update(Event::LibraryLoaded(Ok(vec![track("A", "a", 3, "x", "x.mp3")])));
    p.update(Event::TrackDoubleClicked(0));
    assert_eq!(p.player_bar().duration, "1:00");
    assert_eq!(p.now_playing().artist, "A");
    p.update(Event::StatusLoaded(playing("x.mp3")));
    let bar = p.player_bar();
    assert!(bar.playing);
    assert_eq!((bar.elapsed.as_str(), bar.duration.as_str(), bar.play_label.as_str()), ("1:05", "3:20", "⏸"));
    assert_eq!(bar.shuffle_label, "Shuffle");
    assert_eq!(bar.repeat_label, "Repeat ON");
    assert_eq!(bar.volume, "100");
    let row = p.track_row(0);
    assert_eq!((row.number.as_str(), row.title.as_str()), ("3", "▶ x"));
    assert_eq!(p.art_path().as_deref(), Some("x.mp3"));
    assert_eq!(p.rows_shown(), vec![0]);
    assert!(!p.rows_truncated());
    let many: Vec<Track> = (0..1300).map(|i| track("A", "a", i, "t", &i.to_string())).collect();
    p.update(Event::LibraryLoaded(Ok(many)));
    assert_eq!(p.library_caption(), "showing 1200 of 1300");
    assert_eq!(p.rows_shown().len(), 1200);
    assert!(p.rows_truncated());
}

#[test]
fn list_follows_search_after_each_event() {
    let (mut p, _) = Player::boot();
    let events = vec![
        Event::SearchChanged(" a ".to_string()),
        Event::LibraryLoaded(Ok(vec![track("A", "x", 1, "t", "1"), track("B", "y", 1, "t", "2"), track("C", "a", 1, "t", "3")])),
        Event::StatusLoaded(playing("2")),
        Event::TrackDoubleClicked(2),
        Event::SearchChanged("b".to_string()),
        Event::AlbumArtLoaded("2".to_string()),
        Event::Shuffle,
    ];
    for e in events {
        p.update(e);
        assert_eq!(p.visible, visible_tracks(&p.tracks, &p.search));
    }
    assert_eq!(p.visible, vec![1]);
}
