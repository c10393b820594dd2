use musicbee_iced::pairs::{parse_pairs, ResponseLine};
use musicbee_iced::status::{disconnected_status, read_mpd_status};
use musicbee_iced::{get_mpd_status, mpd_toggle_play, MpdStatus};

fn line(text: &str) -> ResponseLine {
    let seconds = text
        .split_once(": ")
        .and_then(|(_, v)| v.parse::<f32>().ok())
        .map(|v| v as u32);
    ResponseLine { text: text.to_string(), seconds }
}

fn lines(texts: &[&str]) -> Vec<ResponseLine> {
    texts.iter().map(|t| line(t)).collect()
}

#[test]
fn reads_status_and_current_song() {
    let status = lines(&[
        "volume: 65",
        "repeat: 1",
        "random: 0",
        "playlist: 12",
        "playlistlength: 30",
        "state: play",
        "song: 4",
        "elapsed: 83.250",
        "duration: 201.5",
        "error: decoder failed",
        "OK",
    ]);
    let song = lines(&["file: a/b.flac", "Title: B", "Artist: C", "Album: D", "duration: 300", "OK"]);
    let s = read_mpd_status(&status, &song);
    assert_eq!(
        s,
        MpdStatus {
            connected: true,
            state: "play".to_string(),
            elapsed: 83,
            duration: 201,
            volume: 65,
            file: "a/b.flac".to_string(),
            title: "B".to_string(),
            artist: "C".to_string(),
            album: "D".to_string(),
            error: "decoder failed".to_string(),
            song: 4,
            playlist_version: 12,
            playlist_length: 30,
            repeat: true,
            random: false,
        }
    );
}

#[test]
fn status_defaults_and_fallbacks() {
    let status = lines(&["volume: -1", "repeat: yes", "playlist: -3", "song: 2147483648", "OK"]);
    let song = lines(&["duration: 12.9", "OK"]);
    let s = read_mpd_status(&status, &song);
    assert!(s.connected);
    assert_eq!(s.state, "stop");
    assert_eq!(s.elapsed, 0);
    assert_eq!(s.duration, 12);
    assert_eq!(s.volume, -1);
    assert_eq!(s.song, -1);
    assert_eq!(s.playlist_version, 0);
    assert!(!s.repeat);
    assert_eq!(s.file, "");
}

#[test]
fn later_status_field_wins() {
    let status = lines(&["state: stop", "state: pause", "volume: 10", "volume: x"]);
    let s = read_mpd_status(&status, &[]);
    assert_eq!(s.state, "pause");
    assert_eq!(s.volume, -1);
    let pairs = parse_pairs(&lines(&["a: 1", "no separator", "b: 2: 3"]));
    assert_eq!(pairs.len(), 2);
    assert_eq!(pairs[1].key, "b");
    assert_eq!(pairs[1].value, "2: 3");
}

#[test]
fn disconnected() {
    let s = disconnected_status("MPD connection failed: refused".to_string());
    assert_eq!(
        s,
        MpdStatus {
            connected: false,
            state: "stop".to_string(),
            elapsed: 0,
            duration: 0,
            volume: -1,
            file: String::new(),
            title: String::new(),
            artist: String::new(),
            album: String::new(),
            error: "MPD connection failed: refused".to_string(),
            song: -1,
            playlist_version: 0,
            playlist_length: 0,
            repeat: false,
            random: false,
        }
    );
    let g = get_mpd_status(Err("down".to_string()));
    assert!(!g.connected);
    assert_eq!(g.error, "down");
    let g = get_mpd_status(Ok((lines(&["state: play"]), vec![])));
    assert!(g.connected);
    assert_eq!(g.state, "play");
}

#[test]
fn toggle_play_pauses_only_when_playing() {
    assert_eq!(mpd_toggle_play(&lines(&["state: play", "OK"])), "pause 1");
    assert_eq!(mpd_toggle_play(&lines(&["state: pause", "OK"])), "play");
    assert_eq!(mpd_toggle_play(&lines(&["state: play", "state: stop"])), "play");
    assert_eq!(mpd_toggle_play(&[]), "play");
}
