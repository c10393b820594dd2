use musicbee_iced::pairs::ResponseLine;
use musicbee_iced::tracks::{format_duration, parse_tracks, summarize_albums, title_from_path};
use musicbee_iced::{get_albums, get_library, get_queue, Track};

fn line(text: &str) -> ResponseLine {
    let seconds = text
        .split_once(": ")
        .and_then(|(_, v)| v.parse::<f32>().ok())
        .map(|v| v as u32);
    ResponseLine { text: text.to_string(), seconds }
}

fn lines(texts: &[&str]) -> Vec<ResponseLine> {
    texts.iter().map(|t| line(t)).collect()
}

#[test]
fn format_duration_pads_seconds() {
    assert_eq!(format_duration(0), "0:00");
    assert_eq!(format_duration(7), "0:07");
    assert_eq!(format_duration(187), "3:07");
    assert_eq!(format_duration(600), "10:00");
    assert_eq!(format_duration(3661), "61:01");
    assert_eq!(format_duration(u32::MAX), "71582788:15");
}

#[test]
fn title_from_path_drops_directory_and_extension() {
    assert_eq!(title_from_path("Music/Artist/01 Song.flac"), "01 Song");
    assert_eq!(title_from_path("a.b.mp3"), "a.b");
    assert_eq!(title_from_path("dir/.hidden"), "");
    assert_eq!(title_from_path("dir.x/noext"), "dir.x/noext");
    assert_eq!(title_from_path("song"), "song");
    assert_eq!(title_from_path(""), "");
}

#[test]
fn parse_tracks_reads_records() {
    let input = lines(&[
        "file: Music/Artist/01 Intro.flac",
        "Title: Intro",
        "Artist: The Band",
        "Album: First",
        "AlbumArtist: The Band & Friends",
        "Genre: Rock",
        "Date: 2004-05-01",
        "Track: 3/12",
        "duration: 245.678",
        "Time: 246",
        "file: Music/loose.mp3",
        "Time: 61",
        "OK",
    ]);
    let tracks = parse_tracks(&input);
    assert_eq!(tracks.len(), 2);
    assert_eq!(
        tracks[0],
        Track {
            title: "Intro".to_string(),
            artist: "The Band".to_string(),
            album: "First".to_string(),
            album_artist: "The Band & Friends".to_string(),
            genre: "Rock".to_string(),
            year: 2004,
            track_number: 3,
            duration: "4:05".to_string(),
            path: "Music/Artist/01 Intro.flac".to_string(),
        }
    );
    assert_eq!(
        tracks[1],
        Track {
            title: "loose".to_string(),
            artist: "Unknown Artist".to_string(),
            album: "Unknown Album".to_string(),
            album_artist: "Unknown Artist".to_string(),
            genre: String::new(),
            year: 0,
            track_number: 0,
            duration: "1:01".to_string(),
            path: "Music/loose.mp3".to_string(),
        }
    );
}

#[test]
fn parse_tracks_field_fallbacks() {
    let input = lines(&[
        "directory: Music",
        "Title: before any file",
        "file: a/b.ogg",
        "Artist: Solo",
        "Album Artist: Spaced",
        "OriginalDate: 1999",
        "Track: x",
        "duration: not-a-number",
        "Time: 30",
        "file: c.ogg",
        "Date: 20x4",
        "OriginalDate: 1980",
        "Track: +7",
        "Title: first",
        "Title: second",
        "OK MPD 0.23.5",
    ]);
    let tracks = parse_tracks(&input);
    assert_eq!(tracks.len(), 2);
    assert_eq!(tracks[0].title, "b");
    assert_eq!(tracks[0].album_artist, "Spaced");
    assert_eq!(tracks[0].year, 1999);
    assert_eq!(tracks[0].track_number, 0);
    assert_eq!(tracks[0].duration, "0:00");
    assert_eq!(tracks[1].title, "first");
    assert_eq!(tracks[1].year, 0);
    assert_eq!(tracks[1].track_number, 7);
    assert_eq!(tracks[1].album_artist, "Unknown Artist");
    assert_eq!(tracks[1].duration, "0:00");
}

#[test]
fn parse_tracks_one_track_per_file_line() {
    let input = lines(&["file: x", "file: y", "file: ", "garbage", "file: z"]);
    let tracks = parse_tracks(&input);
    let paths: Vec<&str> = tracks.iter().map(|t| t.path.as_str()).collect();
    assert_eq!(paths, vec!["x", "y", "", "z"]);
    assert!(parse_tracks(&lines(&["OK"])).is_empty());
    assert!(parse_tracks(&[]).is_empty());
}

#[test]
fn get_library_passes_errors_through() {
    assert_eq!(get_library(Err("MPD connection failed: refused".to_string())), Err("MPD connection failed: refused".to_string()));
    let q = get_queue(Ok(lines(&["file: q.mp3", "OK"]))).unwrap();
    assert_eq!(q.len(), 1);
    assert_eq!(q[0].path, "q.mp3");
}

#[test]
fn summarize_albums_keeps_first_of_each_album() {
    let input = lines(&[
        "file: 1", "Album: A", "AlbumArtist: X", "Date: 2001",
        "file: 2", "Album: A", "AlbumArtist: X", "Date: 2002",
        "file: 3", "Album: B", "AlbumArtist: X", "Date: 2003",
        "file: 4", "Album: A", "AlbumArtist: Y", "Date: 2004",
        "file: 5", "Album: B", "AlbumArtist: X",
    ]);
    let tracks = parse_tracks(&input);
    let albums = summarize_albums(&tracks);
    let got: Vec<(&str, &str, u32)> = albums
        .iter()
        .map(|a| (a.album.as_str(), a.album_artist.as_str(), a.year))
        .collect();
    assert_eq!(got, vec![("A", "X", 2001), ("B", "X", 2003), ("A", "Y", 2004)]);
}

#[test]
fn summarize_albums_joins_key_with_control_character() {
    let mk = |album: &str, artist: &str| Track {
        title: String::new(),
        artist: String::new(),
        album: album.to_string(),
        album_artist: artist.to_string(),
        genre: String::new(),
        year: 0,
        track_number: 0,
        duration: String::new(),
        path: String::new(),
    };
    let tracks = vec![mk("a\u{1}b", "c"), mk("a", "b\u{1}c"), mk("a", "b")];
    let albums = summarize_albums(&tracks);
    assert_eq!(albums.len(), 2);
    assert_eq!(albums[0].album, "a\u{1}b");
    assert_eq!(albums[1].album_artist, "b");
}

#[test]
fn get_albums_from_library() {
    let library = get_library(Ok(lines(&["file: 1", "Album: A", "file: 2", "Album: A"])));
    let albums = get_albums(library).unwrap();
    assert_eq!(albums.len(), 1);
    assert_eq!(albums[0].album, "A");
    assert_eq!(albums[0].album_artist, "Unknown Artist");
    assert_eq!(get_albums(Err("e".to_string())), Err("e".to_string()));
}
