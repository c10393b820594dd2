use musicbee_iced::protocol::{
    binary_request, check_greeting, mpd_addr, password_command, quote_arg, response_step,
    ResponseStep,
};
use musicbee_iced::{
    get_album_tracks, mpd_enqueue, mpd_next, mpd_play_path, mpd_previous, mpd_seek_current,
    mpd_set_queue, mpd_set_random, mpd_set_repeat, mpd_set_volume, mpd_stop,
};

#[test]
fn quote_arg_escapes_backslash_and_quote() {
    assert_eq!(quote_arg("plain"), "\"plain\"");
    assert_eq!(quote_arg(""), "\"\"");
    assert_eq!(quote_arg("a\"b\\c"), "\"a\\\"b\\\\c\"");
    assert_eq!(quote_arg("\\\""), "\"\\\\\\\"\"");
    assert_eq!(quote_arg("é ñ"), "\"é ñ\"");
}

#[test]
fn password_and_find_commands() {
    assert_eq!(password_command("se\"cret"), "password \"se\\\"cret\"");
    assert_eq!(
        get_album_tracks("AC/DC".to_string(), "Back \"in\" Black".to_string()),
        "find albumartist \"AC/DC\" album \"Back \\\"in\\\" Black\""
    );
}

#[test]
fn play_path_replaces_queue() {
    assert_eq!(
        mpd_play_path("a b.mp3".to_string()),
        "command_list_begin\nclear\nadd \"a b.mp3\"\nplay 0\ncommand_list_end"
    );
}

#[test]
fn set_queue_clamps_index_and_refuses_empty() {
    let paths = vec!["x".to_string(), "y".to_string(), "z".to_string()];
    assert_eq!(
        mpd_set_queue(paths.clone(), 1),
        Ok("command_list_begin\nclear\nadd \"x\"\nadd \"y\"\nadd \"z\"\nplay 1\ncommand_list_end".to_string())
    );
    assert_eq!(
        mpd_set_queue(paths, 99),
        Ok("command_list_begin\nclear\nadd \"x\"\nadd \"y\"\nadd \"z\"\nplay 2\ncommand_list_end".to_string())
    );
    assert_eq!(mpd_set_queue(vec![], 0), Err("No tracks were sent to MPD".to_string()));
}

#[test]
fn enqueue_appends() {
    assert_eq!(
        mpd_enqueue(vec!["x".to_string(), "y\"".to_string()]),
        Ok("command_list_begin\nadd \"x\"\nadd \"y\\\"\"\ncommand_list_end".to_string())
    );
    assert_eq!(mpd_enqueue(vec![]), Err("No tracks were sent to MPD".to_string()));
}

#[test]
fn simple_commands() {
    assert_eq!(mpd_set_repeat(true), "repeat 1");
    assert_eq!(mpd_set_repeat(false), "repeat 0");
    assert_eq!(mpd_set_random(true), "random 1");
    assert_eq!(mpd_set_random(false), "random 0");
    assert_eq!(mpd_stop(), "stop");
    assert_eq!(mpd_next(), "next");
    assert_eq!(mpd_previous(), "previous");
    assert_eq!(mpd_set_volume(42), "setvol 42");
    assert_eq!(mpd_set_volume(100), "setvol 100");
    assert_eq!(mpd_set_volume(250), "setvol 100");
    assert_eq!(mpd_set_volume(0), "setvol 0");
    assert_eq!(mpd_seek_current(0), "seekcur 0");
    assert_eq!(mpd_seek_current(4294967295), "seekcur 4294967295");
}

#[test]
fn binary_request_text() {
    assert_eq!(binary_request("albumart", "a/b.flac", 0), "albumart \"a/b.flac\" 0\n");
    assert_eq!(binary_request("readpicture", "x", 8192), "readpicture \"x\" 8192\n");
}

#[test]
fn greeting_check() {
    assert_eq!(check_greeting("OK MPD 0.23.5\n"), Ok(()));
    assert_eq!(check_greeting("OK MPD"), Ok(()));
    assert_eq!(
        check_greeting("hello\r\n"),
        Err("MPD did not send a valid greeting: hello".to_string())
    );
    assert_eq!(check_greeting(""), Err("MPD did not send a valid greeting: ".to_string()));
    assert_eq!(
        check_greeting("OK\n"),
        Err("MPD did not send a valid greeting: OK".to_string())
    );
}

#[test]
fn server_address() {
    assert_eq!(mpd_addr(None, None), "127.0.0.1:6600");
    assert_eq!(mpd_addr(Some("localhost"), None), "localhost:6600");
    assert_eq!(mpd_addr(Some("host:7000"), Some("1")), "host:7000");
    assert_eq!(mpd_addr(Some("::1"), None), "[::1]:6600");
    assert_eq!(mpd_addr(Some("[::1]"), Some("7000")), "[::1]:7000");
    assert_eq!(mpd_addr(Some("[::1]:7000"), Some("1")), "[::1]:7000");
    assert_eq!(mpd_addr(Some("[host"), Some("2")), "[host:2");
}

#[test]
fn response_framing() {
    let mut lines = Vec::new();
    assert!(matches!(response_step(&mut lines, Some("volume: 50\n")), ResponseStep::Continue));
    assert!(matches!(response_step(&mut lines, Some("state: play\r\n")), ResponseStep::Continue));
    assert!(matches!(response_step(&mut lines, Some("OK\n")), ResponseStep::Complete));
    assert_eq!(lines, vec!["volume: 50", "state: play", "OK"]);

    let mut lines = Vec::new();
    assert!(matches!(response_step(&mut lines, Some("a: b\n")), ResponseStep::Continue));
    match response_step(&mut lines, Some("ACK [50@0] {play} No such song\n")) {
        ResponseStep::Failed(m) => assert_eq!(m, "ACK [50@0] {play} No such song"),
        _ => panic!("expected failure"),
    }
    assert_eq!(lines, vec!["a: b"]);

    let mut lines = Vec::new();
    match response_step(&mut lines, None) {
        ResponseStep::Failed(m) => assert_eq!(m, "MPD closed the connection"),
        _ => panic!("expected failure"),
    }
    let mut lines = Vec::new();
    assert!(matches!(response_step(&mut lines, Some("OK MPD 0.24\n")), ResponseStep::Complete));
    assert!(matches!(response_step(&mut lines, Some("OKAY\n")), ResponseStep::Continue));
}

/// The server's reading of a quoted argument, from just after its opening
/// quote: the argument and what follows the closing quote.
fn read_quoted(t: &str) -> Option<(String, &str)> {
    let mut out = String::new();
    let mut chars = t.char_indices();
    while let Some((i, c)) = chars.next() {
        match c {
            '"' => return Some((out, &t[i + 1..])),
            '\\' => out.push(chars.next()?.1),
            _ => out.push(c),
        }
    }
    None
}

#[test]
fn quoted_argument_reads_back() {
    for s in ["", "plain", "a\"b", "back\\slash", "\\\"\\\"", "é \"ü\" \\n"] {
        let q = quote_arg(s);
        let line = format!("{} rest", &q[1..]);
        assert_eq!(read_quoted(&line), Some((s.to_string(), " rest")));
    }
}
