//! The text side of the protocol: quoting of arguments, the commands this
//! client sends, the greeting check, the server address, and the framing of
//! a command's response.

use vstd::prelude::*;
use crate::text::{
    chars_of, contains, contains_chars, decimal, push_char, push_decimal, starts_with,
    starts_with_chars, trim_line_end, trim_line_end_len,
};

verus! {

// ---------------------------------------------------------------------------
// Quoting
// ---------------------------------------------------------------------------

/// How one character of an argument is written inside double quotes: a
/// backslash before `\` and `"`, every other character as it is.
pub open spec fn escape_char(c: char) -> Seq<char> {
    if c == '\\' {
        seq!['\\', '\\']
    } else if c == '"' {
        seq!['\\', '"']
    } else {
        seq![c]
    }
}

/// The escaped text of an argument, character by character.
pub open spec fn escape(s: Seq<char>) -> Seq<char>
    decreases s.len(),
{
    if s.len() == 0 {
        seq![]
    } else {
        escape(s.drop_last()) + escape_char(s.last())
    }
}

/// An argument as this client sends it: escaped and wrapped in double quotes.
pub open spec fn quoted(s: Seq<char>) -> Seq<char> {
    seq!['"'] + escape(s) + seq!['"']
}

/// How the server reads a quoted argument, from just after its opening
/// quote: a backslash takes the next character as it is, the first
/// unescaped `"` ends the argument. Gives the argument and what follows the
/// closing quote, or `None` where no closing quote comes.
pub open spec fn read_quoted(t: Seq<char>) -> Option<(Seq<char>, Seq<char>)>
    decreases t.len(),
{
    if t.len() == 0 {
        None
    } else if t[0] == '"' {
        Some((seq![], t.skip(1)))
    } else if t[0] == '\\' {
        if t.len() < 2 {
            None
        } else {
            match read_quoted(t.skip(2)) {
                Some((v, rest)) => Some((seq![t[1]] + v, rest)),
                None => None,
            }
        }
    } else {
        match read_quoted(t.skip(1)) {
            Some((v, rest)) => Some((seq![t[0]] + v, rest)),
            None => None,
        }
    }
}

proof fn lemma_escape_concat(a: Seq<char>, b: Seq<char>)
    ensures
        escape(a + b) == escape(a) + escape(b),
    decreases b.len(),
{
    if b.len() == 0 {
        assert(a + b =~= a);
        assert(escape(b) =~= seq![]);
        assert(escape(a) + escape(b) =~= escape(a));
    } else {
        lemma_escape_concat(a, b.drop_last());
        assert((a + b).drop_last() =~= a + b.drop_last());
        assert((a + b).last() == b.last());
        assert(escape(a + b) =~= escape(a) + escape(b.drop_last()) + escape_char(b.last()));
    }
}

proof fn lemma_escape_front(s: Seq<char>)
    requires
        s.len() > 0,
    ensures
        escape(s) == escape_char(s[0]) + escape(s.drop_first()),
{
    lemma_escape_concat(seq![s[0]], s.drop_first());
    assert(seq![s[0]] + s.drop_first() =~= s);
    assert(seq![s[0]].drop_last() =~= Seq::<char>::empty());
    assert(escape(Seq::<char>::empty()) =~= Seq::<char>::empty());
    assert(escape(seq![s[0]]) =~= escape_char(s[0]));
}

/// Quoting is undone by the server: whatever `s` holds and whatever follows
/// the closing quote, the server reads back exactly `s` as one argument and
/// resumes right after it.
pub proof fn lemma_quoted_reads_back(s: Seq<char>, rest: Seq<char>)
    ensures
        read_quoted(quoted(s).drop_first() + rest) == Some((s, rest)),
    decreases s.len(),
{
    let t = quoted(s).drop_first() + rest;
    assert(quoted(s).drop_first() =~= escape(s) + seq!['"']);
    if s.len() == 0 {
        assert(escape(s) =~= Seq::<char>::empty());
        assert(t[0] == '"');
        assert(t.skip(1) =~= rest);
    } else {
        lemma_escape_front(s);
        let c = s[0];
        let tail = s.drop_first();
        lemma_quoted_reads_back(tail, rest);
        assert(quoted(tail).drop_first() =~= escape(tail) + seq!['"']);
        let t2 = quoted(tail).drop_first() + rest;
        if c == '\\' || c == '"' {
            assert(t =~= seq!['\\', c] + t2);
            assert(t.skip(2) =~= t2);
            assert(seq![c] + tail =~= s);
        } else {
            assert(t =~= seq![c] + t2);
            assert(t.skip(1) =~= t2);
            assert(seq![c] + tail =~= s);
        }
    }
}

/// Appends `s` quoted for the server.
pub fn push_quoted(out: &mut String, s: &str)
    ensures
        final(out)@ == old(out)@ + quoted(s@),
{
    let cs = chars_of(s);
    push_char(out, '"');
    let ghost start = out@;
    let mut i: usize = 0;
    while i < cs.len()
        invariant
            i <= cs@.len(),
            cs@ == s@,
            start == old(out)@.push('"'),
            out@ == start + escape(cs@.take(i as int)),
        decreases cs@.len() - i,
    {
        let c = cs[i];
        if c == '\\' {
            push_char(out, '\\');
            push_char(out, '\\');
        } else if c == '"' {
            push_char(out, '\\');
            push_char(out, '"');
        } else {
            push_char(out, c);
        }
        assert(cs@.take(i + 1).drop_last() =~= cs@.take(i as int));
        i = i + 1;
    }
    push_char(out, '"');
    assert(cs@.take(cs@.len() as int) =~= cs@);
}

/// A value quoted for the server: wrapped in double quotes, with a backslash
/// before every `\` and `"` in it.
pub fn quote_arg(value: &str) -> (r: String)
    ensures
        r@ == quoted(value@),
{
    let mut r = String::new();
    push_quoted(&mut r, value);
    r
}


// ---------------------------------------------------------------------------
// Commands
// ---------------------------------------------------------------------------

/// The characters of each path, in order.
pub open spec fn texts(paths: Seq<String>) -> Seq<Seq<char>> {
    paths.map_values(|p: String| p@)
}

/// One `add` line per path, in order.
pub open spec fn add_lines(paths: Seq<Seq<char>>) -> Seq<char>
    decreases paths.len(),
{
    if paths.len() == 0 {
        seq![]
    } else {
        add_lines(paths.drop_last()) + "add "@ + quoted(paths.last()) + seq!['\n']
    }
}

/// The position playback starts from: `index`, but at most the last
/// position of a queue of `len` entries (zero for an empty one).
pub open spec fn clamp_index(index: nat, len: nat) -> nat {
    if len == 0 {
        0
    } else if index <= len - 1 {
        index
    } else {
        (len - 1) as nat
    }
}

/// The command list that replaces the queue with `paths` and starts
/// playing at `index` (clamped to the queue).
pub open spec fn play_command(paths: Seq<Seq<char>>, index: nat) -> Seq<char> {
    "command_list_begin\nclear\n"@ + add_lines(paths) + "play "@ + decimal(
        clamp_index(index, paths.len()),
    ) + "\ncommand_list_end"@
}

/// The command list that appends `paths` to the queue.
pub open spec fn enqueue_command(paths: Seq<Seq<char>>) -> Seq<char> {
    "command_list_begin\n"@ + add_lines(paths) + "command_list_end"@
}

/// The search for the tracks of one album of one album artist.
pub open spec fn find_album_command(album_artist: Seq<char>, album: Seq<char>) -> Seq<char> {
    "find albumartist "@ + quoted(album_artist) + " album "@ + quoted(album)
}

/// The command that authenticates with a password.
pub open spec fn password_command_text(password: Seq<char>) -> Seq<char> {
    "password "@ + quoted(password)
}

/// One request of a binary transfer: the command, the quoted URI and the
/// offset of the next chunk, ended by a line feed.
pub open spec fn binary_request_text(command: Seq<char>, uri: Seq<char>, offset: nat) -> Seq<char> {
    command + seq![' '] + quoted(uri) + seq![' '] + decimal(offset) + seq!['\n']
}

/// The `add` lines of a list of paths are those of its parts, one after
/// the other: one line `add "<path>"` per path, in the order of the paths.
pub proof fn lemma_add_lines_in_order(a: Seq<Seq<char>>, b: Seq<Seq<char>>)
    ensures
        add_lines(a + b) == add_lines(a) + add_lines(b),
        add_lines(seq![b.first()]) == "add "@ + quoted(b.first()) + seq!['\n'],
    decreases b.len(),
{
    assert(seq![b.first()].drop_last() =~= Seq::<Seq<char>>::empty());
    assert(add_lines(Seq::<Seq<char>>::empty()) =~= Seq::<char>::empty());
    assert(add_lines(seq![b.first()]) =~= "add "@ + quoted(b.first()) + seq!['\n']);
    if b.len() == 0 {
        assert(a + b =~= a);
        assert(add_lines(a) + add_lines(b) =~= add_lines(a));
    } else {
        lemma_add_lines_in_order(a, b.drop_last());
        assert((a + b).drop_last() =~= a + b.drop_last());
        assert((a + b).last() == b.last());
        assert(add_lines(a + b) =~= add_lines(a) + add_lines(b.drop_last()) + "add "@ + quoted(
            b.last(),
        ) + seq!['\n']);
    }
}

/// Playing from a position past the end of the queue plays its last path,
/// and a position within it is kept: the command for any index is the one
/// for the index clamped to the last position.
pub proof fn lemma_play_index_clamped(paths: Seq<Seq<char>>, index: nat)
    requires
        paths.len() > 0,
    ensures
        index >= paths.len() ==> play_command(paths, index) == play_command(
            paths,
            (paths.len() - 1) as nat,
        ),
        index < paths.len() ==> play_command(paths, index) == "command_list_begin\nclear\n"@
            + add_lines(paths) + "play "@ + decimal(index) + "\ncommand_list_end"@,
{
}

/// Appends one `add` line per path.
fn push_add_lines(out: &mut String, paths: &[String])
    ensures
        final(out)@ == old(out)@ + add_lines(texts(paths@)),
{
    let mut i: usize = 0;
    while i < paths.len()
        invariant
            i <= paths@.len(),
            out@ == old(out)@ + add_lines(texts(paths@.take(i as int))),
        decreases paths@.len() - i,
    {
        let ghost before = out@;
        out.append("add ");
        push_quoted(out, paths[i].as_str());
        push_char(out, '\n');
        proof {
            let ps = texts(paths@.take(i + 1));
            assert(ps.drop_last() =~= texts(paths@.take(i as int)));
            assert(ps.last() == paths@[i as int]@);
            assert(out@ =~= before + "add "@ + quoted(paths@[i as int]@) + seq!['\n']);
        }
        i = i + 1;
    }
    assert(paths@.take(paths@.len() as int) =~= paths@);
}

/// The command list that replaces the queue with `paths` and plays from
/// `index`, clamped to the last path.
pub fn play_paths_command(paths: &[String], index: usize) -> (r: String)
    ensures
        r@ == play_command(texts(paths@), index as nat),
{
    let last = if paths.len() == 0 {
        0
    } else {
        paths.len() - 1
    };
    let start = if index <= last {
        index
    } else {
        last
    };
    let mut r = String::new();
    r.append("command_list_begin\nclear\n");
    push_add_lines(&mut r, paths);
    r.append("play ");
    push_decimal(&mut r, start as u64);
    r.append("\ncommand_list_end");
    r
}

/// The command list that appends `paths` to the queue.
pub fn enqueue_command_text(paths: &[String]) -> (r: String)
    ensures
        r@ == enqueue_command(texts(paths@)),
{
    let mut r = String::new();
    r.append("command_list_begin\n");
    push_add_lines(&mut r, paths);
    r.append("command_list_end");
    r
}

/// The search for the tracks of one album of one album artist.
pub fn find_album_command_text(album_artist: &str, album: &str) -> (r: String)
    ensures
        r@ == find_album_command(album_artist@, album@),
{
    let mut r = String::new();
    r.append("find albumartist ");
    push_quoted(&mut r, album_artist);
    r.append(" album ");
    push_quoted(&mut r, album);
    r
}

/// The command that authenticates with `password`.
pub fn password_command(password: &str) -> (r: String)
    ensures
        r@ == password_command_text(password@),
{
    let mut r = String::new();
    r.append("password ");
    push_quoted(&mut r, password);
    r
}

/// One request of a binary transfer (`albumart` or `readpicture`) for the
/// chunk that starts at `offset`.
pub fn binary_request(command: &str, uri: &str, offset: usize) -> (r: String)
    ensures
        r@ == binary_request_text(command@, uri@, offset as nat),
{
    let mut r = String::new();
    r.append(command);
    push_char(&mut r, ' ');
    push_quoted(&mut r, uri);
    push_char(&mut r, ' ');
    push_decimal(&mut r, offset as u64);
    push_char(&mut r, '\n');
    r
}

// ---------------------------------------------------------------------------
// Greeting and address
// ---------------------------------------------------------------------------

/// What the client makes of the server's first line: it must begin with
/// `OK MPD` once its line ending is dropped.
pub open spec fn greeting_outcome(line: Seq<char>) -> Result<(), Seq<char>> {
    let greeting = trim_line_end(line);
    if starts_with(greeting, "OK MPD"@) {
        Ok(())
    } else {
        Err("MPD did not send a valid greeting: "@ + greeting)
    }
}

/// A greeting is accepted exactly when it begins with `OK MPD`, whatever
/// line ending follows; any other line is refused with a message that
/// quotes it without its line ending.
pub proof fn lemma_greeting_accepted(line: Seq<char>)
    ensures
        starts_with(line, "OK MPD"@) ==> greeting_outcome(line) is Ok,
        !starts_with(trim_line_end(line), "OK MPD"@) ==> greeting_outcome(line) == Err::<
            (),
            Seq<char>,
        >("MPD did not send a valid greeting: "@ + trim_line_end(line)),
{
    reveal_strlit("OK MPD");
    if starts_with(line, "OK MPD"@) {
        crate::text::lemma_trim_line_end_keeps_start(line, "OK MPD"@);
    }
}

/// Checks the server's greeting line.
pub fn check_greeting(line: &str) -> (r: Result<(), String>)
    ensures
        match greeting_outcome(line@) {
            Ok(()) => r is Ok,
            Err(m) => r matches Err(e) && e@ == m,
        },
{
    let cs = chars_of(line);
    let n = trim_line_end_len(&cs);
    let greeting = crate::text::string_of_range(&cs, 0, n);
    assert(cs@.subrange(0, n as int) =~= cs@.take(n as int));
    let prefix = chars_of("OK MPD");
    let g = chars_of(greeting.as_str());
    if starts_with_chars(&g, &prefix) {
        Ok(())
    } else {
        let mut e = String::new();
        e.append("MPD did not send a valid greeting: ");
        e.append(greeting.as_str());
        Err(e)
    }
}

/// The address to connect to, from the configured host and port: a host
/// that already names a port (`]:`, or a single-colon form such as
/// `host:port`) is used as it is; a bare IPv6 address is bracketed; any
/// other host gets `:port` appended.
pub open spec fn server_address(host: Seq<char>, port: Seq<char>) -> Seq<char> {
    if contains(host, "]:"@) || (!contains(host, "::"@) && contains(host, ":"@)) {
        host
    } else if contains(host, "::"@) && !starts_with(host, "["@) {
        "["@ + host + "]:"@ + port
    } else {
        host + ":"@ + port
    }
}

/// A host that names its port is used as it is; a bare IPv6 address is
/// put in brackets before the port; a host without any `:` gets `:` and the
/// port appended.
pub proof fn lemma_address_forms(host: Seq<char>, port: Seq<char>)
    ensures
        contains(host, "]:"@) ==> server_address(host, port) == host,
        (!contains(host, "::"@) && contains(host, ":"@)) ==> server_address(host, port) == host,
        (contains(host, "::"@) && !contains(host, "]:"@) && !starts_with(host, "["@))
            ==> server_address(host, port) == "["@ + host + "]:"@ + port,
        !contains(host, ":"@) ==> server_address(host, port) == host + ":"@ + port,
{
    reveal_strlit("]:");
    reveal_strlit("::");
    reveal_strlit(":");
    if !contains(host, ":"@) && contains(host, "]:"@) {
        let i = choose|i: int| crate::text::occurs_at(host, "]:"@, i);
        assert(host.subrange(i, i + 2)[1] == host[i + 1]);
        assert(host.subrange(i + 1, i + 2) =~= ":"@);
        assert(crate::text::occurs_at(host, ":"@, i + 1));
    }
    if !contains(host, ":"@) && contains(host, "::"@) {
        let i = choose|i: int| crate::text::occurs_at(host, "::"@, i);
        assert(host.subrange(i, i + 2)[0] == host[i]);
        assert(host.subrange(i, i + 1) =~= ":"@);
        assert(crate::text::occurs_at(host, ":"@, i));
    }
}

/// The host used when none is configured.
pub open spec fn default_host() -> Seq<char> {
    "127.0.0.1"@
}

/// The port used when none is configured.
pub open spec fn default_port() -> Seq<char> {
    "6600"@
}

/// The address to connect to from the configured host and port (`None`
/// where the setting is absent), with the defaults filled in.
pub fn mpd_addr(host: Option<&str>, port: Option<&str>) -> (r: String)
    ensures
        r@ == server_address(
            match host {
                Some(h) => h@,
                None => default_host(),
            },
            match port {
                Some(p) => p@,
                None => default_port(),
            },
        ),
{
    let host: String = match host {
        Some(h) => String::from_str(h),
        None => String::from_str("127.0.0.1"),
    };
    let port: String = match port {
        Some(p) => String::from_str(p),
        None => String::from_str("6600"),
    };
    let hs = chars_of(host.as_str());
    let bracket_port = contains_chars(&hs, &chars_of("]:"));
    let double_colon = contains_chars(&hs, &chars_of("::"));
    let colon = contains_chars(&hs, &chars_of(":"));
    if bracket_port || (!double_colon && colon) {
        return host;
    }
    let mut r = String::new();
    if double_colon && !starts_with_chars(&hs, &chars_of("[")) {
        r.append("[");
        r.append(host.as_str());
        r.append("]:");
        r.append(port.as_str());
        return r;
    }
    r.append(host.as_str());
    r.append(":");
    r.append(port.as_str());
    r
}

// ---------------------------------------------------------------------------
// Responses
// ---------------------------------------------------------------------------

/// The line that ends a successful response: `OK`, or the `OK MPD ...`
/// greeting.
pub open spec fn is_ok_line(line: Seq<char>) -> bool {
    line == "OK"@ || starts_with(line, "OK MPD"@)
}

/// What reading one more line of a response leads to.
pub enum ResponseStep {
    /// The line was kept; the response goes on.
    Continue,
    /// The line ended the response, which is now complete.
    Complete,
    /// The response failed with this message.
    Failed(String),
}

/// What one line read from the server does to a response being collected:
/// `raw` is the line as read (`None` once the connection is closed).
/// A closed connection fails; an `OK` line (or the greeting) is kept and
/// ends the response; an `ACK` line is the error; any other line is kept.
pub fn response_step(lines: &mut Vec<String>, raw: Option<&str>) -> (r: ResponseStep)
    ensures
        match raw {
            None => r matches ResponseStep::Failed(m) && m@ == "MPD closed the connection"@
                && final(lines)@ == old(lines)@,
            Some(t) => {
                let line = trim_line_end(t@);
                if is_ok_line(line) {
                    r is Complete && final(lines)@.len() == old(lines)@.len() + 1
                        && final(lines)@.drop_last() == old(lines)@ && final(lines)@.last()@
                        == line
                } else if starts_with(line, "ACK"@) {
                    r matches ResponseStep::Failed(m) && m@ == line && final(lines)@ == old(
                        lines,
                    )@
                } else {
                    r is Continue && final(lines)@.len() == old(lines)@.len() + 1
                        && final(lines)@.drop_last() == old(lines)@ && final(lines)@.last()@
                        == line
                }
            },
        },
{
    match raw {
        None => ResponseStep::Failed(String::from_str("MPD closed the connection")),
        Some(t) => {
            let cs = chars_of(t);
            let n = trim_line_end_len(&cs);
            assert(cs@.subrange(0, n as int) =~= cs@.take(n as int));
            let line = crate::text::string_of_range(&cs, 0, n);
            let lc = chars_of(line.as_str());
            let ok = crate::text::same_chars(&lc, &chars_of("OK")) || starts_with_chars(
                &lc,
                &chars_of("OK MPD"),
            );
            if ok {
                lines.push(line);
                assert(lines@.drop_last() =~= old(lines)@);
                ResponseStep::Complete
            } else if starts_with_chars(&lc, &chars_of("ACK")) {
                ResponseStep::Failed(line)
            } else {
                lines.push(line);
                assert(lines@.drop_last() =~= old(lines)@);
                ResponseStep::Continue
            }
        },
    }
}

} // verus!
