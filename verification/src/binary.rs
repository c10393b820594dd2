//! Binary transfers (`albumart`, `readpicture`): the chunked exchange that
//! fetches a cover image, the fallback between the two commands, and the
//! image type read from the data's first bytes.

use vstd::prelude::*;
use crate::protocol::{binary_request, binary_request_text};
use crate::text::{
    chars_of, decimal, parse_unsigned, parse_usize, same_chars, starts_with, starts_with_chars,
};

verus! {

// ---------------------------------------------------------------------------
// Image type
// ---------------------------------------------------------------------------

/// The MIME type told by the first bytes of an image: JPEG, PNG, WebP or
/// GIF by their signatures, JPEG for anything else.
pub open spec fn mime_of(d: Seq<u8>) -> Seq<char> {
    if d.len() >= 3 && d[0] == 0xFFu8 && d[1] == 0xD8u8 && d[2] == 0xFFu8 {
        "image/jpeg"@
    } else if d.len() >= 8 && d.take(8) == seq![
        0x89u8,
        0x50u8,
        0x4Eu8,
        0x47u8,
        0x0Du8,
        0x0Au8,
        0x1Au8,
        0x0Au8,
    ] {
        "image/png"@
    } else if d.len() >= 12 && d.take(4) == seq![0x52u8, 0x49u8, 0x46u8, 0x46u8] && d.subrange(
        8,
        12,
    ) == seq![0x57u8, 0x45u8, 0x42u8, 0x50u8] {
        "image/webp"@
    } else if d.len() >= 6 && (d.take(6) == seq![0x47u8, 0x49u8, 0x46u8, 0x38u8, 0x37u8, 0x61u8]
        || d.take(6) == seq![0x47u8, 0x49u8, 0x46u8, 0x38u8, 0x39u8, 0x61u8]) {
        "image/gif"@
    } else {
        "image/jpeg"@
    }
}

/// The image type is told by the first bytes, whatever follows them: the
/// JPEG signature `FF D8 FF` gives JPEG, the PNG signature gives PNG, `RIFF`
/// with `WEBP` at offset 8 gives WebP, `GIF87a` or `GIF89a` gives GIF; and
/// every data gives one of these four types.
pub proof fn lemma_mime_by_signature(head: Seq<u8>, rest: Seq<u8>)
    ensures
        head == seq![0xFFu8, 0xD8u8, 0xFFu8] ==> mime_of(head + rest) == "image/jpeg"@,
        head == seq![0x89u8, 0x50u8, 0x4Eu8, 0x47u8, 0x0Du8, 0x0Au8, 0x1Au8, 0x0Au8] ==> mime_of(
            head + rest,
        ) == "image/png"@,
        (head.len() == 12 && head.take(4) == seq![0x52u8, 0x49u8, 0x46u8, 0x46u8] && head.subrange(
            8,
            12,
        ) == seq![0x57u8, 0x45u8, 0x42u8, 0x50u8]) ==> mime_of(head + rest) == "image/webp"@,
        (head == seq![0x47u8, 0x49u8, 0x46u8, 0x38u8, 0x37u8, 0x61u8] || head == seq![
            0x47u8,
            0x49u8,
            0x46u8,
            0x38u8,
            0x39u8,
            0x61u8,
        ]) ==> mime_of(head + rest) == "image/gif"@,
        mime_of(head + rest) == "image/jpeg"@ || mime_of(head + rest) == "image/png"@ || mime_of(
            head + rest,
        ) == "image/webp"@ || mime_of(head + rest) == "image/gif"@,
{
    let d = head + rest;
    if head.len() >= 3 {
        assert(d[0] == head[0] && d[1] == head[1] && d[2] == head[2]);
    }
    if head.len() >= 4 {
        assert(d.take(4) =~= head.take(4));
    }
    if head.len() >= 6 {
        assert(d.take(6) =~= head.take(6));
    }
    if head.len() >= 8 {
        assert(d.take(8) =~= head.take(8));
    }
    if head.len() >= 12 {
        assert(d.subrange(8, 12) =~= head.subrange(8, 12));
    }
    if head.len() == 6 {
        assert(head.take(6) =~= head);
    }
    if head.len() == 8 {
        assert(head.take(8) =~= head);
    }
}

/// Whether `d[from..from + sig.len()]` is `sig`.
fn bytes_at(d: &[u8], from: usize, sig: &[u8]) -> (r: bool)
    requires
        from + sig@.len() <= d@.len(),
    ensures
        r == (d@.subrange(from as int, from + sig@.len()) == sig@),
{
    let dlen = d.len();
    let mut i: usize = 0;
    while i < sig.len()
        invariant
            dlen == d@.len(),
            from + sig@.len() <= d@.len(),
            i <= sig@.len(),
            forall|j: int| 0 <= j < i ==> d@[from + j] == sig@[j],
        decreases sig@.len() - i,
    {
        if d[from + i] != sig[i] {
            assert(d@.subrange(from as int, from + sig@.len())[i as int] != sig@[i as int]);
            return false;
        }
        i = i + 1;
    }
    assert(d@.subrange(from as int, from + sig@.len()) =~= sig@);
    true
}

/// The MIME type of an image's data (see [`mime_of`]).
pub fn detect_mime(data: &[u8]) -> (r: &'static str)
    ensures
        r@ == mime_of(data@),
{
    let n = data.len();
    if n >= 3 && data[0] == 0xFF && data[1] == 0xD8 && data[2] == 0xFF {
        return "image/jpeg";
    }
    if n >= 8 {
        let png: [u8; 8] = [0x89, 0x50, 0x4E, 0x47, 0x0D, 0x0A, 0x1A, 0x0A];
        let is_png = bytes_at(data, 0, &png);
        assert(data@.subrange(0, 8) =~= data@.take(8));
        assert(png@ =~= seq![0x89u8, 0x50u8, 0x4Eu8, 0x47u8, 0x0Du8, 0x0Au8, 0x1Au8, 0x0Au8]);
        if is_png {
            return "image/png";
        }
    }
    if n >= 12 {
        let riff: [u8; 4] = [0x52, 0x49, 0x46, 0x46];
        let webp: [u8; 4] = [0x57, 0x45, 0x42, 0x50];
        let is_riff = bytes_at(data, 0, &riff);
        let is_webp = bytes_at(data, 8, &webp);
        assert(data@.subrange(0, 4) =~= data@.take(4));
        assert(riff@ =~= seq![0x52u8, 0x49u8, 0x46u8, 0x46u8]);
        assert(webp@ =~= seq![0x57u8, 0x45u8, 0x42u8, 0x50u8]);
        if is_riff && is_webp {
            return "image/webp";
        }
    }
    if n >= 6 {
        let gif87: [u8; 6] = [0x47, 0x49, 0x46, 0x38, 0x37, 0x61];
        let gif89: [u8; 6] = [0x47, 0x49, 0x46, 0x38, 0x39, 0x61];
        let is87 = bytes_at(data, 0, &gif87);
        let is89 = bytes_at(data, 0, &gif89);
        assert(data@.subrange(0, 6) =~= data@.take(6));
        assert(gif87@ =~= seq![0x47u8, 0x49u8, 0x46u8, 0x38u8, 0x37u8, 0x61u8]);
        assert(gif89@ =~= seq![0x47u8, 0x49u8, 0x46u8, 0x38u8, 0x39u8, 0x61u8]);
        if is87 || is89 {
            return "image/gif";
        }
    }
    "image/jpeg"
}


// ---------------------------------------------------------------------------
// The chunked transfer
// ---------------------------------------------------------------------------

/// What a transfer waits for next.
pub enum Phase {
    /// The `size: ` line of a reply.
    AwaitSize,
    /// The `binary: ` line of a reply.
    AwaitBinary,
    /// The given number of data bytes.
    AwaitChunk(usize),
    /// The line after the data: `OK`, or an empty line before it.
    AwaitTrailing,
    /// The `OK` after that empty line.
    AwaitOk,
    /// Nothing: the data is complete.
    Done,
    /// Nothing: the transfer failed.
    Failed,
}

/// What the caller is to do next for a transfer.
pub enum TransferAction {
    /// Send this request (it ends with a line feed).
    Send(String),
    /// Read one line: the bytes up to a line feed, decoded as UTF-8 with
    /// invalid sequences replaced, without the line feed.
    ReadLine,
    /// Read exactly this many bytes.
    ReadBytes(usize),
    /// The data is complete.
    Finished,
    /// The transfer failed with this message.
    Failed(String),
}

/// The mathematical content of a [`TransferAction`].
pub enum ActionView {
    Send(Seq<char>),
    ReadLine,
    ReadBytes(usize),
    Finished,
    Failed(Seq<char>),
}

impl View for TransferAction {
    type V = ActionView;

    open spec fn view(&self) -> ActionView {
        match self {
            TransferAction::Send(s) => ActionView::Send(s@),
            TransferAction::ReadLine => ActionView::ReadLine,
            TransferAction::ReadBytes(n) => ActionView::ReadBytes(*n),
            TransferAction::Finished => ActionView::Finished,
            TransferAction::Failed(m) => ActionView::Failed(m@),
        }
    }
}

/// One binary transfer in progress: the command (`albumart` or
/// `readpicture`) and URI it asks for, the data received so far, the total
/// size the first reply announced, and what it waits for.
pub struct BinaryTransfer {
    pub command: String,
    pub uri: String,
    pub data: Vec<u8>,
    pub total: Option<usize>,
    pub phase: Phase,
}

/// The mathematical content of a [`BinaryTransfer`].
pub struct TransferView {
    pub command: Seq<char>,
    pub uri: Seq<char>,
    pub data: Seq<u8>,
    pub total: Option<usize>,
    pub phase: Phase,
}

impl View for BinaryTransfer {
    type V = TransferView;

    open spec fn view(&self) -> TransferView {
        TransferView {
            command: self.command@,
            uri: self.uri@,
            data: self.data@,
            total: self.total,
            phase: self.phase,
        }
    }
}

/// The number in a header line such as `size: 1234`, read as a `usize`.
pub open spec fn header_value(line: Seq<char>, prefix: Seq<char>) -> Option<nat> {
    if starts_with(line, prefix) {
        parse_unsigned(line.skip(prefix.len() as int), usize::MAX as nat)
    } else {
        None
    }
}

/// The transfer failed with message `m`; nothing else changed.
pub open spec fn fail_with(t: TransferView, m: Seq<char>) -> (TransferView, ActionView) {
    (TransferView { phase: Phase::Failed, ..t }, ActionView::Failed(m))
}

/// The transfer waits for a line.
pub open spec fn awaits_line(p: Phase) -> bool {
    p is AwaitSize || p is AwaitBinary || p is AwaitTrailing || p is AwaitOk
}

/// What a line read from the server does to a transfer waiting for one.
///
/// Each reply is `size: <total>`, `binary: <n>`, `n` bytes, then `OK`
/// (or an empty line and `OK`); an `ACK` line in place of a header is the
/// server's error. The first reply fixes the total; once the data reaches
/// it, the transfer is complete, and until then the next chunk is asked for
/// at the offset of the data received so far.
pub open spec fn line_step(t: TransferView, line: Seq<char>) -> (TransferView, ActionView) {
    match t.phase {
        Phase::AwaitSize => if starts_with(line, "ACK"@) {
            fail_with(t, line)
        } else {
            match header_value(line, "size: "@) {
                None => fail_with(t, "Expected 'size:' header, got: "@ + line),
                Some(n) => (
                    TransferView {
                        phase: Phase::AwaitBinary,
                        total: if t.total is None {
                            Some(n as usize)
                        } else {
                            t.total
                        },
                        ..t
                    },
                    ActionView::ReadLine,
                ),
            }
        },
        Phase::AwaitBinary => if starts_with(line, "ACK"@) {
            fail_with(t, line)
        } else {
            match header_value(line, "binary: "@) {
                None => fail_with(t, "Expected 'binary:' header, got: "@ + line),
                Some(n) => if n == 0 {
                    fail_with(t, "MPD returned an empty binary chunk"@)
                } else {
                    (
                        TransferView { phase: Phase::AwaitChunk(n as usize), ..t },
                        ActionView::ReadBytes(n as usize),
                    )
                },
            }
        },
        Phase::AwaitTrailing => if line == "OK"@ {
            (TransferView { phase: Phase::Done, ..t }, ActionView::Finished)
        } else if line.len() > 0 {
            fail_with(t, "Unexpected data after binary chunk: "@ + line)
        } else {
            (TransferView { phase: Phase::AwaitOk, ..t }, ActionView::ReadLine)
        },
        Phase::AwaitOk => if line != "OK"@ {
            fail_with(t, "Expected OK after binary chunk, got: "@ + line)
        } else if t.data.len() >= match t.total {
            Some(n) => n as nat,
            None => 0,
        } {
            (TransferView { phase: Phase::Done, ..t }, ActionView::Finished)
        } else {
            (
                TransferView { phase: Phase::AwaitSize, ..t },
                ActionView::Send(binary_request_text(t.command, t.uri, t.data.len())),
            )
        },
        _ => (t, ActionView::ReadLine),
    }
}

/// What a chunk of data does to a transfer waiting for it: the bytes are
/// appended and the line after them is read next.
pub open spec fn chunk_step(t: TransferView, bytes: Seq<u8>) -> (TransferView, ActionView) {
    (TransferView { data: t.data + bytes, phase: Phase::AwaitTrailing, ..t }, ActionView::ReadLine)
}

/// A transfer just started, and the request it sends first.
pub open spec fn started(command: Seq<char>, uri: Seq<char>) -> (TransferView, Seq<char>) {
    (
        TransferView { command, uri, data: seq![], total: None, phase: Phase::AwaitSize },
        binary_request_text(command, uri, 0),
    )
}

fn failed(t: &mut BinaryTransfer, m: String) -> (r: TransferAction)
    ensures
        (final(t)@, r@) == fail_with(old(t)@, m@),
{
    t.phase = Phase::Failed;
    TransferAction::Failed(m)
}

fn message(prefix: &str, line: &str) -> (r: String)
    ensures
        r@ == prefix@ + line@,
{
    let mut m = String::from_str(prefix);
    m.append(line);
    m
}

/// Reads a header line such as `size: 1234`.
fn read_header(line: &[char], prefix: &str) -> (r: Option<usize>)
    ensures
        match header_value(line@, prefix@) {
            Some(n) => r == Some(n as usize),
            None => r is None,
        },
{
    let p = chars_of(prefix);
    if !starts_with_chars(line, &p) {
        return None;
    }
    let mut rest: Vec<char> = Vec::new();
    let mut i: usize = p.len();
    while i < line.len()
        invariant
            p@ == prefix@,
            p@.len() <= i <= line@.len(),
            rest@ == line@.subrange(p@.len() as int, i as int),
        decreases line@.len() - i,
    {
        rest.push(line[i]);
        i = i + 1;
    }
    assert(rest@ =~= line@.skip(p@.len() as int));
    parse_usize(&rest)
}

impl BinaryTransfer {
    /// Starts a transfer of `uri` with `command`; gives the first request.
    pub fn start(command: &str, uri: &str) -> (r: (BinaryTransfer, String))
        ensures
            (r.0@, r.1@) == started(command@, uri@),
    {
        let request = binary_request(command, uri, 0);
        (
            BinaryTransfer {
                command: String::from_str(command),
                uri: String::from_str(uri),
                data: Vec::new(),
                total: None,
                phase: Phase::AwaitSize,
            },
            request,
        )
    }

    /// Whether the transfer waits for a line.
    pub fn awaits_line(&self) -> (r: bool)
        ensures
            r == awaits_line(self.phase),
    {
        match self.phase {
            Phase::AwaitSize | Phase::AwaitBinary | Phase::AwaitTrailing | Phase::AwaitOk => true,
            _ => false,
        }
    }

    /// How many bytes the transfer waits for, if it waits for data.
    pub fn awaited_bytes(&self) -> (r: Option<usize>)
        ensures
            match self.phase {
                Phase::AwaitChunk(n) => r == Some(n),
                _ => r is None,
            },
    {
        match self.phase {
            Phase::AwaitChunk(n) => Some(n),
            _ => None,
        }
    }

    /// Takes one line read from the server (see [`line_step`]).
    pub fn on_line(&mut self, line: &str) -> (r: TransferAction)
        requires
            awaits_line(old(self).phase),
        ensures
            (final(self)@, r@) == line_step(old(self)@, line@),
    {
        let lc = chars_of(line);
        match self.phase {
            Phase::AwaitSize => {
                if starts_with_chars(&lc, &chars_of("ACK")) {
                    return failed(self, String::from_str(line));
                }
                match read_header(&lc, "size: ") {
                    None => failed(self, message("Expected 'size:' header, got: ", line)),
                    Some(n) => {
                        if self.total.is_none() {
                            self.total = Some(n);
                        }
                        self.phase = Phase::AwaitBinary;
                        TransferAction::ReadLine
                    },
                }
            },
            Phase::AwaitBinary => {
                if starts_with_chars(&lc, &chars_of("ACK")) {
                    return failed(self, String::from_str(line));
                }
                match read_header(&lc, "binary: ") {
                    None => failed(self, message("Expected 'binary:' header, got: ", line)),
                    Some(n) => {
                        if n == 0 {
                            failed(self, String::from_str("MPD returned an empty binary chunk"))
                        } else {
                            self.phase = Phase::AwaitChunk(n);
                            TransferAction::ReadBytes(n)
                        }
                    },
                }
            },
            Phase::AwaitTrailing => {
                if same_chars(&lc, &chars_of("OK")) {
                    self.phase = Phase::Done;
                    TransferAction::Finished
                } else if lc.len() > 0 {
                    failed(self, message("Unexpected data after binary chunk: ", line))
                } else {
                    self.phase = Phase::AwaitOk;
                    TransferAction::ReadLine
                }
            },
            _ => {
                if !same_chars(&lc, &chars_of("OK")) {
                    return failed(self, message("Expected OK after binary chunk, got: ", line));
                }
                let total = match self.total {
                    Some(n) => n,
                    None => 0,
                };
                if self.data.len() >= total {
                    self.phase = Phase::Done;
                    TransferAction::Finished
                } else {
                    self.phase = Phase::AwaitSize;
                    TransferAction::Send(
                        binary_request(self.command.as_str(), self.uri.as_str(), self.data.len()),
                    )
                }
            },
        }
    }

    /// Takes the data bytes the transfer waits for (see [`chunk_step`]).
    pub fn on_chunk(&mut self, bytes: Vec<u8>) -> (r: TransferAction)
        requires
            old(self).phase matches Phase::AwaitChunk(n) && bytes@.len() == n,
        ensures
            (final(self)@, r@) == chunk_step(old(self)@, bytes@),
    {
        let mut bytes = bytes;
        self.data.append(&mut bytes);
        self.phase = Phase::AwaitTrailing;
        TransferAction::ReadLine
    }
}


// ---------------------------------------------------------------------------
// Cover art: `albumart`, then `readpicture`
// ---------------------------------------------------------------------------

/// The fetch of a song's cover: first the cover file next to the song
/// (`albumart`); where that fails for any reason, the picture embedded in
/// the song (`readpicture`), whose outcome is final.
pub struct AlbumArtFetch {
    pub transfer: BinaryTransfer,
    /// Whether the fetch has moved on to `readpicture`.
    pub fallback: bool,
}

/// What becomes of a cover fetch once its transfer took a step: a failure
/// of the first transfer starts the second one.
pub open spec fn art_after(t: TransferView, a: ActionView, fallback: bool) -> (
    TransferView,
    bool,
    ActionView,
) {
    if a is Failed && !fallback {
        let (t2, request) = started("readpicture"@, t.uri);
        (t2, true, ActionView::Send(request))
    } else {
        (t, fallback, a)
    }
}

impl AlbumArtFetch {
    /// Starts fetching the cover of `uri`; gives the first request.
    pub fn start(uri: &str) -> (r: (AlbumArtFetch, String))
        ensures
            (r.0.transfer@, r.1@) == started("albumart"@, uri@),
            !r.0.fallback,
    {
        let (transfer, request) = BinaryTransfer::start("albumart", uri);
        (AlbumArtFetch { transfer, fallback: false }, request)
    }

    fn after(&mut self, a: TransferAction) -> (r: TransferAction)
        ensures
            (final(self).transfer@, final(self).fallback, r@) == art_after(
                old(self).transfer@,
                a@,
                old(self).fallback,
            ),
    {
        if a.is_failed() && !self.fallback {
            let uri = self.transfer.uri.clone();
            let (t2, request) = BinaryTransfer::start("readpicture", uri.as_str());
            self.transfer = t2;
            self.fallback = true;
            TransferAction::Send(request)
        } else {
            a
        }
    }

    /// Takes one line read from the server.
    pub fn on_line(&mut self, line: &str) -> (r: TransferAction)
        requires
            awaits_line(old(self).transfer.phase),
        ensures
            ({
                let (t, a) = line_step(old(self).transfer@, line@);
                (final(self).transfer@, final(self).fallback, r@) == art_after(
                    t,
                    a,
                    old(self).fallback,
                )
            }),
    {
        let a = self.transfer.on_line(line);
        self.after(a)
    }

    /// Takes the data bytes the transfer waits for.
    pub fn on_chunk(&mut self, bytes: Vec<u8>) -> (r: TransferAction)
        requires
            old(self).transfer.phase matches Phase::AwaitChunk(n) && bytes@.len() == n,
        ensures
            ({
                let (t, a) = chunk_step(old(self).transfer@, bytes@);
                (final(self).transfer@, final(self).fallback, r@) == art_after(
                    t,
                    a,
                    old(self).fallback,
                )
            }),
    {
        let a = self.transfer.on_chunk(bytes);
        self.after(a)
    }

    /// Takes the failure of a read or a write on the connection.
    pub fn on_io_error(&mut self, error: String) -> (r: TransferAction)
        ensures
            ({
                let (t, a) = fail_with(old(self).transfer@, error@);
                (final(self).transfer@, final(self).fallback, r@) == art_after(
                    t,
                    a,
                    old(self).fallback,
                )
            }),
    {
        let a = failed(&mut self.transfer, error);
        self.after(a)
    }
}

impl TransferAction {
    /// Whether the action reports a failure.
    pub fn is_failed(&self) -> (r: bool)
        ensures
            r == (self@ is Failed),
    {
        match self {
            TransferAction::Failed(_) => true,
            _ => false,
        }
    }
}

/// A transfer's data changes only by the chunks it receives, which are
/// appended as they come; every request after the first asks for the chunk
/// at the offset of the data received so far; and the total is fixed by the
/// first `size:` header.
pub proof fn lemma_transfer_appends_in_order(t: TransferView, line: Seq<char>, bytes: Seq<u8>)
    requires
        awaits_line(t.phase),
    ensures
        line_step(t, line).0.data == t.data,
        line_step(t, line).0.command == t.command && line_step(t, line).0.uri == t.uri,
        line_step(t, line).1 matches ActionView::Send(request) ==> request == binary_request_text(
            t.command,
            t.uri,
            t.data.len(),
        ),
        t.total is Some ==> line_step(t, line).0.total == t.total,
        chunk_step(t, bytes).0.data == t.data + bytes,
{
}

/// A transfer that waits for the `OK` after the empty line that follows the
/// data, and whose data has reached the total announced by the first `size:`
/// header, is complete when that `OK` comes. And no step ever asks for a chunk
/// at an offset at or beyond the announced total: a request is made only
/// while the data is short of it, at the offset of the data received so far.
pub proof fn lemma_transfer_stops_at_total(t: TransferView, line: Seq<char>)
    requires
        awaits_line(t.phase),
    ensures
        (t.phase is AwaitOk && line == "OK"@ && (t.total matches Some(n) && t.data.len() >= n))
            ==> (line_step(t, line).0.phase is Done && line_step(t, line).1 is Finished),
        (t.phase is AwaitOk && line == "OK"@ && t.total is None) ==> (line_step(
            t,
            line,
        ).0.phase is Done && line_step(t, line).1 is Finished),
        line_step(t, line).1 matches ActionView::Send(request) ==> (t.phase is AwaitOk
            && line == "OK"@ && (t.total matches Some(n) && t.data.len() < n) && request
            == binary_request_text(t.command, t.uri, t.data.len())),
        line_step(t, line).1 is Finished ==> (line == "OK"@ && line_step(t, line).0.phase is Done),
{
}

/// A cover fetch falls back once: a failure of the `albumart` transfer,
/// whatever its cause, starts a `readpicture` transfer of the same URI from
/// offset zero; after that, a failure is final and every action is passed
/// on as it is, and so is every action that is no failure.
pub proof fn lemma_cover_falls_back_once(t: TransferView, a: ActionView, fallback: bool)
    ensures
        ({
            let (t2, f2, a2) = art_after(t, a, fallback);
            &&& f2 == (fallback || a is Failed)
            &&& (!fallback && a is Failed) ==> (t2.command == "readpicture"@ && t2.uri == t.uri
                && t2.data.len() == 0 && t2.total is None && t2.phase is AwaitSize && a2
                == ActionView::Send(binary_request_text("readpicture"@, t.uri, 0)))
            &&& (fallback || !(a is Failed)) ==> (t2 == t && a2 == a)
        }),
{
}

/// A transfer understands the server's replies: `size: <n>` fixes the total
/// when none is known yet and leaves it otherwise, then the `binary:` line
/// is read; `binary: <n>` with `n` above zero asks for those `n` bytes, and
/// with zero fails; an `ACK` line in place of either header fails with that
/// line as the message; after the data, `OK` completes the transfer, an
/// empty line waits for the `OK`, and anything else fails.
pub proof fn lemma_transfer_reads_replies(t: TransferView, n: nat, line: Seq<char>)
    requires
        n <= usize::MAX,
    ensures
        t.phase is AwaitSize ==> ({
            let (t2, a) = line_step(t, "size: "@ + decimal(n));
            &&& a is ReadLine && t2.phase is AwaitBinary && t2.data == t.data
            &&& t2.total == if t.total is None {
                Some(n as usize)
            } else {
                t.total
            }
        }),
        (t.phase is AwaitBinary && n > 0) ==> ({
            let (t2, a) = line_step(t, "binary: "@ + decimal(n));
            &&& a == ActionView::ReadBytes(n as usize)
            &&& t2.phase == Phase::AwaitChunk(n as usize)
            &&& t2.data == t.data && t2.total == t.total
        }),
        t.phase is AwaitBinary ==> line_step(t, "binary: "@ + decimal(0)).1 is Failed,
        ((t.phase is AwaitSize || t.phase is AwaitBinary) && starts_with(line, "ACK"@)) ==> (
        line_step(t, line).1 == ActionView::Failed(line) && line_step(t, line).0.phase is Failed),
        t.phase is AwaitTrailing ==> (line_step(t, "OK"@).1 is Finished && line_step(
            t,
            "OK"@,
        ).0.phase is Done),
        t.phase is AwaitTrailing ==> (line_step(t, seq![]).1 is ReadLine && line_step(
            t,
            seq![],
        ).0.phase is AwaitOk),
        (t.phase is AwaitTrailing && line.len() > 0 && line != "OK"@) ==> line_step(t, line).1 is Failed,
{
    reveal_strlit("size: ");
    reveal_strlit("binary: ");
    reveal_strlit("ACK");
    crate::text::lemma_decimal_reads_back(n, usize::MAX as nat);
    crate::text::lemma_decimal_reads_back(0, usize::MAX as nat);
    let sz = "size: "@ + decimal(n);
    let bn = "binary: "@ + decimal(n);
    let b0 = "binary: "@ + decimal(0);
    assert(sz.take(6) =~= "size: "@);
    assert(sz.skip(6) =~= decimal(n));
    assert(bn.take(8) =~= "binary: "@);
    assert(bn.skip(8) =~= decimal(n));
    assert(b0.take(8) =~= "binary: "@);
    assert(b0.skip(8) =~= decimal(0));
    assert(!starts_with(sz, "ACK"@)) by {
        assert(sz[0] == 's');
        assert(sz.take(3)[0] == sz[0]);
    }
    assert(!starts_with(bn, "ACK"@)) by {
        assert(bn[0] == 'b');
        assert(bn.take(3)[0] == bn[0]);
    }
    assert(!starts_with(b0, "ACK"@)) by {
        assert(b0[0] == 'b');
        assert(b0.take(3)[0] == b0[0]);
    }
    reveal_strlit("OK");
}

} // verus!
