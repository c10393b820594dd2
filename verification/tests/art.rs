use musicbee_iced::binary::{detect_mime, AlbumArtFetch, BinaryTransfer, TransferAction};
use musicbee_iced::get_album_art;

fn expect_send(a: TransferAction) -> String {
    match a {
        TransferAction::Send(s) => s,
        _ => panic!("expected a request"),
    }
}

fn expect_failed(a: TransferAction) -> String {
    match a {
        TransferAction::Failed(s) => s,
        _ => panic!("expected a failure"),
    }
}

#[test]
fn mime_from_signature() {
    assert_eq!(detect_mime(&[0xFF, 0xD8, 0xFF, 0x00]), "image/jpeg");
    assert_eq!(detect_mime(&[0x89, b'P', b'N', b'G', 0x0D, 0x0A, 0x1A, 0x0A, 1]), "image/png");
    assert_eq!(detect_mime(b"RIFF\x00\x00\x00\x00WEBPVP8 "), "image/webp");
    assert_eq!(detect_mime(b"GIF87a..."), "image/gif");
    assert_eq!(detect_mime(b"GIF89a"), "image/gif");
    assert_eq!(detect_mime(b"GIF88a"), "image/jpeg");
    assert_eq!(detect_mime(&[]), "image/jpeg");
    assert_eq!(detect_mime(&[0x89, b'P', b'N', b'G']), "image/jpeg");
    assert_eq!(detect_mime(b"RIFF0000WEBX"), "image/jpeg");
}

#[test]
fn album_art_result() {
    let art = get_album_art(Ok(b"GIF89a!".to_vec())).unwrap();
    assert_eq!(art.mime, "image/gif");
    assert_eq!(art.data, b"GIF89a!".to_vec());
    assert_eq!(get_album_art(Err("ACK".to_string())), Err("ACK".to_string()));
}

#[test]
fn chunked_transfer() {
    let (mut t, first) = BinaryTransfer::start("albumart", "a.flac");
    assert_eq!(first, "albumart \"a.flac\" 0\n");
    assert!(matches!(t.on_line("size: 5"), TransferAction::ReadLine));
    assert!(matches!(t.on_line("binary: 3"), TransferAction::ReadBytes(3)));
    assert!(matches!(t.on_chunk(vec![1, 2, 3]), TransferAction::ReadLine));
    assert!(matches!(t.on_line(""), TransferAction::ReadLine));
    assert_eq!(expect_send(t.on_line("OK")), "albumart \"a.flac\" 3\n");
    assert!(matches!(t.on_line("size: 5"), TransferAction::ReadLine));
    assert!(matches!(t.on_line("binary: 2"), TransferAction::ReadBytes(2)));
    assert!(matches!(t.on_chunk(vec![4, 5]), TransferAction::ReadLine));
    assert!(matches!(t.on_line("OK"), TransferAction::Finished));
    assert_eq!(t.data, vec![1, 2, 3, 4, 5]);
    assert_eq!(t.total, Some(5));
}

#[test]
fn chunked_transfer_errors() {
    let (mut t, _) = BinaryTransfer::start("albumart", "x");
    assert_eq!(expect_failed(t.on_line("ACK [50@0] {albumart} No file exists")), "ACK [50@0] {albumart} No file exists");
    let (mut t, _) = BinaryTransfer::start("albumart", "x");
    assert_eq!(expect_failed(t.on_line("length: 3")), "Expected 'size:' header, got: length: 3");
    let (mut t, _) = BinaryTransfer::start("albumart", "x");
    t.on_line("size: 3");
    assert_eq!(expect_failed(t.on_line("binary: -1")), "Expected 'binary:' header, got: binary: -1");
    let (mut t, _) = BinaryTransfer::start("albumart", "x");
    t.on_line("size: 3");
    assert_eq!(expect_failed(t.on_line("binary: 0")), "MPD returned an empty binary chunk");
    let (mut t, _) = BinaryTransfer::start("albumart", "x");
    t.on_line("size: 3");
    t.on_line("binary: 3");
    t.on_chunk(vec![0, 0, 0]);
    assert_eq!(expect_failed(t.on_line("junk")), "Unexpected data after binary chunk: junk");
    let (mut t, _) = BinaryTransfer::start("albumart", "x");
    t.on_line("size: 3");
    t.on_line("binary: 3");
    t.on_chunk(vec![0, 0, 0]);
    t.on_line("");
    assert_eq!(expect_failed(t.on_line("NOPE")), "Expected OK after binary chunk, got: NOPE");
}

#[test]
fn cover_falls_back_to_embedded_picture() {
    let (mut f, first) = AlbumArtFetch::start("s.mp3");
    assert_eq!(first, "albumart \"s.mp3\" 0\n");
    let second = expect_send(f.on_line("ACK [50@0] {albumart} No file exists"));
    assert_eq!(second, "readpicture \"s.mp3\" 0\n");
    assert!(f.fallback);
    assert!(matches!(f.on_line("size: 2"), TransferAction::ReadLine));
    assert!(matches!(f.on_line("binary: 2"), TransferAction::ReadBytes(2)));
    assert!(matches!(f.on_chunk(vec![9, 9]), TransferAction::ReadLine));
    assert!(matches!(f.on_line("OK"), TransferAction::Finished));
    assert_eq!(f.transfer.data, vec![9, 9]);

    let (mut f, _) = AlbumArtFetch::start("s.mp3");
    expect_send(f.on_io_error("MPD read failed: reset".to_string()));
    assert_eq!(expect_failed(f.on_line("ACK [50@0] {readpicture} none")), "ACK [50@0] {readpicture} none");
}
