# musicbee-iced

A desktop client for the Music Player Daemon (MPD), in the style of
MusicBee, built with `iced`. The server is reached over TCP; `MPD_HOST`,
`MPD_PORT` and `MPD_PASSWORD` are honoured.

## Layout

- `src/` — the library, verified with Verus:
  - `text` — decimal rendering and reading of integers, searching in text;
  - `protocol` — argument quoting, the commands sent, the greeting check,
    the server address, and the framing of a command's response;
  - `pairs` — `key: value` lines and looking keys up;
  - `tracks` — track records read from listings, their derived fields, and
    the album summary;
  - `status` — the player status;
  - `binary` — chunked cover-art transfers with the `albumart` →
    `readpicture` fallback, and the image type;
  - `api` — the client's operations over what was read from the server;
  - `order`, `search`, `player` — the window's state machine: listing order,
    the search box, and what each event does and shows;
  - `palette` — the window's colors.
- `app/` — the program: the TCP connection, reading and writing, floating
  point, and the `iced` window and styles.
- `tests/` — tests of the library.
