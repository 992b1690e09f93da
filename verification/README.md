# syno_photo_frame

A full-screen photo frame slideshow for publicly shared Synology Photos and Immich albums,
meant for a Raspberry Pi connected to a monitor.

The crate is written in Verus. Its library (`src/`) holds the parts that decide what the frame
does, each with a contract that Verus proves:

- `share_link` — the grammars of Synology Photos and Immich share links, backend detection and
  the API endpoints derived from a link;
- `api_client` (with `syno_client` and `immich_client`), `api_photos` — the requests sent to the
  photo servers and how their answers are read, and the stable ordering of Immich assets;
- `slideshow` — the display sequence: album order, random start, random order, refetching the
  album when a pass ends;
- `frame` — the display loop's decisions: when the next photo is due, standby without motion,
  waking on motion;
- `img` — decoding a photo, how it is framed on the screen (scaling, centring and the
  background bands cut from the photo), turning a picture with the screen, and drawing the
  update icon;
- `asset` — the welcome, error and splash screens and the update icon made from picture files;
- `transition` — crossfade and fade-to-black opacity over time, and the two display textures;
- `info_box` — size and placement of the date and location box;
- `metadata` — location names and the locale-dependent date text;
- `cli`, `update`, `logging`, `rand`, `text`, `test_helpers` — option values and their parsing,
  the update check, redaction of logged forms, randomness, and small helpers.

Calls into `rand`, `chrono` and `image` go through small trusted wrappers whose contracts state
what those crates document.

`app/` is the program around the library: command-line parsing with clap, HTTP with reqwest,
the SDL window, reading the picture files, blurring the background bands, the GPIO motion sensor and the threads. It expects
an `assets` directory beside the executable holding `Loading.jpeg`, `Error.jpeg`, `Update.png`
and `Roboto-Regular.ttf`.

`tests/` exercises the library on concrete values.
