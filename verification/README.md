# playful

A keyboard-driven terminal music player (mpv plays the audio, ratatui draws
the screens, album art goes through the Kitty graphics protocol), with its
decision logic verified by Verus.

- `src/` is the verified library:
  - `state.rs`: the player state and what every key press, backend report
    and tick does to it; outside work comes back as a list of `Effect`s
    that the front end carries out, feeding results back in.
  - `library.rs`, `counts.rs`, `config.rs`: tracks, how a file's tags and
    properties describe a track, play counts and settings.
  - `cover.rs`: decoding, scaling and corner rounding of cover art.
  - `panels.rs`, `text.rs`, `date.rs`, `number.rs`: the text shown in the
    panels, string helpers, calendar dates and integer parsing.
  - `laws.rs`: properties that span several calls.
  - `paths.rs`: what the standard library reads from a path (stem,
    extension) and the order of paths by their components, which the
    library is sorted in.
- The play counts (`PlayCounts`, a vector with a no-duplicate invariant)
  and the tracks counted this session (a vector searched before each
  addition) are kept in vectors rather than in a `HashMap`/`HashSet`:
  with `String` keys, vstd's specifications of those hash collections do
  not let even the size after one insertion be proved.
- `app/` is the program around it: terminal, mpv, file system, settings
  file, and the drawing of the screens.
- `tests/` exercises the library on concrete values.
