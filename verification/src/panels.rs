//! The text shown in the player's panels: the now-playing line, the
//! progress bar, the library title and the track details.
use vstd::prelude::*;
use crate::library::{Duration, Track};
use crate::paths::{file_stem, path_stem};
use crate::state::PlayerState;
use crate::text::{
    channels_text, clock, clock_string, decimal, decimal_string, format_channels, owned, push_decimal,
    push_str, same_text,
};

verus! {

/// `MM:SS`, or `HH:MM:SS` from an hour on, for the whole seconds of a span.
pub fn format_duration(d: Duration) -> (r: String)
    ensures
        r@ == clock(d.secs as nat),
{
    clock_string(d.secs)
}

/// The playback state word of the now-playing line.
pub open spec fn status_word(st: PlayerState) -> Seq<char> {
    if st.is_playing {
        "Now Playing"@
    } else if st.is_paused {
        "Paused"@
    } else if !st.is_idle {
        "Now Playing"@
    } else {
        "No Playback"@
    }
}

/// The playback state word: playing, paused, loaded but not idle, or idle.
pub fn status_text(st: &PlayerState) -> (r: String)
    ensures
        r@ == status_word(*st),
{
    if st.is_playing {
        owned("Now Playing")
    } else if st.is_paused {
        owned("Paused")
    } else if !st.is_idle {
        owned("Now Playing")
    } else {
        owned("No Playback")
    }
}

/// The first track of `lib` from `i` on whose path is `p`, or `lib.len()`.
pub open spec fn first_with_path(lib: Seq<Track>, p: Seq<char>, i: int) -> int
    decreases lib.len() - i,
{
    if i >= lib.len() {
        lib.len() as int
    } else if lib[i].path@ == p {
        i
    } else {
        first_with_path(lib, p, i + 1)
    }
}

/// The title of the now-playing line: `artist - title` of the library
/// track being played, else the file stem of the path being played, else
/// `Nothing Playing`.
pub open spec fn now_playing_text(lib: Seq<Track>, current: Option<String>) -> Seq<char> {
    match current {
        Some(p) => {
            let k = first_with_path(lib, p@, 0);
            if k < lib.len() {
                lib[k].artist@ + " - "@ + lib[k].title@
            } else {
                match path_stem(p@) {
                    Some(s) => s,
                    None => "Nothing Playing"@,
                }
            }
        },
        None => "Nothing Playing"@,
    }
}

/// The title of the now-playing line.
pub fn now_playing_title(library: &Vec<Track>, current: &Option<String>) -> (r: String)
    ensures
        r@ == now_playing_text(library@, *current),
{
    match current {
        Some(p) => {
            let mut i: usize = 0;
            while i < library.len()
                invariant
                    *current == Some(*p),
                    i <= library@.len(),
                    first_with_path(library@, p@, 0) == first_with_path(library@, p@, i as int),
                decreases library@.len() - i,
            {
                if same_text(library[i].path.as_str(), p.as_str()) {
                    let mut r = library[i].artist.clone();
                    push_str(&mut r, " - ");
                    push_str(&mut r, library[i].title.as_str());
                    return r;
                }
                i = i + 1;
            }
            match file_stem(p.as_str()) {
                Some(s) => s,
                None => owned("Nothing Playing"),
            }
        },
        None => owned("Nothing Playing"),
    }
}

/// The width of the progress bar for a panel `width` cells wide.
pub open spec fn bar_cells(width: u16) -> nat {
    if width >= 35 { (width - 25) as nat } else { 10 }
}

/// How many cells of the bar are filled: the played part of the track,
/// rounded to the nearest cell (halves up), at most the whole bar.
pub open spec fn filled_cells(position: Duration, duration: Duration, bar: nat) -> nat {
    let pos = position.total_nanos();
    let dur = duration.total_nanos();
    let f = (2 * pos * bar + dur) / (2 * dur);
    if f < bar { f as nat } else { bar }
}

/// `n` bar segments.
pub open spec fn segments(n: nat) -> Seq<char> {
    Seq::new(n, |i: int| '\u{2501}')
}

/// The progress bar: filled segments, the position knob and the rest of
/// the bar; a bar without knob when the track has no length.
pub open spec fn progress_text(position: Duration, duration: Duration, width: u16) -> Seq<char> {
    let bar = bar_cells(width);
    if duration.total_nanos() > 0 {
        let f = filled_cells(position, duration, bar);
        let rest: nat = if f + 1 <= bar { (bar - (f + 1)) as nat } else { 0 };
        segments(f) + seq!['\u{2b24}'] + segments(rest)
    } else {
        segments(bar)
    }
}

fn push_segments(s: &mut String, n: usize)
    ensures
        final(s)@ == old(s)@ + segments(n as nat),
{
    let mut i: usize = 0;
    while i < n
        invariant
            i <= n,
            s@ == old(s)@ + segments(i as nat),
        decreases n - i,
    {
        crate::text::push_char(s, '\u{2501}');
        assert(old(s)@ + segments((i + 1) as nat) =~= (old(s)@ + segments(i as nat)).push('\u{2501}'));
        i = i + 1;
    }
}

/// The progress bar for a panel `width` cells wide.
pub fn progress_bar(position: Duration, duration: Duration, width: u16) -> (r: String)
    ensures
        r@ == progress_text(position, duration, width),
{
    let bar: usize = if width >= 35 { (width - 25) as usize } else { 10 };
    let pos: u128 = position.secs as u128 * 1_000_000_000 + position.nanos as u128;
    let dur: u128 = duration.secs as u128 * 1_000_000_000 + duration.nanos as u128;
    let mut r = String::new();
    if dur > 0 {
        assert(2 * pos * bar <= 2 * 18446744074709551615999999999u128 * 65535) by (nonlinear_arith)
            requires
                pos <= 18446744074709551615999999999u128,
                bar <= 65535,
        ;
        let f0: u128 = (2 * pos * (bar as u128) + dur) / (2 * dur);
        let f: usize = if f0 < bar as u128 { f0 as usize } else { bar };
        push_segments(&mut r, f);
        crate::text::push_char(&mut r, '\u{2b24}');
        let rest: usize = if f + 1 <= bar { bar - (f + 1) } else { 0 };
        push_segments(&mut r, rest);
        assert(r@ =~= progress_text(position, duration, width));
    } else {
        push_segments(&mut r, bar);
        assert(r@ =~= progress_text(position, duration, width));
    }
    r
}

/// The title of the library panel: ` Library (N track) ` or `tracks`.
pub open spec fn library_title_text(n: nat) -> Seq<char> {
    " Library ("@ + decimal(n) + (if n == 1 { " track) "@ } else { " tracks) "@ })
}

/// The title of the library panel for `n` tracks.
pub fn library_title(n: usize) -> (r: String)
    ensures
        r@ == library_title_text(n as nat),
{
    let mut r = owned(" Library (");
    push_decimal(&mut r, n as u64);
    if n == 1 {
        push_str(&mut r, " track) ");
    } else {
        push_str(&mut r, " tracks) ");
    }
    r
}

/// `a - b`, or 0 when `b` is larger.
pub open spec fn less(a: int, b: int) -> int {
    if a > b { a - b } else { 0 }
}

/// The widths of the title, artist and album columns of the track list,
/// for a table whose inside is `inner` cells wide: half of it less 6 for
/// the title, a quarter less 4 for each of the others (at least 0).
pub fn column_widths(inner: u16) -> (r: (usize, usize, usize))
    ensures
        r.0 == less(inner as int / 2, 6),
        r.1 == less(inner as int / 4, 4),
        r.2 == less(inner as int / 4, 4),
{
    let half = (inner / 2) as usize;
    let quarter = (inner / 4) as usize;
    let title = if half > 6 { half - 6 } else { 0 };
    let other = if quarter > 4 { quarter - 4 } else { 0 };
    (title, other, other)
}

/// A labelled line of the track info panel, as text.
pub open spec fn info_rows_text(t: Track) -> Seq<(Seq<char>, Seq<char>)> {
    let base = seq![("Title:   "@, t.title@), ("Artist:  "@, t.artist@), ("Album:   "@, t.album@)];
    let with_genre = if t.genre@.len() > 0 { base.push(("Genre:   "@, t.genre@)) } else { base };
    let with_track = if t.track_number@.len() > 0 {
        with_genre.push(("Track:   "@, t.track_number@))
    } else {
        with_genre
    };
    with_track.push(("Length:  "@, clock(t.duration.secs as nat)))
}

/// The labelled lines of the track info panel: title, artist, album, genre
/// and track number when present, and length.
pub fn info_rows(t: &Track) -> (r: Vec<(String, String)>)
    ensures
        r@.len() == info_rows_text(*t).len(),
        forall|i: int|
            0 <= i < r@.len() ==> (#[trigger] r@[i]).0@ == info_rows_text(*t)[i].0 && r@[i].1@
                == info_rows_text(*t)[i].1,
{
    let mut r: Vec<(String, String)> = Vec::new();
    r.push((owned("Title:   "), t.title.clone()));
    r.push((owned("Artist:  "), t.artist.clone()));
    r.push((owned("Album:   "), t.album.clone()));
    if !t.genre.as_str().is_empty() {
        r.push((owned("Genre:   "), t.genre.clone()));
    }
    if !t.track_number.as_str().is_empty() {
        r.push((owned("Track:   "), t.track_number.clone()));
    }
    r.push((owned("Length:  "), format_duration(t.duration)));
    r
}

/// A line of the file details panel.  Sample rates and sizes are shown
/// with one decimal place by the caller.
pub enum DetailRow {
    Text { label: String, value: String },
    SampleRate(u32),
    FileSize(u64),
}

/// A line of the file details panel, as text.
pub enum DetailText {
    Text(Seq<char>, Seq<char>),
    SampleRate(u32),
    FileSize(u64),
}

impl View for DetailRow {
    type V = DetailText;

    open spec fn view(&self) -> DetailText {
        match self {
            DetailRow::Text { label, value } => DetailText::Text(label@, value@),
            DetailRow::SampleRate(hz) => DetailText::SampleRate(*hz),
            DetailRow::FileSize(n) => DetailText::FileSize(*n),
        }
    }
}

/// The lines of the file details panel: format; bitrate, sample rate,
/// date, channels, compression, year and size where known.
pub open spec fn detail_rows_text(t: Track) -> Seq<DetailText> {
    let r0 = seq![DetailText::Text("Format: "@, t.format@)];
    let r1 = if t.bitrate > 0 {
        r0.push(DetailText::Text("Bitrate: "@, decimal(t.bitrate as nat) + "k"@))
    } else {
        r0
    };
    let r2 = if t.sample_rate > 0 { r1.push(DetailText::SampleRate(t.sample_rate)) } else { r1 };
    let r3 = if t.modified@.len() > 0 { r2.push(DetailText::Text("Date:    "@, t.modified@)) } else { r2 };
    let r4 = if t.channels > 0 {
        r3.push(DetailText::Text("Channels:"@, channels_text(t.channels)))
    } else {
        r3
    };
    let r5 = if t.encoding@.len() > 0 && t.encoding@ != "Unknown"@ {
        r4.push(DetailText::Text("Type:    "@, t.encoding@))
    } else {
        r4
    };
    let r6 = if t.year > 0 {
        r5.push(DetailText::Text("Year:    "@, decimal(t.year as nat)))
    } else {
        r5
    };
    if t.file_size > 0 { r6.push(DetailText::FileSize(t.file_size)) } else { r6 }
}

/// The lines of the file details panel for a track.
pub fn detail_rows(t: &Track) -> (r: Vec<DetailRow>)
    ensures
        r@.len() == detail_rows_text(*t).len(),
        forall|i: int| 0 <= i < r@.len() ==> (#[trigger] r@[i])@ == detail_rows_text(*t)[i],
{
    let mut r: Vec<DetailRow> = Vec::new();
    r.push(DetailRow::Text { label: owned("Format: "), value: t.format.clone() });
    if t.bitrate > 0 {
        let mut v = decimal_string(t.bitrate as u64);
        push_str(&mut v, "k");
        r.push(DetailRow::Text { label: owned("Bitrate: "), value: v });
    }
    if t.sample_rate > 0 {
        r.push(DetailRow::SampleRate(t.sample_rate));
    }
    if !t.modified.as_str().is_empty() {
        r.push(DetailRow::Text { label: owned("Date:    "), value: t.modified.clone() });
    }
    if t.channels > 0 {
        r.push(DetailRow::Text { label: owned("Channels:"), value: format_channels(t.channels) });
    }
    if !t.encoding.as_str().is_empty() && !same_text(t.encoding.as_str(), "Unknown") {
        r.push(DetailRow::Text { label: owned("Type:    "), value: t.encoding.clone() });
    }
    if t.year > 0 {
        r.push(DetailRow::Text { label: owned("Year:    "), value: decimal_string(t.year as u64) });
    }
    if t.file_size > 0 {
        r.push(DetailRow::FileSize(t.file_size));
    }
    assert(r@.map_values(|d: DetailRow| d@) =~= detail_rows_text(*t));
    r
}

} // verus!
