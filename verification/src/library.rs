//! Tracks of the music library: what is read from a file's tags and
//! properties, how a track is described, and the play counts kept for it.
use vstd::prelude::*;
use crate::counts::PlayCounts;
use crate::date::{modified_date, modified_text};
use crate::number::{parse_i32, parse_i32_spec};
use crate::paths::{
    components, file_extension, file_stem, parts_lt, parts_view, path_before, path_extension,
    path_order_is_total, path_parts, path_stem,
};
use crate::text::{owned, same_text, to_lowercase, to_uppercase, lowercase, uppercase};

verus! {

/// A span of time: whole seconds and the nanoseconds beyond them.
#[derive(Clone, Copy, Debug)]
pub struct Duration {
    pub secs: u64,
    pub nanos: u32,
}

impl Duration {
    /// Whether the nanoseconds part is below one second.
    pub open spec fn wf(self) -> bool {
        self.nanos < 1_000_000_000
    }

    /// The span in nanoseconds.
    pub open spec fn total_nanos(self) -> int {
        self.secs * 1_000_000_000 + self.nanos
    }

    /// A span of whole seconds.
    pub fn from_secs(secs: u64) -> (r: Duration)
        ensures
            r.secs == secs,
            r.nanos == 0,
    {
        Duration { secs, nanos: 0 }
    }

    /// The whole seconds of the span.
    pub fn as_secs(&self) -> (r: u64)
        ensures
            r == self.secs,
    {
        self.secs
    }

    /// The empty span.
    pub fn zero() -> (r: Duration)
        ensures
            r.secs == 0,
            r.nanos == 0,
    {
        Duration { secs: 0, nanos: 0 }
    }
}

/// One audio file of the library and what is known of it.
#[derive(Clone, Debug)]
pub struct Track {
    pub path: String,
    pub title: String,
    pub artist: String,
    pub album: String,
    pub duration: Duration,
    pub format: String,
    pub bitrate: u32,
    pub year: i32,
    pub sample_rate: u32,
    pub modified: String,
    pub channels: u8,
    pub genre: String,
    pub track_number: String,
    pub encoding: String,
    pub file_size: u64,
    pub has_embedded_cover: bool,
    pub play_count: u32,
}

/// `t` with its play count set to `c`, all else the same.
pub open spec fn with_play_count(t: Track, c: u32) -> Track {
    Track { play_count: c, ..t }
}

/// The play count a track gets from a count map: the recorded one if its
/// path has one, its own otherwise.
pub open spec fn merged_count(t: Track, counts: Map<Seq<char>, u32>) -> u32 {
    if counts.contains_key(t.path@) {
        counts[t.path@]
    } else {
        t.play_count
    }
}

/// Gives every track whose path has a recorded count that count; other
/// tracks and all other fields stay as they are.
pub fn merge_play_counts(tracks: &mut Vec<Track>, play_counts: &PlayCounts)
    ensures
        final(tracks)@.len() == old(tracks)@.len(),
        forall|i: int|
            0 <= i < old(tracks)@.len() ==> #[trigger] final(tracks)@[i] == with_play_count(
                old(tracks)@[i],
                merged_count(old(tracks)@[i], play_counts@),
            ),
{
    let mut i: usize = 0;
    while i < tracks.len()
        invariant
            i <= tracks@.len(),
            tracks@.len() == old(tracks)@.len(),
            forall|j: int|
                0 <= j < i ==> #[trigger] tracks@[j] == with_play_count(
                    old(tracks)@[j],
                    merged_count(old(tracks)@[j], play_counts@),
                ),
            forall|j: int| i <= j < tracks@.len() ==> #[trigger] tracks@[j] == old(tracks)@[j],
        decreases tracks@.len() - i,
    {
        if let Some(count) = play_counts.get(tracks[i].path.as_str()) {
            tracks[i].play_count = count;
        }
        assert(tracks@[i as int] == with_play_count(
            old(tracks)@[i as int],
            merged_count(old(tracks)@[i as int], play_counts@),
        ));
        i = i + 1;
    }
}

// ---------------------------------------------------------------------
// file kinds
// ---------------------------------------------------------------------

/// The file name extensions, in lower case, that the library scanner keeps.
pub open spec fn is_supported(ext: Seq<char>) -> bool {
    ||| ext == "mp3"@
    ||| ext == "flac"@
    ||| ext == "m4a"@
    ||| ext == "ogg"@
    ||| ext == "wav"@
    ||| ext == "wma"@
    ||| ext == "aac"@
    ||| ext == "opus"@
}

/// Whether a file with this extension is an audio file the library lists:
/// its lower-case form is one of mp3, flac, m4a, ogg, wav, wma, aac, opus.
pub fn is_audio_extension(ext: &str) -> (r: bool)
    ensures
        r == is_supported(lowercase(ext@)),
{
    let e = to_lowercase(ext);
    let s = e.as_str();
    same_text(s, "mp3") || same_text(s, "flac") || same_text(s, "m4a") || same_text(s, "ogg")
        || same_text(s, "wav") || same_text(s, "wma") || same_text(s, "aac") || same_text(s, "opus")
}

/// How a format (an upper-case extension) compresses: lossless, lossy or unknown.
pub open spec fn encoding_of(format: Seq<char>) -> Seq<char> {
    if format == "FLAC"@ || format == "WAV"@ || format == "AIFF"@ {
        "Lossless"@
    } else if format == "MP3"@ || format == "AAC"@ || format == "OGG"@ || format == "OPUS"@
        || format == "WMA"@ {
        "Lossy"@
    } else {
        "Unknown"@
    }
}

/// `Lossless` for FLAC, WAV and AIFF, `Lossy` for MP3, AAC, OGG, OPUS and
/// WMA, `Unknown` for anything else.
pub fn encoding_for_format(format: &str) -> (r: String)
    ensures
        r@ == encoding_of(format@),
{
    if same_text(format, "FLAC") || same_text(format, "WAV") || same_text(format, "AIFF") {
        owned("Lossless")
    } else if same_text(format, "MP3") || same_text(format, "AAC") || same_text(format, "OGG")
        || same_text(format, "OPUS") || same_text(format, "WMA") {
        owned("Lossy")
    } else {
        owned("Unknown")
    }
}

// ---------------------------------------------------------------------
// tags and properties
// ---------------------------------------------------------------------

/// The text items of one tag that the library reads, each absent when the
/// tag has no text for it, and whether the tag holds a picture.
pub struct TagFields {
    pub title: Option<String>,
    pub artist: Option<String>,
    pub album: Option<String>,
    pub year: Option<String>,
    pub genre: Option<String>,
    pub track_number: Option<String>,
    pub has_picture: bool,
}

/// The audio properties of a readable file.
pub struct AudioProperties {
    pub duration: Duration,
    pub bitrate: Option<u32>,
    pub sample_rate: Option<u32>,
    pub channels: Option<u8>,
}

/// What a readable audio file holds: its primary tag, if the format has one
/// and it is present, every tag it has in order, and its properties.
pub struct TaggedFile {
    pub primary: Option<TagFields>,
    pub tags: Vec<TagFields>,
    pub properties: AudioProperties,
}

/// What is known of a file before it is described as a track: its path
/// text, its tags if it could be read as audio, its size and its modification time in seconds after the
/// epoch (0 for earlier times), where the file system gave them.
pub struct FileFacts {
    pub path: String,
    pub tagged: Option<TaggedFile>,
    pub file_size: Option<u64>,
    pub modified_secs: Option<u64>,
}

/// The text of an optional item, empty when absent.
pub open spec fn text_or_empty(o: Option<String>) -> Seq<char> {
    match o {
        Some(s) => s@,
        None => Seq::empty(),
    }
}

/// The year a tag gives: its year text read as an `i32`, or 0.
pub open spec fn tag_year(t: TagFields) -> i32 {
    match t.year {
        Some(s) => match parse_i32_spec(s@) {
            Some(v) => v,
            None => 0,
        },
        None => 0,
    }
}

/// The index of the tag that gives title, artist, album, year and cover
/// when there is no primary tag: the first one from `i` on with a
/// non-empty title, else the last one.
pub open spec fn deciding_tag(tags: Seq<TagFields>, i: int) -> int
    decreases tags.len() - i,
{
    if i + 1 >= tags.len() || text_or_empty(tags[i].title).len() > 0 {
        i
    } else {
        deciding_tag(tags, i + 1)
    }
}

/// The first non-empty item selected by `sel` among `tags[i..=end]`, or empty.
pub open spec fn first_text(
    tags: Seq<TagFields>,
    i: int,
    end: int,
    sel: spec_fn(TagFields) -> Option<String>,
) -> Seq<char>
    decreases end + 1 - i,
{
    if i > end || i >= tags.len() {
        Seq::empty()
    } else if text_or_empty(sel(tags[i])).len() > 0 {
        text_or_empty(sel(tags[i]))
    } else {
        first_text(tags, i + 1, end, sel)
    }
}

/// The tag whose items are taken whole: the primary one, else the deciding one.
pub open spec fn main_tag(primary: Option<TagFields>, tags: Seq<TagFields>) -> Option<TagFields> {
    match primary {
        Some(t) => Some(t),
        None => if tags.len() == 0 {
            None
        } else {
            Some(tags[deciding_tag(tags, 0)])
        },
    }
}

/// An item taken from the main tag, empty without one.
pub open spec fn main_text(
    primary: Option<TagFields>,
    tags: Seq<TagFields>,
    sel: spec_fn(TagFields) -> Option<String>,
) -> Seq<char> {
    match main_tag(primary, tags) {
        Some(t) => text_or_empty(sel(t)),
        None => Seq::empty(),
    }
}

/// An item filled from the first tag that has it: the primary tag's when
/// there is one, else the first non-empty one up to the deciding tag.
pub open spec fn filled_text(
    primary: Option<TagFields>,
    tags: Seq<TagFields>,
    sel: spec_fn(TagFields) -> Option<String>,
) -> Seq<char> {
    match primary {
        Some(t) => text_or_empty(sel(t)),
        None => first_text(tags, 0, deciding_tag(tags, 0), sel),
    }
}

/// The year from the main tag, 0 without one.
pub open spec fn main_year(primary: Option<TagFields>, tags: Seq<TagFields>) -> i32 {
    match main_tag(primary, tags) {
        Some(t) => tag_year(t),
        None => 0,
    }
}

/// Whether the main tag holds a picture.
pub open spec fn main_cover(primary: Option<TagFields>, tags: Seq<TagFields>) -> bool {
    match main_tag(primary, tags) {
        Some(t) => t.has_picture,
        None => false,
    }
}

/// The fields read from a file's tags, before defaults are filled in.
pub struct TagChoice {
    pub title: String,
    pub artist: String,
    pub album: String,
    pub year: i32,
    pub genre: String,
    pub track_number: String,
    pub has_cover: bool,
}

/// The choice made from a file's tags: the primary tag alone when there is
/// one; otherwise the deciding tag gives title, artist, album, year and
/// cover, and genre and track number are the first non-empty ones among the
/// tags up to the deciding one.  No tags at all give empty fields.
pub open spec fn tag_choice_spec(c: TagChoice, primary: Option<TagFields>, tags: Seq<TagFields>) -> bool {
    &&& c.title@ == main_text(primary, tags, |t: TagFields| t.title)
    &&& c.artist@ == main_text(primary, tags, |t: TagFields| t.artist)
    &&& c.album@ == main_text(primary, tags, |t: TagFields| t.album)
    &&& c.year == main_year(primary, tags)
    &&& c.has_cover == main_cover(primary, tags)
    &&& c.genre@ == filled_text(primary, tags, |t: TagFields| t.genre)
    &&& c.track_number@ == filled_text(primary, tags, |t: TagFields| t.track_number)
}

fn opt_text(o: &Option<String>) -> (r: String)
    ensures
        r@ == text_or_empty(*o),
{
    match o {
        Some(s) => s.clone(),
        None => String::new(),
    }
}

fn read_year(o: &Option<String>) -> (r: i32)
    ensures
        r == match *o {
            Some(s) => match parse_i32_spec(s@) {
                Some(v) => v,
                None => 0,
            },
            None => 0,
        },
{
    match o {
        Some(s) => match parse_i32(s.as_str()) {
            Some(v) => v,
            None => 0,
        },
        None => 0,
    }
}

proof fn lemma_first_text_prefix(
    tags: Seq<TagFields>,
    i: int,
    a: int,
    b: int,
    sel: spec_fn(TagFields) -> Option<String>,
)
    requires
        0 <= i,
        a + 1 == b,
        b < tags.len(),
    ensures
        first_text(tags, i, a, sel).len() > 0 ==> first_text(tags, i, b, sel) == first_text(
            tags,
            i,
            a,
            sel,
        ),
        first_text(tags, i, a, sel).len() == 0 ==> first_text(tags, i, b, sel) == first_text(
            tags,
            b,
            b,
            sel,
        ) || i > b,
    decreases b + 1 - i,
{
    if i <= a {
        lemma_first_text_prefix(tags, i + 1, a, b, sel);
    }
}

spec fn genre_of() -> spec_fn(TagFields) -> Option<String> {
    |t: TagFields| t.genre
}

spec fn track_number_of() -> spec_fn(TagFields) -> Option<String> {
    |t: TagFields| t.track_number
}

/// Chooses the tag fields as the library reads them from a file's tags.
pub fn choose_tag_fields(primary: &Option<TagFields>, tags: &Vec<TagFields>) -> (c: TagChoice)
    ensures
        tag_choice_spec(c, *primary, tags@),
{
    match primary {
        Some(t) => {
            let c = TagChoice {
                title: opt_text(&t.title),
                artist: opt_text(&t.artist),
                album: opt_text(&t.album),
                year: read_year(&t.year),
                genre: opt_text(&t.genre),
                track_number: opt_text(&t.track_number),
                has_cover: t.has_picture,
            };
            c
        },
        None => {
            let mut title = String::new();
            let mut artist = String::new();
            let mut album = String::new();
            let mut year: i32 = 0;
            let mut genre = String::new();
            let mut track_number = String::new();
            let mut has_cover = false;
            let mut i: usize = 0;
            while i < tags.len()
                invariant
                    primary is None,
                    i <= tags@.len(),
                    forall|j: int| 0 <= j < i ==> text_or_empty(#[trigger] tags@[j].title).len() == 0,
                    i < tags@.len() ==> deciding_tag(tags@, 0) == deciding_tag(tags@, i as int),
                    i == tags@.len() && i > 0 ==> deciding_tag(tags@, 0) == i - 1,
                    i > 0 ==> title@ == text_or_empty(tags@[i - 1].title),
                    i > 0 ==> artist@ == text_or_empty(tags@[i - 1].artist),
                    i > 0 ==> album@ == text_or_empty(tags@[i - 1].album),
                    i > 0 ==> year == tag_year(tags@[i - 1]),
                    i > 0 ==> has_cover == tags@[i - 1].has_picture,
                    i == 0 ==> title@ == Seq::<char>::empty() && artist@ == Seq::<char>::empty()
                        && album@ == Seq::<char>::empty() && year == 0 && !has_cover,
                    genre@ == first_text(tags@, 0, i - 1, genre_of()),
                    track_number@ == first_text(tags@, 0, i - 1, track_number_of()),
                decreases tags@.len() - i,
            {
                let t = &tags[i];
                title = opt_text(&t.title);
                artist = opt_text(&t.artist);
                album = opt_text(&t.album);
                year = read_year(&t.year);
                proof {
                    lemma_first_text_prefix(tags@, 0, i - 1, i as int, genre_of());
                    lemma_first_text_prefix(tags@, 0, i - 1, i as int, track_number_of());
                    assert(first_text(tags@, i + 1, i as int, genre_of()) == Seq::<char>::empty());
                    assert(first_text(tags@, i + 1, i as int, track_number_of()) == Seq::<char>::empty());
                    assert(genre_of()(tags@[i as int]) == tags@[i as int].genre);
                    assert(track_number_of()(tags@[i as int]) == tags@[i as int].track_number);
                    assert(first_text(tags@, i as int, i as int, genre_of()) =~= text_or_empty(
                        tags@[i as int].genre,
                    ));
                    assert(first_text(tags@, i as int, i as int, track_number_of()) =~= text_or_empty(
                        tags@[i as int].track_number,
                    ));
                }
                if genre.as_str().is_empty() {
                    genre = opt_text(&t.genre);
                }
                if track_number.as_str().is_empty() {
                    track_number = opt_text(&t.track_number);
                }
                has_cover = t.has_picture;
                if !title.as_str().is_empty() {
                    assert(deciding_tag(tags@, i as int) == i);
                    let c = TagChoice { title, artist, album, year, genre, track_number, has_cover };
                    return c;
                }
                assert(i + 1 < tags@.len() ==> deciding_tag(tags@, i as int) == deciding_tag(tags@, i + 1));
                i = i + 1;
            }
            TagChoice { title, artist, album, year, genre, track_number, has_cover }
        },
    }
}

/// The primary tag of the file's tags, if it was read and has one.
pub open spec fn facts_primary(f: FileFacts) -> Option<TagFields> {
    match f.tagged {
        Some(tf) => tf.primary,
        None => None,
    }
}

/// All tags of the file, none if it could not be read.
pub open spec fn facts_tags(f: FileFacts) -> Seq<TagFields> {
    match f.tagged {
        Some(tf) => tf.tags@,
        None => Seq::empty(),
    }
}

/// A number the file's properties give, 0 when absent or unreadable.
pub open spec fn or_zero_u32(o: Option<u32>) -> u32 {
    match o {
        Some(v) => v,
        None => 0,
    }
}

/// The text shown as format: the extension in upper case, or empty.
pub open spec fn format_of(ext: Option<Seq<char>>) -> Seq<char> {
    match ext {
        Some(e) => uppercase(e),
        None => Seq::empty(),
    }
}

/// Whether the extension of path `p` is one the library lists.
pub open spec fn is_audio_path(p: Seq<char>) -> bool {
    path_extension(p) matches Some(e) && is_supported(lowercase(e))
}

/// The description of a file as a library track.
pub open spec fn described_as(t: Track, f: FileFacts) -> bool {
    let p = facts_primary(f);
    let ts = facts_tags(f);
    let title = main_text(p, ts, |x: TagFields| x.title);
    let artist = main_text(p, ts, |x: TagFields| x.artist);
    &&& t.path@ == f.path@
    &&& t.title@ == (if title.len() > 0 { title } else { match path_stem(f.path@) {
        Some(st) => st,
        None => Seq::empty(),
    } })
    &&& t.artist@ == (if artist.len() > 0 { artist } else { "Unknown Artist"@ })
    &&& t.album@ == main_text(p, ts, |x: TagFields| x.album)
    &&& t.year == main_year(p, ts)
    &&& t.genre@ == filled_text(p, ts, |x: TagFields| x.genre)
    &&& t.track_number@ == filled_text(p, ts, |x: TagFields| x.track_number)
    &&& t.has_embedded_cover == main_cover(p, ts)
    &&& t.duration == (match f.tagged {
        Some(tf) => tf.properties.duration,
        None => Duration { secs: 0, nanos: 0 },
    })
    &&& t.bitrate == (match f.tagged {
        Some(tf) => or_zero_u32(tf.properties.bitrate),
        None => 0,
    })
    &&& t.sample_rate == (match f.tagged {
        Some(tf) => or_zero_u32(tf.properties.sample_rate),
        None => 0,
    })
    &&& t.channels == (match f.tagged {
        Some(tf) => match tf.properties.channels {
            Some(c) => c,
            None => 0u8,
        },
        None => 0u8,
    })
    &&& t.format@ == format_of(path_extension(f.path@))
    &&& t.encoding@ == encoding_of(format_of(path_extension(f.path@)))
    &&& t.file_size == (match f.file_size {
        Some(n) => n,
        None => 0u64,
    })
    &&& t.modified@ == (match f.modified_secs {
        Some(secs) => modified_text(secs as nat),
        None => Seq::empty(),
    })
    &&& t.play_count == 0
}

/// Describes a file as a track: the fields read from its tags, the file
/// stem for a missing title, `Unknown Artist` for a missing artist, the
/// upper-case extension as format and its encoding, the audio properties,
/// the size and the modification date, with no plays counted yet.
pub fn parse_metadata(facts: FileFacts) -> (t: Track)
    ensures
        described_as(t, facts),
{
    let ghost f = facts;
    let FileFacts { path, tagged, file_size, modified_secs } = facts;
    let stem = file_stem(path.as_str());
    let extension = file_extension(path.as_str());
    let mut duration = Duration::zero();
    let mut bitrate: u32 = 0;
    let mut sample_rate: u32 = 0;
    let mut channels: u8 = 0;
    let choice = match &tagged {
        Some(tf) => {
            duration = tf.properties.duration;
            bitrate = match tf.properties.bitrate {
                Some(v) => v,
                None => 0,
            };
            sample_rate = match tf.properties.sample_rate {
                Some(v) => v,
                None => 0,
            };
            channels = match tf.properties.channels {
                Some(v) => v,
                None => 0,
            };
            choose_tag_fields(&tf.primary, &tf.tags)
        },
        None => {
            let none: Option<TagFields> = None;
            let empty: Vec<TagFields> = Vec::new();
            choose_tag_fields(&none, &empty)
        },
    };
    let TagChoice { title, artist, album, year, genre, track_number, has_cover } = choice;
    let title = if title.as_str().is_empty() {
        match &stem {
            Some(s) => s.clone(),
            None => String::new(),
        }
    } else {
        title
    };
    let artist = if artist.as_str().is_empty() {
        owned("Unknown Artist")
    } else {
        artist
    };
    let format = match &extension {
        Some(e) => to_uppercase(e.as_str()),
        None => String::new(),
    };
    let encoding = encoding_for_format(format.as_str());
    let file_size = match file_size {
        Some(n) => n,
        None => 0,
    };
    let modified = match modified_secs {
        Some(secs) => modified_date(secs),
        None => String::new(),
    };
    Track {
        path,
        title,
        artist,
        album,
        duration,
        format,
        bitrate,
        year,
        sample_rate,
        modified,
        channels,
        genre,
        track_number,
        encoding,
        file_size,
        has_embedded_cover: has_cover,
        play_count: 0,
    }
}

/// The picture shown as cover art, given the first picture of the file's
/// primary tag (`primary`, absent when the format has no primary tag or it
/// is missing) and the first picture of its first tag (`first`, absent
/// when it has no tags): the primary tag's, else the first tag's; none when
/// the chosen tag has no picture or its picture has no bytes.
pub open spec fn picture_choice(primary: Option<Option<Seq<u8>>>, first: Option<Option<Seq<u8>>>) -> Option<Seq<u8>> {
    let tag = match primary {
        Some(t) => Some(t),
        None => first,
    };
    match tag {
        Some(Some(d)) => if d.len() > 0 {
            Some(d)
        } else {
            None
        },
        _ => None,
    }
}

/// A tag's first picture, as bytes.
pub open spec fn picture_bytes(o: Option<Option<Vec<u8>>>) -> Option<Option<Seq<u8>>> {
    match o {
        Some(Some(v)) => Some(Some(v@)),
        Some(None) => Some(None),
        None => None,
    }
}

/// The bytes of the cover picture, chosen as `picture_choice` says.
pub fn cover_picture(primary: Option<Option<Vec<u8>>>, first: Option<Option<Vec<u8>>>) -> (r: Option<Vec<u8>>)
    ensures
        r matches Some(d) ==> picture_choice(picture_bytes(primary), picture_bytes(first)) == Some(d@),
        r is None ==> picture_choice(picture_bytes(primary), picture_bytes(first)) is None,
{
    let tag = match primary {
        Some(t) => Some(t),
        None => first,
    };
    match tag {
        Some(Some(d)) => if d.len() > 0 {
            Some(d)
        } else {
            None
        },
        _ => None,
    }
}

/// The positions of the paths the library keeps, in order: those whose
/// extension `is_audio_extension` accepts.
pub fn audio_file_indices(paths: &Vec<String>) -> (r: Vec<usize>)
    ensures
        forall|a: int, b: int| 0 <= a < b < r@.len() ==> r@[a] < r@[b],
        forall|a: int| 0 <= a < r@.len() ==> #[trigger] r@[a] < paths@.len(),
        forall|i: int|
            0 <= i < paths@.len() ==> (r@.contains(i as usize) <==> is_audio_path(#[trigger] paths@[i]@)),
{
    let mut r: Vec<usize> = Vec::new();
    let mut i: usize = 0;
    while i < paths.len()
        invariant
            i <= paths@.len(),
            forall|a: int, b: int| 0 <= a < b < r@.len() ==> r@[a] < r@[b],
            forall|a: int| 0 <= a < r@.len() ==> #[trigger] r@[a] < i,
            forall|j: int| 0 <= j < i ==> (r@.contains(j as usize) <==> is_audio_path(#[trigger] paths@[j]@)),
        decreases paths@.len() - i,
    {
        let keep = match file_extension(paths[i].as_str()) {
            Some(e) => is_audio_extension(e.as_str()),
            None => false,
        };
        let ghost before = r@;
        if keep {
            r.push(i);
        }
        proof {
            assert forall|j: int| 0 <= j <= i implies (r@.contains(j as usize) <==> is_audio_path(
                #[trigger] paths@[j]@,
            )) by {
                if j < i {
                    if before.contains(j as usize) {
                        let k = choose|k: int| 0 <= k < before.len() && before[k] == j as usize;
                        assert(r@[k] == j as usize);
                    }
                    if r@.contains(j as usize) {
                        let k = choose|k: int| 0 <= k < r@.len() && r@[k] == j as usize;
                        if k < before.len() {
                            assert(before[k] == j as usize);
                        }
                    }
                } else {
                    if keep {
                        assert(r@[before.len() as int] == i);
                    }
                }
            }
        }
        i = i + 1;
    }
    r
}

/// Path `x` of `paths` goes before path `y` in the library: its path comes
/// first, or the two paths have the same place and `x` was listed first.
pub open spec fn path_precedes(paths: Seq<String>, x: usize, y: usize) -> bool {
    path_before(paths[x as int]@, paths[y as int]@) || (!path_before(paths[y as int]@, paths[x as int]@)
        && x < y)
}

/// The order of the library: the positions of the audio files among
/// `paths` (those `is_audio_path` accepts), each once, sorted by path as
/// `std::path::Path` orders paths, paths in the same place keeping their
/// listed order.
pub fn library_order(paths: &Vec<String>) -> (r: Vec<usize>)
    ensures
        forall|a: int| 0 <= a < r@.len() ==> #[trigger] r@[a] < paths@.len(),
        forall|a: int, b: int| 0 <= a < b < r@.len() ==> r@[a] != r@[b],
        forall|i: int|
            0 <= i < paths@.len() ==> (r@.contains(i as usize) <==> is_audio_path(#[trigger] paths@[i]@)),
        forall|a: int, b: int|
            0 <= a < b < r@.len() ==> #[trigger] path_precedes(paths@, r@[a], r@[b]),
{
    let keep = audio_file_indices(paths);
    let mut keys: Vec<Vec<(u8, Vec<char>)>> = Vec::new();
    let mut j: usize = 0;
    while j < paths.len()
        invariant
            j <= paths@.len(),
            keys@.len() == j,
            forall|q: int| 0 <= q < j ==> #[trigger] parts_view(keys@[q]@) == components(paths@[q]@),
        decreases paths@.len() - j,
    {
        keys.push(path_parts(paths[j].as_str()));
        j = j + 1;
    }
    let mut out: Vec<usize> = Vec::new();
    let mut t: usize = 0;
    while t < keep.len()
        invariant
            t <= keep@.len(),
            keys@.len() == paths@.len(),
            forall|q: int| 0 <= q < paths@.len() ==> #[trigger] parts_view(keys@[q]@) == components(paths@[q]@),
            forall|a: int, b: int| 0 <= a < b < keep@.len() ==> keep@[a] < keep@[b],
            forall|a: int| 0 <= a < keep@.len() ==> #[trigger] keep@[a] < paths@.len(),
            out@.len() == t,
            forall|a: int| 0 <= a < out@.len() ==> exists|q: int| 0 <= q < t && keep@[q] == #[trigger] out@[a],
            forall|q: int| 0 <= q < t ==> out@.contains(#[trigger] keep@[q]),
            forall|a: int| 0 <= a < out@.len() ==> #[trigger] out@[a] < paths@.len(),
            forall|a: int, b: int| 0 <= a < b < out@.len() ==> out@[a] != out@[b],
            forall|a: int, b: int|
                0 <= a < b < out@.len() ==> #[trigger] path_precedes(paths@, out@[a], out@[b]),
        decreases keep@.len() - t,
    {
        let x = keep[t];
        proof {
            assert forall|a: int| 0 <= a < out@.len() implies #[trigger] out@[a] < x by {
                let q = choose|q: int| 0 <= q < t && keep@[q] == out@[a];
                assert(keep@[q] < keep@[t as int]);
            }
        }
        let mut p: usize = 0;
        while p < out.len() && !parts_lt(&keys[x], &keys[out[p]])
            invariant
                p <= out@.len(),
                x < paths@.len(),
                keys@.len() == paths@.len(),
                forall|q: int| 0 <= q < paths@.len() ==> #[trigger] parts_view(keys@[q]@) == components(paths@[q]@),
                forall|a: int| 0 <= a < out@.len() ==> #[trigger] out@[a] < paths@.len(),
                forall|q: int| 0 <= q < p ==> !path_before(paths@[x as int]@, paths@[#[trigger] out@[q] as int]@),
            decreases out@.len() - p,
        {
            p = p + 1;
        }
        let ghost o = out@;
        let ghost px = paths@[x as int]@;
        assert(p < o.len() ==> path_before(px, paths@[o[p as int] as int]@)) by {
            if p < o.len() {
                assert(parts_view(keys@[x as int]@) == components(px));
                assert(parts_view(keys@[o[p as int] as int]@) == components(paths@[o[p as int] as int]@));
            }
        }
        out.insert(p, x);
        proof {
            let o2 = out@;
            assert(o2 == o.insert(p as int, x));
            assert forall|a: int| 0 <= a < o2.len() implies #[trigger] o2[a] < paths@.len() by {
                if a < p { assert(o2[a] == o[a]); } else if a > p { assert(o2[a] == o[a - 1]); }
            }
            assert forall|a: int, b: int| 0 <= a < b < o2.len() implies o2[a] != o2[b] by {
                if a < p && b < p {
                } else if a < p && b == p {
                    assert(o[a] < x);
                } else if a < p {
                    assert(o2[b] == o[b - 1]);
                } else if a == p {
                    assert(o2[b] == o[b - 1]);
                    assert(o[b - 1] < x);
                } else {
                    assert(o2[a] == o[a - 1] && o2[b] == o[b - 1]);
                }
            }
            assert forall|a: int, b: int| 0 <= a < b < o2.len() implies #[trigger] path_precedes(
                paths@,
                o2[a],
                o2[b],
            ) by {
                if a < p && b < p {
                    assert(path_precedes(paths@, o[a], o[b]));
                } else if a < p && b == p {
                    assert(!path_before(px, paths@[o[a] as int]@));
                    assert(o[a] < x);
                } else if a < p {
                    assert(o2[b] == o[b - 1]);
                    assert(path_precedes(paths@, o[a], o[b - 1]));
                } else if a == p {
                    let y = o[b - 1];
                    assert(o2[b] == y);
                    let z = o[p as int];
                    assert(path_before(px, paths@[z as int]@));
                    if b - 1 > p {
                        assert(path_precedes(paths@, z, y));
                        path_order_is_total(px, paths@[z as int]@, paths@[y as int]@);
                        path_order_is_total(paths@[z as int]@, paths@[y as int]@, px);
                    }
                } else {
                    assert(o2[a] == o[a - 1] && o2[b] == o[b - 1]);
                    assert(path_precedes(paths@, o[a - 1], o[b - 1]));
                }
            }
            assert forall|a: int| 0 <= a < o2.len() implies exists|q: int| 0 <= q < t + 1 && keep@[q] == #[trigger] o2[a] by {
                if a == p {
                    assert(keep@[t as int] == o2[a]);
                } else if a < p {
                    assert(o2[a] == o[a]);
                    let q = choose|q: int| 0 <= q < t && keep@[q] == o[a];
                } else {
                    assert(o2[a] == o[a - 1]);
                    let q = choose|q: int| 0 <= q < t && keep@[q] == o[a - 1];
                }
            }
            assert forall|q: int| 0 <= q < t + 1 implies o2.contains(#[trigger] keep@[q]) by {
                if q == t {
                    assert(o2[p as int] == x);
                } else {
                    assert(o.contains(keep@[q]));
                    let a = choose|a: int| 0 <= a < o.len() && o[a] == keep@[q];
                    if a < p { assert(o2[a] == o[a]); } else { assert(o2[a + 1] == o[a]); }
                }
            }
        }
        t = t + 1;
    }
    proof {
        assert forall|i: int| 0 <= i < paths@.len() implies (out@.contains(i as usize) <==> is_audio_path(
            #[trigger] paths@[i]@,
        )) by {
            if out@.contains(i as usize) {
                let a = choose|a: int| 0 <= a < out@.len() && out@[a] == i as usize;
                let q = choose|q: int| 0 <= q < t && keep@[q] == out@[a];
                assert(keep@.contains(i as usize));
            }
            if keep@.contains(i as usize) {
                let q = choose|q: int| 0 <= q < keep@.len() && keep@[q] == i as usize;
                assert(out@.contains(keep@[q]));
            }
        }
    }
    out
}

} // verus!
