use playful::counts::PlayCounts;
use playful::date::{civil_from_days, modified_date};
use playful::library::{
    audio_file_indices, choose_tag_fields, cover_picture, library_order, encoding_for_format, is_audio_extension, merge_play_counts, parse_metadata,
    AudioProperties, Duration, FileFacts, TagFields, TaggedFile, Track,
};
use playful::number::parse_i32;

fn track(path: &str, count: u32) -> Track {
    Track {
        path: path.to_string(),
        title: "t".to_string(),
        artist: "a".to_string(),
        album: "b".to_string(),
        duration: Duration::from_secs(10),
        format: "MP3".to_string(),
        bitrate: 0,
        year: 0,
        sample_rate: 0,
        modified: String::new(),
        channels: 0,
        genre: String::new(),
        track_number: String::new(),
        encoding: "Lossy".to_string(),
        file_size: 0,
        has_embedded_cover: false,
        play_count: count,
    }
}

fn tag(title: Option<&str>, genre: Option<&str>) -> TagFields {
    TagFields {
        title: title.map(|s| s.to_string()),
        artist: Some("Artist".to_string()),
        album: None,
        year: Some("1999".to_string()),
        genre: genre.map(|s| s.to_string()),
        track_number: None,
        has_picture: false,
    }
}

fn facts(tagged: Option<TaggedFile>) -> FileFacts {
    FileFacts {
        path: "/music/song.flac".to_string(),
        tagged,
        file_size: Some(1234),
        modified_secs: Some(86400 * 365),
    }
}

fn props() -> AudioProperties {
    AudioProperties {
        duration: Duration { secs: 3, nanos: 5 },
        bitrate: Some(320),
        sample_rate: Some(44100),
        channels: None,
    }
}

#[test]
fn merge_sets_recorded_counts_only() {
    let mut counts = PlayCounts::new();
    counts.insert("/m/a.mp3".to_string(), 7);
    let mut tracks = vec![track("/m/a.mp3", 1), track("/m/b.mp3", 2)];
    merge_play_counts(&mut tracks, &counts);
    assert_eq!(tracks[0].play_count, 7);
    assert_eq!(tracks[1].play_count, 2);
    assert_eq!(tracks[0].title, "t");
}

#[test]
fn merge_twice_is_merge_once() {
    let mut counts = PlayCounts::new();
    counts.insert("/m/b.mp3".to_string(), 9);
    let mut tracks = vec![track("/m/a.mp3", 1), track("/m/b.mp3", 2)];
    merge_play_counts(&mut tracks, &counts);
    let once: Vec<u32> = tracks.iter().map(|t| t.play_count).collect();
    merge_play_counts(&mut tracks, &counts);
    let twice: Vec<u32> = tracks.iter().map(|t| t.play_count).collect();
    assert_eq!(once, twice);
}

#[test]
fn play_counts_read_back_what_was_written() {
    let mut counts = PlayCounts::new();
    assert_eq!(counts.get("x"), None);
    counts.insert("x".to_string(), 1);
    counts.insert("y".to_string(), 2);
    counts.insert("x".to_string(), 5);
    assert_eq!(counts.get("x"), Some(5));
    assert_eq!(counts.get("y"), Some(2));
    assert_eq!(counts.len(), 2);
    let mut pairs = counts.to_pairs();
    pairs.sort();
    assert_eq!(pairs, vec![("x".to_string(), 5), ("y".to_string(), 2)]);
}

#[test]
fn audio_extensions_ignore_case() {
    assert!(is_audio_extension("mp3"));
    assert!(is_audio_extension("FLAC"));
    assert!(is_audio_extension("Opus"));
    assert!(!is_audio_extension("txt"));
    assert!(!is_audio_extension(""));
}

#[test]
fn audio_file_positions() {
    let paths = vec![
        "/m/a.mp3".to_string(),
        "/m/README".to_string(),
        "/m/cover.jpg".to_string(),
        "/m/b.OGG".to_string(),
        "/m/.opus".to_string(),
        "/m/c.tar.flac".to_string(),
    ];
    assert_eq!(audio_file_indices(&paths), vec![0, 3, 5]);
}

#[test]
fn encodings() {
    assert_eq!(encoding_for_format("FLAC"), "Lossless");
    assert_eq!(encoding_for_format("AIFF"), "Lossless");
    assert_eq!(encoding_for_format("OPUS"), "Lossy");
    assert_eq!(encoding_for_format("M4A"), "Unknown");
}

#[test]
fn year_parsing_follows_str_parse() {
    assert_eq!(parse_i32("1999"), Some(1999));
    assert_eq!(parse_i32("+7"), Some(7));
    assert_eq!(parse_i32("-2147483648"), Some(-2147483648));
    assert_eq!(parse_i32("2147483648"), None);
    assert_eq!(parse_i32("2147483647"), Some(2147483647));
    assert_eq!(parse_i32("19 99"), None);
    assert_eq!(parse_i32("-"), None);
    assert_eq!(parse_i32(""), None);
    assert_eq!(parse_i32("1999-01-01"), None);
    for s in ["0", "12", "-5", "+0", "abc", "99999999999", "007"] {
        assert_eq!(parse_i32(s), s.parse::<i32>().ok());
    }
}

#[test]
fn dates_from_the_epoch() {
    assert_eq!(civil_from_days(0), (1970, 1, 1));
    assert_eq!(civil_from_days(59), (1970, 3, 1));
    assert_eq!(civil_from_days(365 + 365 + 59), (1972, 2, 29));
    assert_eq!(civil_from_days(11016), (2000, 2, 29));
    assert_eq!(modified_date(0), "1970-01-01");
    assert_eq!(modified_date(951782400), "2000-02-29");
    assert_eq!(modified_date(1700000000), "2023-11-14");
    assert_eq!(modified_date(86399), "1970-01-01");
}

#[test]
fn metadata_from_primary_tag() {
    let t = parse_metadata(facts(Some(TaggedFile {
        primary: Some(tag(Some("Song"), Some("Rock"))),
        tags: vec![],
        properties: props(),
    })));
    assert_eq!(t.path, "/music/song.flac");
    assert_eq!(t.title, "Song");
    assert_eq!(t.artist, "Artist");
    assert_eq!(t.album, "");
    assert_eq!(t.year, 1999);
    assert_eq!(t.genre, "Rock");
    assert_eq!(t.format, "FLAC");
    assert_eq!(t.encoding, "Lossless");
    assert_eq!(t.bitrate, 320);
    assert_eq!(t.sample_rate, 44100);
    assert_eq!(t.channels, 0);
    assert_eq!(t.duration.secs, 3);
    assert_eq!(t.duration.nanos, 5);
    assert_eq!(t.file_size, 1234);
    assert_eq!(t.modified, "1971-01-01");
    assert_eq!(t.play_count, 0);
}

#[test]
fn metadata_from_other_tags_stops_at_first_title() {
    let t = parse_metadata(facts(Some(TaggedFile {
        primary: None,
        tags: vec![tag(None, None), tag(Some("Second"), Some("Jazz")), tag(Some("Third"), Some("Pop"))],
        properties: props(),
    })));
    assert_eq!(t.title, "Second");
    assert_eq!(t.genre, "Jazz");
}

#[test]
fn metadata_of_unreadable_file() {
    let t = parse_metadata(facts(None));
    assert_eq!(t.title, "song");
    assert_eq!(t.artist, "Unknown Artist");
    assert_eq!(t.year, 0);
    assert_eq!(t.bitrate, 0);
    assert_eq!(t.format, "FLAC");
}

#[test]
fn metadata_without_extension_or_dates() {
    let mut f = facts(None);
    f.path = "/".to_string();
    f.modified_secs = None;
    f.file_size = None;
    let t = parse_metadata(f);
    assert_eq!(t.path, "/");
    assert_eq!(t.title, "");
    assert_eq!(t.format, "");
    assert_eq!(t.encoding, "Unknown");
    assert_eq!(t.modified, "");
    assert_eq!(t.file_size, 0);
}

#[test]
fn tag_choice_without_primary_tag() {
    let tags = vec![tag(None, Some("Jazz")), tag(Some("Second"), Some("Rock")), tag(Some("Third"), None)];
    let c = choose_tag_fields(&None, &tags);
    assert_eq!(c.title, "Second");
    assert_eq!(c.artist, "Artist");
    assert_eq!(c.year, 1999);
    assert_eq!(c.genre, "Jazz");
    assert_eq!(c.track_number, "");
    assert!(!c.has_cover);
    let c = choose_tag_fields(&Some(tag(None, None)), &tags);
    assert_eq!(c.title, "");
    assert_eq!(c.genre, "");
    let c = choose_tag_fields(&None, &vec![]);
    assert_eq!((c.title.as_str(), c.year), ("", 0));
}

#[test]
fn durations() {
    assert_eq!(Duration::zero().as_secs(), 0);
    assert_eq!(Duration::from_secs(42).as_secs(), 42);
}

#[test]
fn cover_picture_choice() {
    let pic = |b: &[u8]| Some(Some(b.to_vec()));
    assert_eq!(cover_picture(pic(&[1, 2]), pic(&[3])), Some(vec![1, 2]));
    assert_eq!(cover_picture(Some(None), pic(&[3])), None);
    assert_eq!(cover_picture(None, pic(&[3])), Some(vec![3]));
    assert_eq!(cover_picture(pic(&[]), pic(&[3])), None);
    assert_eq!(cover_picture(None, Some(None)), None);
    assert_eq!(cover_picture(None, None), None);
}

#[test]
fn stem_and_extension_come_from_the_path() {
    let mut f = facts(None);
    f.path = "/music/live.set.Mp3".to_string();
    let t = parse_metadata(f);
    assert_eq!(t.title, "live.set");
    assert_eq!(t.format, "MP3");
    assert_eq!(t.encoding, "Lossy");
    let mut f = facts(None);
    f.path = "/music/.hidden".to_string();
    let t = parse_metadata(f);
    assert_eq!(t.title, ".hidden");
    assert_eq!(t.format, "");
}

#[test]
fn library_is_in_path_order() {
    let paths: Vec<String> = ["/m/a-c.mp3", "/m/a/b.mp3", "/m/a.mp3", "/m/cover.jpg", "/m/A.ogg"]
        .iter()
        .map(|s| s.to_string())
        .collect();
    assert_eq!(library_order(&paths), vec![4, 1, 0, 2]);
}

#[test]
fn library_order_matches_std_path_order() {
    let paths: Vec<String> = [
        "b.mp3", "./a.mp3", "a//b.mp3", "a/b.mp3", "../z.mp3", "/r.mp3", "a/./c.mp3", "\u{c4}.mp3",
        "a b.mp3", "a/b/", "x.txt", ".", "a.MP3", "a/", "a.mp3/b.flac", "/./q.wav", "..",
    ]
    .iter()
    .map(|s| s.to_string())
    .collect();
    let mut expected: Vec<usize> = (0..paths.len()).collect();
    expected.sort_by(|a, b| std::path::Path::new(&paths[*a]).cmp(std::path::Path::new(&paths[*b])));
    let expected: Vec<usize> = expected.into_iter().filter(|i| is_audio_extension(
        std::path::Path::new(&paths[*i]).extension().map(|e| e.to_string_lossy().to_string()).unwrap_or_default().as_str(),
    ) && std::path::Path::new(&paths[*i]).extension().is_some()).collect();
    assert_eq!(library_order(&paths), expected);
}
