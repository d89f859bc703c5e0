use playful::cover::{cover_target_size, prepare_cover, round_corners, CoverImage};
use playful::library::{Duration, Track};
use playful::panels::{
    column_widths, detail_rows, format_duration, info_rows, library_title, now_playing_title, progress_bar, status_text,
    DetailRow,
};
use playful::state::PlayerState;

fn track() -> Track {
    Track {
        path: "/m/x.mp3".to_string(),
        title: "Title".to_string(),
        artist: "Band".to_string(),
        album: "Record".to_string(),
        duration: Duration::from_secs(3725),
        format: "MP3".to_string(),
        bitrate: 320,
        year: 2001,
        sample_rate: 44100,
        modified: "2020-01-02".to_string(),
        channels: 2,
        genre: String::new(),
        track_number: "3".to_string(),
        encoding: "Lossy".to_string(),
        file_size: 0,
        has_embedded_cover: false,
        play_count: 0,
    }
}

#[test]
fn durations_as_clocks() {
    assert_eq!(format_duration(Duration::from_secs(0)), "00:00");
    assert_eq!(format_duration(Duration::from_secs(65)), "01:05");
    assert_eq!(format_duration(Duration { secs: 3599, nanos: 999_999_999 }), "59:59");
    assert_eq!(format_duration(Duration::from_secs(3725)), "01:02:05");
    assert_eq!(format_duration(Duration::from_secs(360000)), "100:00:00");
}

#[test]
fn target_sizes() {
    assert_eq!(cover_target_size(200, 100), (200, 100));
    assert_eq!(cover_target_size(600, 300), (300, 150));
    assert_eq!(cover_target_size(300, 600), (150, 300));
    assert_eq!(cover_target_size(1000, 1000), (300, 300));
    assert_eq!(cover_target_size(1000, 1), (300, 0));
    assert_eq!(cover_target_size(700, 500), (300, 214));
}

#[test]
fn corners_become_transparent() {
    let (w, h) = (50u32, 50u32);
    let mut img = CoverImage { width: w, height: h, rgba: vec![255; (4 * w * h) as usize] };
    round_corners(&mut img, 8);
    let alpha = |x: u32, y: u32| img.rgba[((y * w + x) * 4 + 3) as usize];
    // radius 4: the outermost corner pixels are cut, the centre is kept
    assert_eq!(alpha(0, 0), 0);
    assert_eq!(alpha(49, 0), 0);
    assert_eq!(alpha(0, 49), 0);
    assert_eq!(alpha(49, 49), 0);
    assert_eq!(alpha(3, 3), 255);
    assert_eq!(alpha(25, 25), 255);
    assert_eq!(alpha(25, 0), 255);
    assert_eq!(img.rgba[0], 255);
    assert_eq!(img.rgba.iter().filter(|b| **b == 0).count() % 4, 0);
}

#[test]
fn garbage_is_not_a_cover() {
    assert!(prepare_cover(&[1, 2, 3, 4]).is_none());
    assert!(prepare_cover(&[]).is_none());
}

#[test]
fn png_cover_is_decoded_and_rounded() {
    let mut png = Vec::new();
    let img = image::RgbaImage::from_pixel(40, 20, image::Rgba([10, 20, 30, 255]));
    img.write_to(&mut std::io::Cursor::new(&mut png), image::ImageFormat::Png).unwrap();
    let c = prepare_cover(&png).unwrap();
    assert_eq!((c.width, c.height), (40, 20));
    // radius round(20 * 0.08) = 2: no pixel lies outside a quarter circle that small
    assert_eq!(c.rgba[3], 255);
    assert_eq!(&c.rgba[4 * 45..4 * 45 + 4], &[10, 20, 30, 255]);

    let mut png = Vec::new();
    let img = image::RgbaImage::from_pixel(600, 400, image::Rgba([200, 100, 0, 255]));
    img.write_to(&mut std::io::Cursor::new(&mut png), image::ImageFormat::Png).unwrap();
    let c = prepare_cover(&png).unwrap();
    assert_eq!((c.width, c.height), (300, 200));
    assert_eq!(c.rgba.len(), 4 * 300 * 200);
    // radius round(200 * 0.08) = 16 cuts the corner pixel
    assert_eq!(c.rgba[3], 0);
    assert_eq!(c.rgba[4 * (100 * 300 + 150) + 3], 255);
}

#[test]
fn progress_bars() {
    let bar = progress_bar(Duration::from_secs(5), Duration::from_secs(10), 45);
    assert_eq!(bar, format!("{}\u{2b24}{}", "\u{2501}".repeat(10), "\u{2501}".repeat(9)));
    let bar = progress_bar(Duration::from_secs(0), Duration::from_secs(0), 20);
    assert_eq!(bar, "\u{2501}".repeat(10));
    let bar = progress_bar(Duration::from_secs(20), Duration::from_secs(10), 30);
    assert_eq!(bar, format!("{}\u{2b24}", "\u{2501}".repeat(10)));
}

#[test]
fn status_words() {
    let mut st = PlayerState::default();
    assert_eq!(status_text(&st), "No Playback");
    st.is_idle = false;
    assert_eq!(status_text(&st), "Now Playing");
    st.is_paused = true;
    assert_eq!(status_text(&st), "Paused");
}

#[test]
fn now_playing_titles() {
    let lib = vec![track()];
    assert_eq!(now_playing_title(&lib, &Some("/m/x.mp3".to_string())), "Band - Title");
    assert_eq!(now_playing_title(&lib, &Some("/other/song.ogg".to_string())), "song");
    assert_eq!(now_playing_title(&lib, &None), "Nothing Playing");
}

#[test]
fn panel_text() {
    assert_eq!(library_title(1), " Library (1 track) ");
    assert_eq!(library_title(12), " Library (12 tracks) ");
    let rows = info_rows(&track());
    let labels: Vec<&str> = rows.iter().map(|(l, _)| l.as_str()).collect();
    assert_eq!(labels, vec!["Title:   ", "Artist:  ", "Album:   ", "Track:   ", "Length:  "]);
    assert_eq!(rows[4].1, "01:02:05");
    let details = detail_rows(&track());
    assert_eq!(details.len(), 7);
    assert!(matches!(&details[1], DetailRow::Text { value, .. } if value == "320k"));
    assert!(matches!(&details[2], DetailRow::SampleRate(44100)));
    assert!(matches!(&details[4], DetailRow::Text { value, .. } if value == "Stereo"));
    assert!(matches!(&details[6], DetailRow::Text { value, .. } if value == "2001"));
}

#[test]
fn track_list_columns() {
    assert_eq!(column_widths(100), (44, 21, 21));
    assert_eq!(column_widths(13), (0, 0, 0));
    assert_eq!(column_widths(0), (0, 0, 0));
    assert_eq!(column_widths(23), (5, 1, 1));
}
