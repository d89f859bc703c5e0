use playful::config::Config;
use playful::library::{Duration, Track};
use playful::state::{
    AppScreen, AppState, Area, ArtAction, Effect, Fade, FolderOrigin, KeyCode, KeyPress, PlayerState,
    Reload,
};

fn key(code: KeyCode) -> KeyPress {
    KeyPress { code, alt: false }
}

fn ch(c: char) -> KeyPress {
    key(KeyCode::Char(c))
}

fn track(path: &str, title: &str) -> Track {
    Track {
        path: path.to_string(),
        title: title.to_string(),
        artist: "Artist".to_string(),
        album: "Album".to_string(),
        duration: Duration::from_secs(100),
        format: "MP3".to_string(),
        bitrate: 0,
        year: 0,
        sample_rate: 0,
        modified: String::new(),
        channels: 0,
        genre: String::new(),
        track_number: String::new(),
        encoding: "Lossy".to_string(),
        file_size: 0,
        has_embedded_cover: false,
        play_count: 0,
    }
}

fn main_state(n: usize) -> AppState {
    let config = Config { music_folder: "/music".to_string(), ..Config::default() };
    let (mut s, effects) = AppState::new(config, true);
    assert!(matches!(effects.as_slice(), [Effect::Rescan(Reload::Startup)]));
    let tracks: Vec<Track> = (0..n).map(|i| track(&format!("/music/{i}.mp3"), &format!("T{i}"))).collect();
    let effects = s.library_loaded(tracks, Reload::Startup);
    if n > 0 {
        assert!(matches!(effects.as_slice(), [Effect::LoadCover(p)] if p == "/music/0.mp3"));
    }
    s
}

fn playing(path: &str, pos: u64, dur: u64) -> PlayerState {
    PlayerState {
        is_playing: true,
        is_paused: false,
        is_idle: false,
        position: Duration::from_secs(pos),
        duration: Duration::from_secs(dur),
        current_track_path: Some(path.to_string()),
    }
}

#[test]
fn start_screen_depends_on_folder() {
    let (s, e) = AppState::new(Config::default(), true);
    assert_eq!(s.screen, AppScreen::Setup);
    assert!(e.is_empty());
    let config = Config { music_folder: "/gone".to_string(), ..Config::default() };
    let (s, e) = AppState::new(config, false);
    assert_eq!(s.screen, AppScreen::Setup);
    assert!(e.is_empty());
    assert_eq!(main_state(0).screen, AppScreen::Main);
}

#[test]
fn setup_typing_and_enter() {
    let (mut s, _) = AppState::new(Config::default(), false);
    s.handle_key(ch(' '));
    s.handle_key(ch('/'));
    s.handle_key(ch('x'));
    s.handle_key(key(KeyCode::Backspace));
    s.handle_key(ch('m'));
    assert_eq!(s.setup_path, " /m");
    let e = s.handle_key(key(KeyCode::Enter));
    assert!(matches!(e.as_slice(), [Effect::CheckFolder { path, origin: FolderOrigin::Setup }] if path == "/m"));
    let e = s.folder_checked("/m".to_string(), FolderOrigin::Setup, true);
    assert!(matches!(e.as_slice(), [Effect::SaveConfig, Effect::Rescan(Reload::Setup)]));
    assert_eq!(s.config.music_folder, "/m");
    let e = s.library_loaded(vec![track("/m/a.mp3", "A"), track("/m/b.mp3", "B")], Reload::Setup);
    assert!(matches!(e.as_slice(), [Effect::StatusShown]));
    assert_eq!(s.screen, AppScreen::Main);
    assert_eq!(s.status_message.as_deref(), Some("Library loaded! 2 tracks found"));
}

#[test]
fn setup_rejects_empty_and_missing_paths() {
    let (mut s, _) = AppState::new(Config::default(), false);
    s.handle_key(ch(' '));
    let e = s.handle_key(key(KeyCode::Enter));
    assert!(matches!(e.as_slice(), [Effect::StatusShown]));
    assert_eq!(s.status_message.as_deref(), Some("Path cannot be empty!"));
    let e = s.folder_checked("/nowhere".to_string(), FolderOrigin::Setup, false);
    assert!(matches!(e.as_slice(), [Effect::StatusShown]));
    assert_eq!(s.status_message.as_deref(), Some("Invalid path! Please enter an existing directory"));
    assert_eq!(s.screen, AppScreen::Setup);
    let e = s.handle_key(key(KeyCode::Esc));
    assert!(matches!(e.as_slice(), [Effect::Quit]));
}

#[test]
fn navigation_stays_in_range() {
    let mut s = main_state(3);
    s.handle_key(key(KeyCode::Up));
    assert_eq!(s.selected_index, 0);
    let e = s.handle_key(key(KeyCode::Down));
    assert_eq!(s.selected_index, 1);
    assert!(matches!(e.as_slice(), [Effect::LoadCover(p)] if p == "/music/1.mp3"));
    s.handle_key(ch('j'));
    let e = s.handle_key(ch('j'));
    assert_eq!(s.selected_index, 2);
    assert!(e.is_empty());
    s.handle_key(key(KeyCode::PageUp));
    assert_eq!(s.selected_index, 0);
    s.handle_key(key(KeyCode::PageDown));
    assert_eq!(s.selected_index, 2);
    s.handle_key(key(KeyCode::Home));
    assert_eq!(s.selected_index, 0);
    s.handle_key(key(KeyCode::End));
    assert_eq!(s.selected_index, 2);
    let e = s.handle_key(ch('k'));
    assert_eq!(s.selected_index, 1);
    // the cover of track 1 was already asked for... but track 2 came in between
    assert!(matches!(e.as_slice(), [Effect::LoadCover(p)] if p == "/music/1.mp3"));
}

#[test]
fn navigation_in_empty_library() {
    let mut s = main_state(0);
    for code in [KeyCode::Down, KeyCode::PageDown, KeyCode::End, KeyCode::Up, KeyCode::PageUp] {
        let e = s.handle_key(key(code));
        assert_eq!(s.selected_index, 0);
        assert!(e.is_empty());
    }
    let e = s.handle_key(key(KeyCode::Enter));
    assert!(e.is_empty());
}

#[test]
fn enter_plays_selected_track() {
    let mut s = main_state(2);
    s.handle_key(ch('j'));
    let e = s.handle_key(key(KeyCode::Enter));
    assert!(matches!(e.as_slice(), [Effect::PlayTrack(p), Effect::StatusShown] if p == "/music/1.mp3"));
    assert_eq!(s.status_message.as_deref(), Some("\u{266a} T1"));
    assert!(!s.manual_stop);
}

#[test]
fn enter_on_current_track_fades() {
    let mut s = main_state(2);
    s.update_player(playing("/music/0.mp3", 1, 100));
    let e = s.handle_key(key(KeyCode::Enter));
    assert!(matches!(e.as_slice(), [Effect::CaptureFadeVolume]));
    assert_eq!(s.fade, Some(Fade::Out { step: 0 }));
    let e1 = s.fade_tick();
    let e2 = s.fade_tick();
    let e3 = s.fade_tick();
    assert!(matches!(e1.as_slice(), [Effect::FadeVolume { fading_out: true, step: 1 }]));
    assert!(matches!(e2.as_slice(), [Effect::FadeVolume { fading_out: true, step: 2 }]));
    assert!(matches!(e3.as_slice(), [Effect::FadeVolume { fading_out: true, step: 3 }, Effect::Pause]));
    assert_eq!(s.fade, None);
    assert!(s.fade_tick().is_empty());
}

#[test]
fn space_twice_cancels_fade() {
    let mut s = main_state(2);
    s.update_player(playing("/music/0.mp3", 1, 100));
    s.handle_key(ch(' '));
    let e = s.handle_key(ch(' '));
    assert!(matches!(e.as_slice(), [Effect::RestoreFadeVolume]));
    assert_eq!(s.fade, None);
}

#[test]
fn space_on_paused_track_fades_in() {
    let mut s = main_state(1);
    let mut st = playing("/music/0.mp3", 1, 100);
    st.is_playing = false;
    st.is_paused = true;
    s.update_player(st);
    let e = s.handle_key(ch(' '));
    assert!(matches!(e.as_slice(), [Effect::CaptureFadeVolume, Effect::TogglePauseQuiet, Effect::Mute]));
    assert_eq!(s.fade, Some(Fade::In { step: 0 }));
}

#[test]
fn space_when_idle_plays() {
    let mut s = main_state(1);
    let e = s.handle_key(ch(' '));
    assert!(matches!(e.as_slice(), [Effect::PlayTrack(p), Effect::StatusShown] if p == "/music/0.mp3"));
}

#[test]
fn library_keys() {
    let mut s = main_state(2);
    assert!(matches!(s.handle_key(key(KeyCode::Right)).as_slice(), [Effect::Seek { forward: true }]));
    assert!(matches!(s.handle_key(ch(',')).as_slice(), [Effect::Seek { forward: false }]));
    assert!(matches!(s.handle_key(ch('=')).as_slice(), [Effect::StepVolume { up: true }]));
    assert!(matches!(s.handle_key(ch('_')).as_slice(), [Effect::StepVolume { up: false }]));
    let e = s.handle_key(ch('s'));
    assert!(matches!(e.as_slice(), [Effect::Stop, Effect::StatusShown]));
    assert!(s.manual_stop);
    assert_eq!(s.status_message.as_deref(), Some("Stopped"));
    let e = s.handle_key(ch('n'));
    assert!(matches!(e.as_slice(), [Effect::PlayTrackQuiet(p), Effect::LoadCover(_)] if p == "/music/1.mp3"));
    assert_eq!(s.selected_index, 1);
    assert!(s.handle_key(ch('n')).is_empty());
    let e = s.handle_key(ch('p'));
    assert!(matches!(e.as_slice(), [Effect::PlayTrackQuiet(p), Effect::LoadCover(_)] if p == "/music/0.mp3"));
    let e = s.handle_key(ch('r'));
    assert!(matches!(e.as_slice(), [Effect::Rescan(Reload::Refresh)]));
    assert!(s.handle_key(ch(';')).is_empty());
    assert!(!s.command_mode);
    assert!(matches!(s.handle_key(ch('q')).as_slice(), [Effect::Quit]));
}

#[test]
fn refresh_resets_selection() {
    let mut s = main_state(3);
    s.handle_key(key(KeyCode::End));
    let e = s.library_loaded(vec![track("/music/9.mp3", "N")], Reload::Refresh);
    assert!(matches!(e.as_slice(), [Effect::StatusShown]));
    assert_eq!(s.selected_index, 0);
    assert_eq!(s.status_message.as_deref(), Some("Library refreshed! 1 tracks"));
}

#[test]
fn change_folder_flow() {
    let mut s = main_state(1);
    let e = s.handle_key(ch('c'));
    assert!(matches!(e.as_slice(), [Effect::ClearAlbumArt]));
    assert!(s.change_folder_mode);
    s.handle_key(ch('/'));
    s.handle_key(ch('n'));
    let e = s.handle_key(key(KeyCode::Enter));
    assert!(matches!(e.as_slice(), [Effect::CheckFolder { path, origin: FolderOrigin::ChangeFolder }] if path == "/n"));
    let e = s.folder_checked("/n".to_string(), FolderOrigin::ChangeFolder, false);
    assert!(matches!(e.as_slice(), [Effect::StatusShown]));
    assert_eq!(s.status_message.as_deref(), Some("Invalid path!"));
    assert!(!s.change_folder_mode);
    assert_eq!(s.setup_path, "");
    s.handle_key(ch('c'));
    let e = s.folder_checked("/n".to_string(), FolderOrigin::ChangeFolder, true);
    assert!(matches!(e.as_slice(), [Effect::SaveConfig, Effect::Rescan(Reload::ChangeFolder)]));
    s.library_loaded(vec![], Reload::ChangeFolder);
    assert_eq!(s.status_message.as_deref(), Some("Music folder changed! 0 tracks loaded"));
    s.handle_key(ch('c'));
    s.handle_key(key(KeyCode::Esc));
    assert!(!s.change_folder_mode);
}

#[test]
fn command_palette() {
    let mut s = main_state(2);
    s.handle_key(KeyPress { code: KeyCode::Char(';'), alt: true });
    assert!(s.command_mode);
    for c in "  VOLUME 30 ".chars() {
        s.handle_key(ch(c));
    }
    let e = s.handle_key(key(KeyCode::Enter));
    assert!(matches!(e.as_slice(), [Effect::SetVolumeText(v)] if v == "30"));
    assert!(!s.command_mode);
    assert_eq!(s.command_input, "");

    assert!(matches!(s.run_command("quit").as_slice(), [Effect::Quit]));
    assert!(s.run_command("?").is_empty());
    assert!(s.show_help);
    assert!(s.handle_key(ch('x')).is_empty());
    assert!(s.show_help);
    s.handle_key(key(KeyCode::Esc));
    assert!(!s.show_help);
    let e = s.run_command("bogus");
    assert!(matches!(e.as_slice(), [Effect::StatusShown]));
    assert_eq!(s.status_message.as_deref(), Some("Unknown command: bogus"));
    assert!(s.run_command("pause").is_empty());
    let e = s.run_command("play");
    assert!(matches!(e.as_slice(), [Effect::PlayTrack(_), Effect::StatusShown]));
}

#[test]
fn track_end_plays_next_unless_stopped() {
    let mut s = main_state(2);
    s.update_player(playing("/music/0.mp3", 99, 100));
    let mut idle = PlayerState::default();
    let e = s.update_player(PlayerState::default());
    assert!(matches!(e.as_slice(), [Effect::PlayTrackQuiet(p), Effect::LoadCover(_)] if p == "/music/1.mp3"));
    assert_eq!(s.selected_index, 1);

    let mut s = main_state(2);
    s.update_player(playing("/music/0.mp3", 99, 100));
    s.handle_key(ch('s'));
    idle.current_track_path = None;
    assert!(s.update_player(idle).is_empty());
    assert_eq!(s.selected_index, 0);
}

#[test]
fn play_counted_once_after_half_or_thirty_seconds() {
    let mut s = main_state(2);
    s.update_player(playing("/music/1.mp3", 29, 100));
    assert!(s.check_play_count().is_empty());
    s.update_player(playing("/music/1.mp3", 30, 100));
    let e = s.check_play_count();
    assert!(matches!(e.as_slice(), [Effect::SaveConfigQuiet]));
    assert_eq!(s.library[1].play_count, 1);
    assert_eq!(s.config.play_counts.get("/music/1.mp3"), Some(1));
    assert!(s.check_play_count().is_empty());
    assert_eq!(s.library[1].play_count, 1);

    let mut s = main_state(1);
    s.update_player(playing("/music/0.mp3", 4, 10));
    assert!(s.check_play_count().is_empty());
    s.update_player(playing("/music/0.mp3", 5, 10));
    assert!(matches!(s.check_play_count().as_slice(), [Effect::SaveConfigQuiet]));

    let mut s = main_state(1);
    s.update_player(playing("/elsewhere.mp3", 50, 60));
    assert!(s.check_play_count().is_empty());
    assert!(s.check_play_count().is_empty());
}

#[test]
fn marquee_restarts_on_selection_change() {
    let mut s = main_state(3);
    for _ in 0..8 {
        s.marquee_tick();
    }
    assert_eq!(s.marquee_offset, 2);
    s.handle_key(ch('j'));
    s.marquee_tick();
    assert_eq!(s.marquee_offset, 0);
    assert_eq!(s.marquee_counter, 1);
}

#[test]
fn album_art_decisions() {
    let mut s = main_state(1);
    let area = Some(Area { x: 10, y: 5, width: 14, height: 8 });
    let a = s.album_art_step(area, true);
    assert_eq!(a, ArtAction::Draw { x: 11, y: 6, width: 12 });
    assert_eq!(s.album_art_step(area, true), ArtAction::Nothing);
    let small = Some(Area { x: 0, y: 0, width: 3, height: 8 });
    assert_eq!(s.album_art_step(small, true), ArtAction::Clear);
    assert_eq!(s.album_art_step(small, true), ArtAction::Nothing);
    assert_eq!(s.album_art_step(area, false), ArtAction::Clear);
    assert_eq!(s.album_art_step(area, false), ArtAction::Nothing);
    let wide = Some(Area { x: 0, y: 0, width: 40, height: 5 });
    assert_eq!(s.album_art_step(wide, true), ArtAction::Draw { x: 1, y: 1, width: 8 });
}

#[test]
fn library_counts_follow_recorded_counts() {
    let mut config = Config { music_folder: "/music".to_string(), ..Config::default() };
    config.play_counts.insert("/music/1.mp3".to_string(), 7);
    let (mut s, _) = AppState::new(config, true);
    let tracks: Vec<Track> = (0..3).map(|i| track(&format!("/music/{i}.mp3"), "T")).collect();
    s.library_loaded(tracks.clone(), Reload::Startup);
    assert_eq!(s.library[0].play_count, 0);
    assert_eq!(s.library[1].play_count, 7);
    s.update_player(playing("/music/1.mp3", 40, 200));
    s.check_play_count();
    assert_eq!(s.library[1].play_count, 8);
    assert_eq!(s.config.play_counts.get("/music/1.mp3"), Some(8));
    s.library_loaded(tracks, Reload::Refresh);
    assert_eq!(s.library[1].play_count, 8);
    assert_eq!(s.library[2].play_count, 0);
}

#[test]
fn status_messages_and_guards() {
    let mut s = main_state(1);
    s.set_status("hello");
    assert_eq!(s.status_message.as_deref(), Some("hello"));
    s.clear_status();
    assert_eq!(s.status_message, None);
    assert!(s.play_counts_can_grow());
    s.library[0].play_count = u32::MAX;
    // nothing is being counted, so a full counter is no obstacle
    assert!(s.play_counts_can_grow());
    s.update_player(playing("/music/0.mp3", 50, 60));
    assert!(!s.play_counts_can_grow());
    s.update_player(playing("/music/0.mp3", 10, 60));
    assert!(s.play_counts_can_grow());
    assert!(s.marquee_can_advance());
    s.marquee_counter = usize::MAX;
    assert!(!s.marquee_can_advance());
    s.selected_index = 0;
    s.prev_selected = 1;
    assert!(s.marquee_can_advance());
}

#[test]
fn keys_leave_library_and_settings() {
    let mut s = main_state(3);
    s.config.play_counts.insert("/music/2.mp3".to_string(), 4);
    for k in [ch('j'), ch('n'), ch(' '), key(KeyCode::Enter), ch('s'), ch('+'), ch('r'), key(KeyCode::End), ch('c'), ch('x')] {
        s.handle_key(k);
    }
    assert_eq!(s.library.len(), 3);
    assert_eq!(s.library[2].path, "/music/2.mp3");
    assert_eq!(s.config.music_folder, "/music");
    assert_eq!(s.config.play_counts.get("/music/2.mp3"), Some(4));
    assert_eq!(s.config.play_counts.len(), 1);
}

#[test]
fn full_counter_elsewhere_does_not_stop_counting() {
    let mut s = main_state(2);
    s.library[0].play_count = u32::MAX;
    s.update_player(playing("/music/1.mp3", 40, 60));
    assert!(s.play_counts_can_grow());
    assert!(matches!(s.check_play_count().as_slice(), [Effect::SaveConfigQuiet]));
    assert_eq!(s.library[1].play_count, 1);
}

#[test]
fn art_guard_only_where_drawn() {
    let mut s = main_state(1);
    let edge = Some(Area { x: u16::MAX, y: 0, width: 10, height: 10 });
    assert!(s.art_step_fits(edge, false));
    assert!(!s.art_step_fits(edge, true));
    let small = Some(Area { x: u16::MAX, y: 0, width: 3, height: 10 });
    assert!(s.art_step_fits(small, true));
    let area = Some(Area { x: 1, y: 1, width: 10, height: 10 });
    assert!(s.art_step_fits(area, true));
    s.album_art_step(area, true);
    let row = Some(Area { x: 1, y: 32767, width: 10, height: 10 });
    assert!(!s.art_step_fits(row, true));
    assert_eq!(s.album_art_step(area, true), ArtAction::Nothing);
}
