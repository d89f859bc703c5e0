//! Properties of the player that span several calls.
use vstd::prelude::*;
use crate::library::{
    Duration, TagChoice, TagFields, tag_choice_spec, text_or_empty, picture_choice, described_as, encoding_of, is_audio_path, is_supported, merged_count, with_play_count, FileFacts,
    Track,
};
use crate::paths::{path_extension, path_stem};
use crate::text::{lowercase, uppercase};
use crate::state::{
    heard_enough, key_rel, library_loaded_rel, play_count_rel, played, process_fade_rel,
    play_next_rel, player_update_rel, selected_cover_requested, start_fade_rel, track_index, last_index,
    AppScreen, AppState, Effect, KeyCode, KeyPress, PlayerState, Reload, art_rel, Area, ArtAction,
    command_rel, folder_checked_rel, FolderOrigin, marquee_rel, shows,
    selected_is_current, play_selected_rel,
};
use crate::config::Config;
use crate::cover::{corner_radius, cover_size, rounded, scaled_to_300};
use crate::panels::{first_with_path, info_rows_text, library_title_text, now_playing_text, progress_text, status_word};
use crate::text::{channels_text, clock, decimal, last_token, last_word, digit, is_space, marquee, pad2, trim_end, trim_start, trimmed};
use crate::number::{all_digits, digits_value, is_digit, parse_i32_spec};

verus! {

/// Typing a character into the folder input and deleting it again gives
/// back the path typed before.
pub proof fn backspace_undoes_typing(s: AppState, t: AppState, u: AppState, c: char, e1: Seq<Effect>, e2: Seq<Effect>)
    requires
        s.screen == AppScreen::Setup,
        key_rel(s, t, KeyPress { code: KeyCode::Char(c), alt: false }, e1),
        key_rel(t, u, KeyPress { code: KeyCode::Backspace, alt: false }, e2),
    ensures
        u.setup_path@ == s.setup_path@,
        u.screen == AppScreen::Setup,
        e1.len() == 0 && e2.len() == 0,
{
    assert(s.setup_path@.push(c).drop_last() =~= s.setup_path@);
}

/// Typing a character into the command palette and deleting it again
/// gives back the command typed before, and leaves the palette open.
pub proof fn palette_backspace_undoes_typing(
    s: AppState,
    t: AppState,
    u: AppState,
    c: char,
    e1: Seq<Effect>,
    e2: Seq<Effect>,
)
    requires
        s.screen == AppScreen::Main,
        !s.change_folder_mode,
        s.command_mode,
        key_rel(s, t, KeyPress { code: KeyCode::Char(c), alt: false }, e1),
        key_rel(t, u, KeyPress { code: KeyCode::Backspace, alt: false }, e2),
    ensures
        u.command_input@ == s.command_input@,
        u.command_mode,
        e1.len() == 0 && e2.len() == 0,
{
    assert(s.command_input@.push(c).drop_last() =~= s.command_input@);
}

/// A fade out started on a playing track runs three steps, at two thirds,
/// one third and no volume, then pauses and ends.
pub proof fn fade_out_takes_three_steps(
    s: AppState,
    t0: AppState,
    t1: AppState,
    t2: AppState,
    t3: AppState,
    e0: Seq<Effect>,
    e1: Seq<Effect>,
    e2: Seq<Effect>,
    e3: Seq<Effect>,
)
    requires
        !s.player.is_idle,
        !s.player.is_paused,
        s.fade is None,
        start_fade_rel(s, t0, Seq::empty(), e0),
        process_fade_rel(t0, t1, e0, e1),
        process_fade_rel(t1, t2, e1, e2),
        process_fade_rel(t2, t3, e2, e3),
    ensures
        t3 == s,
        e3 =~= seq![
            Effect::CaptureFadeVolume,
            Effect::FadeVolume { fading_out: true, step: 1 },
            Effect::FadeVolume { fading_out: true, step: 2 },
            Effect::FadeVolume { fading_out: true, step: 3 },
            Effect::Pause,
        ],
{
}

/// A fade in started on a paused track resumes it from silence and runs
/// three steps up to the full volume, then ends.
pub proof fn fade_in_takes_three_steps(
    s: AppState,
    t0: AppState,
    t1: AppState,
    t2: AppState,
    t3: AppState,
    e0: Seq<Effect>,
    e1: Seq<Effect>,
    e2: Seq<Effect>,
    e3: Seq<Effect>,
)
    requires
        !s.player.is_idle,
        s.player.is_paused,
        s.fade is None,
        start_fade_rel(s, t0, Seq::empty(), e0),
        process_fade_rel(t0, t1, e0, e1),
        process_fade_rel(t1, t2, e1, e2),
        process_fade_rel(t2, t3, e2, e3),
    ensures
        t3 == s,
        e3 =~= seq![
            Effect::CaptureFadeVolume,
            Effect::TogglePauseQuiet,
            Effect::Mute,
            Effect::FadeVolume { fading_out: false, step: 1 },
            Effect::FadeVolume { fading_out: false, step: 2 },
            Effect::FadeVolume { fading_out: false, step: 3 },
        ],
{
}

/// Pressing play/pause again before a fade has taken a step cancels it:
/// the state is as before and the volume is put back.
pub proof fn second_toggle_cancels_fade(s: AppState, t: AppState, u: AppState, e1: Seq<Effect>, e2: Seq<Effect>)
    requires
        !s.player.is_idle,
        !s.player.is_paused,
        s.fade is None,
        start_fade_rel(s, t, Seq::empty(), e1),
        start_fade_rel(t, u, e1, e2),
    ensures
        u == s,
        e2 =~= seq![Effect::CaptureFadeVolume, Effect::RestoreFadeVolume],
{
}

/// A track's play is counted at most once per session: counting again
/// with the same report changes nothing.
pub proof fn play_counted_once(s: AppState, t: AppState, u: AppState, e1: Seq<Effect>, e2: Seq<Effect>)
    requires
        play_count_rel(s, t, e1),
        play_count_rel(t, u, e2),
    ensures
        u == t,
        e2.len() == 0,
{
    let st = s.player;
    if st.is_playing && !st.is_idle && !st.is_paused && st.current_track_path is Some
        && !played(s).contains(st.current_track_path->0@) && heard_enough(st.position, st.duration) {
        assert(t.player == s.player);
        assert(played(t).contains(st.current_track_path->0@));
    }
}

/// Merging the same play counts twice gives what merging once gives.
pub proof fn merge_is_idempotent(tracks: Seq<Track>, once: Seq<Track>, twice: Seq<Track>, counts: Map<Seq<char>, u32>)
    requires
        once.len() == tracks.len(),
        forall|i: int|
            0 <= i < tracks.len() ==> #[trigger] once[i] == with_play_count(
                tracks[i],
                merged_count(tracks[i], counts),
            ),
        twice.len() == once.len(),
        forall|i: int|
            0 <= i < once.len() ==> #[trigger] twice[i] == with_play_count(
                once[i],
                merged_count(once[i], counts),
            ),
    ensures
        twice == once,
{
    assert forall|i: int| 0 <= i < once.len() implies #[trigger] twice[i] == once[i] by {
        assert(once[i].path == tracks[i].path);
    }
    assert(twice =~= once);
}

/// A key press leaves the library and the settings as they are: they
/// change only through a scan or a checked folder.
pub proof fn keys_keep_library_and_settings(s: AppState, t: AppState, key: KeyPress, e: Seq<Effect>)
    requires
        key_rel(s, t, key, e),
    ensures
        t.library == s.library,
        t.config == s.config,
        t.played_tracks == s.played_tracks,
{
}

/// The cover art is not drawn twice: a second frame with the same area
/// and the same loaded picture does nothing; and no art is drawn into a
/// missing area or one not wider than 4 and higher than 2.
pub proof fn art_not_drawn_twice(
    s: AppState,
    t: AppState,
    u: AppState,
    area: Option<Area>,
    has_image: bool,
    a1: ArtAction,
    a2: ArtAction,
)
    requires
        art_rel(s, t, area, has_image, a1),
        art_rel(t, u, area, has_image, a2),
    ensures
        a2 == ArtAction::Nothing,
        u == t,
        !(area matches Some(r) && r.width > 4 && r.height > 2) ==> !(a1 is Draw),
{
}

/// A track stopped by hand is not followed by the next one: after `s` on
/// the library screen, a report that playback went idle changes neither
/// the selection nor starts anything.
pub proof fn stop_by_hand_does_not_advance(
    s: AppState,
    t: AppState,
    u: AppState,
    alt: bool,
    status: PlayerState,
    e1: Seq<Effect>,
    e2: Seq<Effect>,
)
    requires
        s.screen == AppScreen::Main,
        !s.change_folder_mode,
        !s.command_mode,
        !s.show_help,
        key_rel(s, t, KeyPress { code: KeyCode::Char('s'), alt }, e1),
        status.is_idle,
        player_update_rel(t, u, status, e2),
    ensures
        e1 =~= seq![Effect::Stop, Effect::StatusShown],
        e2.len() == 0,
        u.selected_index == s.selected_index,
        u.library == s.library,
{
}

/// A track that ends by itself (playing, not paused, not stopped by hand,
/// then reported idle) is followed by the next track of the library, if
/// there is one.
pub proof fn finished_track_advances(s: AppState, t: AppState, status: PlayerState, e: Seq<Effect>)
    requires
        s.wf(),
        !s.player.is_idle,
        !s.player.is_paused,
        !s.manual_stop,
        status.is_idle,
        s.selected_index < last_index(s.library@.len()),
        player_update_rel(s, t, status, e),
    ensures
        t.selected_index == s.selected_index + 1,
        e.len() >= 1,
        e[0] == Effect::PlayTrackQuiet(s.library@[s.selected_index + 1].path),
        t.player == status,
{
    let s1 = AppState { player: status, ..s };
    let t1 = choose|t1: AppState|
        play_next_rel(s1, t1, Seq::empty(), e) && t == (if status.is_playing {
            AppState { manual_stop: false, ..t1 }
        } else {
            t1
        });
    assert(play_next_rel(s1, t1, Seq::empty(), e));
    let p = s.library@[s.selected_index + 1].path;
    let e1 = Seq::<Effect>::empty().push(Effect::PlayTrackQuiet(p));
    assert(e1[0] == Effect::PlayTrackQuiet(p));
    assert(e.len() >= 1 && e[0] == e1[0]);
}

/// Every track of `lib` whose path has a recorded count shows that count.
pub open spec fn counts_agree(lib: Seq<Track>, counts: Map<Seq<char>, u32>) -> bool {
    forall|i: int|
        0 <= i < lib.len() && counts.contains_key(#[trigger] lib[i].path@) ==> lib[i].play_count
            == counts[lib[i].path@]
}

/// No two tracks of `lib` have the same path.
pub open spec fn paths_unique(lib: Seq<Track>) -> bool {
    forall|i: int, j: int| 0 <= i < j < lib.len() ==> #[trigger] lib[i].path@ != #[trigger] lib[j].path@
}

/// After a scan the library shows the recorded play counts.
pub proof fn loaded_library_shows_recorded_counts(
    s: AppState,
    t: AppState,
    tracks: Seq<Track>,
    reload: Reload,
    e: Seq<Effect>,
)
    requires
        library_loaded_rel(s, t, tracks, reload, e),
    ensures
        counts_agree(t.library@, t.config.play_counts@),
{
    assert(t.config == s.config) by {
        if reload == Reload::Startup {
            let s1 = AppState { library: t.library, selected_index: 0, ..s };
            assert(selected_cover_requested(s1, t, Seq::empty(), e));
        }
    }
    assert forall|i: int|
        0 <= i < t.library@.len() && t.config.play_counts@.contains_key(
            #[trigger] t.library@[i].path@,
        ) implies t.library@[i].play_count == t.config.play_counts@[t.library@[i].path@] by {
        assert(t.library@[i] == with_play_count(tracks[i], merged_count(tracks[i], s.config.play_counts@)));
    }
}

proof fn lemma_track_index(lib: Seq<Track>, p: Seq<char>, i: int)
    requires
        0 <= i <= lib.len(),
    ensures
        i <= track_index(lib, p, i) <= lib.len(),
        track_index(lib, p, i) < lib.len() ==> lib[track_index(lib, p, i)].path@ == p,
    decreases lib.len() - i,
{
    if i < lib.len() && lib[i].path@ != p {
        lemma_track_index(lib, p, i + 1);
    }
}

/// Counting a play keeps the library's play counts in agreement with the
/// recorded ones, in a library where no path occurs twice.
pub proof fn counting_keeps_counts_agreeing(s: AppState, t: AppState, e: Seq<Effect>)
    requires
        play_count_rel(s, t, e),
        counts_agree(s.library@, s.config.play_counts@),
        paths_unique(s.library@),
    ensures
        counts_agree(t.library@, t.config.play_counts@),
        paths_unique(t.library@),
{
    let st = s.player;
    if st.is_playing && !st.is_idle && !st.is_paused && st.current_track_path is Some
        && !played(s).contains(st.current_track_path->0@) && heard_enough(st.position, st.duration) {
        let p = st.current_track_path->0@;
        let k = track_index(s.library@, p, 0);
        lemma_track_index(s.library@, p, 0);
        if k < s.library@.len() {
            assert forall|i: int| 0 <= i < t.library@.len() implies #[trigger] t.library@[i].path@
                == s.library@[i].path@ by {}
            assert forall|i: int|
                0 <= i < t.library@.len() && t.config.play_counts@.contains_key(
                    #[trigger] t.library@[i].path@,
                ) implies t.library@[i].play_count == t.config.play_counts@[t.library@[i].path@] by {
                if i != k {
                    assert(s.library@[i].path@ != p) by {
                        if i < k {
                            assert(s.library@[i].path@ != s.library@[k].path@);
                        } else {
                            assert(s.library@[k].path@ != s.library@[i].path@);
                        }
                    }
                    assert(s.config.play_counts@.contains_key(s.library@[i].path@));
                }
            }
            assert forall|i: int, j: int| 0 <= i < j < t.library@.len() implies #[trigger] t.library@[i].path@
                != #[trigger] t.library@[j].path@ by {
                assert(s.library@[i].path@ != s.library@[j].path@);
            }
        }
    }
}

/// A cover larger than 300 pixels a side is shown with its longer side at
/// 300 and its other side at most 300; smaller covers keep their size.
pub proof fn cover_fits(w: u32, h: u32)
    ensures
        (w > 300 || h > 300) ==> {
            let (nw, nh) = cover_size(w, h);
            &&& nw <= 300 && nh <= 300
            &&& nw == 300 || nh == 300
            &&& (w > h ==> nw == 300) && (w <= h ==> nh == 300)
        },
        (w <= 300 && h <= 300) ==> cover_size(w, h) == (w, h),
{
    if w > 300 || h > 300 {
        if w > h {
            assert(0 <= scaled_to_300(h as int, w as int) <= 300) by (nonlinear_arith)
                requires
                    0 <= h < w,
                    scaled_to_300(h as int, w as int) == (600 * h + w) / (2 * w),
            ;
        } else {
            assert(0 <= scaled_to_300(w as int, h as int) <= 300) by (nonlinear_arith)
                requires
                    0 <= w <= h,
                    h > 0,
                    scaled_to_300(w as int, h as int) == (600 * w + h) / (2 * h),
            ;
        }
    }
}

/// The scrolling text repeats after `len + 16` ticks.
pub proof fn marquee_repeats(text: Seq<char>, offset: nat)
    ensures
        marquee(text, offset + text.len() + 16) == marquee(text, offset),
{
    if text.len() > 16 {
        let n: int = (text.len() + 16) as int;
        assert((offset as int + n) % n == (offset as int) % n) by {
            vstd::arithmetic::div_mod::lemma_mod_add_multiples_vanish(offset as int, n);
        }
    }
}

/// Trimming trimmed text changes nothing.
pub proof fn trim_is_idempotent(s: Seq<char>)
    ensures
        trimmed(trimmed(s)) == trimmed(s),
{
    lemma_trim_start_no_space(s);
    lemma_trim_start_after_trim_end(trim_start(s));
    lemma_trim_end_stable(trim_start(s));
}

proof fn lemma_trim_start_no_space(s: Seq<char>)
    ensures
        trim_start(s).len() == 0 || !is_space(trim_start(s)[0]),
    decreases s.len(),
{
    if s.len() > 0 && is_space(s[0]) {
        lemma_trim_start_no_space(s.drop_first());
    }
}

proof fn lemma_trim_end_stable(s: Seq<char>)
    ensures
        trim_end(trim_end(s)) == trim_end(s),
    decreases s.len(),
{
    if s.len() > 0 && is_space(s.last()) {
        lemma_trim_end_stable(s.drop_last());
    }
}

proof fn lemma_trim_start_after_trim_end(s: Seq<char>)
    requires
        s.len() == 0 || !is_space(s[0]),
    ensures
        trim_start(trim_end(s)) == trim_end(s),
    decreases s.len(),
{
    if s.len() > 0 && is_space(s.last()) {
        if s.len() > 1 {
            lemma_trim_start_after_trim_end(s.drop_last());
        } else {
            lemma_trim_start_after_trim_end(s.drop_last());
        }
    }
}

/// The extensions the library scans, in lower case, are exactly mp3, flac,
/// m4a, ogg, wav, wma, aac and opus.
pub proof fn supported_extensions(l: Seq<char>)
    ensures
        is_supported(l) <==> (l == "mp3"@ || l == "flac"@ || l == "m4a"@ || l == "ogg"@ || l == "wav"@
            || l == "wma"@ || l == "aac"@ || l == "opus"@),
{
}

/// A path is listed by the scanner exactly when it has an extension whose
/// lower-case form is mp3, flac, m4a, ogg, wav, wma, aac or opus.
pub proof fn scanned_paths(p: Seq<char>)
    ensures
        path_extension(p) is None ==> !is_audio_path(p),
        forall|e: Seq<char>|
            path_extension(p) == Some(e) ==> (is_audio_path(p) <==> (lowercase(e) == "mp3"@ || lowercase(e)
                == "flac"@ || lowercase(e) == "m4a"@ || lowercase(e) == "ogg"@ || lowercase(e) == "wav"@
                || lowercase(e) == "wma"@ || lowercase(e) == "aac"@ || lowercase(e) == "opus"@)),
{
    if let Some(e) = path_extension(p) {
        supported_extensions(lowercase(e));
    }
}

/// How a format compresses: FLAC, WAV and AIFF are lossless; MP3, AAC, OGG,
/// OPUS and WMA are lossy; every other format is unknown.
pub proof fn encoding_classes(f: Seq<char>)
    ensures
        (f == "FLAC"@ || f == "WAV"@ || f == "AIFF"@) ==> encoding_of(f) == "Lossless"@,
        (f == "MP3"@ || f == "AAC"@ || f == "OGG"@ || f == "OPUS"@ || f == "WMA"@) ==> encoding_of(f)
            == "Lossy"@,
        !(f == "FLAC"@ || f == "WAV"@ || f == "AIFF"@ || f == "MP3"@ || f == "AAC"@ || f == "OGG"@ || f
            == "OPUS"@ || f == "WMA"@) ==> encoding_of(f) == "Unknown"@,
{
    reveal_strlit("FLAC");
    reveal_strlit("WAV");
    reveal_strlit("AIFF");
    reveal_strlit("MP3");
    reveal_strlit("AAC");
    reveal_strlit("OGG");
    reveal_strlit("OPUS");
    reveal_strlit("WMA");
    assert("MP3"@.len() == 3 && "FLAC"@.len() == 4);
    assert("MP3"@ != "FLAC"@);
    assert("MP3"@[0] == 'M' && "WAV"@[0] == 'W');
    assert("MP3"@ != "WAV"@);
    assert("MP3"@.len() == 3 && "AIFF"@.len() == 4);
    assert("MP3"@ != "AIFF"@);
    assert("AAC"@.len() == 3 && "FLAC"@.len() == 4);
    assert("AAC"@ != "FLAC"@);
    assert("AAC"@[0] == 'A' && "WAV"@[0] == 'W');
    assert("AAC"@ != "WAV"@);
    assert("AAC"@.len() == 3 && "AIFF"@.len() == 4);
    assert("AAC"@ != "AIFF"@);
    assert("OGG"@.len() == 3 && "FLAC"@.len() == 4);
    assert("OGG"@ != "FLAC"@);
    assert("OGG"@[0] == 'O' && "WAV"@[0] == 'W');
    assert("OGG"@ != "WAV"@);
    assert("OGG"@.len() == 3 && "AIFF"@.len() == 4);
    assert("OGG"@ != "AIFF"@);
    assert("OPUS"@[0] == 'O' && "FLAC"@[0] == 'F');
    assert("OPUS"@ != "FLAC"@);
    assert("OPUS"@.len() == 4 && "WAV"@.len() == 3);
    assert("OPUS"@ != "WAV"@);
    assert("OPUS"@[0] == 'O' && "AIFF"@[0] == 'A');
    assert("OPUS"@ != "AIFF"@);
    assert("WMA"@.len() == 3 && "FLAC"@.len() == 4);
    assert("WMA"@ != "FLAC"@);
    assert("WMA"@[1] == 'M' && "WAV"@[1] == 'A');
    assert("WMA"@ != "WAV"@);
    assert("WMA"@.len() == 3 && "AIFF"@.len() == 4);
    assert("WMA"@ != "AIFF"@);
}

/// A described track's type follows its format: FLAC, WAV and AIFF files
/// are lossless, MP3, AAC, OGG, OPUS and WMA files lossy, all others
/// unknown.
pub proof fn track_encoding(t: Track, f: FileFacts)
    requires
        described_as(t, f),
    ensures
        (t.format@ == "FLAC"@ || t.format@ == "WAV"@ || t.format@ == "AIFF"@) ==> t.encoding@ == "Lossless"@,
        (t.format@ == "MP3"@ || t.format@ == "AAC"@ || t.format@ == "OGG"@ || t.format@ == "OPUS"@
            || t.format@ == "WMA"@) ==> t.encoding@ == "Lossy"@,
        !(t.format@ == "FLAC"@ || t.format@ == "WAV"@ || t.format@ == "AIFF"@ || t.format@ == "MP3"@
            || t.format@ == "AAC"@ || t.format@ == "OGG"@ || t.format@ == "OPUS"@ || t.format@ == "WMA"@)
            ==> t.encoding@ == "Unknown"@,
{
    encoding_classes(t.format@);
}

/// The navigation keys on the library screen: Down and j go one track
/// down unless at the last, Up and k one up unless at the first, PageDown
/// ten down but not past the last, PageUp ten up but not before the
/// first, Home to the first and End to the last track.
pub proof fn navigation_moves(s: AppState, t: AppState, code: KeyCode, alt: bool, e: Seq<Effect>)
    requires
        s.wf(),
        s.screen == AppScreen::Main,
        !s.change_folder_mode,
        !s.command_mode,
        !s.show_help,
        key_rel(s, t, KeyPress { code, alt }, e),
    ensures
        ({
            let sel = s.selected_index as int;
            let len = s.library@.len() as int;
            &&& (code == KeyCode::Down || code == KeyCode::Char('j')) ==> t.selected_index == (if sel + 1
                < len { sel + 1 } else { sel })
            &&& (code == KeyCode::Up || code == KeyCode::Char('k')) ==> t.selected_index == (if sel > 0 {
                sel - 1
            } else {
                0
            })
            &&& code == KeyCode::PageDown ==> t.selected_index == (if len == 0 {
                0
            } else if sel + 10 <= len - 1 {
                sel + 10
            } else {
                len - 1
            })
            &&& code == KeyCode::PageUp ==> t.selected_index == (if sel >= 10 { sel - 10 } else { 0 })
            &&& code == KeyCode::Home ==> t.selected_index == 0
            &&& code == KeyCode::End ==> t.selected_index == (if len == 0 { 0 } else { len - 1 })
        }),
{
}

/// The palette commands `next` and `n` move to the following track and
/// play it, unless the selection is the last track; `prev` and `p` move to
/// the preceding one and play it, unless the selection is the first.
pub proof fn palette_next_and_prev(s: AppState, t: AppState, cmd: Seq<char>, e: Seq<Effect>)
    requires
        s.wf(),
        command_rel(s, t, cmd, e),
    ensures
        (cmd == "next"@ || cmd == "n"@) ==> if s.selected_index + 1 < s.library@.len() {
            &&& t.selected_index == s.selected_index + 1
            &&& e.len() >= 1
            &&& e[0] == Effect::PlayTrackQuiet(s.library@[s.selected_index + 1].path)
        } else {
            t == s && e.len() == 0
        },
        (cmd == "prev"@ || cmd == "p"@) ==> if s.selected_index > 0 {
            &&& t.selected_index == s.selected_index - 1
            &&& e.len() >= 1
            &&& e[0] == Effect::PlayTrackQuiet(s.library@[s.selected_index - 1].path)
        } else {
            t == s && e.len() == 0
        },
{
    reveal_strlit("help");
    reveal_strlit("h");
    reveal_strlit("?");
    reveal_strlit("refresh");
    reveal_strlit("r");
    reveal_strlit("quit");
    reveal_strlit("q");
    reveal_strlit("play");
    reveal_strlit("pause");
    reveal_strlit("stop");
    reveal_strlit("s");
    reveal_strlit("next");
    reveal_strlit("n");
    reveal_strlit("prev");
    reveal_strlit("p");
    assert("next"@[0] == 'n' && "help"@[0] == 'h');
    assert("next"@ != "help"@);
    assert("next"@.len() == 4 && "h"@.len() == 1);
    assert("next"@ != "h"@);
    assert("next"@.len() == 4 && "?"@.len() == 1);
    assert("next"@ != "?"@);
    assert("next"@.len() == 4 && "refresh"@.len() == 7);
    assert("next"@ != "refresh"@);
    assert("next"@.len() == 4 && "r"@.len() == 1);
    assert("next"@ != "r"@);
    assert("next"@[0] == 'n' && "quit"@[0] == 'q');
    assert("next"@ != "quit"@);
    assert("next"@.len() == 4 && "q"@.len() == 1);
    assert("next"@ != "q"@);
    assert("next"@[0] == 'n' && "play"@[0] == 'p');
    assert("next"@ != "play"@);
    assert("next"@.len() == 4 && "pause"@.len() == 5);
    assert("next"@ != "pause"@);
    assert("next"@[0] == 'n' && "stop"@[0] == 's');
    assert("next"@ != "stop"@);
    assert("next"@.len() == 4 && "s"@.len() == 1);
    assert("next"@ != "s"@);
    assert("n"@.len() == 1 && "help"@.len() == 4);
    assert("n"@ != "help"@);
    assert("n"@[0] == 'n' && "h"@[0] == 'h');
    assert("n"@ != "h"@);
    assert("n"@[0] == 'n' && "?"@[0] == '?');
    assert("n"@ != "?"@);
    assert("n"@.len() == 1 && "refresh"@.len() == 7);
    assert("n"@ != "refresh"@);
    assert("n"@[0] == 'n' && "r"@[0] == 'r');
    assert("n"@ != "r"@);
    assert("n"@.len() == 1 && "quit"@.len() == 4);
    assert("n"@ != "quit"@);
    assert("n"@[0] == 'n' && "q"@[0] == 'q');
    assert("n"@ != "q"@);
    assert("n"@.len() == 1 && "play"@.len() == 4);
    assert("n"@ != "play"@);
    assert("n"@.len() == 1 && "pause"@.len() == 5);
    assert("n"@ != "pause"@);
    assert("n"@.len() == 1 && "stop"@.len() == 4);
    assert("n"@ != "stop"@);
    assert("n"@[0] == 'n' && "s"@[0] == 's');
    assert("n"@ != "s"@);
    assert("prev"@[0] == 'p' && "help"@[0] == 'h');
    assert("prev"@ != "help"@);
    assert("prev"@.len() == 4 && "h"@.len() == 1);
    assert("prev"@ != "h"@);
    assert("prev"@.len() == 4 && "?"@.len() == 1);
    assert("prev"@ != "?"@);
    assert("prev"@.len() == 4 && "refresh"@.len() == 7);
    assert("prev"@ != "refresh"@);
    assert("prev"@.len() == 4 && "r"@.len() == 1);
    assert("prev"@ != "r"@);
    assert("prev"@[0] == 'p' && "quit"@[0] == 'q');
    assert("prev"@ != "quit"@);
    assert("prev"@.len() == 4 && "q"@.len() == 1);
    assert("prev"@ != "q"@);
    assert("prev"@[1] == 'r' && "play"@[1] == 'l');
    assert("prev"@ != "play"@);
    assert("prev"@.len() == 4 && "pause"@.len() == 5);
    assert("prev"@ != "pause"@);
    assert("prev"@[0] == 'p' && "stop"@[0] == 's');
    assert("prev"@ != "stop"@);
    assert("prev"@.len() == 4 && "s"@.len() == 1);
    assert("prev"@ != "s"@);
    assert("prev"@[0] == 'p' && "next"@[0] == 'n');
    assert("prev"@ != "next"@);
    assert("prev"@.len() == 4 && "n"@.len() == 1);
    assert("prev"@ != "n"@);
    assert("p"@.len() == 1 && "help"@.len() == 4);
    assert("p"@ != "help"@);
    assert("p"@[0] == 'p' && "h"@[0] == 'h');
    assert("p"@ != "h"@);
    assert("p"@[0] == 'p' && "?"@[0] == '?');
    assert("p"@ != "?"@);
    assert("p"@.len() == 1 && "refresh"@.len() == 7);
    assert("p"@ != "refresh"@);
    assert("p"@[0] == 'p' && "r"@[0] == 'r');
    assert("p"@ != "r"@);
    assert("p"@.len() == 1 && "quit"@.len() == 4);
    assert("p"@ != "quit"@);
    assert("p"@[0] == 'p' && "q"@[0] == 'q');
    assert("p"@ != "q"@);
    assert("p"@.len() == 1 && "play"@.len() == 4);
    assert("p"@ != "play"@);
    assert("p"@.len() == 1 && "pause"@.len() == 5);
    assert("p"@ != "pause"@);
    assert("p"@.len() == 1 && "stop"@.len() == 4);
    assert("p"@ != "stop"@);
    assert("p"@[0] == 'p' && "s"@[0] == 's');
    assert("p"@ != "s"@);
    assert("p"@.len() == 1 && "next"@.len() == 4);
    assert("p"@ != "next"@);
    assert("p"@[0] == 'p' && "n"@[0] == 'n');
    assert("p"@ != "n"@);
    if cmd == "next"@ || cmd == "n"@ {
        if s.selected_index + 1 < s.library@.len() {
            let i = s.selected_index + 1;
            let p = s.library@[i].path;
            let e1 = Seq::<Effect>::empty().push(Effect::PlayTrackQuiet(p));
            assert(e1[0] == Effect::PlayTrackQuiet(p));
            assert(e[0] == e1[0]);
        }
    }
    if cmd == "prev"@ || cmd == "p"@ {
        if s.selected_index > 0 {
            let i = s.selected_index - 1;
            let p = s.library@[i].path;
            let e1 = Seq::<Effect>::empty().push(Effect::PlayTrackQuiet(p));
            assert(e1[0] == Effect::PlayTrackQuiet(p));
            assert(e[0] == e1[0]);
        }
    }
}

/// A folder that was checked and found to be a directory becomes the music
/// folder, from the setup screen and from a folder change alike, the play
/// counts stay, the settings are saved and the folder is scanned; a folder
/// that was not found leaves the settings as they were.
pub proof fn checked_folder_is_used(
    s: AppState,
    t: AppState,
    path: String,
    origin: FolderOrigin,
    valid: bool,
    e: Seq<Effect>,
)
    requires
        folder_checked_rel(s, t, path, origin, valid, e),
    ensures
        valid ==> t.config.music_folder@ == path@ && t.config.play_counts == s.config.play_counts,
        valid ==> e.len() == 2 && e[0] == Effect::SaveConfig && e[1] is Rescan,
        !valid ==> t.config == s.config && t.library == s.library,
{
}

/// The action keys of the library screen: Right and `.` seek forward, Left
/// and `,` back; `+`/`=` raise and `-`/`_` lower the volume; `q` quits;
/// `s` stops playback by hand and says so; Alt+`;` opens an empty command
/// palette; `c` opens an empty folder input and clears the drawn art; `r`
/// rescans a chosen folder; `n` and `p` play the next and previous track.
pub proof fn library_action_keys(s: AppState, t: AppState, code: KeyCode, alt: bool, e: Seq<Effect>)
    requires
        s.wf(),
        s.screen == AppScreen::Main,
        !s.change_folder_mode,
        !s.command_mode,
        !s.show_help,
        key_rel(s, t, KeyPress { code, alt }, e),
    ensures
        (code == KeyCode::Right || code == KeyCode::Char('.')) ==> t == s && e == seq![Effect::Seek { forward: true }],
        (code == KeyCode::Left || code == KeyCode::Char(',')) ==> t == s && e == seq![Effect::Seek { forward: false }],
        (code == KeyCode::Char('+') || code == KeyCode::Char('=')) ==> t == s && e == seq![Effect::StepVolume { up: true }],
        (code == KeyCode::Char('-') || code == KeyCode::Char('_')) ==> t == s && e == seq![Effect::StepVolume { up: false }],
        code == KeyCode::Char('q') ==> t == s && e == seq![Effect::Quit],
        code == KeyCode::Char('s') ==> {
            &&& t.manual_stop
            &&& t.status_message matches Some(m) && m@ == "Stopped"@
            &&& t.selected_index == s.selected_index && t.library == s.library
            &&& e == seq![Effect::Stop, Effect::StatusShown]
        },
        (code == KeyCode::Char(';') && alt) ==> t.command_mode && t.command_input@.len() == 0 && e.len() == 0,
        (code == KeyCode::Char(';') && !alt) ==> t == s && e.len() == 0,
        code == KeyCode::Char('c') ==> {
            &&& t.change_folder_mode && t.setup_path@.len() == 0
            &&& e == seq![Effect::ClearAlbumArt]
        },
        code == KeyCode::Char('r') ==> t == s && (if s.config.music_folder@.len() > 0 {
            e == seq![Effect::Rescan(Reload::Refresh)]
        } else {
            e.len() == 0
        }),
        code == KeyCode::Char('n') ==> if s.selected_index + 1 < s.library@.len() {
            &&& t.selected_index == s.selected_index + 1
            &&& e.len() >= 1 && e[0] == Effect::PlayTrackQuiet(s.library@[s.selected_index + 1].path)
        } else {
            t == s && e.len() == 0
        },
        code == KeyCode::Char('p') ==> if s.selected_index > 0 {
            &&& t.selected_index == s.selected_index - 1
            &&& e.len() >= 1 && e[0] == Effect::PlayTrackQuiet(s.library@[s.selected_index - 1].path)
        } else {
            t == s && e.len() == 0
        },
{
    if code == KeyCode::Char('n') && s.selected_index + 1 < s.library@.len() {
        let e1 = Seq::<Effect>::empty().push(Effect::PlayTrackQuiet(s.library@[s.selected_index + 1].path));
        assert(e[0] == e1[0]);
    }
    if code == KeyCode::Char('p') && s.selected_index > 0 {
        let e1 = Seq::<Effect>::empty().push(Effect::PlayTrackQuiet(s.library@[s.selected_index - 1].path));
        assert(e[0] == e1[0]);
    }
}

/// The keys of the setup screen: a character is added to the folder path,
/// Esc quits, and Enter asks whether the path, trimmed, is a directory, or
/// says that an empty path cannot be used.
pub proof fn setup_keys(s: AppState, t: AppState, code: KeyCode, alt: bool, e: Seq<Effect>)
    requires
        s.screen == AppScreen::Setup,
        key_rel(s, t, KeyPress { code, alt }, e),
    ensures
        forall|c: char| code == KeyCode::Char(c) ==> t.setup_path@ == s.setup_path@.push(c) && e.len() == 0,
        code == KeyCode::Esc ==> t == s && e == seq![Effect::Quit],
        (code == KeyCode::Enter && trimmed(s.setup_path@).len() == 0) ==> {
            &&& t.status_message matches Some(m) && m@ == "Path cannot be empty!"@
            &&& e == seq![Effect::StatusShown]
            &&& t.screen == AppScreen::Setup && t.config == s.config
        },
        (code == KeyCode::Enter && trimmed(s.setup_path@).len() > 0) ==> {
            &&& t == s
            &&& e.len() == 1
            &&& e[0] matches Effect::CheckFolder { path, origin } && path@ == trimmed(s.setup_path@)
                && origin == FolderOrigin::Setup
        },
{
}

/// The commands of the palette: `help`, `h` and `?` open the help page;
/// `quit` and `q` quit; `stop` and `s` stop playback by hand and say so;
/// `pause` pauses or resumes a loaded track; `refresh` and `r` rescan a
/// chosen folder; `play` plays the selected track and shows its title.
pub proof fn palette_commands(s: AppState, t: AppState, cmd: Seq<char>, e: Seq<Effect>)
    requires
        s.wf(),
        command_rel(s, t, cmd, e),
    ensures
        (cmd == "help"@ || cmd == "h"@ || cmd == "?"@) ==> t == (AppState { show_help: true, ..s }) && e.len() == 0,
        (cmd == "quit"@ || cmd == "q"@) ==> t == s && e == seq![Effect::Quit],
        (cmd == "stop"@ || cmd == "s"@) ==> {
            &&& t.manual_stop
            &&& t.status_message matches Some(m) && m@ == "Stopped"@
            &&& e == seq![Effect::Stop, Effect::StatusShown]
        },
        cmd == "pause"@ ==> if s.player.is_idle {
            t == s && e.len() == 0
        } else {
            !t.manual_stop && e == seq![Effect::TogglePause]
        },
        (cmd == "refresh"@ || cmd == "r"@) ==> t == s && (if s.config.music_folder@.len() > 0 {
            e == seq![Effect::Rescan(Reload::Refresh)]
        } else {
            e.len() == 0
        }),
        cmd == "play"@ ==> if s.library@.len() > 0 {
            &&& e.len() >= 2
            &&& e[0] == Effect::PlayTrack(s.library@[s.selected_index as int].path)
            &&& e[1] == Effect::StatusShown
            &&& t.status_message matches Some(m) && m@ == "\u{266a} "@ + s.library@[s.selected_index as int].title@
            &&& t.selected_index == s.selected_index
        } else {
            t == s && e.len() == 0
        },
{
    reveal_strlit("help");
    reveal_strlit("h");
    reveal_strlit("?");
    reveal_strlit("refresh");
    reveal_strlit("r");
    reveal_strlit("quit");
    reveal_strlit("q");
    reveal_strlit("play");
    reveal_strlit("pause");
    reveal_strlit("stop");
    reveal_strlit("s");
    reveal_strlit("next");
    reveal_strlit("n");
    reveal_strlit("prev");
    reveal_strlit("p");
    reveal_strlit("vol ");
    reveal_strlit("volume ");
    assert("h"@.len() == 1 && "help"@.len() == 4);
    assert("?"@.len() == 1 && "help"@.len() == 4);
    assert("?"@[0] == '?' && "h"@[0] == 'h');
    assert("refresh"@.len() == 7 && "help"@.len() == 4);
    assert("refresh"@.len() == 7 && "h"@.len() == 1);
    assert("refresh"@.len() == 7 && "?"@.len() == 1);
    assert("r"@.len() == 1 && "help"@.len() == 4);
    assert("r"@[0] == 'r' && "h"@[0] == 'h');
    assert("r"@[0] == 'r' && "?"@[0] == '?');
    assert("r"@.len() == 1 && "refresh"@.len() == 7);
    assert("quit"@[0] == 'q' && "help"@[0] == 'h');
    assert("quit"@.len() == 4 && "h"@.len() == 1);
    assert("quit"@.len() == 4 && "?"@.len() == 1);
    assert("quit"@.len() == 4 && "refresh"@.len() == 7);
    assert("quit"@.len() == 4 && "r"@.len() == 1);
    assert("q"@.len() == 1 && "help"@.len() == 4);
    assert("q"@[0] == 'q' && "h"@[0] == 'h');
    assert("q"@[0] == 'q' && "?"@[0] == '?');
    assert("q"@.len() == 1 && "refresh"@.len() == 7);
    assert("q"@[0] == 'q' && "r"@[0] == 'r');
    assert("q"@.len() == 1 && "quit"@.len() == 4);
    assert("play"@[0] == 'p' && "help"@[0] == 'h');
    assert("play"@.len() == 4 && "h"@.len() == 1);
    assert("play"@.len() == 4 && "?"@.len() == 1);
    assert("play"@.len() == 4 && "refresh"@.len() == 7);
    assert("play"@.len() == 4 && "r"@.len() == 1);
    assert("play"@[0] == 'p' && "quit"@[0] == 'q');
    assert("play"@.len() == 4 && "q"@.len() == 1);
    assert("pause"@.len() == 5 && "help"@.len() == 4);
    assert("pause"@.len() == 5 && "h"@.len() == 1);
    assert("pause"@.len() == 5 && "?"@.len() == 1);
    assert("pause"@.len() == 5 && "refresh"@.len() == 7);
    assert("pause"@.len() == 5 && "r"@.len() == 1);
    assert("pause"@.len() == 5 && "quit"@.len() == 4);
    assert("pause"@.len() == 5 && "q"@.len() == 1);
    assert("pause"@.len() == 5 && "play"@.len() == 4);
    assert("stop"@[0] == 's' && "help"@[0] == 'h');
    assert("stop"@.len() == 4 && "h"@.len() == 1);
    assert("stop"@.len() == 4 && "?"@.len() == 1);
    assert("stop"@.len() == 4 && "refresh"@.len() == 7);
    assert("stop"@.len() == 4 && "r"@.len() == 1);
    assert("stop"@[0] == 's' && "quit"@[0] == 'q');
    assert("stop"@.len() == 4 && "q"@.len() == 1);
    assert("stop"@[0] == 's' && "play"@[0] == 'p');
    assert("stop"@.len() == 4 && "pause"@.len() == 5);
    assert("s"@.len() == 1 && "help"@.len() == 4);
    assert("s"@[0] == 's' && "h"@[0] == 'h');
    assert("s"@[0] == 's' && "?"@[0] == '?');
    assert("s"@.len() == 1 && "refresh"@.len() == 7);
    assert("s"@[0] == 's' && "r"@[0] == 'r');
    assert("s"@.len() == 1 && "quit"@.len() == 4);
    assert("s"@[0] == 's' && "q"@[0] == 'q');
    assert("s"@.len() == 1 && "play"@.len() == 4);
    assert("s"@.len() == 1 && "pause"@.len() == 5);
    assert("s"@.len() == 1 && "stop"@.len() == 4);
    assert("next"@[0] == 'n' && "help"@[0] == 'h');
    assert("next"@.len() == 4 && "h"@.len() == 1);
    assert("next"@.len() == 4 && "?"@.len() == 1);
    assert("next"@.len() == 4 && "refresh"@.len() == 7);
    assert("next"@.len() == 4 && "r"@.len() == 1);
    assert("next"@[0] == 'n' && "quit"@[0] == 'q');
    assert("next"@.len() == 4 && "q"@.len() == 1);
    assert("next"@[0] == 'n' && "play"@[0] == 'p');
    assert("next"@.len() == 4 && "pause"@.len() == 5);
    assert("next"@[0] == 'n' && "stop"@[0] == 's');
    assert("next"@.len() == 4 && "s"@.len() == 1);
    assert("n"@.len() == 1 && "help"@.len() == 4);
    assert("n"@[0] == 'n' && "h"@[0] == 'h');
    assert("n"@[0] == 'n' && "?"@[0] == '?');
    assert("n"@.len() == 1 && "refresh"@.len() == 7);
    assert("n"@[0] == 'n' && "r"@[0] == 'r');
    assert("n"@.len() == 1 && "quit"@.len() == 4);
    assert("n"@[0] == 'n' && "q"@[0] == 'q');
    assert("n"@.len() == 1 && "play"@.len() == 4);
    assert("n"@.len() == 1 && "pause"@.len() == 5);
    assert("n"@.len() == 1 && "stop"@.len() == 4);
    assert("n"@[0] == 'n' && "s"@[0] == 's');
    assert("n"@.len() == 1 && "next"@.len() == 4);
    assert("prev"@[0] == 'p' && "help"@[0] == 'h');
    assert("prev"@.len() == 4 && "h"@.len() == 1);
    assert("prev"@.len() == 4 && "?"@.len() == 1);
    assert("prev"@.len() == 4 && "refresh"@.len() == 7);
    assert("prev"@.len() == 4 && "r"@.len() == 1);
    assert("prev"@[0] == 'p' && "quit"@[0] == 'q');
    assert("prev"@.len() == 4 && "q"@.len() == 1);
    assert("prev"@[1] == 'r' && "play"@[1] == 'l');
    assert("prev"@.len() == 4 && "pause"@.len() == 5);
    assert("prev"@[0] == 'p' && "stop"@[0] == 's');
    assert("prev"@.len() == 4 && "s"@.len() == 1);
    assert("prev"@[0] == 'p' && "next"@[0] == 'n');
    assert("prev"@.len() == 4 && "n"@.len() == 1);
    assert("p"@.len() == 1 && "help"@.len() == 4);
    assert("p"@[0] == 'p' && "h"@[0] == 'h');
    assert("p"@[0] == 'p' && "?"@[0] == '?');
    assert("p"@.len() == 1 && "refresh"@.len() == 7);
    assert("p"@[0] == 'p' && "r"@[0] == 'r');
    assert("p"@.len() == 1 && "quit"@.len() == 4);
    assert("p"@[0] == 'p' && "q"@[0] == 'q');
    assert("p"@.len() == 1 && "play"@.len() == 4);
    assert("p"@.len() == 1 && "pause"@.len() == 5);
    assert("p"@.len() == 1 && "stop"@.len() == 4);
    assert("p"@[0] == 'p' && "s"@[0] == 's');
    assert("p"@.len() == 1 && "next"@.len() == 4);
    assert("p"@[0] == 'p' && "n"@[0] == 'n');
    assert("p"@.len() == 1 && "prev"@.len() == 4);
    if cmd == "play"@ && s.library@.len() > 0 {
        let tr = s.library@[s.selected_index as int];
        let e1 = Seq::<Effect>::empty().push(Effect::PlayTrack(tr.path)).push(Effect::StatusShown);
        assert(e[0] == e1[0] && e[1] == e1[1]);
    }
}

/// Merging recorded play counts into tracks sets the count of each track
/// whose path has a recorded count to that count, keeps the count of the
/// others, and changes nothing else.
pub proof fn merge_sets_recorded_counts(tracks: Seq<Track>, once: Seq<Track>, counts: Map<Seq<char>, u32>)
    requires
        once.len() == tracks.len(),
        forall|i: int|
            0 <= i < tracks.len() ==> #[trigger] once[i] == with_play_count(
                tracks[i],
                merged_count(tracks[i], counts),
            ),
    ensures
        forall|i: int| 0 <= i < tracks.len() ==> #[trigger] once[i] == (Track { play_count: once[i].play_count, ..tracks[i] }),
        forall|i: int|
            0 <= i < tracks.len() && counts.contains_key(#[trigger] tracks[i].path@) ==> once[i].play_count
                == counts[tracks[i].path@],
        forall|i: int|
            0 <= i < tracks.len() && !counts.contains_key(#[trigger] tracks[i].path@) ==> once[i].play_count
                == tracks[i].play_count,
{
}

/// A counted play raises the count of the first library track with the
/// played path by exactly one, records that count for the path, and
/// leaves every other track as it was.
pub proof fn counting_adds_one(s: AppState, t: AppState, e: Seq<Effect>, k: int)
    requires
        play_count_rel(s, t, e),
        s.player.is_playing && !s.player.is_idle && !s.player.is_paused,
        s.player.current_track_path is Some,
        !played(s).contains(s.player.current_track_path->0@),
        s.player.duration.total_nanos() > 0,
        2 * s.player.position.total_nanos() >= s.player.duration.total_nanos() || 2 * s.player.position.total_nanos() >= 60_000_000_000,
        0 <= k < s.library@.len(),
        s.library@[k].path@ == s.player.current_track_path->0@,
        forall|i: int| 0 <= i < k ==> #[trigger] s.library@[i].path@ != s.player.current_track_path->0@,
        s.library@[k].play_count < u32::MAX,
    ensures
        t.library@[k].play_count == s.library@[k].play_count + 1,
        t.config.play_counts@[s.library@[k].path@] == t.library@[k].play_count,
        t.library@.len() == s.library@.len(),
        forall|i: int| 0 <= i < s.library@.len() && i != k ==> #[trigger] t.library@[i] == s.library@[i],
        e == seq![Effect::SaveConfigQuiet],
{
    let p = s.player.current_track_path->0@;
    assert(track_index(s.library@, p, 0) == k) by {
        lemma_first_index(s.library@, p, 0, k);
    }
}

proof fn lemma_first_index(lib: Seq<Track>, p: Seq<char>, i: int, k: int)
    requires
        0 <= i <= k < lib.len(),
        lib[k].path@ == p,
        forall|j: int| 0 <= j < k ==> #[trigger] lib[j].path@ != p,
    ensures
        track_index(lib, p, i) == k,
    decreases k - i,
{
    if i < k {
        lemma_first_index(lib, p, i + 1, k);
    }
}

/// A play heard for less than half the track, and less than 30 seconds,
/// is not counted.
pub proof fn short_plays_do_not_count(s: AppState, t: AppState, e: Seq<Effect>)
    requires
        play_count_rel(s, t, e),
        2 * s.player.position.total_nanos() < s.player.duration.total_nanos(),
        2 * s.player.position.total_nanos() < 60_000_000_000,
    ensures
        t == s,
        e.len() == 0,
{
}

proof fn lemma_trim_start_at(s: Seq<char>) -> (i: int)
    ensures
        0 <= i <= s.len(),
        trim_start(s) == s.subrange(i, s.len() as int),
        forall|k: int| 0 <= k < i ==> is_space(#[trigger] s[k]),
        i < s.len() ==> !is_space(s[i]),
    decreases s.len(),
{
    if s.len() > 0 && is_space(s[0]) {
        let j = lemma_trim_start_at(s.drop_first());
        assert(s.drop_first().subrange(j, s.drop_first().len() as int) =~= s.subrange(j + 1, s.len() as int));
        assert forall|k: int| 0 <= k < j + 1 implies is_space(#[trigger] s[k]) by {
            if k > 0 {
                assert(s[k] == s.drop_first()[k - 1]);
            }
        }
        j + 1
    } else {
        assert(s.subrange(0, s.len() as int) =~= s);
        0
    }
}

proof fn lemma_trim_end_at(s: Seq<char>) -> (j: int)
    ensures
        0 <= j <= s.len(),
        trim_end(s) == s.subrange(0, j),
        forall|k: int| j <= k < s.len() ==> is_space(#[trigger] s[k]),
        j > 0 ==> !is_space(s[j - 1]),
    decreases s.len(),
{
    if s.len() > 0 && is_space(s.last()) {
        let j = lemma_trim_end_at(s.drop_last());
        assert(s.drop_last().subrange(0, j) =~= s.subrange(0, j));
        assert forall|k: int| j <= k < s.len() implies is_space(#[trigger] s[k]) by {
            if k < s.len() - 1 {
                assert(s[k] == s.drop_last()[k]);
            }
        }
        j
    } else {
        assert(s.subrange(0, s.len() as int) =~= s);
        s.len() as int
    }
}

/// Trimming removes white space from both ends and nothing else: the
/// result is a stretch of the text, only white space lies before and after
/// it, and it neither starts nor ends with white space.
pub proof fn trim_removes_outer_space(s: Seq<char>)
    ensures
        exists|i: int, j: int|
            0 <= i <= j <= s.len() && trimmed(s) == s.subrange(i, j) && (forall|k: int|
                0 <= k < i ==> is_space(#[trigger] s[k])) && (forall|k: int| j <= k < s.len() ==> is_space(
                #[trigger] s[k],
            )),
        trimmed(s).len() > 0 ==> !is_space(trimmed(s)[0]) && !is_space(trimmed(s).last()),
{
    let i = lemma_trim_start_at(s);
    let mid = s.subrange(i, s.len() as int);
    let j = lemma_trim_end_at(mid);
    assert(mid.subrange(0, j) =~= s.subrange(i, i + j));
    assert forall|k: int| i + j <= k < s.len() implies is_space(#[trigger] s[k]) by {
        assert(s[k] == mid[k - i]);
    }
    if j > 0 {
        assert(trimmed(s)[0] == s[i]);
    }
}

proof fn lemma_digit_value(d: nat)
    requires
        d < 10,
    ensures
        digit(d) as int - '0' as int == d,
        crate::number::is_digit(digit(d)),
{
}

proof fn lemma_decimal_digits(n: nat)
    ensures
        decimal(n).len() > 0,
        all_digits(decimal(n)),
        digits_value(decimal(n)) == n,
    decreases n,
{
    lemma_digit_value(n % 10);
    if n < 10 {
        let x = seq![digit(n)];
        assert(x.drop_last() =~= Seq::<char>::empty());
        assert(x.last() == digit(n));
        assert(digits_value(x) == digits_value(x.drop_last()) * 10 + (x.last() as int - '0' as int));
        assert(n % 10 == n);
    } else {
        lemma_decimal_digits(n / 10);
        let d = decimal(n / 10);
        let x = d.push(digit(n % 10));
        assert(x.drop_last() =~= d);
        assert(x.last() == digit(n % 10));
        assert(digits_value(x) == digits_value(d) * 10 + (n % 10) as int);
        assert(n == (n / 10) * 10 + n % 10) by (nonlinear_arith);
        assert forall|i: int| 0 <= i < x.len() implies crate::number::is_digit(#[trigger] x[i]) by {
            if i < d.len() {
                assert(x[i] == d[i]);
            }
        }
    }
}

/// A number written in decimal reads back as that number: for every `i32`
/// value, its decimal text (with `-` before a negative one) parses to it.
pub proof fn written_numbers_read_back(n: i32)
    ensures
        n >= 0 ==> parse_i32_spec(decimal(n as nat)) == Some(n),
        n < 0 ==> parse_i32_spec(seq!['-'] + decimal((-n) as nat)) == Some(n),
{
    if n >= 0 {
        lemma_decimal_digits(n as nat);
        assert(decimal(n as nat)[0] != '+' && decimal(n as nat)[0] != '-');
    } else {
        lemma_decimal_digits((-n) as nat);
        let t = seq!['-'] + decimal((-n) as nat);
        assert(t.drop_first() =~= decimal((-n) as nat));
    }
}

/// A long text scrolls by one character a tick: while it is scrolling,
/// the next tick shows the text shown now without its first character;
/// what is shown is always the whole text or an end part of it.
pub proof fn marquee_scrolls_one_by_one(text: Seq<char>, offset: nat)
    ensures
        exists|k: int| 0 <= k < text.len() + 1 && marquee(text, offset) == text.subrange(k, text.len() as int),
        text.len() <= 16 ==> marquee(text, offset) == text,
        (text.len() > 16 && 8 <= offset % (text.len() + 16) && offset % (text.len() + 16) - 8 + 1 < text.len())
            ==> marquee(text, offset + 1) == marquee(text, offset).drop_first(),
{
    assert(text.subrange(0, text.len() as int) =~= text);
    if text.len() > 16 {
        let n = (text.len() + 16) as int;
        let c = (offset as int) % n;
        if c >= 8 && c - 8 < text.len() {
            assert(text.skip(c - 8) =~= text.subrange(c - 8, text.len() as int));
        }
        if 8 <= c && c - 8 + 1 < text.len() {
            assert((offset as int + 1) % n == c + 1) by {
                vstd::arithmetic::div_mod::lemma_add_mod_noop(offset as int, 1, n);
                vstd::arithmetic::div_mod::lemma_small_mod(1, n as nat);
                vstd::arithmetic::div_mod::lemma_small_mod((c + 1) as nat, n as nat);
            }
            assert(text.skip(c - 8).drop_first() =~= text.skip(c - 7));
        }
    }
}

/// The clock of `h` hours, `m` minutes and `s` seconds shows them in that
/// order, each with two digits at least; the hours only when there are any.
pub proof fn clock_shows_hours_minutes_seconds(h: nat, m: nat, s: nat)
    requires
        m < 60,
        s < 60,
    ensures
        clock(3600 * h + 60 * m + s) == (if h > 0 {
            pad2(h) + seq![':'] + pad2(m) + seq![':'] + pad2(s)
        } else {
            pad2(m) + seq![':'] + pad2(s)
        }),
{
    let total = 3600 * h + 60 * m + s;
    assert(total / 3600 == h && (total % 3600) / 60 == m && total % 60 == s) by (nonlinear_arith)
        requires
            total == 3600 * h + 60 * m + s,
            m < 60,
            s < 60,
    ;
}

/// Cover art is drawn one cell inside its area, as wide as the area less
/// its border (at least 4 cells) but at most twice as wide as the area is
/// high less its border (at least 4 cells).
pub proof fn art_drawn_inside_border(s: AppState, t: AppState, r: Area, has_image: bool, a: ArtAction)
    requires
        art_rel(s, t, Some(r), has_image, a),
        a is Draw,
        r.x < u16::MAX,
        (r.y as i16) < i16::MAX,
    ensures
        ({
            let w: int = if r.width >= 6 { r.width - 2 } else { 4 };
            let h: int = if r.height >= 6 { r.height - 2 } else { 4 };
            &&& a->x == r.x + 1
            &&& a->y == r.y as i16 + 1
            &&& a->width <= w && a->width <= 2 * h
            &&& (a->width == w || a->width == 2 * h)
        }),
        has_image && r.width > 4 && r.height > 2,
        t.last_art_area == Some(r) && !t.art_needs_render,
{
}

/// What a track is called when its tags leave a gap: a missing title is
/// the file name without its extension, a missing artist is `Unknown
/// Artist`; the format is the extension in upper case; a new track has
/// never been played.
pub proof fn description_defaults(t: Track, f: FileFacts)
    requires
        described_as(t, f),
    ensures
        t.path@ == f.path@,
        t.title@.len() == 0 ==> path_stem(f.path@) is None || path_stem(f.path@) == Some(Seq::<char>::empty()),
        t.artist@.len() > 0,
        forall|e: Seq<char>| path_extension(f.path@) == Some(e) ==> t.format@ == uppercase(e),
        path_extension(f.path@) is None ==> t.format@.len() == 0,
        t.play_count == 0,
        f.tagged is None ==> t.title@ == (match path_stem(f.path@) {
            Some(st) => st,
            None => Seq::<char>::empty(),
        }) && t.artist@ == "Unknown Artist"@ && t.album@.len() == 0 && t.year == 0 && t.bitrate == 0,
{
    reveal_strlit("Unknown Artist");
}

/// A cover scaled down keeps its shape: the shorter side is the longer
/// side's share of 300 pixels, rounded to the nearest pixel.
pub proof fn cover_keeps_proportions(w: u32, h: u32)
    requires
        w > 300 || h > 300,
    ensures
        w > h ==> ({
            let nh = cover_size(w, h).1 as int;
            &&& 2 * w * nh <= 600 * h + w
            &&& 600 * h + w < 2 * w * (nh + 1)
        }),
        w <= h ==> ({
            let nw = cover_size(w, h).0 as int;
            &&& 2 * h * nw <= 600 * w + h
            &&& 600 * w + h < 2 * h * (nw + 1)
        }),
{
    cover_fits(w, h);
    if w > h {
        let q = scaled_to_300(h as int, w as int);
        assert(2 * w * q <= 600 * h + w && 600 * h + w < 2 * w * (q + 1) && 0 <= q <= 300) by (nonlinear_arith)
            requires
                q == (600 * h + w) / (2 * w),
                w > h,
                h >= 0,
        ;
    } else {
        let q = scaled_to_300(w as int, h as int);
        assert(2 * h * q <= 600 * w + h && 600 * w + h < 2 * h * (q + 1) && 0 <= q <= 300) by (nonlinear_arith)
            requires
                q == (600 * w + h) / (2 * h),
                h >= w,
                w >= 0,
                h > 0,
        ;
    }
}

/// Rounding the corners changes only alpha bytes, only of pixels in a
/// corner square of the corner radius, and only to 0; the radius is at
/// least one pixel.
pub proof fn rounding_touches_only_corner_alpha(w: u32, h: u32, pct: u32, px: Seq<u8>, i: int)
    requires
        0 <= i < px.len(),
        w > 0,
        rounded(w, h, pct, px)[i] != px[i],
    ensures
        i % 4 == 3,
        rounded(w, h, pct, px)[i] == 0,
        ({
            let r = corner_radius(w, h, pct);
            let x = (i / 4) % (w as int);
            let y = (i / 4) / (w as int);
            &&& (x < r || x >= w - r)
            &&& (y < r || y >= h - r)
        }),
        corner_radius(w, h, pct) >= 1,
{
}

/// The progress bar: without a length it is `bar` plain segments; with
/// one it is plain segments around a single knob, placed at the played
/// share of the bar rounded to the nearest cell (at most the bar's end).
pub proof fn progress_knob_at_played_share(position: Duration, duration: Duration, width: u16)
    ensures
        ({
            let bar: int = if width >= 35 { width - 25 } else { 10 };
            let pos = position.total_nanos();
            let dur = duration.total_nanos();
            let text = progress_text(position, duration, width);
            &&& dur <= 0 ==> text.len() == bar && forall|k: int| 0 <= k < bar ==> #[trigger] text[k] == '\u{2501}'
            &&& dur > 0 ==> exists|f: int| {
                &&& 0 <= f <= bar
                &&& text.len() == (if f < bar { bar } else { bar + 1 })
                &&& text[f] == '\u{2b24}'
                &&& (forall|k: int| 0 <= k < text.len() && k != f ==> #[trigger] text[k] == '\u{2501}')
                &&& (f < bar ==> 2 * f * dur <= 2 * pos * bar + dur && 2 * pos * bar + dur < 2 * (f + 1) * dur)
                &&& (f == bar ==> 2 * pos * bar + dur >= 2 * bar * dur)
            }
        }),
{
    let bar: int = if width >= 35 { width - 25 } else { 10 };
    let pos = position.total_nanos();
    let dur = duration.total_nanos();
    if dur > 0 {
        let q = (2 * pos * bar + dur) / (2 * dur);
        assert(2 * q * dur <= 2 * pos * bar + dur && 2 * pos * bar + dur < 2 * (q + 1) * dur) by (nonlinear_arith)
            requires
                q == (2 * pos * bar + dur) / (2 * dur),
                dur > 0,
        ;
        assert(q >= 0) by (nonlinear_arith)
            requires
                q == (2 * pos * bar + dur) / (2 * dur),
                dur > 0,
                pos >= 0,
                bar >= 0,
        ;
        let f: int = if q < bar { q } else { bar };
        if q >= bar {
            assert(2 * pos * bar + dur >= 2 * bar * dur) by (nonlinear_arith)
                requires
                    2 * q * dur <= 2 * pos * bar + dur,
                    q >= bar,
                    dur > 0,
            ;
        }
        let text = progress_text(position, duration, width);
        assert(text[f] == '\u{2b24}');
    }
}

/// The playback word: `Paused` exactly when paused and not playing,
/// `No Playback` exactly when idle and neither playing nor paused, `Now
/// Playing` otherwise.
pub proof fn status_words(st: PlayerState)
    ensures
        (st.is_paused && !st.is_playing) ==> status_word(st) == "Paused"@,
        (st.is_idle && !st.is_playing && !st.is_paused) ==> status_word(st) == "No Playback"@,
        (st.is_playing || (!st.is_paused && !st.is_idle)) ==> status_word(st) == "Now Playing"@,
{
}

/// The library panel's title counts the tracks, with `track` for one and
/// `tracks` for any other number.
pub proof fn library_title_counts(n: nat)
    ensures
        n == 1 ==> library_title_text(n) == " Library (1 track) "@,
        n != 1 ==> library_title_text(n) == " Library ("@ + decimal(n) + " tracks) "@,
{
    reveal_strlit(" Library (1 track) ");
    reveal_strlit(" Library (");
    reveal_strlit(" track) ");
    if n == 1 {
        assert(decimal(1) == seq!['1']);
        assert(library_title_text(n) =~= " Library (1 track) "@);
    }
}

/// The channel label: `Mono` for one, `Stereo` for two, the number and
/// `ch` for more, nothing for none.
pub proof fn channel_labels(n: u8)
    ensures
        n == 1 ==> channels_text(n) == "Mono"@,
        n == 2 ==> channels_text(n) == "Stereo"@,
        n > 2 ==> channels_text(n) == decimal(n as nat) + " ch"@,
        n == 0 ==> channels_text(n).len() == 0,
{
}

/// The track info panel starts with the title, artist and album lines,
/// ends with the length line, and has a genre line exactly when the track
/// has a genre and a track-number line exactly when it has a number.
pub proof fn info_rows_shape(t: Track)
    ensures
        ({
            let r = info_rows_text(t);
            let g: int = if t.genre@.len() > 0 { 1 } else { 0 };
            let n: int = if t.track_number@.len() > 0 { 1 } else { 0 };
            &&& r.len() == 4 + g + n
            &&& r[0] == ("Title:   "@, t.title@)
            &&& r[1] == ("Artist:  "@, t.artist@)
            &&& r[2] == ("Album:   "@, t.album@)
            &&& g == 1 ==> r[3] == ("Genre:   "@, t.genre@)
            &&& n == 1 ==> r[3 + g] == ("Track:   "@, t.track_number@)
            &&& r[r.len() - 1] == ("Length:  "@, clock(t.duration.secs as nat))
        }),
{
}

/// The now-playing title: `artist - title` of the first library track with
/// the played path; for a path not in the library its file stem; with
/// nothing loaded, `Nothing Playing`.
pub proof fn now_playing_names(lib: Seq<Track>, current: Option<String>, k: int)
    ensures
        current is None ==> now_playing_text(lib, current) == "Nothing Playing"@,
        (current matches Some(p) && 0 <= k < lib.len() && lib[k].path@ == p@ && (forall|i: int|
            0 <= i < k ==> #[trigger] lib[i].path@ != p@)) ==> now_playing_text(lib, current) == lib[k].artist@
            + " - "@ + lib[k].title@,
        current matches Some(p) ==> ((forall|i: int| 0 <= i < lib.len() ==> #[trigger] lib[i].path@ != p@)
            ==> now_playing_text(lib, current) == (match path_stem(p@) {
            Some(st) => st,
            None => "Nothing Playing"@,
        })),
{
    if let Some(p) = current {
        if 0 <= k < lib.len() && lib[k].path@ == p@ && (forall|i: int| 0 <= i < k ==> #[trigger] lib[i].path@ != p@) {
            lemma_first_with_path(lib, p@, 0, k);
        }
        if forall|i: int| 0 <= i < lib.len() ==> #[trigger] lib[i].path@ != p@ {
            lemma_no_path(lib, p@, 0);
        }
    }
}

proof fn lemma_first_with_path(lib: Seq<Track>, p: Seq<char>, i: int, k: int)
    requires
        0 <= i <= k < lib.len(),
        lib[k].path@ == p,
        forall|j: int| 0 <= j < k ==> #[trigger] lib[j].path@ != p,
    ensures
        first_with_path(lib, p, i) == k,
    decreases k - i,
{
    if i < k {
        lemma_first_with_path(lib, p, i + 1, k);
    }
}

proof fn lemma_no_path(lib: Seq<Track>, p: Seq<char>, i: int)
    requires
        0 <= i <= lib.len(),
        forall|j: int| 0 <= j < lib.len() ==> #[trigger] lib[j].path@ != p,
    ensures
        first_with_path(lib, p, i) == lib.len(),
    decreases lib.len() - i,
{
    if i < lib.len() {
        lemma_no_path(lib, p, i + 1);
    }
}

/// The tag fields of a file with a primary tag are that tag's, each
/// absent item empty; a file with no tags at all gives empty fields.
pub proof fn primary_tag_wins(c: TagChoice, primary: Option<TagFields>, tags: Seq<TagFields>)
    requires
        tag_choice_spec(c, primary, tags),
    ensures
        primary matches Some(p) ==> {
            &&& c.title@ == text_or_empty(p.title)
            &&& c.artist@ == text_or_empty(p.artist)
            &&& c.album@ == text_or_empty(p.album)
            &&& c.genre@ == text_or_empty(p.genre)
            &&& c.track_number@ == text_or_empty(p.track_number)
            &&& c.has_cover == p.has_picture
        },
        (primary is None && tags.len() == 0) ==> c.title@.len() == 0 && c.artist@.len() == 0 && c.year == 0
            && !c.has_cover,
        (primary is None && tags.len() > 0 && text_or_empty(tags[0].title).len() > 0) ==> {
            &&& c.title@ == text_or_empty(tags[0].title)
            &&& c.artist@ == text_or_empty(tags[0].artist)
            &&& c.has_cover == tags[0].has_picture
        },
{
}

/// The cover picture is the primary tag's first picture, or, without a
/// primary tag, the first tag's; a picture without bytes counts as none.
pub proof fn cover_picture_source(primary: Option<Option<Seq<u8>>>, first: Option<Option<Seq<u8>>>)
    ensures
        primary matches Some(Some(d)) ==> picture_choice(primary, first) == (if d.len() > 0 {
            Some(d)
        } else {
            None::<Seq<u8>>
        }),
        primary == Some(None::<Seq<u8>>) ==> picture_choice(primary, first) is None,
        primary is None ==> picture_choice(primary, first) == picture_choice(first, None),
        picture_choice(primary, first) matches Some(d) ==> d.len() > 0,
{
}

/// The start: without a chosen folder, or with one that does not exist,
/// the player asks for a folder; otherwise it shows the library and scans
/// the folder.
pub proof fn start_screen(config: Config, folder_exists: bool, s: AppState, e: Seq<Effect>)
    requires
        s.screen == (if config.music_folder@.len() == 0 || !folder_exists {
            AppScreen::Setup
        } else {
            AppScreen::Main
        }),
        e == (if config.music_folder@.len() != 0 && folder_exists {
            seq![Effect::Rescan(Reload::Startup)]
        } else {
            Seq::<Effect>::empty()
        }),
    ensures
        config.music_folder@.len() == 0 ==> s.screen == AppScreen::Setup && e.len() == 0,
        !folder_exists ==> s.screen == AppScreen::Setup && e.len() == 0,
        (config.music_folder@.len() > 0 && folder_exists) ==> s.screen == AppScreen::Main && e.len() == 1
            && e[0] == Effect::Rescan(Reload::Startup),
{
}

/// A finished scan selects the first track; after the setup it shows the
/// library screen; setup, folder change and refresh report how many
/// tracks were found.
pub proof fn scan_results(s: AppState, t: AppState, tracks: Seq<Track>, reload: Reload, e: Seq<Effect>)
    requires
        library_loaded_rel(s, t, tracks, reload, e),
    ensures
        t.selected_index == 0,
        t.library@.len() == tracks.len(),
        forall|i: int| 0 <= i < tracks.len() ==> #[trigger] t.library@[i].path == tracks[i].path,
        reload == Reload::Setup ==> t.screen == AppScreen::Main && shows(t, "Library loaded! "@ + decimal(
            tracks.len(),
        ) + " tracks found"@),
        reload == Reload::ChangeFolder ==> shows(t, "Music folder changed! "@ + decimal(tracks.len())
            + " tracks loaded"@),
        reload == Reload::Refresh ==> shows(t, "Library refreshed! "@ + decimal(tracks.len()) + " tracks"@),
        reload != Reload::Setup ==> t.screen == s.screen,
{
    assert forall|i: int| 0 <= i < tracks.len() implies #[trigger] t.library@[i].path == tracks[i].path by {
        assert(t.library@[i] == with_play_count(tracks[i], merged_count(tracks[i], s.config.play_counts@)));
    }
}

/// Enter on the library screen pauses or resumes (by a fade) the track
/// that is selected and loaded, and plays the selected track otherwise;
/// Space plays the selected track when nothing is loaded, and pauses or
/// resumes otherwise.
pub proof fn enter_and_space(s: AppState, t: AppState, code: KeyCode, alt: bool, e: Seq<Effect>)
    requires
        s.wf(),
        s.screen == AppScreen::Main,
        !s.change_folder_mode,
        !s.command_mode,
        !s.show_help,
        key_rel(s, t, KeyPress { code, alt }, e),
    ensures
        (code == KeyCode::Enter && s.library@.len() == 0) ==> t == s && e.len() == 0,
        (code == KeyCode::Enter && s.library@.len() > 0 && selected_is_current(s)) ==> start_fade_rel(
            AppState { manual_stop: false, ..s },
            t,
            Seq::empty(),
            e,
        ),
        (code == KeyCode::Enter && s.library@.len() > 0 && !selected_is_current(s)) ==> {
            &&& e.len() >= 2
            &&& e[0] == Effect::PlayTrack(s.library@[s.selected_index as int].path)
            &&& !t.manual_stop
        },
        (code == KeyCode::Char(' ') && s.library@.len() > 0 && s.player.is_idle) ==> e.len() >= 2 && e[0]
            == Effect::PlayTrack(s.library@[s.selected_index as int].path),
        (code == KeyCode::Char(' ') && !(s.library@.len() > 0 && s.player.is_idle)) ==> start_fade_rel(
            AppState { manual_stop: false, ..s },
            t,
            Seq::empty(),
            e,
        ),
{
    if s.library@.len() > 0 {
        let tr = s.library@[s.selected_index as int];
        let e1 = Seq::<Effect>::empty().push(Effect::PlayTrack(tr.path)).push(Effect::StatusShown);
        assert(e1[0] == Effect::PlayTrack(tr.path));
        if code == KeyCode::Enter && !selected_is_current(s) {
            assert(play_selected_rel(s, t, Seq::empty(), e));
            assert(e[0] == e1[0]);
        }
        if code == KeyCode::Char(' ') && s.player.is_idle {
            assert(play_selected_rel(s, t, Seq::empty(), e));
            assert(e[0] == e1[0]);
        }
    }
}

/// The folder input, the palette and the help page take the keys first:
/// in the folder input Esc closes it emptied and Enter asks whether the
/// trimmed path is a directory; in the palette Esc closes it emptied and
/// Enter closes it emptied and runs the trimmed command in lower case; the
/// help page closes on Esc or `q` and ignores other keys.
pub proof fn modes_take_keys_first(s: AppState, t: AppState, code: KeyCode, alt: bool, e: Seq<Effect>)
    requires
        s.screen == AppScreen::Main,
        key_rel(s, t, KeyPress { code, alt }, e),
    ensures
        (s.change_folder_mode && code == KeyCode::Esc) ==> !t.change_folder_mode && t.setup_path@.len() == 0
            && e.len() == 0 && t.config == s.config,
        (s.change_folder_mode && code == KeyCode::Enter) ==> t == s && e.len() == 1 && (e[0] matches Effect::CheckFolder { path, origin }
            && path@ == trimmed(s.setup_path@) && origin == FolderOrigin::ChangeFolder),
        (!s.change_folder_mode && s.command_mode && code == KeyCode::Esc) ==> !t.command_mode && t.command_input@.len()
            == 0 && e.len() == 0,
        (!s.change_folder_mode && s.command_mode && code == KeyCode::Enter) ==> !t.command_mode
            && t.command_input@.len() == 0 && command_rel(
            AppState { command_mode: false, command_input: t.command_input, ..s },
            t,
            lowercase(trimmed(s.command_input@)),
            e,
        ),
        (!s.change_folder_mode && !s.command_mode && s.show_help) ==> e.len() == 0 && (if code == KeyCode::Esc
            || code == KeyCode::Char('q') {
            t == (AppState { show_help: false, ..s })
        } else {
            t == s
        }),
{
    if !s.change_folder_mode && s.command_mode && code == KeyCode::Enter {
        reveal_strlit("help");
        reveal_strlit("h");
        reveal_strlit("?");
    }
}

/// One tick of scrolling text: a changed selection restarts the scroll
/// from the start; otherwise the scroll moves on by one every fourth tick.
pub proof fn marquee_ticks(s: AppState, t: AppState)
    requires
        marquee_rel(s, t),
        s.marquee_counter < usize::MAX,
    ensures
        t.prev_selected == s.selected_index,
        t.selected_index == s.selected_index,
        s.selected_index != s.prev_selected ==> t.marquee_counter == 1 && t.marquee_offset == 0,
        (s.selected_index == s.prev_selected && (s.marquee_counter + 1) % 4 != 0) ==> t.marquee_counter
            == s.marquee_counter + 1 && t.marquee_offset == s.marquee_offset,
        (s.selected_index == s.prev_selected && (s.marquee_counter + 1) % 4 == 0 && s.marquee_offset
            < usize::MAX) ==> t.marquee_counter == s.marquee_counter + 1 && t.marquee_offset == s.marquee_offset
            + 1,
{
}

/// The corner radius is the given percentage of the shorter side, rounded
/// to the nearest pixel (halves up), and at least one pixel.
pub proof fn corner_radius_is_rounded_share(w: u32, h: u32, pct: u32)
    ensures
        ({
            let m: int = if w < h { w as int } else { h as int };
            let r = corner_radius(w, h, pct);
            &&& r >= 1
            &&& r > 1 ==> 200 * r <= 2 * m * pct + 100 && 2 * m * pct + 100 < 200 * (r + 1)
            &&& r == 1 ==> 2 * m * pct + 100 < 400
        }),
{
    let m: int = if w < h { w as int } else { h as int };
    let q = (2 * m * pct + 100) / 200;
    assert(200 * q <= 2 * m * pct + 100 && 2 * m * pct + 100 < 200 * (q + 1)) by (nonlinear_arith)
        requires
            q == (2 * m * pct + 100) / 200,
    ;
}

/// Text with anything but decimal digits after an optional leading `+` or
/// `-` is not a number, and neither is empty text or a lone sign.
pub proof fn non_numbers_are_refused(s: Seq<char>)
    ensures
        s.len() == 0 ==> parse_i32_spec(s) is None,
        (s.len() == 1 && (s[0] == '+' || s[0] == '-')) ==> parse_i32_spec(s) is None,
        (s.len() > 0 && !is_digit(s[0]) && s[0] != '+' && s[0] != '-') ==> parse_i32_spec(s) is None,
        forall|k: int| 0 < k < s.len() && !is_digit(#[trigger] s[k]) ==> parse_i32_spec(s) is None,
{
    assert forall|k: int| 0 < k < s.len() && !is_digit(#[trigger] s[k]) implies parse_i32_spec(s) is None by {
        assert(!all_digits(s));
        if s.len() > 0 && (s[0] == '+' || s[0] == '-') {
            assert(s.drop_first()[k - 1] == s[k]);
            assert(!all_digits(s.drop_first()));
        }
    }
    if s.len() == 1 && (s[0] == '+' || s[0] == '-') {
        assert(s.drop_first().len() == 0);
    }
    if s.len() > 0 && !is_digit(s[0]) {
        assert(!all_digits(s));
    }
}

proof fn lemma_last_word(t: Seq<char>) -> (k: int)
    ensures
        0 <= k <= t.len(),
        last_word(t) == t.subrange(k, t.len() as int),
        forall|i: int| k <= i < t.len() ==> !is_space(#[trigger] t[i]),
        k > 0 ==> is_space(t[k - 1]),
    decreases t.len(),
{
    if t.len() == 0 || is_space(t.last()) {
        assert(t.subrange(t.len() as int, t.len() as int) =~= Seq::<char>::empty());
        t.len() as int
    } else {
        let k = lemma_last_word(t.drop_last());
        assert(t.drop_last().subrange(k, t.len() - 1).push(t.last()) =~= t.subrange(k, t.len() as int));
        assert forall|i: int| k <= i < t.len() implies !is_space(#[trigger] t[i]) by {
            if i < t.len() - 1 {
                assert(t[i] == t.drop_last()[i]);
            }
        }
        if k > 0 {
            assert(t[k - 1] == t.drop_last()[k - 1]);
        }
        k
    }
}

/// The last word of a text: none for blank text; otherwise a non-empty
/// stretch without white space, followed in the text only by white space
/// and preceded by white space or the start.
pub proof fn last_token_is_last_word(s: Seq<char>)
    ensures
        (forall|i: int| 0 <= i < s.len() ==> is_space(#[trigger] s[i])) ==> last_token(s) is None,
        last_token(s) matches Some(tok) ==> exists|k: int, j: int| {
            &&& 0 <= k < j <= s.len()
            &&& tok == s.subrange(k, j)
            &&& (forall|i: int| k <= i < j ==> !is_space(#[trigger] s[i]))
            &&& (forall|i: int| j <= i < s.len() ==> is_space(#[trigger] s[i]))
            &&& (k > 0 ==> is_space(s[k - 1]))
        },
{
    let j = lemma_trim_end_at(s);
    let t = s.subrange(0, j);
    if forall|i: int| 0 <= i < s.len() ==> is_space(#[trigger] s[i]) {
        if j > 0 {
            assert(is_space(s[j - 1]));
        }
    }
    if j > 0 {
        assert(t.last() == s[j - 1]);
        let k = lemma_last_word(t);
        assert(t.subrange(k, j) =~= s.subrange(k, j));
        assert forall|i: int| k <= i < j implies !is_space(#[trigger] s[i]) by {
            assert(s[i] == t[i]);
        }
        if k > 0 {
            assert(s[k - 1] == t[k - 1]);
        }
        assert(k < j) by {
            assert(!is_space(t[j - 1]));
        }
    }
}

} // verus!
