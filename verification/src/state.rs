//! The player's screen state and the decisions it makes on each key press
//! and each tick: what changes, and which outside actions follow, in order.
use vstd::prelude::*;
use crate::config::Config;
use crate::library::{merge_play_counts, with_play_count, merged_count, Duration, Track};
use crate::text::{
    decimal, last_token, last_token_of, lowercase, owned, pop_char, push_char,
    push_decimal, push_str, same_text, starts_with, to_lowercase, trim, trimmed,
};

verus! {

/// The two screens: folder setup on first start, and the library.
#[derive(Clone, Copy, Debug, PartialEq, Eq, Structural)]
pub enum AppScreen {
    Setup,
    Main,
}

/// A key the player reacts to.
#[derive(Clone, Copy, Debug, PartialEq, Eq, Structural)]
pub enum KeyCode {
    Char(char),
    Backspace,
    Enter,
    Esc,
    Up,
    Down,
    Left,
    Right,
    PageUp,
    PageDown,
    Home,
    End,
    Other,
}

/// A key press, with whether Alt was held.
#[derive(Clone, Copy, Debug, PartialEq, Eq, Structural)]
pub struct KeyPress {
    pub code: KeyCode,
    pub alt: bool,
}

/// What the audio backend last reported, but for the volume.
pub struct PlayerState {
    pub is_playing: bool,
    pub is_paused: bool,
    pub is_idle: bool,
    pub position: Duration,
    pub duration: Duration,
    pub current_track_path: Option<String>,
}

impl Default for PlayerState {
    /// The state before the backend reported anything: idle, nothing loaded.
    fn default() -> (r: PlayerState)
        ensures
            !r.is_playing && !r.is_paused && r.is_idle,
            r.position.total_nanos() == 0,
            r.duration.total_nanos() == 0,
            r.current_track_path is None,
    {
        PlayerState {
            is_playing: false,
            is_paused: false,
            is_idle: true,
            position: Duration::zero(),
            duration: Duration::zero(),
            current_track_path: None,
        }
    }
}

/// A volume fade in progress, with the number of steps taken (of three).
#[derive(Clone, Copy, Debug, PartialEq, Eq, Structural)]
pub enum Fade {
    Out { step: u8 },
    In { step: u8 },
}

/// Where a folder path was typed.
#[derive(Clone, Copy, Debug, PartialEq, Eq, Structural)]
pub enum FolderOrigin {
    Setup,
    ChangeFolder,
}

/// Why the library is scanned.
#[derive(Clone, Copy, Debug, PartialEq, Eq, Structural)]
pub enum Reload {
    Startup,
    Setup,
    ChangeFolder,
    Refresh,
}

/// An action outside the state, for the caller to perform in order.
/// Where the action reports a result, the caller hands it back through the
/// method named in the variant's documentation.
pub enum Effect {
    /// Stop the program.
    Quit,
    /// Read, decode and show the cover art of this file.
    LoadCover(String),
    /// Load this file and play it; a failure ends the program.
    PlayTrack(String),
    /// Load this file and play it; a failure is ignored.
    PlayTrackQuiet(String),
    /// Stop playback; a failure ends the program.
    Stop,
    /// Seek five seconds forward or back.
    Seek { forward: bool },
    /// Raise or lower the volume by five within 0..=100 and show it; a
    /// failure ends the program.
    StepVolume { up: bool },
    /// Read this text as a volume, clamp it to 0..=100, set and show it;
    /// text that is not a number does nothing; a failure ends the program.
    SetVolumeText(String),
    /// Pause or resume; a failure ends the program.
    TogglePause,
    /// Remove the cover art drawn on the terminal.
    ClearAlbumArt,
    /// Find out whether this path is an existing directory and report it
    /// through `AppState::folder_checked`.
    CheckFolder { path: String, origin: FolderOrigin },
    /// Write the settings; a failure ends the program.
    SaveConfig,
    /// Write the settings; a failure is ignored.
    SaveConfigQuiet,
    /// Scan the music folder and hand the tracks to `AppState::library_loaded`.
    Rescan(Reload),
    /// A status message was set: restart its display time.
    StatusShown,
    /// Remember the current volume as the fade's base volume.
    CaptureFadeVolume,
    /// Set the volume back to the fade's base volume (failure ignored).
    RestoreFadeVolume,
    /// Set the volume for step `step` of a fade out or in (failure ignored).
    FadeVolume { fading_out: bool, step: u8 },
    /// Set the volume to zero (failure ignored).
    Mute,
    /// Pause (failure ignored).
    Pause,
    /// Pause or resume (failure ignored).
    TogglePauseQuiet,
}

/// A terminal area, in cells.
#[derive(Clone, Copy, Debug, PartialEq, Eq, Structural)]
pub struct Area {
    pub x: u16,
    pub y: u16,
    pub width: u16,
    pub height: u16,
}

/// What to do with the cover art on the terminal.
#[derive(Clone, Copy, Debug, PartialEq, Eq, Structural)]
pub enum ArtAction {
    Nothing,
    Clear,
    Draw { x: u16, y: i16, width: u32 },
}

/// Everything the player decides on.
pub struct AppState {
    pub screen: AppScreen,
    pub config: Config,
    pub library: Vec<Track>,
    pub selected_index: usize,
    pub player: PlayerState,
    pub setup_path: String,
    pub status_message: Option<String>,
    pub change_folder_mode: bool,
    pub command_mode: bool,
    pub command_input: String,
    pub show_help: bool,
    pub marquee_offset: usize,
    pub marquee_counter: usize,
    pub prev_selected: usize,
    pub manual_stop: bool,
    pub current_cover_path: Option<String>,
    pub art_needs_render: bool,
    pub last_art_area: Option<Area>,
    pub played_tracks: Vec<String>,
    pub fade: Option<Fade>,
}

/// `len.saturating_sub(1)`: the last index of a list, 0 when empty.
pub open spec fn last_index(len: nat) -> nat {
    if len == 0 { 0 } else { (len - 1) as nat }
}

/// The state shows the status message `msg`.
pub open spec fn shows(s: AppState, msg: Seq<char>) -> bool {
    s.status_message matches Some(m) && m@ == msg
}

/// The paths of the tracks counted as played this session.
pub open spec fn played(s: AppState) -> Set<Seq<char>> {
    Set::new(|p: Seq<char>| exists|i: int| 0 <= i < s.played_tracks@.len() && #[trigger] s.played_tracks@[i]@ == p)
}

impl AppState {
    /// The state is consistent: the selection points into a non-empty
    /// library (or is 0), and a fade has taken fewer than three steps.
    pub open spec fn wf(self) -> bool {
        &&& self.selected_index == 0 || self.selected_index < self.library@.len()
        &&& self.library@.len() <= isize::MAX
        &&& match self.fade {
            Some(Fade::Out { step }) => step < 3,
            Some(Fade::In { step }) => step < 3,
            None => true,
        }
    }

    /// The path of the selected track, if the library has one.
    pub open spec fn selected_path(self) -> Option<Seq<char>> {
        if self.selected_index < self.library@.len() {
            Some(self.library@[self.selected_index as int].path@)
        } else {
            None
        }
    }

    /// The state the player starts in with these settings: the setup
    /// screen when no folder is set or it does not exist, the library
    /// screen otherwise, with a scan of the folder requested in that case.
    pub fn new(config: Config, folder_exists: bool) -> (r: (AppState, Vec<Effect>))
        ensures
            r.0.wf(),
            r.0.config == config,
            r.0.library@.len() == 0,
            r.0.selected_index == 0,
            r.0.screen == (if config.music_folder@.len() == 0 || !folder_exists {
                AppScreen::Setup
            } else {
                AppScreen::Main
            }),
            r.0.setup_path@ == Seq::<char>::empty(),
            r.0.command_input@ == Seq::<char>::empty(),
            r.0.status_message is None,
            !r.0.change_folder_mode && !r.0.command_mode && !r.0.show_help && !r.0.manual_stop,
            r.0.marquee_offset == 0 && r.0.marquee_counter == 0 && r.0.prev_selected == 0,
            r.0.current_cover_path is None,
            !r.0.art_needs_render,
            r.0.last_art_area is None,
            r.0.played_tracks@.len() == 0,
            r.0.fade is None,
            r.0.player.is_idle && !r.0.player.is_playing && !r.0.player.is_paused,
            r.0.player.current_track_path is None,
            r.1@ == (if config.music_folder@.len() != 0 && folder_exists {
                seq![Effect::Rescan(Reload::Startup)]
            } else {
                Seq::<Effect>::empty()
            }),
    {
        let has_folder = !config.music_folder.as_str().is_empty();
        let scan = has_folder && folder_exists;
        let screen = if scan { AppScreen::Main } else { AppScreen::Setup };
        let state = AppState {
            screen,
            config,
            library: Vec::new(),
            selected_index: 0,
            player: PlayerState::default(),
            setup_path: String::new(),
            status_message: None,
            change_folder_mode: false,
            command_mode: false,
            command_input: String::new(),
            show_help: false,
            marquee_offset: 0,
            marquee_counter: 0,
            prev_selected: 0,
            manual_stop: false,
            current_cover_path: None,
            art_needs_render: false,
            last_art_area: None,
            played_tracks: Vec::new(),
            fade: None,
        };
        let mut effects: Vec<Effect> = Vec::new();
        if scan {
            effects.push(Effect::Rescan(Reload::Startup));
        }
        (state, effects)
    }

    /// Shows a status message.
    pub fn set_status(&mut self, msg: &str)
        ensures
            *final(self) == (AppState { status_message: final(self).status_message, ..*old(self) }),
            shows(*final(self), msg@),
    {
        self.status_message = Some(owned(msg));
    }

    /// Removes the status message, once it has been shown long enough.
    pub fn clear_status(&mut self)
        ensures
            *final(self) == (AppState { status_message: None, ..*old(self) }),
    {
        self.status_message = None;
    }

    fn show(&mut self, msg: String, effects: &mut Vec<Effect>)
        ensures
            *final(self) == (AppState { status_message: Some(msg), ..*old(self) }),
            final(effects)@ == old(effects)@.push(Effect::StatusShown),
    {
        self.status_message = Some(msg);
        effects.push(Effect::StatusShown);
    }

    /// Asks for the cover art of `path` unless it is the one already shown.
    fn load_cover_art(&mut self, path: String, effects: &mut Vec<Effect>)
        requires
            old(self).wf(),
        ensures
            final(self).wf(),
            cover_requested(*old(self), *final(self), path, old(effects)@, final(effects)@),
    {
        let same = match &self.current_cover_path {
            Some(p) => same_text(p.as_str(), path.as_str()),
            None => false,
        };
        if same {
            return;
        }
        let p = path.clone();
        effects.push(Effect::LoadCover(p));
        self.current_cover_path = Some(path);
        self.art_needs_render = true;
    }

    /// Asks for the cover art of the selected track, if there is one.
    fn load_selected_cover(&mut self, effects: &mut Vec<Effect>)
        requires
            old(self).wf(),
        ensures
            final(self).wf(),
            selected_cover_requested(*old(self), *final(self), old(effects)@, final(effects)@),
    {
        if self.selected_index < self.library.len() {
            let path = self.library[self.selected_index].path.clone();
            self.load_cover_art(path, effects);
        }
    }

    /// Plays the selected track, shows its title and asks for its cover.
    fn play_selected(&mut self, effects: &mut Vec<Effect>)
        requires
            old(self).wf(),
        ensures
            final(self).wf(),
            play_selected_rel(*old(self), *final(self), old(effects)@, final(effects)@),
    {
        if self.selected_index < self.library.len() {
            let path = self.library[self.selected_index].path.clone();
            let title = self.library[self.selected_index].title.clone();
            self.manual_stop = false;
            effects.push(Effect::PlayTrack(path.clone()));
            let mut msg = owned("\u{266a} ");
            push_str(&mut msg, title.as_str());
            self.show(msg, effects);
            self.load_cover_art(path, effects);
        }
    }

    /// Moves to the next track, if any, plays it and asks for its cover.
    fn play_next(&mut self, effects: &mut Vec<Effect>)
        requires
            old(self).wf(),
        ensures
            final(self).wf(),
            play_next_rel(*old(self), *final(self), old(effects)@, final(effects)@),
    {
        if self.library.len() > 0 && self.selected_index < self.library.len() - 1 {
            self.selected_index = self.selected_index + 1;
            let path = self.library[self.selected_index].path.clone();
            self.manual_stop = false;
            effects.push(Effect::PlayTrackQuiet(path.clone()));
            self.load_cover_art(path, effects);
        }
    }

    /// Moves to the previous track, if any, plays it and asks for its cover.
    fn play_prev(&mut self, effects: &mut Vec<Effect>)
        requires
            old(self).wf(),
        ensures
            final(self).wf(),
            play_prev_rel(*old(self), *final(self), old(effects)@, final(effects)@),
    {
        if self.selected_index > 0 {
            self.selected_index = self.selected_index - 1;
            let path = self.library[self.selected_index].path.clone();
            self.manual_stop = false;
            effects.push(Effect::PlayTrackQuiet(path.clone()));
            self.load_cover_art(path, effects);
        }
    }

    /// Starts a fade out, or a fade in when paused; cancels a running fade.
    fn start_fade(&mut self, effects: &mut Vec<Effect>)
        requires
            old(self).wf(),
        ensures
            final(self).wf(),
            start_fade_rel(*old(self), *final(self), old(effects)@, final(effects)@),
    {
        if self.player.is_idle {
            return;
        }
        match self.fade {
            Some(f) => {
                self.fade = None;
                effects.push(Effect::RestoreFadeVolume);
                if let Fade::In { .. } = f {
                    effects.push(Effect::Pause);
                }
            },
            None => {
                if self.player.is_paused {
                    effects.push(Effect::CaptureFadeVolume);
                    effects.push(Effect::TogglePauseQuiet);
                    effects.push(Effect::Mute);
                    self.fade = Some(Fade::In { step: 0 });
                } else {
                    effects.push(Effect::CaptureFadeVolume);
                    self.fade = Some(Fade::Out { step: 0 });
                }
            },
        }
    }

    /// Takes the next step of a running fade: a fade has three steps, and a
    /// fade out pauses after its last.
    fn process_fade(&mut self, effects: &mut Vec<Effect>)
        requires
            old(self).wf(),
        ensures
            final(self).wf(),
            process_fade_rel(*old(self), *final(self), old(effects)@, final(effects)@),
    {
        match self.fade {
            None => {},
            Some(Fade::Out { step }) => {
                let next = step + 1;
                effects.push(Effect::FadeVolume { fading_out: true, step: next });
                if next >= 3 {
                    effects.push(Effect::Pause);
                    self.fade = None;
                } else {
                    self.fade = Some(Fade::Out { step: next });
                }
            },
            Some(Fade::In { step }) => {
                let next = step + 1;
                effects.push(Effect::FadeVolume { fading_out: false, step: next });
                if next >= 3 {
                    self.fade = None;
                } else {
                    self.fade = Some(Fade::In { step: next });
                }
            },
        }
    }
}

/// Asking for the cover art of the selected track, if there is one.
pub open spec fn selected_cover_requested(s: AppState, t: AppState, e: Seq<Effect>, e2: Seq<Effect>) -> bool {
    if s.selected_index < s.library@.len() {
        cover_requested(s, t, s.library@[s.selected_index as int].path, e, e2)
    } else {
        t == s && e2 == e
    }
}

/// Asking for the cover art of `p`: nothing when it is the one shown;
/// otherwise a `LoadCover` and the cover marked as shown and to be drawn.
pub open spec fn cover_requested(s: AppState, t: AppState, p: String, e: Seq<Effect>, e2: Seq<Effect>) -> bool {
    if s.current_cover_path matches Some(c) && c@ == p@ {
        t == s && e2 == e
    } else {
        &&& e2 == e.push(Effect::LoadCover(p))
        &&& t == AppState { current_cover_path: Some(p), art_needs_render: true, ..s }
    }
}

/// Playing the selected track: playback is no longer counted as stopped
/// by hand, the track is played (a failure ends the program), its title
/// is shown after a note sign and its cover is asked for.
pub open spec fn play_selected_rel(s: AppState, t: AppState, e: Seq<Effect>, e2: Seq<Effect>) -> bool {
    if s.selected_index < s.library@.len() {
        let tr = s.library@[s.selected_index as int];
        let s1 = AppState { manual_stop: false, status_message: t.status_message, ..s };
        &&& shows(t, "\u{266a} "@ + tr.title@)
        &&& cover_requested(s1, t, tr.path, e.push(Effect::PlayTrack(tr.path)).push(Effect::StatusShown), e2)
    } else {
        t == s && e2 == e
    }
}

/// Moving on to the next track, when the selection is not the last.
pub open spec fn play_next_rel(s: AppState, t: AppState, e: Seq<Effect>, e2: Seq<Effect>) -> bool {
    if s.selected_index < last_index(s.library@.len()) {
        let i = s.selected_index + 1;
        let p = s.library@[i].path;
        let s1 = AppState { selected_index: i as usize, manual_stop: false, ..s };
        cover_requested(s1, t, p, e.push(Effect::PlayTrackQuiet(p)), e2)
    } else {
        t == s && e2 == e
    }
}

/// Moving back to the previous track, when the selection is not the first.
pub open spec fn play_prev_rel(s: AppState, t: AppState, e: Seq<Effect>, e2: Seq<Effect>) -> bool {
    if s.selected_index > 0 {
        let i = s.selected_index - 1;
        let p = s.library@[i].path;
        let s1 = AppState { selected_index: i as usize, manual_stop: false, ..s };
        cover_requested(s1, t, p, e.push(Effect::PlayTrackQuiet(p)), e2)
    } else {
        t == s && e2 == e
    }
}

/// Starting a fade: nothing while idle; a running fade is cancelled (its
/// base volume restored, and a fade in paused again); a paused track fades
/// in from silence; a playing one fades out.
pub open spec fn start_fade_rel(s: AppState, t: AppState, e: Seq<Effect>, e2: Seq<Effect>) -> bool {
    if s.player.is_idle {
        t == s && e2 == e
    } else {
        match s.fade {
            Some(Fade::Out { .. }) => t == (AppState { fade: None, ..s }) && e2 == e.push(
                Effect::RestoreFadeVolume,
            ),
            Some(Fade::In { .. }) => t == (AppState { fade: None, ..s }) && e2 == e.push(
                Effect::RestoreFadeVolume,
            ).push(Effect::Pause),
            None => if s.player.is_paused {
                t == (AppState { fade: Some(Fade::In { step: 0 }), ..s }) && e2 == e.push(
                    Effect::CaptureFadeVolume,
                ).push(Effect::TogglePauseQuiet).push(Effect::Mute)
            } else {
                t == (AppState { fade: Some(Fade::Out { step: 0 }), ..s }) && e2 == e.push(
                    Effect::CaptureFadeVolume,
                )
            },
        }
    }
}

/// A fade step: the volume for the next step is set; the third step ends
/// the fade, pausing after a fade out.
pub open spec fn process_fade_rel(s: AppState, t: AppState, e: Seq<Effect>, e2: Seq<Effect>) -> bool {
    match s.fade {
        None => t == s && e2 == e,
        Some(Fade::Out { step }) => {
            let n = (step + 1) as u8;
            &&& e2 == (if n >= 3 {
                e.push(Effect::FadeVolume { fading_out: true, step: n }).push(Effect::Pause)
            } else {
                e.push(Effect::FadeVolume { fading_out: true, step: n })
            })
            &&& t == AppState { fade: (if n >= 3 { None } else { Some(Fade::Out { step: n }) }), ..s }
        },
        Some(Fade::In { step }) => {
            let n = (step + 1) as u8;
            &&& e2 == e.push(Effect::FadeVolume { fading_out: false, step: n })
            &&& t == AppState { fade: (if n >= 3 { None } else { Some(Fade::In { step: n }) }), ..s }
        },
    }
}

/// A typed text after a key: a character is appended, Backspace removes
/// the last one, other keys leave it.
pub open spec fn edited(text: Seq<char>, code: KeyCode) -> Seq<char> {
    match code {
        KeyCode::Char(c) => text.push(c),
        KeyCode::Backspace => if text.len() > 0 {
            text.drop_last()
        } else {
            text
        },
        _ => text,
    }
}

/// The only effect asks whether `p` is an existing directory, for `origin`.
pub open spec fn asks_folder(e: Seq<Effect>, p: Seq<char>, origin: FolderOrigin) -> bool {
    &&& e.len() == 1
    &&& e[0] matches Effect::CheckFolder { path, origin: o } && path@ == p && o == origin
}

/// A key on the setup screen: typing edits the folder path; Enter asks
/// whether the trimmed path is a directory, or shows that it is empty; Esc quits.
pub open spec fn setup_key_rel(s: AppState, t: AppState, key: KeyPress, e: Seq<Effect>) -> bool {
    match key.code {
        KeyCode::Char(_) | KeyCode::Backspace => {
            &&& t == AppState { setup_path: t.setup_path, ..s }
            &&& t.setup_path@ == edited(s.setup_path@, key.code)
            &&& e.len() == 0
        },
        KeyCode::Enter => {
            let p = trimmed(s.setup_path@);
            if p.len() == 0 {
                &&& t == AppState { status_message: t.status_message, ..s }
                &&& shows(t, "Path cannot be empty!"@)
                &&& e =~= seq![Effect::StatusShown]
            } else {
                t == s && asks_folder(e, p, FolderOrigin::Setup)
            }
        },
        KeyCode::Esc => t == s && e =~= seq![Effect::Quit],
        _ => t == s && e.len() == 0,
    }
}

/// A key while a new music folder is typed: typing edits the path; Enter
/// asks whether the trimmed path is a directory; Esc leaves the mode and
/// empties the path.
pub open spec fn change_folder_key_rel(s: AppState, t: AppState, key: KeyPress, e: Seq<Effect>) -> bool {
    match key.code {
        KeyCode::Char(_) | KeyCode::Backspace => {
            &&& t == AppState { setup_path: t.setup_path, ..s }
            &&& t.setup_path@ == edited(s.setup_path@, key.code)
            &&& e.len() == 0
        },
        KeyCode::Enter => t == s && asks_folder(e, trimmed(s.setup_path@), FolderOrigin::ChangeFolder),
        KeyCode::Esc => {
            &&& t == AppState { change_folder_mode: false, setup_path: t.setup_path, ..s }
            &&& t.setup_path@ == Seq::<char>::empty()
            &&& e.len() == 0
        },
        _ => t == s && e.len() == 0,
    }
}

/// A key in the command palette: typing edits the command; Esc leaves the
/// palette and empties it; Enter leaves and empties it and runs the
/// trimmed, lower-cased command.
pub open spec fn command_key_rel(s: AppState, t: AppState, key: KeyPress, e: Seq<Effect>) -> bool {
    match key.code {
        KeyCode::Char(_) | KeyCode::Backspace => {
            &&& t == AppState { command_input: t.command_input, ..s }
            &&& t.command_input@ == edited(s.command_input@, key.code)
            &&& e.len() == 0
        },
        KeyCode::Esc => {
            &&& t == AppState { command_mode: false, command_input: t.command_input, ..s }
            &&& t.command_input@ == Seq::<char>::empty()
            &&& e.len() == 0
        },
        KeyCode::Enter => {
            let s1 = AppState { command_mode: false, command_input: t.command_input, ..s };
            &&& t.command_input@ == Seq::<char>::empty()
            &&& command_rel(s1, t, lowercase(trimmed(s.command_input@)), e)
        },
        _ => t == s && e.len() == 0,
    }
}

/// The volume text of a `volume`/`vol` command: its last word, or 50.
pub open spec fn volume_text(cmd: Seq<char>) -> Seq<char> {
    match last_token(cmd) {
        Some(tok) => tok,
        None => "50"@,
    }
}

/// Stopping by hand: playback stops (a failure ends the program) and
/// `Stopped` is shown.
pub open spec fn stop_rel(s: AppState, t: AppState, e: Seq<Effect>) -> bool {
    &&& t == AppState { manual_stop: true, status_message: t.status_message, ..s }
    &&& shows(t, "Stopped"@)
    &&& e =~= seq![Effect::Stop, Effect::StatusShown]
}

/// Running a command of the palette.
pub open spec fn command_rel(s: AppState, t: AppState, cmd: Seq<char>, e: Seq<Effect>) -> bool {
    if cmd == "help"@ || cmd == "h"@ || cmd == "?"@ {
        t == AppState { show_help: true, ..s } && e.len() == 0
    } else if cmd == "refresh"@ || cmd == "r"@ {
        t == s && e =~= (if s.config.music_folder@.len() != 0 {
            seq![Effect::Rescan(Reload::Refresh)]
        } else {
            Seq::empty()
        })
    } else if cmd == "quit"@ || cmd == "q"@ {
        t == s && e =~= seq![Effect::Quit]
    } else if cmd == "play"@ {
        if s.library@.len() > 0 {
            play_selected_rel(s, t, Seq::empty(), e)
        } else {
            t == s && e.len() == 0
        }
    } else if cmd == "pause"@ {
        if !s.player.is_idle {
            t == AppState { manual_stop: false, ..s } && e =~= seq![Effect::TogglePause]
        } else {
            t == s && e.len() == 0
        }
    } else if cmd == "stop"@ || cmd == "s"@ {
        stop_rel(s, t, e)
    } else if cmd == "next"@ || cmd == "n"@ {
        play_next_rel(s, t, Seq::empty(), e)
    } else if cmd == "prev"@ || cmd == "p"@ {
        play_prev_rel(s, t, Seq::empty(), e)
    } else if "volume "@.is_prefix_of(cmd) || "vol "@.is_prefix_of(cmd) {
        &&& t == s
        &&& e.len() == 1
        &&& e[0] matches Effect::SetVolumeText(v) && v@ == volume_text(cmd)
    } else {
        &&& t == AppState { status_message: t.status_message, ..s }
        &&& shows(t, "Unknown command: "@ + cmd)
        &&& e =~= seq![Effect::StatusShown]
    }
}

/// The selection after a navigation key, in a library of `len` tracks.
pub open spec fn moved_selection(code: KeyCode, sel: nat, len: nat) -> nat {
    match code {
        KeyCode::Down | KeyCode::Char('j') => if len > 0 && sel < last_index(len) {
            sel + 1
        } else {
            sel
        },
        KeyCode::Up | KeyCode::Char('k') => if sel > 0 {
            (sel - 1) as nat
        } else {
            0
        },
        KeyCode::PageDown => if sel + 10 < last_index(len) {
            sel + 10
        } else {
            last_index(len)
        },
        KeyCode::PageUp => if sel >= 10 {
            (sel - 10) as nat
        } else {
            0
        },
        KeyCode::Home => 0,
        KeyCode::End => last_index(len),
        _ => sel,
    }
}

/// Whether a key moves the selection.
pub open spec fn is_navigation(code: KeyCode) -> bool {
    match code {
        KeyCode::Down | KeyCode::Char('j') | KeyCode::Up | KeyCode::Char('k') | KeyCode::PageDown
        | KeyCode::PageUp | KeyCode::Home | KeyCode::End => true,
        _ => false,
    }
}

/// A navigation key: the selection moves, and the cover of the new
/// selection is asked for; Down, j, Up and k ask only when it moved.
pub open spec fn navigate_rel(s: AppState, t: AppState, code: KeyCode, e: Seq<Effect>) -> bool {
    let n = moved_selection(code, s.selected_index as nat, s.library@.len());
    let step_only = match code {
        KeyCode::Down | KeyCode::Char('j') | KeyCode::Up | KeyCode::Char('k') => true,
        _ => false,
    };
    if step_only && n == s.selected_index {
        t == s && e.len() == 0
    } else {
        selected_cover_requested(AppState { selected_index: n as usize, ..s }, t, Seq::empty(), e)
    }
}

/// The selected track is the one the backend has loaded.
pub open spec fn selected_is_current(s: AppState) -> bool {
    s.player.current_track_path matches Some(c) && s.selected_index < s.library@.len() && c@
        == s.library@[s.selected_index as int].path@
}

/// A key on the library screen, outside the folder input, the palette and
/// the help page.
pub open spec fn library_key_rel(s: AppState, t: AppState, key: KeyPress, e: Seq<Effect>) -> bool {
    let len = s.library@.len();
    if is_navigation(key.code) {
        navigate_rel(s, t, key.code, e)
    } else {
        match key.code {
            KeyCode::Enter => if len > 0 {
                if selected_is_current(s) {
                    start_fade_rel(AppState { manual_stop: false, ..s }, t, Seq::empty(), e)
                } else {
                    play_selected_rel(s, t, Seq::empty(), e)
                }
            } else {
                t == s && e.len() == 0
            },
            KeyCode::Right => t == s && e =~= seq![Effect::Seek { forward: true }],
            KeyCode::Left => t == s && e =~= seq![Effect::Seek { forward: false }],
            KeyCode::Char(c) => library_char_rel(s, t, c, key.alt, e),
            _ => t == s && e.len() == 0,
        }
    }
}

/// A character key on the library screen.
pub open spec fn library_char_rel(s: AppState, t: AppState, c: char, alt: bool, e: Seq<Effect>) -> bool {
    if c == ' ' {
        if s.library@.len() > 0 && s.player.is_idle {
            play_selected_rel(s, t, Seq::empty(), e)
        } else {
            start_fade_rel(AppState { manual_stop: false, ..s }, t, Seq::empty(), e)
        }
    } else if c == 'n' {
        play_next_rel(s, t, Seq::empty(), e)
    } else if c == 'p' {
        play_prev_rel(s, t, Seq::empty(), e)
    } else if c == 's' {
        stop_rel(s, t, e)
    } else if c == ';' && alt {
        &&& t == AppState { command_mode: true, command_input: t.command_input, ..s }
        &&& t.command_input@ == Seq::<char>::empty()
        &&& e.len() == 0
    } else if c == 'c' {
        &&& t == AppState { change_folder_mode: true, setup_path: t.setup_path, ..s }
        &&& t.setup_path@ == Seq::<char>::empty()
        &&& e =~= seq![Effect::ClearAlbumArt]
    } else if c == 'r' {
        t == s && e =~= (if s.config.music_folder@.len() != 0 {
            seq![Effect::Rescan(Reload::Refresh)]
        } else {
            Seq::empty()
        })
    } else if c == 'q' {
        t == s && e =~= seq![Effect::Quit]
    } else if c == '+' || c == '=' {
        t == s && e =~= seq![Effect::StepVolume { up: true }]
    } else if c == '-' || c == '_' {
        t == s && e =~= seq![Effect::StepVolume { up: false }]
    } else if c == '.' {
        t == s && e =~= seq![Effect::Seek { forward: true }]
    } else if c == ',' {
        t == s && e =~= seq![Effect::Seek { forward: false }]
    } else {
        t == s && e.len() == 0
    }
}

/// A key on the library screen: the folder input and the palette take
/// keys first; the help page only closes on Esc or q; otherwise the
/// library keys apply.
pub open spec fn main_key_rel(s: AppState, t: AppState, key: KeyPress, e: Seq<Effect>) -> bool {
    if s.change_folder_mode {
        change_folder_key_rel(s, t, key, e)
    } else if s.command_mode {
        command_key_rel(s, t, key, e)
    } else if s.show_help {
        e.len() == 0 && t == (if key.code == KeyCode::Esc || key.code == KeyCode::Char('q') {
            AppState { show_help: false, ..s }
        } else {
            s
        })
    } else {
        library_key_rel(s, t, key, e)
    }
}

/// A key press, on either screen.
pub open spec fn key_rel(s: AppState, t: AppState, key: KeyPress, e: Seq<Effect>) -> bool {
    match s.screen {
        AppScreen::Setup => setup_key_rel(s, t, key, e),
        AppScreen::Main => main_key_rel(s, t, key, e),
    }
}

impl AppState {
    fn edit(text: &mut String, code: KeyCode)
        ensures
            final(text)@ == edited(old(text)@, code),
    {
        match code {
            KeyCode::Char(c) => push_char(text, c),
            KeyCode::Backspace => {
                pop_char(text);
            },
            _ => {},
        }
    }

    fn setup_key(&mut self, key: KeyPress) -> (effects: Vec<Effect>)
        ensures
            setup_key_rel(*old(self), *final(self), key, effects@),
    {
        let mut effects: Vec<Effect> = Vec::new();
        match key.code {
            KeyCode::Char(_) | KeyCode::Backspace => Self::edit(&mut self.setup_path, key.code),
            KeyCode::Enter => {
                let p = trim(self.setup_path.as_str());
                if p.as_str().is_empty() {
                    self.show(owned("Path cannot be empty!"), &mut effects);
                } else {
                    effects.push(Effect::CheckFolder { path: p, origin: FolderOrigin::Setup });
                }
            },
            KeyCode::Esc => effects.push(Effect::Quit),
            _ => {},
        }
        effects
    }

    fn change_folder_key(&mut self, key: KeyPress) -> (effects: Vec<Effect>)
        ensures
            change_folder_key_rel(*old(self), *final(self), key, effects@),
    {
        let mut effects: Vec<Effect> = Vec::new();
        match key.code {
            KeyCode::Char(_) | KeyCode::Backspace => Self::edit(&mut self.setup_path, key.code),
            KeyCode::Enter => {
                let p = trim(self.setup_path.as_str());
                effects.push(Effect::CheckFolder { path: p, origin: FolderOrigin::ChangeFolder });
            },
            KeyCode::Esc => {
                self.change_folder_mode = false;
                self.setup_path = String::new();
            },
            _ => {},
        }
        effects
    }

    /// Runs a palette command, given trimmed and in lower case.
    pub fn run_command(&mut self, cmd: &str) -> (effects: Vec<Effect>)
        requires
            old(self).wf(),
        ensures
            final(self).wf(),
            command_rel(*old(self), *final(self), cmd@, effects@),
    {
        let mut effects: Vec<Effect> = Vec::new();
        if same_text(cmd, "help") || same_text(cmd, "h") || same_text(cmd, "?") {
            self.show_help = true;
        } else if same_text(cmd, "refresh") || same_text(cmd, "r") {
            if !self.config.music_folder.as_str().is_empty() {
                effects.push(Effect::Rescan(Reload::Refresh));
            }
        } else if same_text(cmd, "quit") || same_text(cmd, "q") {
            effects.push(Effect::Quit);
        } else if same_text(cmd, "play") {
            if self.library.len() > 0 {
                self.play_selected(&mut effects);
            }
        } else if same_text(cmd, "pause") {
            if !self.player.is_idle {
                self.manual_stop = false;
                effects.push(Effect::TogglePause);
            }
        } else if same_text(cmd, "stop") || same_text(cmd, "s") {
            self.manual_stop = true;
            effects.push(Effect::Stop);
            self.show(owned("Stopped"), &mut effects);
        } else if same_text(cmd, "next") || same_text(cmd, "n") {
            self.play_next(&mut effects);
        } else if same_text(cmd, "prev") || same_text(cmd, "p") {
            self.play_prev(&mut effects);
        } else if starts_with(cmd, "volume ") || starts_with(cmd, "vol ") {
            let v = match last_token_of(cmd) {
                Some(tok) => tok,
                None => owned("50"),
            };
            effects.push(Effect::SetVolumeText(v));
        } else {
            let mut msg = owned("Unknown command: ");
            push_str(&mut msg, cmd);
            self.show(msg, &mut effects);
        }
        effects
    }

    fn command_key(&mut self, key: KeyPress) -> (effects: Vec<Effect>)
        requires
            old(self).wf(),
        ensures
            final(self).wf(),
            command_key_rel(*old(self), *final(self), key, effects@),
    {
        match key.code {
            KeyCode::Esc => {
                self.command_mode = false;
                self.command_input = String::new();
                Vec::new()
            },
            KeyCode::Char(_) | KeyCode::Backspace => {
                Self::edit(&mut self.command_input, key.code);
                Vec::new()
            },
            KeyCode::Enter => {
                let t = trim(self.command_input.as_str());
                let cmd = to_lowercase(t.as_str());
                self.command_mode = false;
                self.command_input = String::new();
                self.run_command(cmd.as_str())
            },
            _ => Vec::new(),
        }
    }

    fn navigate(&mut self, code: KeyCode) -> (effects: Vec<Effect>)
        requires
            old(self).wf(),
            is_navigation(code),
        ensures
            final(self).wf(),
            navigate_rel(*old(self), *final(self), code, effects@),
    {
        let mut effects: Vec<Effect> = Vec::new();
        let len = self.library.len();
        let last = if len > 0 { len - 1 } else { 0 };
        let sel = self.selected_index;
        match code {
            KeyCode::Down | KeyCode::Char('j') => {
                if len > 0 && sel < last {
                    self.selected_index = sel + 1;
                    self.load_selected_cover(&mut effects);
                }
            },
            KeyCode::Up | KeyCode::Char('k') => {
                let n = if sel > 0 { sel - 1 } else { 0 };
                self.selected_index = n;
                if n != sel {
                    self.load_selected_cover(&mut effects);
                }
            },
            KeyCode::PageDown => {
                self.selected_index = if sel + 10 < last { sel + 10 } else { last };
                self.load_selected_cover(&mut effects);
            },
            KeyCode::PageUp => {
                self.selected_index = if sel >= 10 { sel - 10 } else { 0 };
                self.load_selected_cover(&mut effects);
            },
            KeyCode::Home => {
                self.selected_index = 0;
                self.load_selected_cover(&mut effects);
            },
            _ => {
                self.selected_index = last;
                self.load_selected_cover(&mut effects);
            },
        }
        effects
    }

    fn library_char(&mut self, c: char, alt: bool) -> (effects: Vec<Effect>)
        requires
            old(self).wf(),
        ensures
            final(self).wf(),
            library_char_rel(*old(self), *final(self), c, alt, effects@),
    {
        let mut effects: Vec<Effect> = Vec::new();
        if c == ' ' {
            if self.library.len() > 0 && self.player.is_idle {
                self.play_selected(&mut effects);
            } else {
                self.manual_stop = false;
                self.start_fade(&mut effects);
            }
        } else if c == 'n' {
            self.play_next(&mut effects);
        } else if c == 'p' {
            self.play_prev(&mut effects);
        } else if c == 's' {
            self.manual_stop = true;
            effects.push(Effect::Stop);
            self.show(owned("Stopped"), &mut effects);
        } else if c == ';' && alt {
            self.command_mode = true;
            self.command_input = String::new();
        } else if c == 'c' {
            self.change_folder_mode = true;
            self.setup_path = String::new();
            effects.push(Effect::ClearAlbumArt);
        } else if c == 'r' {
            if !self.config.music_folder.as_str().is_empty() {
                effects.push(Effect::Rescan(Reload::Refresh));
            }
        } else if c == 'q' {
            effects.push(Effect::Quit);
        } else if c == '+' || c == '=' {
            effects.push(Effect::StepVolume { up: true });
        } else if c == '-' || c == '_' {
            effects.push(Effect::StepVolume { up: false });
        } else if c == '.' {
            effects.push(Effect::Seek { forward: true });
        } else if c == ',' {
            effects.push(Effect::Seek { forward: false });
        }
        effects
    }

    fn main_key(&mut self, key: KeyPress) -> (effects: Vec<Effect>)
        requires
            old(self).wf(),
        ensures
            final(self).wf(),
            main_key_rel(*old(self), *final(self), key, effects@),
    {
        if self.change_folder_mode {
            return self.change_folder_key(key);
        }
        if self.command_mode {
            return self.command_key(key);
        }
        if self.show_help {
            if matches!(key.code, KeyCode::Esc | KeyCode::Char('q')) {
                self.show_help = false;
            }
            return Vec::new();
        }
        let is_nav = match key.code {
            KeyCode::Down | KeyCode::Char('j') | KeyCode::Up | KeyCode::Char('k')
            | KeyCode::PageDown | KeyCode::PageUp | KeyCode::Home | KeyCode::End => true,
            _ => false,
        };
        if is_nav {
            return self.navigate(key.code);
        }
        match key.code {
            KeyCode::Enter => {
                let mut effects: Vec<Effect> = Vec::new();
                if self.library.len() > 0 {
                    let is_current = match &self.player.current_track_path {
                        Some(cur) => same_text(
                            cur.as_str(),
                            self.library[self.selected_index].path.as_str(),
                        ),
                        None => false,
                    };
                    if is_current {
                        self.manual_stop = false;
                        self.start_fade(&mut effects);
                    } else {
                        self.play_selected(&mut effects);
                    }
                }
                effects
            },
            KeyCode::Right => {
                let mut effects: Vec<Effect> = Vec::new();
                effects.push(Effect::Seek { forward: true });
                effects
            },
            KeyCode::Left => {
                let mut effects: Vec<Effect> = Vec::new();
                effects.push(Effect::Seek { forward: false });
                effects
            },
            KeyCode::Char(c) => self.library_char(c, key.alt),
            _ => Vec::new(),
        }
    }

    /// Reacts to a key press: edits, moves, plays, opens and closes the
    /// palette, help and folder input, and asks for the outside actions the
    /// key calls for, in order.
    pub fn handle_key(&mut self, key: KeyPress) -> (effects: Vec<Effect>)
        requires
            old(self).wf(),
        ensures
            final(self).wf(),
            key_rel(*old(self), *final(self), key, effects@),
    {
        match self.screen {
            AppScreen::Setup => self.setup_key(key),
            AppScreen::Main => self.main_key(key),
        }
    }
}

/// The result of checking a typed folder: a directory becomes the music
/// folder, the settings are saved (a failure ends the program) and the
/// library is scanned; anything else is reported.  Leaving the folder
/// input closes it and empties the path either way.
pub open spec fn folder_checked_rel(
    s: AppState,
    t: AppState,
    path: String,
    origin: FolderOrigin,
    valid: bool,
    e: Seq<Effect>,
) -> bool {
    let chosen = Config { music_folder: path, ..s.config };
    match origin {
        FolderOrigin::Setup => if valid {
            t == (AppState { config: chosen, ..s }) && e =~= seq![
                Effect::SaveConfig,
                Effect::Rescan(Reload::Setup),
            ]
        } else {
            &&& t == AppState { status_message: t.status_message, ..s }
            &&& shows(t, "Invalid path! Please enter an existing directory"@)
            &&& e =~= seq![Effect::StatusShown]
        },
        FolderOrigin::ChangeFolder => {
            &&& t.setup_path@ == Seq::<char>::empty()
            &&& if valid {
                &&& t == AppState {
                    config: chosen,
                    change_folder_mode: false,
                    setup_path: t.setup_path,
                    ..s
                }
                &&& e =~= seq![Effect::SaveConfig, Effect::Rescan(Reload::ChangeFolder)]
            } else {
                &&& t == AppState {
                    change_folder_mode: false,
                    setup_path: t.setup_path,
                    status_message: t.status_message,
                    ..s
                }
                &&& shows(t, "Invalid path!"@)
                &&& e =~= seq![Effect::StatusShown]
            }
        },
    }
}

/// The tracks stored as the library: those scanned, with the recorded
/// play counts merged in.
pub open spec fn merged_library(tracks: Seq<Track>, s: AppState, lib: Seq<Track>) -> bool {
    &&& lib.len() == tracks.len()
    &&& forall|i: int|
        0 <= i < tracks.len() ==> #[trigger] lib[i] == with_play_count(
            tracks[i],
            merged_count(tracks[i], s.config.play_counts@),
        )
}

/// A finished scan: the library is replaced by the scanned tracks with
/// their recorded play counts, the selection goes to the first track, and
/// then the start-up asks for the selected cover, the setup moves to the
/// library screen, and each of setup, folder change and refresh shows the
/// number of tracks.
pub open spec fn library_loaded_rel(s: AppState, t: AppState, tracks: Seq<Track>, reload: Reload, e: Seq<Effect>) -> bool {
    let n = decimal(tracks.len());
    let s1 = AppState { library: t.library, selected_index: 0, ..s };
    &&& merged_library(tracks, s, t.library@)
    &&& match reload {
        Reload::Startup => selected_cover_requested(s1, t, Seq::empty(), e),
        Reload::Setup => {
            &&& t == AppState { screen: AppScreen::Main, status_message: t.status_message, ..s1 }
            &&& shows(t, "Library loaded! "@ + n + " tracks found"@)
            &&& e =~= seq![Effect::StatusShown]
        },
        Reload::ChangeFolder => {
            &&& t == AppState { status_message: t.status_message, ..s1 }
            &&& shows(t, "Music folder changed! "@ + n + " tracks loaded"@)
            &&& e =~= seq![Effect::StatusShown]
        },
        Reload::Refresh => {
            &&& t == AppState { status_message: t.status_message, ..s1 }
            &&& shows(t, "Library refreshed! "@ + n + " tracks"@)
            &&& e =~= seq![Effect::StatusShown]
        },
    }
}

/// A new report from the backend: it is stored; a track that stopped by
/// itself (it was neither idle nor paused, now is idle, and was not
/// stopped by hand) is followed by the next one; playback clears the
/// stopped-by-hand mark.
pub open spec fn player_update_rel(s: AppState, t: AppState, status: PlayerState, e: Seq<Effect>) -> bool {
    let s1 = AppState { player: status, ..s };
    let ended = !s.player.is_idle && status.is_idle && !s.manual_stop && !s.player.is_paused;
    if ended {
        exists|t1: AppState|
            play_next_rel(s1, t1, Seq::empty(), e) && t == (if status.is_playing {
                AppState { manual_stop: false, ..t1 }
            } else {
                t1
            })
    } else {
        e.len() == 0 && t == (if status.is_playing {
            AppState { manual_stop: false, ..s1 }
        } else {
            s1
        })
    }
}

/// The first track of `lib` from `i` on with path `p`, or `lib.len()`.
pub open spec fn track_index(lib: Seq<Track>, p: Seq<char>, i: int) -> int
    decreases lib.len() - i,
{
    if i >= lib.len() {
        lib.len() as int
    } else if lib[i].path@ == p {
        i
    } else {
        track_index(lib, p, i + 1)
    }
}

/// Whether a playing track has been heard long enough to count: half of
/// it, or 30 seconds for tracks longer than a minute.
pub open spec fn heard_enough(position: Duration, duration: Duration) -> bool {
    let pos = position.total_nanos();
    let dur = duration.total_nanos();
    dur > 0 && 2 * pos >= (if dur < 60_000_000_000 { dur } else { 60_000_000_000 })
}

/// Counting plays: a track that is playing (not paused, not idle), that
/// was not counted yet this session and was heard long enough is marked
/// counted; if the library has it, its play count goes up by one, that
/// count is recorded and the settings are saved (a failure is ignored).
pub open spec fn play_count_rel(s: AppState, t: AppState, e: Seq<Effect>) -> bool {
    let st = s.player;
    if st.is_playing && !st.is_idle && !st.is_paused && st.current_track_path is Some
        && !played(s).contains(st.current_track_path->0@) && heard_enough(st.position, st.duration) {
        let p = st.current_track_path->0@;
        let k = track_index(s.library@, p, 0);
        &&& played(t) == played(s).insert(p)
        &&& if k < s.library@.len() {
            let c = (s.library@[k].play_count + 1) as u32;
            &&& t == AppState { library: t.library, config: t.config, played_tracks: t.played_tracks, ..s }
            &&& t.library@ == s.library@.update(k, with_play_count(s.library@[k], c))
            &&& t.config.music_folder == s.config.music_folder
            &&& t.config.play_counts@ == s.config.play_counts@.insert(p, c)
            &&& e =~= seq![Effect::SaveConfigQuiet]
        } else {
            &&& t == AppState { played_tracks: t.played_tracks, ..s }
            &&& e.len() == 0
        }
    } else {
        t == s && e.len() == 0
    }
}

/// One tick of the scrolling text: a changed selection restarts the
/// scroll; every fourth tick moves it on by one (wrapping around).
pub open spec fn marquee_rel(s: AppState, t: AppState) -> bool {
    let moved = s.selected_index != s.prev_selected;
    let counter = if moved { 1 } else { s.marquee_counter + 1 };
    let offset = if moved { 0 } else { s.marquee_offset as int };
    let offset2 = if counter % 4 == 0 {
        if offset == usize::MAX { 0 } else { offset + 1 }
    } else {
        offset
    };
    t == AppState {
        marquee_counter: counter as usize,
        marquee_offset: offset2 as usize,
        prev_selected: s.selected_index,
        ..s
    }
}

/// Whether this frame draws the cover art: the area is wider than 4 and
/// higher than 2, a picture is loaded, and it is new or the area changed.
pub open spec fn art_draws(s: AppState, area: Option<Area>, has_image: bool) -> bool {
    &&& area matches Some(r) && r.width > 4 && r.height > 2
    &&& has_image
    &&& (s.art_needs_render || s.last_art_area != area)
}

/// Where the art is drawn, the area has room for the one-cell border
/// offset: its left edge is not the last column and its top row, read as a
/// signed row, is not the last one.
pub open spec fn drawable(s: AppState, area: Option<Area>, has_image: bool) -> bool {
    art_draws(s, area, has_image) ==> (area->0.x < u16::MAX && (area->0.y as i16) < i16::MAX)
}

/// `n.saturating_sub(2).max(4)`.
pub open spec fn art_cells(n: u16) -> u32 {
    if n >= 6 { (n - 2) as u32 } else { 4 }
}

/// The cover art decision for one frame: without a large enough area
/// (wider than 4, higher than 2) any drawn art is cleared once; without an
/// image drawn art is cleared; otherwise the art is drawn inside the area's
/// border when it is new or the area changed, at most twice as wide as high.
pub open spec fn art_rel(s: AppState, t: AppState, area: Option<Area>, has_image: bool, a: ArtAction) -> bool {
    let zero = Area { x: 0, y: 0, width: 0, height: 0 };
    let fits = area matches Some(r) && r.width > 4 && r.height > 2;
    if !fits {
        if s.last_art_area is Some && s.last_art_area != Some(zero) {
            a == ArtAction::Clear && t == AppState {
                last_art_area: Some(zero),
                art_needs_render: false,
                ..s
            }
        } else {
            a == ArtAction::Nothing && t == AppState { art_needs_render: false, ..s }
        }
    } else if !has_image {
        if s.last_art_area is Some {
            a == ArtAction::Clear && t == AppState {
                last_art_area: None,
                art_needs_render: false,
                ..s
            }
        } else {
            a == ArtAction::Nothing && t == AppState { art_needs_render: false, ..s }
        }
    } else {
        let r = area->0;
        if !s.art_needs_render && s.last_art_area == Some(r) {
            a == ArtAction::Nothing && t == s
        } else {
            let w = art_cells(r.width);
            let h = art_cells(r.height);
            &&& t == AppState { last_art_area: Some(r), art_needs_render: false, ..s }
            &&& a == ArtAction::Draw {
                x: (r.x + 1) as u16,
                y: ((r.y as i16) + 1) as i16,
                width: if w < 2 * h { w } else { (2 * h) as u32 },
            }
        }
    }
}

fn same_area(a: Option<Area>, b: Option<Area>) -> (r: bool)
    ensures
        r == (a == b),
{
    match (a, b) {
        (None, None) => true,
        (Some(x), Some(y)) => x.x == y.x && x.y == y.y && x.width == y.width && x.height == y.height,
        _ => false,
    }
}

impl AppState {
    /// Handles the answer to `CheckFolder`: whether `path` is an existing
    /// directory.
    pub fn folder_checked(&mut self, path: String, origin: FolderOrigin, valid: bool) -> (effects: Vec<Effect>)
        requires
            old(self).wf(),
        ensures
            final(self).wf(),
            folder_checked_rel(*old(self), *final(self), path, origin, valid, effects@),
    {
        let mut effects: Vec<Effect> = Vec::new();
        match origin {
            FolderOrigin::Setup => {
                if valid {
                    self.config.music_folder = path;
                    effects.push(Effect::SaveConfig);
                    effects.push(Effect::Rescan(Reload::Setup));
                } else {
                    self.show(owned("Invalid path! Please enter an existing directory"), &mut effects);
                }
            },
            FolderOrigin::ChangeFolder => {
                if valid {
                    self.config.music_folder = path;
                    effects.push(Effect::SaveConfig);
                    effects.push(Effect::Rescan(Reload::ChangeFolder));
                } else {
                    self.show(owned("Invalid path!"), &mut effects);
                }
                self.change_folder_mode = false;
                self.setup_path = String::new();
            },
        }
        effects
    }

    /// Handles the answer to `Rescan`: the scanned tracks, in order.
    pub fn library_loaded(&mut self, tracks: Vec<Track>, reload: Reload) -> (effects: Vec<Effect>)
        requires
            old(self).wf(),
            tracks@.len() <= isize::MAX,
        ensures
            final(self).wf(),
            library_loaded_rel(*old(self), *final(self), tracks@, reload, effects@),
    {
        let mut lib = tracks;
        merge_play_counts(&mut lib, &self.config.play_counts);
        let n = lib.len();
        self.library = lib;
        self.selected_index = 0;
        let mut effects: Vec<Effect> = Vec::new();
        match reload {
            Reload::Startup => {
                self.load_selected_cover(&mut effects);
            },
            Reload::Setup => {
                self.screen = AppScreen::Main;
                let mut msg = owned("Library loaded! ");
                push_decimal(&mut msg, n as u64);
                push_str(&mut msg, " tracks found");
                self.show(msg, &mut effects);
            },
            Reload::ChangeFolder => {
                let mut msg = owned("Music folder changed! ");
                push_decimal(&mut msg, n as u64);
                push_str(&mut msg, " tracks loaded");
                self.show(msg, &mut effects);
            },
            Reload::Refresh => {
                let mut msg = owned("Library refreshed! ");
                push_decimal(&mut msg, n as u64);
                push_str(&mut msg, " tracks");
                self.show(msg, &mut effects);
            },
        }
        effects
    }

    /// Takes a new report from the backend.
    pub fn update_player(&mut self, status: PlayerState) -> (effects: Vec<Effect>)
        requires
            old(self).wf(),
        ensures
            final(self).wf(),
            player_update_rel(*old(self), *final(self), status, effects@),
    {
        let ended = !self.player.is_idle && status.is_idle && !self.manual_stop && !self.player.is_paused;
        let playing = status.is_playing;
        self.player = status;
        let mut effects: Vec<Effect> = Vec::new();
        if ended {
            self.play_next(&mut effects);
        }
        if playing {
            self.manual_stop = false;
        }
        effects
    }

    /// Whether the backend report makes a play count now: a track is
    /// playing (not paused, not idle), it was not counted yet this session
    /// and it was heard long enough.
    pub open spec fn counts_a_play(self) -> bool {
        let st = self.player;
        st.is_playing && !st.is_idle && !st.is_paused && st.current_track_path is Some
            && !played(self).contains(st.current_track_path->0@) && heard_enough(st.position, st.duration)
    }

    /// Whether counting a play has room: when a play counts now and the
    /// library has the track, that track's count is below `u32::MAX`.
    pub open spec fn counts_can_grow(self) -> bool {
        self.counts_a_play() ==> {
            let k = track_index(self.library@, self.player.current_track_path->0@, 0);
            k < self.library@.len() ==> self.library@[k].play_count < u32::MAX
        }
    }

    /// Whether the play count that the current report would raise can
    /// still go up by one (true when no count would be raised).
    pub fn play_counts_can_grow(&self) -> (r: bool)
        ensures
            r == self.counts_can_grow(),
    {
        if !self.player.is_playing || self.player.is_idle || self.player.is_paused {
            return true;
        }
        let path = match &self.player.current_track_path {
            Some(p) => p,
            None => return true,
        };
        if self.was_played(path.as_str()) {
            return true;
        }
        let pos_n: u128 = self.player.position.secs as u128 * 1_000_000_000 + self.player.position.nanos as u128;
        let dur_n: u128 = self.player.duration.secs as u128 * 1_000_000_000 + self.player.duration.nanos as u128;
        if dur_n == 0 {
            return true;
        }
        let threshold: u128 = if dur_n < 60_000_000_000 { dur_n } else { 60_000_000_000 };
        if 2 * pos_n < threshold {
            return true;
        }
        let k = self.find_track(path.as_str());
        k >= self.library.len() || self.library[k].play_count < u32::MAX
    }

    fn was_played(&self, p: &str) -> (r: bool)
        ensures
            r == played(*self).contains(p@),
    {
        let mut i: usize = 0;
        while i < self.played_tracks.len()
            invariant
                i <= self.played_tracks@.len(),
                forall|j: int| 0 <= j < i ==> #[trigger] self.played_tracks@[j]@ != p@,
            decreases self.played_tracks@.len() - i,
        {
            if same_text(self.played_tracks[i].as_str(), p) {
                assert(played(*self).contains(p@)) by {
                    assert(self.played_tracks@[i as int]@ == p@);
                }
                return true;
            }
            i = i + 1;
        }
        false
    }

    fn find_track(&self, p: &str) -> (r: usize)
        ensures
            r as int == track_index(self.library@, p@, 0),
    {
        let mut i: usize = 0;
        while i < self.library.len()
            invariant
                i <= self.library@.len(),
                track_index(self.library@, p@, 0) == track_index(self.library@, p@, i as int),
            decreases self.library@.len() - i,
        {
            if same_text(self.library[i].path.as_str(), p) {
                return i;
            }
            i = i + 1;
        }
        i
    }

    /// Counts a play of the current track once it was heard long enough.
    pub fn check_play_count(&mut self) -> (effects: Vec<Effect>)
        requires
            old(self).wf(),
            old(self).counts_can_grow(),
        ensures
            final(self).wf(),
            play_count_rel(*old(self), *final(self), effects@),
    {
        let mut effects: Vec<Effect> = Vec::new();
        if !self.player.is_playing || self.player.is_idle || self.player.is_paused {
            return effects;
        }
        let path = match &self.player.current_track_path {
            Some(p) => p.clone(),
            None => return effects,
        };
        if self.was_played(path.as_str()) {
            return effects;
        }
        let pos_n: u128 = self.player.position.secs as u128 * 1_000_000_000 + self.player.position.nanos as u128;
        let dur_n: u128 = self.player.duration.secs as u128 * 1_000_000_000 + self.player.duration.nanos as u128;
        if dur_n == 0 {
            return effects;
        }
        let threshold: u128 = if dur_n < 60_000_000_000 { dur_n } else { 60_000_000_000 };
        if 2 * pos_n < threshold {
            return effects;
        }
        let ghost before = self.played_tracks@;
        self.played_tracks.push(path.clone());
        proof {
            assert(played(*self) =~= played(*old(self)).insert(path@)) by {
                assert forall|x: Seq<char>| played(*self).contains(x) implies played(*old(self)).insert(path@).contains(x) by {
                    let j = choose|j: int| 0 <= j < self.played_tracks@.len() && #[trigger] self.played_tracks@[j]@ == x;
                    if j < before.len() {
                        assert(before[j]@ == x);
                    }
                }
                assert forall|x: Seq<char>| played(*old(self)).insert(path@).contains(x) implies played(*self).contains(x) by {
                    if x == path@ {
                        assert(self.played_tracks@[before.len() as int]@ == x);
                    } else {
                        let j = choose|j: int| 0 <= j < before.len() && #[trigger] before[j]@ == x;
                        assert(self.played_tracks@[j]@ == x);
                    }
                }
            }
        }
        let k = self.find_track(path.as_str());
        if k < self.library.len() {
            let c = self.library[k].play_count + 1;
            self.library[k].play_count = c;
            self.config.play_counts.insert(path, c);
            effects.push(Effect::SaveConfigQuiet);
        }
        effects
    }
}

impl AppState {
    /// Takes the next step of a running fade, once per tick.
    pub fn fade_tick(&mut self) -> (effects: Vec<Effect>)
        requires
            old(self).wf(),
        ensures
            final(self).wf(),
            process_fade_rel(*old(self), *final(self), Seq::empty(), effects@),
    {
        let mut effects: Vec<Effect> = Vec::new();
        self.process_fade(&mut effects);
        effects
    }

    /// Whether the scrolling text can take another tick.
    pub open spec fn marquee_can_tick(self) -> bool {
        self.selected_index != self.prev_selected || self.marquee_counter < usize::MAX
    }

    /// Whether the scrolling text can take another tick without its tick
    /// counter overflowing.
    pub fn marquee_can_advance(&self) -> (r: bool)
        ensures
            r == self.marquee_can_tick(),
    {
        self.selected_index != self.prev_selected || self.marquee_counter < usize::MAX
    }

    /// Advances the scrolling text of the selected row by one tick.
    pub fn marquee_tick(&mut self)
        requires
            old(self).marquee_can_tick(),
        ensures
            marquee_rel(*old(self), *final(self)),
    {
        if self.selected_index != self.prev_selected {
            self.marquee_offset = 0;
            self.marquee_counter = 0;
            self.prev_selected = self.selected_index;
        }
        self.marquee_counter = self.marquee_counter + 1;
        if self.marquee_counter % 4 == 0 {
            self.marquee_offset = if self.marquee_offset == usize::MAX {
                0
            } else {
                self.marquee_offset + 1
            };
        }
    }

    /// Whether the art step for this frame can be taken: where it draws,
    /// the area is not at the last column or row.
    pub fn art_step_fits(&self, area: Option<Area>, has_image: bool) -> (r: bool)
        ensures
            r == drawable(*self, area, has_image),
    {
        match area {
            Some(a) => {
                let draws = a.width > 4 && a.height > 2 && has_image && (self.art_needs_render
                    || !same_area(self.last_art_area, area));
                !draws || (a.x < u16::MAX && (a.y as i16) < i16::MAX)
            },
            None => true,
        }
    }

    /// Decides what to do with the cover art for a frame, given the area
    /// the layout gave it and whether a cover image is loaded.
    pub fn album_art_step(&mut self, area: Option<Area>, has_image: bool) -> (a: ArtAction)
        requires
            drawable(*old(self), area, has_image),
        ensures
            art_rel(*old(self), *final(self), area, has_image, a),
    {
        let zero = Area { x: 0, y: 0, width: 0, height: 0 };
        let fits = match area {
            Some(r) => r.width > 4 && r.height > 2,
            None => false,
        };
        if !fits {
            let mut a = ArtAction::Nothing;
            if self.last_art_area.is_some() && !same_area(self.last_art_area, Some(zero)) {
                a = ArtAction::Clear;
                self.last_art_area = Some(zero);
            }
            self.art_needs_render = false;
            return a;
        }
        let r = match area {
            Some(r) => r,
            None => zero,
        };
        if !has_image {
            let mut a = ArtAction::Nothing;
            if self.last_art_area.is_some() {
                a = ArtAction::Clear;
                self.last_art_area = None;
            }
            self.art_needs_render = false;
            return a;
        }
        let changed = !same_area(self.last_art_area, Some(r));
        if !self.art_needs_render && !changed {
            return ArtAction::Nothing;
        }
        self.last_art_area = Some(r);
        self.art_needs_render = false;
        let w: u32 = if r.width >= 6 { (r.width - 2) as u32 } else { 4 };
        let h: u32 = if r.height >= 6 { (r.height - 2) as u32 } else { 4 };
        let width = if w < 2 * h { w } else { 2 * h };
        let y: i16 = r.y as i16;
        ArtAction::Draw { x: r.x + 1, y: y + 1, width }
    }
}

} // verus!
