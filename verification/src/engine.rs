//! The game engine: what the player sees and where the story stands, and
//! how key presses and script commands change it. Everything that plays
//! sound, reads files or measures time is left to the caller, which is
//! told what to do through a list of [`Effect`]s.
use vstd::prelude::*;
use std::collections::VecDeque;
use crate::script::{
    Command, DialogueCommand, ImageModel, ImageParams, SceneData, copy_opt, copy_pairs, opt_view,
    pairs_view,
};
use crate::table::{Table, pairs_map};
use crate::variables::{Variables, interpolation};
use crate::parser::strings_view;

verus! {

/// Where the player is.
pub enum AppState {
    Menu,
    Settings,
    About,
    History,
    GameMenu,
    SaveSlot,
    LoadSlot,
    Input { prompt: String, var_name: String },
    InDialogue { scene_id: String, cmd_index: usize },
    InChoice { scene_id: String, options: Vec<(String, String)>, selected: usize },
    EndOfFile,
}

/// The plain-value model of [`AppState`].
pub enum StateModel {
    Menu,
    Settings,
    About,
    History,
    GameMenu,
    SaveSlot,
    LoadSlot,
    Input { prompt: Seq<char>, var_name: Seq<char> },
    InDialogue { scene_id: Seq<char>, cmd_index: usize },
    InChoice { scene_id: Seq<char>, options: Seq<(Seq<char>, Seq<char>)>, selected: usize },
    EndOfFile,
}

impl View for AppState {
    type V = StateModel;

    open spec fn view(&self) -> StateModel {
        match self {
            AppState::Menu => StateModel::Menu,
            AppState::Settings => StateModel::Settings,
            AppState::About => StateModel::About,
            AppState::History => StateModel::History,
            AppState::GameMenu => StateModel::GameMenu,
            AppState::SaveSlot => StateModel::SaveSlot,
            AppState::LoadSlot => StateModel::LoadSlot,
            AppState::Input { prompt, var_name } => StateModel::Input {
                prompt: prompt@,
                var_name: var_name@,
            },
            AppState::InDialogue { scene_id, cmd_index } => StateModel::InDialogue {
                scene_id: scene_id@,
                cmd_index: *cmd_index,
            },
            AppState::InChoice { scene_id, options, selected } => StateModel::InChoice {
                scene_id: scene_id@,
                options: pairs_view(options@),
                selected: *selected,
            },
            AppState::EndOfFile => StateModel::EndOfFile,
        }
    }
}

impl AppState {
    /// A copy of this state.
    pub fn copy(&self) -> (r: AppState)
        ensures
            r@ == self@,
    {
        match self {
            AppState::Menu => AppState::Menu,
            AppState::Settings => AppState::Settings,
            AppState::About => AppState::About,
            AppState::History => AppState::History,
            AppState::GameMenu => AppState::GameMenu,
            AppState::SaveSlot => AppState::SaveSlot,
            AppState::LoadSlot => AppState::LoadSlot,
            AppState::Input { prompt, var_name } => AppState::Input {
                prompt: prompt.clone(),
                var_name: var_name.clone(),
            },
            AppState::InDialogue { scene_id, cmd_index } => AppState::InDialogue {
                scene_id: scene_id.clone(),
                cmd_index: *cmd_index,
            },
            AppState::InChoice { scene_id, options, selected } => AppState::InChoice {
                scene_id: scene_id.clone(),
                options: copy_pairs(options),
                selected: *selected,
            },
            AppState::EndOfFile => AppState::EndOfFile,
        }
    }
}

/// What the settings screen can change.
pub enum SettingsAction {
    BgmUp,
    BgmDown,
    VoiceUp,
    VoiceDown,
    AutoPlayToggle,
    AutoPlaySpeedUp,
    AutoPlaySpeedDown,
    TextAnimationToggle,
    TextSpeedUp,
    TextSpeedDown,
    BgColorNext,
    Save,
}

/// A key the player pressed.
pub enum Key {
    Up,
    Down,
    Enter,
    Esc,
    Backspace,
    Char(char),
    Other,
}

/// The player's settings that the engine decides on (the auto-play delay,
/// a fractional number of seconds, is kept by the caller).
pub struct Settings {
    pub bgm_volume: u8,
    pub voice_volume: u8,
    pub auto_play: bool,
    pub text_animation: bool,
    pub text_speed: u64,
    pub background_color: String,
}

/// The plain-value model of [`Settings`].
pub struct SettingsModel {
    pub bgm_volume: u8,
    pub voice_volume: u8,
    pub auto_play: bool,
    pub text_animation: bool,
    pub text_speed: u64,
    pub background_color: Seq<char>,
}

impl View for Settings {
    type V = SettingsModel;

    open spec fn view(&self) -> SettingsModel {
        SettingsModel {
            bgm_volume: self.bgm_volume,
            voice_volume: self.voice_volume,
            auto_play: self.auto_play,
            text_animation: self.text_animation,
            text_speed: self.text_speed,
            background_color: self.background_color@,
        }
    }
}

/// Work for the caller: sound, timers, files and shell commands.
pub enum Effect {
    /// Stop the background music.
    StopBgm,
    /// Play this file of `assets/music` in a loop; when that fails the
    /// caller reports it with [`App::set_current_bgm`].
    PlayBgm(String),
    /// Play `assets/music/title.mp3` in a loop if it exists, reporting the
    /// outcome with [`App::set_current_bgm`].
    PlayTitleBgm,
    /// Stop the voice that is playing.
    StopVoice,
    /// Play this file of `assets/voices` once, if it exists.
    PlayVoice(String),
    /// Replace each `$(command)` of the target text by the command's
    /// output, then call [`App::set_target_text`].
    ExpandShell,
    /// Restart the auto-play timer.
    RestartAutoPlay,
    /// Stop the auto-play timer.
    ClearAutoPlay,
    /// Raise (`true`) or lower the auto-play delay by half a second and
    /// report it in the status line.
    AutoPlaySpeed(bool),
    /// Write the settings, then call [`App::config_saved`].
    SaveConfig,
    /// Restart the title music at the new volume if music is playing.
    ApplyBgmVolume,
    /// Write a save to this slot: take [`App::save_data`], then call
    /// [`App::save_game_slot`] with the outcome.
    SaveSlot(usize),
    /// Read the save of this slot and call [`App::load_game_slot`].
    LoadSlot(usize),
}

/// The plain-value model of [`Effect`].
pub enum EffectModel {
    StopBgm,
    PlayBgm(Seq<char>),
    PlayTitleBgm,
    StopVoice,
    PlayVoice(Seq<char>),
    ExpandShell,
    RestartAutoPlay,
    ClearAutoPlay,
    AutoPlaySpeed(bool),
    SaveConfig,
    ApplyBgmVolume,
    SaveSlot(usize),
    LoadSlot(usize),
}

impl View for Effect {
    type V = EffectModel;

    open spec fn view(&self) -> EffectModel {
        match self {
            Effect::StopBgm => EffectModel::StopBgm,
            Effect::PlayBgm(f) => EffectModel::PlayBgm(f@),
            Effect::PlayTitleBgm => EffectModel::PlayTitleBgm,
            Effect::StopVoice => EffectModel::StopVoice,
            Effect::PlayVoice(f) => EffectModel::PlayVoice(f@),
            Effect::ExpandShell => EffectModel::ExpandShell,
            Effect::RestartAutoPlay => EffectModel::RestartAutoPlay,
            Effect::ClearAutoPlay => EffectModel::ClearAutoPlay,
            Effect::AutoPlaySpeed(up) => EffectModel::AutoPlaySpeed(*up),
            Effect::SaveConfig => EffectModel::SaveConfig,
            Effect::ApplyBgmVolume => EffectModel::ApplyBgmVolume,
            Effect::SaveSlot(s) => EffectModel::SaveSlot(*s),
            Effect::LoadSlot(s) => EffectModel::LoadSlot(*s),
        }
    }
}

/// A step of script execution that is still to be done: running a command,
/// skipping on past commands that need no input, or clearing the status
/// line.
pub enum Task {
    Exec(DialogueCommand),
    Skip,
    ClearStatus,
}

/// The plain-value model of [`Task`].
pub enum TaskModel {
    Exec(Command),
    Skip,
    ClearStatus,
}

impl View for Task {
    type V = TaskModel;

    open spec fn view(&self) -> TaskModel {
        match self {
            Task::Exec(c) => TaskModel::Exec(c@),
            Task::Skip => TaskModel::Skip,
            Task::ClearStatus => TaskModel::ClearStatus,
        }
    }
}

/// A command that waits for the caller to evaluate arithmetic: an
/// assignment waits for the value of its expression, a conditional jump
/// for the truth of its condition.
pub enum Pending {
    Assign { name: String, value: String },
    Branch { condition: String, target: String },
}

/// The plain-value model of [`Pending`].
pub enum PendingModel {
    Assign { name: Seq<char>, value: Seq<char> },
    Branch { condition: Seq<char>, target: Seq<char> },
}

impl View for Pending {
    type V = PendingModel;

    open spec fn view(&self) -> PendingModel {
        match self {
            Pending::Assign { name, value } => PendingModel::Assign { name: name@, value: value@ },
            Pending::Branch { condition, target } => PendingModel::Branch {
                condition: condition@,
                target: target@,
            },
        }
    }
}

/// The most entries the history keeps.
pub const HISTORY_MAX: usize = 50;

/// A line of the history: the speaker, if any, and the text.
pub open spec fn history_view(h: Seq<(Option<String>, String)>) -> Seq<(Option<Seq<char>>, Seq<char>)> {
    h.map_values(|e: (Option<String>, String)| (opt_view(e.0), e.1@))
}

/// The plain-value model of the engine.
pub struct AppModel {
    pub state: StateModel,
    pub menu: Seq<Seq<char>>,
    pub selected: usize,
    pub status: Option<Seq<char>>,
    pub scenes: Map<Seq<char>, Seq<Command>>,
    pub settings: SettingsModel,
    pub should_quit: bool,
    pub history: Seq<(Option<Seq<char>>, Seq<char>)>,
    pub prev_state: Option<StateModel>,
    pub title: Seq<char>,
    pub footer: Seq<char>,
    pub vars: Map<Seq<char>, Seq<char>>,
    pub input: Seq<char>,
    pub background: Option<Seq<char>>,
    pub image: Option<ImageModel>,
    pub target: Seq<char>,
    pub display: Seq<char>,
    pub current_file: Option<Seq<char>>,
    pub current_bgm: Option<Seq<char>>,
    pub orders: Map<Seq<char>, Seq<Seq<char>>>,
    pub files: Map<Seq<char>, Seq<char>>,
    pub effects: Seq<EffectModel>,
    pub tasks: Seq<TaskModel>,
    pub pending: Option<PendingModel>,
}

/// The engine.
pub struct App {
    pub state: AppState,
    pub menu_options: Vec<String>,
    pub selected: usize,
    pub status_message: Option<String>,
    pub scenes: Table<SceneData>,
    pub settings: Settings,
    pub should_quit: bool,
    pub history: VecDeque<(Option<String>, String)>,
    pub prev_state: Option<AppState>,
    pub title: String,
    pub footer: String,
    pub variables: Variables,
    pub input_buffer: Vec<char>,
    pub current_background: Option<String>,
    pub current_image_params: Option<ImageParams>,
    pub target_text: Vec<char>,
    pub display_text: Vec<char>,
    pub current_file: Option<String>,
    pub current_bgm: Option<String>,
    pub file_scene_order: Table<Vec<String>>,
    pub script_files: Table<String>,
    pub effects: Vec<Effect>,
    pub tasks: Vec<Task>,
    pub pending: Option<Pending>,
}

/// The plain-value model of an optional state.
pub open spec fn opt_state(o: Option<AppState>) -> Option<StateModel> {
    match o {
        Some(s) => Some(s@),
        None => None,
    }
}

/// The plain-value model of optional portrait parameters.
pub open spec fn opt_image(o: Option<ImageParams>) -> Option<ImageModel> {
    match o {
        Some(p) => Some(p@),
        None => None,
    }
}

/// The plain-value model of an optional pending command.
pub open spec fn opt_pending(o: Option<Pending>) -> Option<PendingModel> {
    match o {
        Some(p) => Some(p@),
        None => None,
    }
}

/// The scene orders of the script files read so far.
pub open spec fn orders_view(s: Seq<(Seq<char>, Seq<String>)>) -> Map<Seq<char>, Seq<Seq<char>>> {
    Map::new(
        |k: Seq<char>| pairs_map(s).contains_key(k),
        |k: Seq<char>| strings_view(pairs_map(s)[k]),
    )
}

impl App {
    /// The plain-value model of the engine.
    pub open spec fn model(&self) -> AppModel {
        AppModel {
            state: self.state@,
            menu: strings_view(self.menu_options@),
            selected: self.selected,
            status: opt_view(self.status_message),
            scenes: pairs_map(self.scenes.pairs()),
            settings: self.settings@,
            should_quit: self.should_quit,
            history: history_view(self.history@),
            prev_state: opt_state(self.prev_state),
            title: self.title@,
            footer: self.footer@,
            vars: self.variables@,
            input: self.input_buffer@,
            background: opt_view(self.current_background),
            image: opt_image(self.current_image_params),
            target: self.target_text@,
            display: self.display_text@,
            current_file: opt_view(self.current_file),
            current_bgm: opt_view(self.current_bgm),
            orders: orders_view(self.file_scene_order.pairs()),
            files: pairs_map(self.script_files.pairs()),
            effects: self.effects@.map_values(|e: Effect| e@),
            tasks: self.tasks@.map_values(|t: Task| t@),
            pending: opt_pending(self.pending),
        }
    }
}

} // verus!

verus! {

/// The model with one more effect for the caller.
pub open spec fn with_effect(m: AppModel, e: EffectModel) -> AppModel {
    AppModel { effects: m.effects.push(e), ..m }
}

/// The history with one more entry, its oldest entries dropped beyond
/// [`HISTORY_MAX`].
pub open spec fn added_history(
    h: Seq<(Option<Seq<char>>, Seq<char>)>,
    speaker: Option<Seq<char>>,
    text: Seq<char>,
) -> Seq<(Option<Seq<char>>, Seq<char>)> {
    let h2 = h.push((speaker, text));
    if h2.len() > HISTORY_MAX {
        h2.skip(h2.len() - HISTORY_MAX)
    } else {
        h2
    }
}

/// The state that the player comes back to from a screen: the one saved
/// before it, or the main menu.
pub open spec fn back_state(m: AppModel) -> AppModel {
    match m.prev_state {
        Some(p) => AppModel { state: p, prev_state: None, ..m },
        None => AppModel { state: StateModel::Menu, ..m },
    }
}

/// Going to a slot screen, remembering where the player was.
pub open spec fn open_slot(m: AppModel, screen: StateModel) -> AppModel {
    AppModel { prev_state: Some(m.state), selected: 0, state: screen, ..m }
}

/// The background colours that the settings cycle through.
pub open spec fn colors() -> Seq<Seq<char>> {
    seq!["default"@, "#2A2A3E"@, "#1E1E2E"@, "#222436"@, "#2C2C3C"@, "#3A2C3C"@]
}

/// The names of the background colours, as the status line shows them.
pub open spec fn color_names() -> Seq<Seq<char>> {
    seq!["终端默认"@, "深灰紫"@, "猫鼬暗色"@, "深藏青"@, "暖灰"@, "紫罗兰灰"@]
}

/// The index of the first colour equal to `c`, or 0 where there is none.
pub open spec fn color_index(c: Seq<char>) -> int {
    if exists|i: int| 0 <= i < 6 && colors()[i] == c {
        choose|i: int| 0 <= i < 6 && colors()[i] == c && forall|j: int| 0 <= j < i ==> colors()[j] != c
    } else {
        0
    }
}

/// What a settings action does.
pub open spec fn settings_step(m: AppModel, a: SettingsAction) -> AppModel {
    let s = m.settings;
    match a {
        SettingsAction::BgmUp => if s.bgm_volume <= 90 {
            let v = (s.bgm_volume + 10) as u8;
            with_effect(
                AppModel {
                    settings: SettingsModel { bgm_volume: v, ..s },
                    status: Some("BGM音量: "@ + crate::text::decimal(v as nat) + "%"@),
                    ..m
                },
                EffectModel::ApplyBgmVolume,
            )
        } else {
            m
        },
        SettingsAction::BgmDown => if s.bgm_volume >= 10 {
            let v = (s.bgm_volume - 10) as u8;
            with_effect(
                AppModel {
                    settings: SettingsModel { bgm_volume: v, ..s },
                    status: Some("BGM音量: "@ + crate::text::decimal(v as nat) + "%"@),
                    ..m
                },
                EffectModel::ApplyBgmVolume,
            )
        } else {
            m
        },
        SettingsAction::VoiceUp => if s.voice_volume <= 90 {
            let v = (s.voice_volume + 10) as u8;
            AppModel {
                settings: SettingsModel { voice_volume: v, ..s },
                status: Some("语音音量: "@ + crate::text::decimal(v as nat) + "%"@),
                ..m
            }
        } else {
            m
        },
        SettingsAction::VoiceDown => if s.voice_volume >= 10 {
            let v = (s.voice_volume - 10) as u8;
            AppModel {
                settings: SettingsModel { voice_volume: v, ..s },
                status: Some("语音音量: "@ + crate::text::decimal(v as nat) + "%"@),
                ..m
            }
        } else {
            m
        },
        SettingsAction::AutoPlayToggle => toggled_auto_play(m),
        SettingsAction::AutoPlaySpeedUp => with_effect(m, EffectModel::AutoPlaySpeed(true)),
        SettingsAction::AutoPlaySpeedDown => with_effect(m, EffectModel::AutoPlaySpeed(false)),
        SettingsAction::TextAnimationToggle => {
            let on = !s.text_animation;
            AppModel {
                settings: SettingsModel { text_animation: on, ..s },
                display: if !on {
                    m.target
                } else {
                    m.display
                },
                status: Some(
                    if on {
                        "文字动画开启"@
                    } else {
                        "文字动画关闭"@
                    },
                ),
                ..m
            }
        },
        SettingsAction::TextSpeedUp => if s.text_speed <= 90 {
            let v = (s.text_speed + 10) as u64;
            AppModel {
                settings: SettingsModel { text_speed: v, ..s },
                status: Some("文字速度: "@ + crate::text::decimal(v as nat) + "ms"@),
                ..m
            }
        } else {
            m
        },
        SettingsAction::TextSpeedDown => if s.text_speed >= 20 {
            let v = (s.text_speed - 10) as u64;
            AppModel {
                settings: SettingsModel { text_speed: v, ..s },
                status: Some("文字速度: "@ + crate::text::decimal(v as nat) + "ms"@),
                ..m
            }
        } else {
            m
        },
        SettingsAction::Save => with_effect(m, EffectModel::SaveConfig),
        SettingsAction::BgColorNext => {
            let next = (color_index(s.background_color) + 1) % 6;
            AppModel {
                settings: SettingsModel { background_color: colors()[next], ..s },
                status: Some("背景颜色: "@ + color_names()[next]),
                ..m
            }
        },
    }
}

/// Switching auto-play on or off.
pub open spec fn toggled_auto_play(m: AppModel) -> AppModel {
    let on = !m.settings.auto_play;
    with_effect(
        AppModel {
            settings: SettingsModel { auto_play: on, ..m.settings },
            status: Some(
                if on {
                    "自动播放开启"@
                } else {
                    "自动播放关闭"@
                },
            ),
            ..m
        },
        if on {
            EffectModel::RestartAutoPlay
        } else {
            EffectModel::ClearAutoPlay
        },
    )
}

impl App {
    /// Asks the caller for some outside work.
    fn emit(&mut self, e: Effect)
        ensures
            final(self).model() == with_effect(old(self).model(), e@),
    {
        let ghost old_effects = self.effects@;
        self.effects.push(e);
        assert(self.effects@.map_values(|e: Effect| e@) =~= old_effects.map_values(|e: Effect| e@).push(e@));
    }

    /// Takes the outside work asked for so far, oldest first.
    pub fn take_effects(&mut self) -> (r: Vec<Effect>)
        ensures
            r@.map_values(|e: Effect| e@) == old(self).model().effects,
            final(self).model() == (AppModel { effects: seq![], ..old(self).model() }),
    {
        let mut r: Vec<Effect> = Vec::new();
        std::mem::swap(&mut r, &mut self.effects);
        assert(self.effects@.map_values(|e: Effect| e@) =~= Seq::<EffectModel>::empty());
        r
    }

    /// Records a line in the history, dropping the oldest lines beyond
    /// [`HISTORY_MAX`].
    pub fn add_to_history(&mut self, speaker: Option<&str>, text: &str)
        ensures
            final(self).model() == (AppModel {
                history: added_history(
                    old(self).model().history,
                    match speaker {
                        Some(s) => Some(s@),
                        None => None,
                    },
                    text@,
                ),
                ..old(self).model()
            }),
    {
        let sp: Option<String> = match speaker {
            Some(s) => Some(s.to_string()),
            None => None,
        };
        let ghost old_h = self.history@;
        let ghost m0 = self.model();
        let entry = (sp, text.to_string());
        let ghost ev = (opt_view(entry.0), entry.1@);
        assert(ev == (match speaker {
            Some(s) => Some(s@),
            None => None,
        }, text@));
        self.history.push_back(entry);
        assert(history_view(self.history@) =~= history_view(old_h).push(ev));
        while self.history.len() > HISTORY_MAX
            invariant
                self.model() == (AppModel { history: history_view(self.history@), ..m0 }),
                history_view(old_h).push(ev).len() >= history_view(self.history@).len(),
                history_view(self.history@).len() >= HISTORY_MAX || history_view(self.history@).len()
                    == history_view(old_h).push(ev).len(),
                history_view(self.history@) == history_view(old_h).push(ev).skip(
                    history_view(old_h).push(ev).len() - history_view(self.history@).len(),
                ),
            decreases self.history@.len(),
        {
            let ghost before = history_view(self.history@);
            let _ = self.history.pop_front();
            assert(history_view(self.history@) =~= before.drop_first());
        }
        proof {
            let h2 = history_view(old_h).push(ev);
            if h2.len() <= HISTORY_MAX {
                assert(h2.skip(0) =~= h2);
            }
        }
    }

    /// Opens the save screen.
    pub fn open_save_slot(&mut self)
        ensures
            final(self).model() == open_slot(old(self).model(), StateModel::SaveSlot),
    {
        self.prev_state = Some(self.state.copy());
        self.selected = 0;
        self.state = AppState::SaveSlot;
    }

    /// Opens the load screen.
    pub fn open_load_slot(&mut self)
        ensures
            final(self).model() == open_slot(old(self).model(), StateModel::LoadSlot),
    {
        self.prev_state = Some(self.state.copy());
        self.selected = 0;
        self.state = AppState::LoadSlot;
    }

    fn go_back(&mut self)
        ensures
            final(self).model() == back_state(old(self).model()),
    {
        match self.prev_state.take() {
            Some(p) => {
                self.state = p;
            },
            None => {
                self.state = AppState::Menu;
            },
        }
    }

    fn set_status(&mut self, prefix: &str, mid: &[char], suffix: &str)
        ensures
            final(self).model() == (AppModel {
                status: Some(prefix@ + mid@ + suffix@),
                ..old(self).model()
            }),
    {
        self.status_message = Some(crate::text::join3(prefix, mid, suffix));
    }

    fn set_status_text(&mut self, text: &str)
        ensures
            final(self).model() == (AppModel { status: Some(text@), ..old(self).model() }),
    {
        self.status_message = Some(text.to_string());
    }

    fn toggle_auto_play(&mut self)
        ensures
            final(self).model() == toggled_auto_play(old(self).model()),
    {
        self.settings.auto_play = !self.settings.auto_play;
        if self.settings.auto_play {
            self.set_status_text("自动播放开启");
            self.emit(Effect::RestartAutoPlay);
        } else {
            self.set_status_text("自动播放关闭");
            self.emit(Effect::ClearAutoPlay);
        }
    }

    /// Carries out a settings action.
    pub fn handle_settings(&mut self, action: SettingsAction)
        ensures
            final(self).model() == settings_step(old(self).model(), action),
    {
        match action {
            SettingsAction::BgmUp => {
                if self.settings.bgm_volume <= 90 {
                    self.settings.bgm_volume = self.settings.bgm_volume + 10;
                    let d = crate::text::decimal_chars(self.settings.bgm_volume as u64);
                    self.set_status("BGM音量: ", d.as_slice(), "%");
                    self.emit(Effect::ApplyBgmVolume);
                }
            },
            SettingsAction::BgmDown => {
                if self.settings.bgm_volume >= 10 {
                    self.settings.bgm_volume = self.settings.bgm_volume - 10;
                    let d = crate::text::decimal_chars(self.settings.bgm_volume as u64);
                    self.set_status("BGM音量: ", d.as_slice(), "%");
                    self.emit(Effect::ApplyBgmVolume);
                }
            },
            SettingsAction::VoiceUp => {
                if self.settings.voice_volume <= 90 {
                    self.settings.voice_volume = self.settings.voice_volume + 10;
                    let d = crate::text::decimal_chars(self.settings.voice_volume as u64);
                    self.set_status("语音音量: ", d.as_slice(), "%");
                }
            },
            SettingsAction::VoiceDown => {
                if self.settings.voice_volume >= 10 {
                    self.settings.voice_volume = self.settings.voice_volume - 10;
                    let d = crate::text::decimal_chars(self.settings.voice_volume as u64);
                    self.set_status("语音音量: ", d.as_slice(), "%");
                }
            },
            SettingsAction::AutoPlayToggle => {
                self.toggle_auto_play();
            },
            SettingsAction::AutoPlaySpeedUp => {
                self.emit(Effect::AutoPlaySpeed(true));
            },
            SettingsAction::AutoPlaySpeedDown => {
                self.emit(Effect::AutoPlaySpeed(false));
            },
            SettingsAction::TextAnimationToggle => {
                self.settings.text_animation = !self.settings.text_animation;
                if !self.settings.text_animation {
                    self.display_text = crate::text::slice_vec(
                        self.target_text.as_slice(),
                        0,
                        self.target_text.len(),
                    );
                    assert(self.display_text@ =~= self.target_text@);
                }
                if self.settings.text_animation {
                    self.set_status_text("文字动画开启");
                } else {
                    self.set_status_text("文字动画关闭");
                }
            },
            SettingsAction::TextSpeedUp => {
                if self.settings.text_speed <= 90 {
                    self.settings.text_speed = self.settings.text_speed + 10;
                    let d = crate::text::decimal_chars(self.settings.text_speed);
                    self.set_status("文字速度: ", d.as_slice(), "ms");
                }
            },
            SettingsAction::TextSpeedDown => {
                if self.settings.text_speed >= 20 {
                    self.settings.text_speed = self.settings.text_speed - 10;
                    let d = crate::text::decimal_chars(self.settings.text_speed);
                    self.set_status("文字速度: ", d.as_slice(), "ms");
                }
            },
            SettingsAction::Save => {
                self.emit(Effect::SaveConfig);
            },
            SettingsAction::BgColorNext => {
                self.next_background_color();
            },
        }
    }

    fn next_background_color(&mut self)
        ensures
            final(self).model() == settings_step(old(self).model(), SettingsAction::BgColorNext),
    {
        let list = ["default", "#2A2A3E", "#1E1E2E", "#222436", "#2C2C3C", "#3A2C3C"];
        let names = ["终端默认", "深灰紫", "猫鼬暗色", "深藏青", "暖灰", "紫罗兰灰"];
        let ghost cur = self.settings.background_color@;
        assert(list@.map_values(|s: &str| s@) =~= colors());
        assert(names@.map_values(|s: &str| s@) =~= color_names());
        let mut i: usize = 0;
        while i < 6
            invariant
                i <= 6,
                cur == self.settings.background_color@,
                list@.map_values(|s: &str| s@) == colors(),
                forall|j: int| 0 <= j < i ==> colors()[j] != cur,
            ensures
                i <= 6,
                i < 6 ==> colors()[i as int] == cur,
                forall|j: int| 0 <= j < i ==> colors()[j] != cur,
            decreases 6 - i,
        {
            assert(colors()[i as int] == list@[i as int]@);
            if crate::text::str_eq(list[i], self.settings.background_color.as_str()) {
                break;
            }
            i = i + 1;
        }
        let pos: usize = if i < 6 {
            assert(colors()[i as int] == cur);
            assert(color_index(cur) == i) by {
                let c = choose|k: int|
                    0 <= k < 6 && colors()[k] == cur && forall|j: int| 0 <= j < k ==> colors()[j] != cur;
                if c < i {
                } else if c > i {
                    assert(colors()[i as int] == cur);
                }
            }
            i
        } else {
            assert(color_index(cur) == 0);
            0
        };
        let next = (pos + 1) % 6;
        self.settings.background_color = list[next].to_string();
        let name = crate::text::chars_of(names[next]);
        self.set_status("背景颜色: ", name.as_slice(), "");
        assert("背景颜色: "@ + color_names()[next as int] + ""@ =~= "背景颜色: "@ + color_names()[next as int]) by {
            reveal_strlit("");
        }
    }
}

} // verus!

verus! {

/// Command `i` of scene `s`, if both exist.
pub open spec fn command_at(m: AppModel, s: Seq<char>, i: int) -> Option<Command> {
    if m.scenes.contains_key(s) && 0 <= i < m.scenes[s].len() {
        Some(m.scenes[s][i])
    } else {
        None
    }
}

/// Entering scene `s`: it becomes the current scene at its first command,
/// which runs next, followed by a skip over commands that need no input.
pub open spec fn enter_scene(m: AppModel, s: Seq<char>) -> AppModel {
    let m1 = AppModel {
        state: StateModel::InDialogue { scene_id: s, cmd_index: 0 },
        tasks: m.tasks.push(TaskModel::Skip),
        ..m
    };
    match command_at(m, s, 0) {
        Some(c) => AppModel { tasks: m1.tasks.push(TaskModel::Exec(c)), ..m1 },
        None => m1,
    }
}

/// Reading the script file `f` (when the caller supplied it): its scenes
/// join the known scenes, replacing those of the same name, and its scene
/// order is recorded.
pub open spec fn load_external(m: AppModel, f: Seq<char>) -> AppModel {
    if m.files.contains_key(f) {
        let (sc, ord) = crate::parser::script_model(m.files[f]);
        AppModel { scenes: m.scenes.union_prefer_right(sc), orders: m.orders.insert(f, ord), ..m }
    } else {
        m
    }
}

/// A file name that stands for "no file".
pub open spec fn no_file(f: Seq<char>) -> bool {
    f == "null"@ || f.len() == 0
}

/// Jumping to `target`, possibly in the script file `file`.
pub open spec fn exec_load(m: AppModel, file: Option<Seq<char>>, target: Seq<char>) -> AppModel {
    let m1 = match file {
        Some(f) => if no_file(f) {
            m
        } else {
            let ma = AppModel { current_file: Some(f), ..m };
            let mb = if !ma.orders.contains_key(f) {
                load_external(ma, f)
            } else {
                ma
            };
            if !mb.scenes.contains_key(target) {
                load_external(mb, f)
            } else {
                mb
            }
        },
        None => m,
    };
    enter_scene(m1, target)
}

/// Playing a voice file: whatever voice plays stops first.
pub open spec fn play_voice(m: AppModel, file: Seq<char>) -> AppModel {
    with_effect(with_effect(m, EffectModel::StopVoice), EffectModel::PlayVoice(file))
}

/// Showing a line of dialogue: its text with the variables filled in is
/// the text to reveal, of which the first character shows at once; the
/// line goes to the history; its voice plays (the named file, else the
/// speaker's file `<speaker>.mp3`).
pub open spec fn exec_text(m: AppModel, speaker: Option<Seq<char>>, text: Seq<char>, voice: Option<Seq<char>>) -> AppModel {
    let t = interpolation(m.vars, text);
    let sp = match speaker {
        Some(s) => Some(interpolation(m.vars, s)),
        None => None,
    };
    let m1 = with_effect(
        AppModel {
            target: t,
            display: if t.len() > 0 {
                seq![t[0]]
            } else {
                seq![]
            },
            history: added_history(m.history, sp, t),
            ..m
        },
        EffectModel::ExpandShell,
    );
    match voice {
        Some(v) => play_voice(m1, v),
        None => match sp {
            Some(s) => play_voice(m1, s + ".mp3"@),
            None => m1,
        },
    }
}

/// Stopping the background music.
pub open spec fn stop_bgm(m: AppModel) -> AppModel {
    with_effect(AppModel { current_bgm: None, ..m }, EffectModel::StopBgm)
}

/// Starting background music (the caller reports a failure).
pub open spec fn play_bgm(m: AppModel, f: Seq<char>) -> AppModel {
    with_effect(stop_bgm(m), EffectModel::PlayBgm(f))
}

/// Running one command.
pub open spec fn exec_command(m: AppModel, c: Command) -> AppModel {
    match c {
        Command::Text { speaker, text, voice } => exec_text(m, speaker, text, voice),
        Command::Image(p) => AppModel { image: Some(p), ..m },
        Command::Background { filename } => AppModel { background: filename, ..m },
        Command::Music { filename } => AppModel { current_bgm: Some(filename), ..play_bgm(m, filename) },
        Command::MusicStop => stop_bgm(m),
        Command::Choose { options } => match m.state {
            StateModel::InDialogue { scene_id, .. } => AppModel {
                state: StateModel::InChoice { scene_id, options, selected: 0 },
                ..m
            },
            _ => m,
        },
        Command::Load { file, target } => exec_load(m, file, target),
        Command::End => with_effect(
            stop_bgm(
                AppModel {
                    state: StateModel::Menu,
                    image: None,
                    background: None,
                    current_file: None,
                    ..m
                },
            ),
            EffectModel::PlayTitleBgm,
        ),
        Command::Input { prompt, var_name } => AppModel {
            prev_state: Some(m.state),
            state: StateModel::Input { prompt, var_name },
            ..m
        },
        Command::SetVar { name, value } => AppModel {
            pending: Some(PendingModel::Assign { name, value }),
            ..m
        },
        Command::If { condition, target } => AppModel {
            pending: Some(PendingModel::Branch { condition, target }),
            ..m
        },
    }
}

/// A command after which the story goes on by itself.
pub open spec fn non_interactive(c: Command) -> bool {
    match c {
        Command::Image(_) | Command::Background { .. } | Command::Music { .. } | Command::MusicStop
        | Command::SetVar { .. } | Command::If { .. } => true,
        _ => false,
    }
}

/// Skipping on: when the current command needs no input and another
/// command follows in the scene, that command becomes current and runs,
/// and the skip is repeated after it.
pub open spec fn skip_step(m: AppModel) -> AppModel {
    match m.state {
        StateModel::InDialogue { scene_id, cmd_index } => match command_at(m, scene_id, cmd_index as int) {
            Some(c) => if non_interactive(c) && command_at(m, scene_id, cmd_index + 1) is Some {
                AppModel {
                    state: StateModel::InDialogue { scene_id, cmd_index: (cmd_index + 1) as usize },
                    tasks: m.tasks.push(TaskModel::Skip).push(
                        TaskModel::Exec(command_at(m, scene_id, cmd_index + 1).unwrap()),
                    ),
                    ..m
                }
            } else {
                m
            },
            None => m,
        },
        _ => m,
    }
}

/// Carrying out the most recent task.
pub open spec fn step(m: AppModel) -> AppModel {
    if m.tasks.len() == 0 {
        m
    } else {
        let t = m.tasks.last();
        let m1 = AppModel { tasks: m.tasks.drop_last(), ..m };
        match t {
            TaskModel::Exec(c) => exec_command(m1, c),
            TaskModel::Skip => skip_step(m1),
            TaskModel::ClearStatus => AppModel { status: None, ..m1 },
        }
    }
}

/// Carrying out up to `n` tasks, stopping early when none is left or a
/// command waits for an evaluation.
pub open spec fn run_model(m: AppModel, n: nat) -> AppModel
    decreases n,
{
    if n == 0 || m.pending is Some || m.tasks.len() == 0 {
        m
    } else {
        run_model(step(m), (n - 1) as nat)
    }
}

/// How many tasks one call carries out at most before handing control
/// back; the caller calls [`App::run`] again while tasks remain.
pub const STEP_BUDGET: u64 = 10000;

/// The index of the first `s` in `o`, or -1.
pub open spec fn index_of(o: Seq<Seq<char>>, s: Seq<char>) -> int
    decreases o.len(),
{
    if o.len() == 0 {
        -1
    } else if o[0] == s {
        0
    } else {
        let r = index_of(o.drop_first(), s);
        if r < 0 {
            -1
        } else {
            r + 1
        }
    }
}

/// The scene that follows `s` in the order of the current script file.
pub open spec fn next_scene(m: AppModel, s: Seq<char>) -> Option<Seq<char>> {
    match m.current_file {
        Some(f) => if m.orders.contains_key(f) {
            let o = m.orders[f];
            let p = index_of(o, s);
            if 0 <= p && p + 1 < o.len() {
                Some(o[p + 1])
            } else {
                None
            }
        } else {
            None
        },
        None => None,
    }
}

/// Moving on from the current command: to the next command of the scene,
/// else to the first command of the next scene of the file, else to the
/// end of the story. An unknown scene leads back to the menu.
pub open spec fn advance(m: AppModel) -> AppModel {
    match m.state {
        StateModel::InDialogue { scene_id, cmd_index } => if !m.scenes.contains_key(scene_id) {
            AppModel { state: StateModel::Menu, ..m }
        } else if cmd_index + 1 < m.scenes[scene_id].len() {
            AppModel {
                target: seq![],
                display: seq![],
                state: StateModel::InDialogue { scene_id, cmd_index: (cmd_index + 1) as usize },
                tasks: m.tasks.push(TaskModel::Skip).push(
                    TaskModel::Exec(m.scenes[scene_id][cmd_index + 1]),
                ),
                ..m
            }
        } else {
            match next_scene(m, scene_id) {
                Some(n) => enter_scene(AppModel { target: seq![], display: seq![], ..m }, n),
                None => AppModel {
                    state: StateModel::EndOfFile,
                    image: None,
                    background: None,
                    status: Some("剧情结束，按任意键返回主菜单"@),
                    ..m
                },
            }
        },
        _ => m,
    }
}

/// Taking the selected choice: its scene is entered.
pub open spec fn choose_option(m: AppModel) -> AppModel {
    match m.state {
        StateModel::InChoice { options, selected, .. } => if selected < options.len() {
            enter_scene(AppModel { target: seq![], display: seq![], ..m }, options[selected as int].1)
        } else {
            m
        },
        _ => m,
    }
}

/// Starting a new game at the scene `welcome` of the main script.
pub open spec fn begin_game(m: AppModel) -> AppModel {
    let m1 = stop_bgm(
        AppModel {
            current_file: Some("dialogue.ng"@),
            image: None,
            background: None,
            target: seq![],
            display: seq![],
            input: seq![],
            prev_state: None,
            tasks: m.tasks.push(TaskModel::ClearStatus),
            ..m
        },
    );
    if m1.scenes.contains_key("welcome"@) {
        enter_scene(m1, "welcome"@)
    } else {
        AppModel { state: StateModel::Menu, status: Some("未找到起始场景 welcome"@), ..m1 }
    }
}

/// Going on after an assignment was evaluated: the variable takes the
/// value (or, where the expression had none, its text with the variables
/// filled in) and the story moves on.
pub open spec fn assigned(m: AppModel, name: Seq<char>, value: Seq<char>, result: Option<Seq<char>>) -> AppModel {
    let v = match result {
        Some(r) => r,
        None => interpolation(m.vars, value),
    };
    advance(AppModel { vars: m.vars.insert(name, v), pending: None, ..m })
}

/// Going on after a condition was evaluated: when it holds, the target
/// scene is entered.
pub open spec fn branched(m: AppModel, target: Seq<char>, holds: bool) -> AppModel {
    let m1 = AppModel { pending: None, ..m };
    if holds {
        enter_scene(m1, target)
    } else {
        m1
    }
}

} // verus!

verus! {

pub proof fn lemma_union_insert(m: Map<Seq<char>, Seq<Command>>, t: Map<Seq<char>, Seq<Command>>, k: Seq<char>, v: Seq<Command>)
    ensures
        m.union_prefer_right(t.insert(k, v)) == m.union_prefer_right(t).insert(k, v),
{
    assert(m.union_prefer_right(t.insert(k, v)) =~= m.union_prefer_right(t).insert(k, v));
}

impl App {
    fn push_task(&mut self, t: Task)
        ensures
            final(self).model() == (AppModel { tasks: old(self).model().tasks.push(t@), ..old(self).model() }),
    {
        let ghost old_tasks = self.tasks@;
        self.tasks.push(t);
        assert(self.tasks@.map_values(|t: Task| t@) =~= old_tasks.map_values(|t: Task| t@).push(t@));
    }

    /// A copy of command `i` of scene `s`, if both exist.
    pub fn command_copy(&self, s: &str, i: usize) -> (r: Option<DialogueCommand>)
        ensures
            match r {
                Some(c) => command_at(self.model(), s@, i as int) == Some(c@),
                None => command_at(self.model(), s@, i as int) is None,
            },
            self.model().scenes.contains_key(s@) ==> self.model().scenes[s@].len() <= usize::MAX,
    {
        match self.scenes.get(s) {
            Some(sd) => {
                let n = sd.commands.len();
                assert(sd@.len() == n);
                if i < sd.commands.len() {
                    Some(sd.commands[i].copy())
                } else {
                    None
                }
            },
            None => None,
        }
    }

    fn enter(&mut self, s: String)
        ensures
            final(self).model() == enter_scene(old(self).model(), s@),
    {
        let first = self.command_copy(s.as_str(), 0);
        self.state = AppState::InDialogue { scene_id: s, cmd_index: 0 };
        self.push_task(Task::Skip);
        match first {
            Some(c) => {
                self.push_task(Task::Exec(c));
            },
            None => {},
        }
    }

    /// Reads the script file `file_name` from the files the caller supplied:
    /// its scenes join the known scenes and its scene order is recorded.
    /// Returns whether the file was there.
    pub fn load_external_file(&mut self, file_name: &str) -> (r: bool)
        ensures
            final(self).model() == load_external(old(self).model(), file_name@),
            r == old(self).model().files.contains_key(file_name@),
    {
        let content = match self.script_files.get(file_name) {
            Some(c) => c.clone(),
            None => {
                return false;
            },
        };
        let ghost m0 = self.model();
        let (new_scenes, order) = crate::parser::parse_dialogue_file_with_order(content.as_str());
        let ghost t = new_scenes.pairs();
        let n = new_scenes.len();
        let mut i: usize = 0;
        assert(pairs_map(t.take(0)) =~= Map::<Seq<char>, Seq<Command>>::empty());
        assert(m0.scenes.union_prefer_right(Map::<Seq<char>, Seq<Command>>::empty()) =~= m0.scenes);
        while i < n
            invariant
                i <= n == t.len(),
                t == new_scenes.pairs(),
                self.model() == (AppModel {
                    scenes: m0.scenes.union_prefer_right(pairs_map(t.take(i as int))),
                    ..m0
                }),
            decreases n - i,
        {
            let (k, v) = new_scenes.entry(i);
            let kk = k.clone();
            let vv = v.copy();
            self.scenes.insert(kk, vv);
            proof {
                assert(t.take(i + 1) =~= t.take(i as int).push(t[i as int]));
                crate::table::lemma_lookup_push(t.take(i as int), t[i as int].0, t[i as int].1);
                lemma_union_insert(m0.scenes, pairs_map(t.take(i as int)), k@, v@);
            }
            i = i + 1;
        }
        assert(t.take(n as int) =~= t);
        let ghost before = self.file_scene_order.pairs();
        let ghost ord = strings_view(order@);
        self.file_scene_order.insert(file_name.to_string(), order);
        assert(orders_view(self.file_scene_order.pairs()) =~= orders_view(before).insert(file_name@, ord));
        true
    }

    fn stop_music(&mut self)
        ensures
            final(self).model() == stop_bgm(old(self).model()),
    {
        self.current_bgm = None;
        self.emit(Effect::StopBgm);
    }

    fn voice(&mut self, file: String)
        ensures
            final(self).model() == play_voice(old(self).model(), file@),
    {
        self.emit(Effect::StopVoice);
        self.emit(Effect::PlayVoice(file));
    }

    fn show_text(&mut self, speaker: Option<String>, text: String, voice: Option<String>)
        ensures
            final(self).model() == exec_text(old(self).model(), opt_view(speaker), text@, opt_view(voice)),
    {
        let t = self.variables.interpolate(text.as_str());
        let tc = crate::text::chars_of(t.as_str());
        let mut d: Vec<char> = Vec::new();
        if tc.len() > 0 {
            d.push(tc[0]);
        }
        assert(d@ =~= (if tc@.len() > 0 {
            seq![tc@[0]]
        } else {
            seq![]
        }));
        let sp: Option<String> = match &speaker {
            Some(s) => Some(self.variables.interpolate(s.as_str())),
            None => None,
        };
        self.target_text = tc;
        self.display_text = d;
        self.emit(Effect::ExpandShell);
        match &sp {
            Some(s) => self.add_to_history(Some(s.as_str()), t.as_str()),
            None => self.add_to_history(None, t.as_str()),
        }
        match voice {
            Some(v) => {
                self.voice(v);
            },
            None => match sp {
                Some(s) => {
                    let sc = crate::text::chars_of(s.as_str());
                    let f = crate::text::join3("", sc.as_slice(), ".mp3");
                    assert(f@ =~= s@ + ".mp3"@) by {
                        reveal_strlit("");
                    }
                    self.voice(f);
                },
                None => {},
            },
        }
    }

    fn exec_one(&mut self, c: DialogueCommand)
        ensures
            final(self).model() == exec_command(old(self).model(), c@),
    {
        match c {
            DialogueCommand::Text { speaker, text, voice } => {
                self.show_text(speaker, text, voice);
            },
            DialogueCommand::Image(p) => {
                self.current_image_params = Some(p);
            },
            DialogueCommand::Background { filename } => {
                self.current_background = filename;
            },
            DialogueCommand::Music { filename } => {
                let f2 = filename.clone();
                self.stop_music();
                self.emit(Effect::PlayBgm(filename));
                self.current_bgm = Some(f2);
            },
            DialogueCommand::MusicStop => {
                self.stop_music();
            },
            DialogueCommand::Choose { options } => {
                let sid = match &self.state {
                    AppState::InDialogue { scene_id, .. } => Some(scene_id.clone()),
                    _ => None,
                };
                match sid {
                    Some(scene_id) => {
                        self.state = AppState::InChoice { scene_id, options, selected: 0 };
                    },
                    None => {},
                }
            },
            DialogueCommand::Load { file, target } => {
                self.exec_load(file, target);
            },
            DialogueCommand::End => {
                self.state = AppState::Menu;
                self.current_image_params = None;
                self.current_background = None;
                self.current_file = None;
                self.stop_music();
                self.emit(Effect::PlayTitleBgm);
            },
            DialogueCommand::Input { prompt, var_name } => {
                self.prev_state = Some(self.state.copy());
                self.state = AppState::Input { prompt, var_name };
            },
            DialogueCommand::SetVar { name, value } => {
                self.pending = Some(Pending::Assign { name, value });
            },
            DialogueCommand::If { condition, target } => {
                self.pending = Some(Pending::Branch { condition, target });
            },
        }
    }

    fn exec_load(&mut self, file: Option<String>, target: String)
        ensures
            final(self).model() == exec_load(old(self).model(), opt_view(file), target@),
    {
        match file {
            Some(f) => {
                let fc = crate::text::chars_of(f.as_str());
                let is_null = crate::text::str_eq(f.as_str(), "null");
                if is_null || fc.len() == 0 {
                } else {
                    self.current_file = Some(f.clone());
                    if self.file_scene_order.get(f.as_str()).is_none() {
                        self.load_external_file(f.as_str());
                    }
                    if self.scenes.get(target.as_str()).is_none() {
                        self.load_external_file(f.as_str());
                    }
                }
            },
            None => {},
        }
        self.enter(target);
    }

    fn skip_one(&mut self)
        ensures
            final(self).model() == skip_step(old(self).model()),
    {
        let (sid, idx) = match &self.state {
            AppState::InDialogue { scene_id, cmd_index } => (scene_id.clone(), *cmd_index),
            _ => {
                return;
            },
        };
        let cur = self.command_copy(sid.as_str(), idx);
        let go = match &cur {
            Some(c) => match c {
                DialogueCommand::Image(_) | DialogueCommand::Background { .. } | DialogueCommand::Music { .. }
                | DialogueCommand::MusicStop | DialogueCommand::SetVar { .. } | DialogueCommand::If { .. } => true,
                _ => false,
            },
            None => false,
        };
        if !go || idx == usize::MAX {
            return;
        }
        match self.command_copy(sid.as_str(), idx + 1) {
            Some(next) => {
                self.state = AppState::InDialogue { scene_id: sid, cmd_index: idx + 1 };
                self.push_task(Task::Skip);
                self.push_task(Task::Exec(next));
            },
            None => {},
        }
    }

    /// Carries out the most recent task.
    pub fn step(&mut self)
        ensures
            final(self).model() == step(old(self).model()),
    {
        let ghost old_tasks = self.tasks@;
        match self.tasks.pop() {
            Some(t) => {
                assert(self.tasks@.map_values(|t: Task| t@) =~= old_tasks.map_values(|t: Task| t@).drop_last());
                match t {
                    Task::Exec(c) => self.exec_one(c),
                    Task::Skip => self.skip_one(),
                    Task::ClearStatus => {
                        self.status_message = None;
                    },
                }
            },
            None => {},
        }
    }

    /// Carries out up to [`STEP_BUDGET`] tasks; stops early when none is
    /// left or a command waits for an evaluation.
    pub fn run(&mut self)
        ensures
            final(self).model() == run_model(old(self).model(), STEP_BUDGET as nat),
    {
        let mut budget: u64 = STEP_BUDGET;
        let ghost m0 = self.model();
        while budget > 0 && self.pending.is_none() && self.tasks.len() > 0
            invariant
                budget <= STEP_BUDGET,
                run_model(m0, STEP_BUDGET as nat) == run_model(self.model(), budget as nat),
            decreases budget,
        {
            self.step();
            budget = budget - 1;
        }
    }
}

} // verus!

verus! {

pub proof fn lemma_index_of(o: Seq<Seq<char>>, s: Seq<char>, p: int)
    requires
        0 <= p <= o.len(),
        forall|j: int| 0 <= j < p ==> o[j] != s,
        p < o.len() ==> o[p] == s,
    ensures
        index_of(o, s) == (if p < o.len() {
            p
        } else {
            -1
        }),
    decreases p,
{
    if p > 0 {
        assert forall|j: int| 0 <= j < p - 1 implies o.drop_first()[j] != s by {
            assert(o.drop_first()[j] == o[j + 1]);
        }
        lemma_index_of(o.drop_first(), s, p - 1);
        assert(o[0] != s);
    }
}

impl App {
    fn find_next_scene(&self, s: &str) -> (r: Option<String>)
        ensures
            opt_view(r) == next_scene(self.model(), s@),
    {
        let f = match &self.current_file {
            Some(f) => f,
            None => {
                return None;
            },
        };
        let order = match self.file_scene_order.get(f.as_str()) {
            Some(o) => o,
            None => {
                return None;
            },
        };
        let ghost o = strings_view(order@);
        assert(self.model().orders.contains_key(f@));
        assert(self.model().orders[f@] == o);
        let n = order.len();
        let mut p: usize = 0;
        while p < n
            invariant
                p <= n == order@.len() == o.len(),
                o == strings_view(order@),
                forall|j: int| 0 <= j < p ==> o[j] != s@,
            ensures
                p <= n,
                forall|j: int| 0 <= j < p ==> o[j] != s@,
                p < n ==> o[p as int] == s@,
            decreases n - p,
        {
            if crate::text::str_eq(order[p].as_str(), s) {
                break;
            }
            p = p + 1;
        }
        proof {
            lemma_index_of(o, s@, p as int);
        }
        if p < n && p + 1 < n {
            Some(order[p + 1].clone())
        } else {
            None
        }
    }

    fn advance_body(&mut self)
        ensures
            final(self).model() == advance(old(self).model()),
    {
        let (sid, idx) = match &self.state {
            AppState::InDialogue { scene_id, cmd_index } => (scene_id.clone(), *cmd_index),
            _ => {
                return;
            },
        };
        let known = self.scenes.get(sid.as_str()).is_some();
        if !known {
            self.state = AppState::Menu;
            return;
        }
        let cur_len = match self.scenes.get(sid.as_str()) {
            Some(sd) => sd.commands.len(),
            None => 0,
        };
        assert(cur_len == self.model().scenes[sid@].len());
        if idx < usize::MAX && idx + 1 < cur_len {
            let next = self.command_copy(sid.as_str(), idx + 1);
            match next {
                Some(c) => {
                    self.target_text = Vec::new();
                    self.display_text = Vec::new();
                    self.state = AppState::InDialogue { scene_id: sid, cmd_index: idx + 1 };
                    self.push_task(Task::Skip);
                    self.push_task(Task::Exec(c));
                    assert(self.target_text@ =~= Seq::<char>::empty());
                    assert(self.display_text@ =~= Seq::<char>::empty());
                },
                None => {},
            }
            return;
        }
        match self.find_next_scene(sid.as_str()) {
            Some(n) => {
                self.target_text = Vec::new();
                self.display_text = Vec::new();
                assert(self.target_text@ =~= Seq::<char>::empty());
                assert(self.display_text@ =~= Seq::<char>::empty());
                self.enter(n);
            },
            None => {
                self.state = AppState::EndOfFile;
                self.current_image_params = None;
                self.current_background = None;
                self.set_status_text("剧情结束，按任意键返回主菜单");
            },
        }
    }

    /// Moves the story on, as [`advance`] says, then carries out the
    /// resulting tasks.
    pub fn advance_dialogue(&mut self)
        ensures
            final(self).model() == run_model(advance(old(self).model()), STEP_BUDGET as nat),
    {
        self.advance_body();
        self.run();
    }

    fn choose_body(&mut self)
        ensures
            final(self).model() == choose_option(old(self).model()),
    {
        let target = match &self.state {
            AppState::InChoice { options, selected, .. } => {
                if *selected < options.len() {
                    options[*selected].1.clone()
                } else {
                    return;
                }
            },
            _ => {
                return;
            },
        };
        self.target_text = Vec::new();
        self.display_text = Vec::new();
        assert(self.target_text@ =~= Seq::<char>::empty());
        assert(self.display_text@ =~= Seq::<char>::empty());
        self.enter(target);
    }

    /// Takes the selected choice, then carries out the resulting tasks.
    pub fn select_option(&mut self)
        ensures
            final(self).model() == run_model(choose_option(old(self).model()), STEP_BUDGET as nat),
    {
        self.choose_body();
        self.run();
    }

    fn start_body(&mut self)
        ensures
            final(self).model() == begin_game(old(self).model()),
    {
        self.current_file = Some("dialogue.ng".to_string());
        self.current_image_params = None;
        self.current_background = None;
        self.target_text = Vec::new();
        self.display_text = Vec::new();
        self.input_buffer = Vec::new();
        self.prev_state = None;
        assert(self.target_text@ =~= Seq::<char>::empty());
        assert(self.display_text@ =~= Seq::<char>::empty());
        assert(self.input_buffer@ =~= Seq::<char>::empty());
        self.push_task(Task::ClearStatus);
        self.stop_music();
        let welcome = "welcome".to_string();
        if self.scenes.get(welcome.as_str()).is_some() {
            self.enter(welcome);
        } else {
            self.state = AppState::Menu;
            self.set_status_text("未找到起始场景 welcome");
        }
    }

    /// Starts a new game at the scene `welcome`, then carries out the
    /// resulting tasks.
    pub fn start_game(&mut self)
        ensures
            final(self).model() == run_model(begin_game(old(self).model()), STEP_BUDGET as nat),
    {
        self.start_body();
        self.run();
    }

    /// Runs a command, then carries out the resulting tasks.
    pub fn execute_command(&mut self, cmd: DialogueCommand)
        ensures
            final(self).model() == run_model(
                AppModel { tasks: old(self).model().tasks.push(TaskModel::Exec(cmd@)), ..old(self).model() },
                STEP_BUDGET as nat,
            ),
    {
        self.push_task(Task::Exec(cmd));
        self.run();
    }

    /// Skips on past commands that need no input, as far as they go.
    pub fn skip_non_interactive_commands(&mut self)
        ensures
            final(self).model() == run_model(
                AppModel { tasks: old(self).model().tasks.push(TaskModel::Skip), ..old(self).model() },
                STEP_BUDGET as nat,
            ),
    {
        self.push_task(Task::Skip);
        self.run();
    }

    /// The command waiting for an evaluation: an assignment's name and
    /// expression, or a condition and its target scene.
    pub fn pending_request(&self) -> (r: Option<&Pending>)
        ensures
            match r {
                Some(p) => self.model().pending == Some(p@),
                None => self.model().pending is None,
            },
    {
        self.pending.as_ref()
    }

    /// Whether tasks remain to be carried out.
    pub fn has_tasks(&self) -> (r: bool)
        ensures
            r == (self.model().tasks.len() > 0),
    {
        self.tasks.len() > 0
    }

    /// Completes a waiting assignment with the value its expression
    /// evaluated to (`None` where it is not arithmetic), then carries out
    /// the resulting tasks. Without a waiting assignment nothing changes.
    pub fn resume_assign(&mut self, result: Option<String>)
        ensures
            match old(self).model().pending {
                Some(PendingModel::Assign { name, value }) => final(self).model() == run_model(
                    assigned(old(self).model(), name, value, opt_view(result)),
                    STEP_BUDGET as nat,
                ),
                _ => final(self).model() == old(self).model(),
            },
    {
        let (name, value) = match &self.pending {
            Some(Pending::Assign { name, value }) => (name.clone(), value.clone()),
            _ => {
                return;
            },
        };
        let v = match result {
            Some(r) => r,
            None => self.variables.interpolate(value.as_str()),
        };
        self.variables.set(name.as_str(), v.as_str());
        self.pending = None;
        self.advance_body();
        self.run();
    }

    /// Completes a waiting conditional jump with whether its condition
    /// holds, then carries out the resulting tasks. Without a waiting jump
    /// nothing changes.
    pub fn resume_branch(&mut self, holds: bool)
        ensures
            match old(self).model().pending {
                Some(PendingModel::Branch { condition, target }) => final(self).model() == run_model(
                    branched(old(self).model(), target, holds),
                    STEP_BUDGET as nat,
                ),
                _ => final(self).model() == old(self).model(),
            },
    {
        let target = match &self.pending {
            Some(Pending::Branch { target, .. }) => target.clone(),
            _ => {
                return;
            },
        };
        self.pending = None;
        if holds {
            self.enter(target);
        }
        self.run();
    }
}

} // verus!

verus! {

/// The state of a screen when leaving it: the saved state, or the menu
/// with the title music.
pub open spec fn back_or_title(m: AppModel) -> AppModel {
    match m.prev_state {
        Some(p) => AppModel { state: p, prev_state: None, ..m },
        None => with_effect(AppModel { state: StateModel::Menu, ..m }, EffectModel::PlayTitleBgm),
    }
}

/// Leaving the game for the main menu.
pub open spec fn quit_to_menu(m: AppModel) -> AppModel {
    with_effect(AppModel { state: StateModel::Menu, prev_state: None, ..m }, EffectModel::PlayTitleBgm)
}

/// Moving the selection up.
pub open spec fn select_up(m: AppModel) -> AppModel {
    if m.selected > 0 {
        AppModel { selected: (m.selected - 1) as usize, ..m }
    } else {
        m
    }
}

/// Moving the selection down, up to `last`.
pub open spec fn select_down(m: AppModel, last: int) -> AppModel {
    if m.selected < last {
        AppModel { selected: (m.selected + 1) as usize, ..m }
    } else {
        m
    }
}

/// The in-game menu's answer to a key.
pub open spec fn game_menu_step(m: AppModel, key: Key) -> AppModel {
    match key {
        Key::Up => select_up(m),
        Key::Down => select_down(m, 3),
        Key::Char('1') => back_or_title(m),
        Key::Char('2') => AppModel { state: StateModel::SaveSlot, ..m },
        Key::Char('3') => AppModel { state: StateModel::LoadSlot, ..m },
        Key::Char('q') => quit_to_menu(m),
        Key::Enter => if m.selected == 0 {
            back_or_title(m)
        } else if m.selected == 1 {
            AppModel { state: StateModel::SaveSlot, ..m }
        } else if m.selected == 2 {
            AppModel { state: StateModel::LoadSlot, ..m }
        } else if m.selected == 3 {
            quit_to_menu(m)
        } else {
            m
        },
        _ => m,
    }
}

/// The main menu's answer to its selected entry.
pub open spec fn menu_choice(m: AppModel) -> AppModel {
    if m.selected == 0 {
        begin_game(m)
    } else if m.selected == 1 {
        open_slot(m, StateModel::LoadSlot)
    } else if m.selected == 2 {
        AppModel { state: StateModel::About, ..m }
    } else if m.selected == 3 {
        AppModel { state: StateModel::Settings, ..m }
    } else if m.selected == 4 {
        AppModel { should_quit: true, ..m }
    } else {
        m
    }
}

/// The slots, in order, that hold a save (`saves[i]` for slot `i + 1`).
pub open spec fn valid_slots(saves: Seq<bool>, n: int) -> Seq<usize>
    decreases n,
{
    if n <= 0 {
        seq![]
    } else if saves[n - 1] {
        valid_slots(saves, n - 1).push(n as usize)
    } else {
        valid_slots(saves, n - 1)
    }
}

/// The slot a digit key names.
pub open spec fn digit_slot(c: char) -> int {
    c as int - '0' as int
}

/// An ASCII digit.
pub open spec fn is_digit_key(c: char) -> bool {
    '0' <= c && c <= '9'
}

/// Remembering the current state and showing the history.
pub open spec fn show_history(m: AppModel) -> AppModel {
    AppModel { prev_state: Some(m.state), state: StateModel::History, ..m }
}

/// Leaving the story for the in-game menu.
pub open spec fn to_game_menu(m: AppModel) -> AppModel {
    with_effect(
        AppModel {
            prev_state: Some(m.state),
            selected: 0,
            state: StateModel::GameMenu,
            ..with_effect(m, EffectModel::StopVoice)
        },
        EffectModel::ClearAutoPlay,
    )
}

/// The name given when the player enters nothing.
pub open spec fn default_name() -> Seq<char> {
    "玩家"@
}

/// The settings screen's action for a key, if any.
pub open spec fn settings_key(c: char) -> Option<SettingsAction> {
    if c == '+' || c == '=' {
        Some(SettingsAction::BgmUp)
    } else if c == '-' || c == '_' {
        Some(SettingsAction::BgmDown)
    } else if c == '[' {
        Some(SettingsAction::VoiceDown)
    } else if c == ']' {
        Some(SettingsAction::VoiceUp)
    } else if c == 'a' || c == 'A' {
        Some(SettingsAction::AutoPlayToggle)
    } else if c == '1' {
        Some(SettingsAction::AutoPlaySpeedDown)
    } else if c == '2' {
        Some(SettingsAction::AutoPlaySpeedUp)
    } else if c == 't' || c == 'T' {
        Some(SettingsAction::TextAnimationToggle)
    } else if c == '3' {
        Some(SettingsAction::TextSpeedDown)
    } else if c == '4' {
        Some(SettingsAction::TextSpeedUp)
    } else if c == 'b' || c == 'B' {
        Some(SettingsAction::BgColorNext)
    } else if c == 's' || c == 'S' {
        Some(SettingsAction::Save)
    } else {
        None
    }
}

/// The engine's answer to a key press, before the resulting tasks are
/// carried out; `saves[i]` tells whether slot `i + 1` holds a save.
pub open spec fn key_step(m0: AppModel, key: Key, saves: Seq<bool>) -> AppModel {
    let m = AppModel { status: None, ..m0 };
    match m.state {
        StateModel::History => match key {
            Key::Up => select_up(m),
            Key::Down => select_down(
                m,
                if m.history.len() > 0 {
                    m.history.len() - 1
                } else {
                    0
                },
            ),
            _ => back_state(m),
        },
        StateModel::About => match key {
            Key::Esc | Key::Char('q') => AppModel { state: StateModel::Menu, ..m },
            _ => m,
        },
        StateModel::SaveSlot => match key {
            Key::Up => select_up(m),
            Key::Down => select_down(m, 9),
            Key::Enter => with_effect(m, EffectModel::SaveSlot((m.selected + 1) as usize)),
            Key::Esc => AppModel { state: StateModel::GameMenu, ..m },
            Key::Char(c) => if is_digit_key(c) && 1 <= digit_slot(c) <= 10 {
                with_effect(m, EffectModel::SaveSlot(digit_slot(c) as usize))
            } else {
                m
            },
            _ => m,
        },
        StateModel::LoadSlot => {
            let valid = valid_slots(saves, 10);
            match key {
                Key::Up => select_up(m),
                Key::Down => select_down(
                    m,
                    if valid.len() > 0 {
                        valid.len() - 1
                    } else {
                        0
                    },
                ),
                Key::Enter => if m.selected < valid.len() {
                    with_effect(m, EffectModel::LoadSlot(valid[m.selected as int]))
                } else {
                    m
                },
                Key::Esc => AppModel { state: StateModel::GameMenu, ..m },
                Key::Char(c) => if is_digit_key(c) && 1 <= digit_slot(c) <= 10 && saves[digit_slot(c) - 1] {
                    with_effect(m, EffectModel::LoadSlot(digit_slot(c) as usize))
                } else {
                    m
                },
                _ => m,
            }
        },
        StateModel::GameMenu => game_menu_step(m, key),
        StateModel::Input { var_name, .. } => match key {
            Key::Enter => {
                let value = if m.input.len() == 0 {
                    default_name()
                } else {
                    m.input
                };
                advance(
                    AppModel {
                        input: seq![],
                        ..back_state(AppModel { vars: m.vars.insert(var_name, value), ..m })
                    },
                )
            },
            Key::Esc => AppModel { input: seq![], ..back_state(m) },
            Key::Backspace => if m.input.len() > 0 {
                AppModel { input: m.input.drop_last(), ..m }
            } else {
                m
            },
            Key::Char(c) => AppModel { input: m.input.push(c), ..m },
            _ => m,
        },
        StateModel::EndOfFile => with_effect(AppModel { state: StateModel::Menu, ..m }, EffectModel::PlayTitleBgm),
        StateModel::Menu => match key {
            Key::Up => select_up(m),
            Key::Down => select_down(m, m.menu.len() - 1),
            Key::Enter => menu_choice(m),
            Key::Char('q') => AppModel { should_quit: true, ..m },
            Key::Char('h') | Key::Char('H') => show_history(m),
            _ => m,
        },
        StateModel::Settings => match key {
            Key::Esc | Key::Char('q') => AppModel { state: StateModel::Menu, ..m },
            Key::Char(c) => match settings_key(c) {
                Some(a) => settings_step(m, a),
                None => m,
            },
            _ => m,
        },
        StateModel::InDialogue { .. } => match key {
            Key::Char(' ') | Key::Enter => {
                let a = advance(m);
                if a.settings.auto_play {
                    with_effect(a, EffectModel::RestartAutoPlay)
                } else {
                    a
                }
            },
            Key::Esc | Key::Char('q') => to_game_menu(m),
            Key::Char('s') | Key::Char('S') => open_slot(m, StateModel::SaveSlot),
            Key::Char('l') | Key::Char('L') => open_slot(m, StateModel::LoadSlot),
            Key::Char('h') | Key::Char('H') => show_history(m),
            Key::Char('a') | Key::Char('A') => toggled_auto_play(m),
            _ => m,
        },
        StateModel::InChoice { scene_id, options, selected } => match key {
            Key::Char('h') | Key::Char('H') => show_history(m),
            Key::Char('s') | Key::Char('S') => open_slot(m, StateModel::SaveSlot),
            Key::Char('l') | Key::Char('L') => open_slot(m, StateModel::LoadSlot),
            Key::Esc | Key::Char('q') => to_game_menu(m),
            Key::Up => if selected > 0 {
                AppModel {
                    state: StateModel::InChoice { scene_id, options, selected: (selected - 1) as usize },
                    ..m
                }
            } else {
                m
            },
            Key::Down => if selected < options.len() - 1 {
                AppModel {
                    state: StateModel::InChoice { scene_id, options, selected: (selected + 1) as usize },
                    ..m
                }
            } else {
                m
            },
            Key::Enter => choose_option(m),
            _ => m,
        },
    }
}

/// The inputs on which a key press would fail: moving down in an empty
/// menu or an empty choice, or saving from the last possible selection.
pub open spec fn key_allowed(m: AppModel, key: Key) -> bool {
    match m.state {
        StateModel::Menu => key is Down ==> m.menu.len() > 0,
        StateModel::InChoice { options, .. } => key is Down ==> options.len() > 0,
        StateModel::SaveSlot => key is Enter ==> m.selected < usize::MAX,
        _ => true,
    }
}

} // verus!

verus! {

/// The slots, in order, that hold a save.
pub fn saved_slots(saves: &Vec<bool>) -> (r: Vec<usize>)
    requires
        saves@.len() == 10,
    ensures
        r@ == valid_slots(saves@, 10),
{
    let mut v: Vec<usize> = Vec::new();
    let mut i: usize = 0;
    while i < 10
        invariant
            i <= 10,
            saves@.len() == 10,
            v@ == valid_slots(saves@, i as int),
        decreases 10 - i,
    {
        if saves[i] {
            v.push(i + 1);
        }
        i = i + 1;
    }
    v
}

impl App {
    fn select_up(&mut self)
        ensures
            final(self).model() == select_up(old(self).model()),
    {
        if self.selected > 0 {
            self.selected = self.selected - 1;
        }
    }

    fn select_down(&mut self, last: usize)
        ensures
            final(self).model() == select_down(old(self).model(), last as int),
    {
        if self.selected < last {
            self.selected = self.selected + 1;
        }
    }

    fn back_or_title(&mut self)
        ensures
            final(self).model() == back_or_title(old(self).model()),
    {
        match self.prev_state.take() {
            Some(p) => {
                self.state = p;
            },
            None => {
                self.state = AppState::Menu;
                self.emit(Effect::PlayTitleBgm);
            },
        }
    }

    fn quit_to_menu(&mut self)
        ensures
            final(self).model() == quit_to_menu(old(self).model()),
    {
        self.state = AppState::Menu;
        self.prev_state = None;
        self.emit(Effect::PlayTitleBgm);
    }

    fn handle_game_menu(&mut self, key: Key)
        ensures
            final(self).model() == game_menu_step(old(self).model(), key),
    {
        match key {
            Key::Up => self.select_up(),
            Key::Down => self.select_down(3),
            Key::Char('1') => self.back_or_title(),
            Key::Char('2') => {
                self.state = AppState::SaveSlot;
            },
            Key::Char('3') => {
                self.state = AppState::LoadSlot;
            },
            Key::Char('q') => self.quit_to_menu(),
            Key::Enter => {
                if self.selected == 0 {
                    self.back_or_title();
                } else if self.selected == 1 {
                    self.state = AppState::SaveSlot;
                } else if self.selected == 2 {
                    self.state = AppState::LoadSlot;
                } else if self.selected == 3 {
                    self.quit_to_menu();
                }
            },
            _ => {},
        }
    }

    fn menu_body(&mut self)
        ensures
            final(self).model() == menu_choice(old(self).model()),
    {
        if self.selected == 0 {
            self.start_body();
        } else if self.selected == 1 {
            self.open_load_slot();
        } else if self.selected == 2 {
            self.state = AppState::About;
        } else if self.selected == 3 {
            self.state = AppState::Settings;
        } else if self.selected == 4 {
            self.should_quit = true;
        }
    }

    /// Carries out the main menu's selected entry, then the resulting tasks.
    pub fn execute_menu(&mut self)
        ensures
            final(self).model() == run_model(menu_choice(old(self).model()), STEP_BUDGET as nat),
    {
        self.menu_body();
        self.run();
    }

    fn show_history(&mut self)
        ensures
            final(self).model() == show_history(old(self).model()),
    {
        self.prev_state = Some(self.state.copy());
        self.state = AppState::History;
    }

    fn to_game_menu(&mut self)
        ensures
            final(self).model() == to_game_menu(old(self).model()),
    {
        self.emit(Effect::StopVoice);
        self.prev_state = Some(self.state.copy());
        self.selected = 0;
        self.state = AppState::GameMenu;
        self.emit(Effect::ClearAutoPlay);
    }

    fn input_key(&mut self, key: Key, var_name: String)
        requires
            old(self).model().state matches StateModel::Input { var_name: v, .. } && v == var_name@,
        ensures
            final(self).model() == key_step(old(self).model(), key, seq![]),
    {
        self.status_message = None;
        match key {
            Key::Enter => {
                let value = if self.input_buffer.len() == 0 {
                    "玩家".to_string()
                } else {
                    crate::text::string_of(self.input_buffer.as_slice())
                };
                self.variables.set(var_name.as_str(), value.as_str());
                self.go_back();
                self.input_buffer = Vec::new();
                assert(self.input_buffer@ =~= Seq::<char>::empty());
                self.advance_body();
            },
            Key::Esc => {
                self.go_back();
                self.input_buffer = Vec::new();
                assert(self.input_buffer@ =~= Seq::<char>::empty());
            },
            Key::Backspace => {
                let _ = self.input_buffer.pop();
            },
            Key::Char(c) => {
                self.input_buffer.push(c);
            },
            _ => {},
        }
    }

    fn choice_key(&mut self, key: Key)
        requires
            old(self).model().state is InChoice,
            key_allowed(old(self).model(), key),
        ensures
            final(self).model() == key_step(old(self).model(), key, seq![]),
    {
        self.status_message = None;
        match key {
            Key::Char('h') | Key::Char('H') => self.show_history(),
            Key::Char('s') | Key::Char('S') => self.open_save_slot(),
            Key::Char('l') | Key::Char('L') => self.open_load_slot(),
            Key::Esc | Key::Char('q') => self.to_game_menu(),
            Key::Up => {
                let st = self.state.copy();
                match st {
                    AppState::InChoice { scene_id, options, selected } => {
                        if selected > 0 {
                            self.state = AppState::InChoice { scene_id, options, selected: selected - 1 };
                        }
                    },
                    _ => {},
                }
            },
            Key::Down => {
                let st = self.state.copy();
                match st {
                    AppState::InChoice { scene_id, options, selected } => {
                        if selected < options.len() - 1 {
                            self.state = AppState::InChoice { scene_id, options, selected: selected + 1 };
                        }
                    },
                    _ => {},
                }
            },
            Key::Enter => self.choose_body(),
            _ => {},
        }
    }

    fn dialogue_key(&mut self, key: Key)
        requires
            old(self).model().state is InDialogue,
        ensures
            final(self).model() == key_step(old(self).model(), key, seq![]),
    {
        self.status_message = None;
        match key {
            Key::Char(' ') | Key::Enter => {
                self.advance_body();
                if self.settings.auto_play {
                    self.emit(Effect::RestartAutoPlay);
                }
            },
            Key::Esc | Key::Char('q') => self.to_game_menu(),
            Key::Char('s') | Key::Char('S') => self.open_save_slot(),
            Key::Char('l') | Key::Char('L') => self.open_load_slot(),
            Key::Char('h') | Key::Char('H') => self.show_history(),
            Key::Char('a') | Key::Char('A') => self.toggle_auto_play(),
            _ => {},
        }
    }

    fn settings_screen_key(&mut self, key: Key)
        requires
            old(self).model().state is Settings,
        ensures
            final(self).model() == key_step(old(self).model(), key, seq![]),
    {
        self.status_message = None;
        match key {
            Key::Esc | Key::Char('q') => {
                self.state = AppState::Menu;
            },
            Key::Char(c) => {
                if c == '+' || c == '=' {
                    self.handle_settings(SettingsAction::BgmUp);
                } else if c == '-' || c == '_' {
                    self.handle_settings(SettingsAction::BgmDown);
                } else if c == '[' {
                    self.handle_settings(SettingsAction::VoiceDown);
                } else if c == ']' {
                    self.handle_settings(SettingsAction::VoiceUp);
                } else if c == 'a' || c == 'A' {
                    self.handle_settings(SettingsAction::AutoPlayToggle);
                } else if c == '1' {
                    self.handle_settings(SettingsAction::AutoPlaySpeedDown);
                } else if c == '2' {
                    self.handle_settings(SettingsAction::AutoPlaySpeedUp);
                } else if c == 't' || c == 'T' {
                    self.handle_settings(SettingsAction::TextAnimationToggle);
                } else if c == '3' {
                    self.handle_settings(SettingsAction::TextSpeedDown);
                } else if c == '4' {
                    self.handle_settings(SettingsAction::TextSpeedUp);
                } else if c == 'b' || c == 'B' {
                    self.handle_settings(SettingsAction::BgColorNext);
                } else if c == 's' || c == 'S' {
                    self.handle_settings(SettingsAction::Save);
                }
            },
            _ => {},
        }
    }

    fn slot_key(&mut self, key: Key, saves: &Vec<bool>)
        requires
            old(self).model().state is SaveSlot || old(self).model().state is LoadSlot,
            key_allowed(old(self).model(), key),
            saves@.len() == 10,
        ensures
            final(self).model() == key_step(old(self).model(), key, saves@),
    {
        self.status_message = None;
        let saving = match &self.state {
            AppState::SaveSlot => true,
            _ => false,
        };
        if saving {
            match key {
                Key::Up => self.select_up(),
                Key::Down => self.select_down(9),
                Key::Enter => {
                    let slot = self.selected + 1;
                    self.emit(Effect::SaveSlot(slot));
                },
                Key::Esc => {
                    self.state = AppState::GameMenu;
                },
                Key::Char(c) => {
                    if '0' <= c && c <= '9' {
                        let d = (c as u32) - ('0' as u32);
                        if 1 <= d && d <= 10 {
                            self.emit(Effect::SaveSlot(d as usize));
                        }
                    }
                },
                _ => {},
            }
        } else {
            let valid = saved_slots(saves);
            match key {
                Key::Up => self.select_up(),
                Key::Down => {
                    let last = if valid.len() > 0 {
                        valid.len() - 1
                    } else {
                        0
                    };
                    self.select_down(last);
                },
                Key::Enter => {
                    if self.selected < valid.len() {
                        let slot = valid[self.selected];
                        self.emit(Effect::LoadSlot(slot));
                    }
                },
                Key::Esc => {
                    self.state = AppState::GameMenu;
                },
                Key::Char(c) => {
                    if '0' <= c && c <= '9' {
                        let d = (c as u32) - ('0' as u32);
                        if 1 <= d && d <= 10 && saves[(d - 1) as usize] {
                            self.emit(Effect::LoadSlot(d as usize));
                        }
                    }
                },
                _ => {},
            }
        }
    }

    fn key_body(&mut self, key: Key, saves: &Vec<bool>)
        requires
            key_allowed(old(self).model(), key),
            saves@.len() == 10,
        ensures
            final(self).model() == key_step(old(self).model(), key, saves@),
    {
        let st = self.state.copy();
        match st {
            AppState::History => {
                self.status_message = None;
                match key {
                    Key::Up => self.select_up(),
                    Key::Down => {
                        let n = self.history.len();
                        let last = if n > 0 {
                            n - 1
                        } else {
                            0
                        };
                        self.select_down(last);
                    },
                    _ => self.go_back(),
                }
            },
            AppState::About => {
                self.status_message = None;
                match key {
                    Key::Esc | Key::Char('q') => {
                        self.state = AppState::Menu;
                    },
                    _ => {},
                }
            },
            AppState::SaveSlot | AppState::LoadSlot => self.slot_key(key, saves),
            AppState::GameMenu => {
                self.status_message = None;
                self.handle_game_menu(key);
            },
            AppState::Input { var_name, .. } => {
                self.input_key(key, var_name);
                assert(key_step(old(self).model(), key, seq![]) == key_step(old(self).model(), key, saves@));
            },
            AppState::EndOfFile => {
                self.status_message = None;
                self.state = AppState::Menu;
                self.emit(Effect::PlayTitleBgm);
            },
            AppState::Menu => {
                self.status_message = None;
                match key {
                    Key::Up => self.select_up(),
                    Key::Down => {
                        let last = self.menu_options.len() - 1;
                        self.select_down(last);
                    },
                    Key::Enter => self.menu_body(),
                    Key::Char('q') => {
                        self.should_quit = true;
                    },
                    Key::Char('h') | Key::Char('H') => self.show_history(),
                    _ => {},
                }
            },
            AppState::Settings => {
                self.settings_screen_key(key);
                assert(key_step(old(self).model(), key, seq![]) == key_step(old(self).model(), key, saves@));
            },
            AppState::InDialogue { .. } => {
                self.dialogue_key(key);
                assert(key_step(old(self).model(), key, seq![]) == key_step(old(self).model(), key, saves@));
            },
            AppState::InChoice { .. } => {
                self.choice_key(key);
                assert(key_step(old(self).model(), key, seq![]) == key_step(old(self).model(), key, saves@));
            },
        }
    }

    /// The engine's answer to a key press, as [`key_step`] says, followed by
    /// the resulting tasks; `saves[i]` tells whether slot `i + 1` holds a
    /// save.
    pub fn handle_event(&mut self, key: Key, saves: &Vec<bool>)
        requires
            key_allowed(old(self).model(), key),
            saves@.len() == 10,
        ensures
            final(self).model() == run_model(key_step(old(self).model(), key, saves@), STEP_BUDGET as nat),
    {
        self.key_body(key, saves);
        self.run();
    }
}

} // verus!

verus! {

/// Reading the script file of a loaded save where needed.
pub open spec fn restore_file(m: AppModel, file: Option<Seq<char>>) -> AppModel {
    let m2 = match file {
        Some(f) => if no_file(f) {
            AppModel { current_file: None, ..m }
        } else {
            let ma = AppModel { current_file: Some(f), ..m };
            let mb = if !ma.orders.contains_key(f) {
                load_external(ma, f)
            } else {
                ma
            };
            match mb.state {
                StateModel::InDialogue { scene_id, .. } => if !mb.scenes.contains_key(scene_id) {
                    load_external(mb, f)
                } else {
                    mb
                },
                _ => mb,
            }
        },
        None => AppModel { current_file: None, ..m },
    };
    match m2.state {
        StateModel::InDialogue { scene_id, .. } => if m2.current_file is None && m2.scenes.contains_key(
            scene_id,
        ) {
            AppModel { current_file: Some("dialogue.ng"@), ..m2 }
        } else {
            m2
        },
        _ => m2,
    }
}

/// Taking up a loaded save: its state, selection, variables, pictures,
/// script file and music come back, and the current command runs again.
pub open spec fn load_ok(m: AppModel, slot: usize, d: crate::save::SaveModel) -> AppModel {
    let m1 = AppModel {
        state: d.state,
        selected: d.menu_selected,
        vars: pairs_map(d.variables),
        image: d.image_params,
        background: d.background,
        ..m
    };
    let m3 = restore_file(m1, d.current_file);
    let m4 = match d.bgm {
        Some(b) => AppModel { current_bgm: Some(b), ..play_bgm(m3, b) },
        None => stop_bgm(m3),
    };
    let m5 = AppModel {
        status: Some("从槽位 "@ + crate::text::decimal(slot as nat) + " 读档成功"@),
        prev_state: None,
        ..m4
    };
    match m5.state {
        StateModel::InDialogue { scene_id, cmd_index } => match command_at(m5, scene_id, cmd_index as int) {
            Some(c) => AppModel { tasks: m5.tasks.push(TaskModel::Exec(c)), ..m5 },
            None => m5,
        },
        _ => m5,
    }
}

/// A save that could not be read: the message is shown and the player
/// goes back.
pub open spec fn load_err(m: AppModel, e: Seq<char>) -> AppModel {
    back_or_title(AppModel { status: Some("读档失败: "@ + e), ..m })
}

/// After a save was written (`error` is `None`) or not.
pub open spec fn saved(m: AppModel, slot: usize, error: Option<Seq<char>>) -> AppModel {
    back_state(
        AppModel {
            status: Some(
                match error {
                    None => "已存档到槽位 "@ + crate::text::decimal(slot as nat),
                    Some(e) => "存档失败: "@ + e,
                },
            ),
            ..m
        },
    )
}

/// Revealing up to `n` more characters of `t` after `d`.
pub open spec fn revealed(d: Seq<char>, t: Seq<char>, n: nat) -> Seq<char>
    decreases n,
{
    if n == 0 || d.len() >= t.len() {
        d
    } else {
        revealed(d.push(t[d.len() as int]), t, (n - 1) as nat)
    }
}

/// One tick of the text animation that reveals `n` characters.
pub open spec fn animate(m: AppModel, n: nat) -> AppModel {
    if !m.settings.text_animation {
        AppModel { display: m.target, ..m }
    } else if m.target.len() == 0 {
        m
    } else {
        AppModel { display: revealed(m.display, m.target, n), ..m }
    }
}

/// The text to reveal, and its first character shown.
pub open spec fn with_target(m: AppModel, t: Seq<char>) -> AppModel {
    AppModel {
        target: t,
        display: if t.len() > 0 {
            seq![t[0]]
        } else {
            seq![]
        },
        ..m
    }
}

/// The auto-play timer ran out (`due`): the story moves on, or the
/// timer stops outside the story.
pub open spec fn auto_play_step(m: AppModel, due: bool) -> AppModel {
    if m.settings.auto_play && due {
        match m.state {
            StateModel::InDialogue { .. } => with_effect(advance(m), EffectModel::RestartAutoPlay),
            _ => with_effect(m, EffectModel::ClearAutoPlay),
        }
    } else {
        m
    }
}

/// The current command, if the story stands at one.
pub open spec fn current_command(m: AppModel) -> Option<Command> {
    match m.state {
        StateModel::InDialogue { scene_id, cmd_index } => command_at(m, scene_id, cmd_index as int),
        _ => None,
    }
}

/// The menu entries.
pub open spec fn menu_entries() -> Seq<Seq<char>> {
    seq!["开始游戏"@, "加载游戏"@, "关于我们"@, "游戏设置"@, "退出游戏"@]
}

impl App {
    /// Takes up the outcome of reading the save of `slot` (the save, or the
    /// error's message), then carries out the resulting tasks.
    pub fn load_game_slot(&mut self, slot: usize, data: Result<crate::save::SaveData, String>)
        ensures
            final(self).model() == run_model(
                match data {
                    Ok(d) => load_ok(old(self).model(), slot, d@),
                    Err(e) => load_err(old(self).model(), e@),
                },
                STEP_BUDGET as nat,
            ),
    {
        match data {
            Ok(d) => {
                self.state = d.state;
                self.selected = d.menu_selected;
                self.variables.deserialize(d.variables);
                self.current_image_params = d.image_params;
                self.current_background = d.background;
                self.restore_file(d.current_file);
                match d.bgm {
                    Some(b) => {
                        let b2 = b.clone();
                        self.stop_music();
                        self.emit(Effect::PlayBgm(b));
                        self.current_bgm = Some(b2);
                    },
                    None => {
                        self.stop_music();
                    },
                }
                let dg = crate::text::decimal_chars(slot as u64);
                self.set_status("从槽位 ", dg.as_slice(), " 读档成功");
                self.prev_state = None;
                let cur = match &self.state {
                    AppState::InDialogue { scene_id, cmd_index } => self.command_copy(
                        scene_id.as_str(),
                        *cmd_index,
                    ),
                    _ => None,
                };
                match cur {
                    Some(c) => self.push_task(Task::Exec(c)),
                    None => {},
                }
            },
            Err(e) => {
                let ec = crate::text::chars_of(e.as_str());
                self.set_status("读档失败: ", ec.as_slice(), "");
                assert("读档失败: "@ + e@ + ""@ =~= "读档失败: "@ + e@) by {
                    reveal_strlit("");
                }
                self.back_or_title();
            },
        }
        self.run();
    }

    fn restore_file(&mut self, file: Option<String>)
        ensures
            final(self).model() == restore_file(old(self).model(), opt_view(file)),
    {
        match file {
            Some(f) => {
                let fc = crate::text::chars_of(f.as_str());
                if crate::text::str_eq(f.as_str(), "null") || fc.len() == 0 {
                    self.current_file = None;
                } else {
                    self.current_file = Some(f.clone());
                    if self.file_scene_order.get(f.as_str()).is_none() {
                        self.load_external_file(f.as_str());
                    }
                    let missing = match &self.state {
                        AppState::InDialogue { scene_id, .. } => self.scenes.get(scene_id.as_str()).is_none(),
                        _ => false,
                    };
                    if missing {
                        self.load_external_file(f.as_str());
                    }
                }
            },
            None => {
                self.current_file = None;
            },
        }
        let fill = match &self.state {
            AppState::InDialogue { scene_id, .. } => self.current_file.is_none() && self.scenes.get(
                scene_id.as_str(),
            ).is_some(),
            _ => false,
        };
        if fill {
            self.current_file = Some("dialogue.ng".to_string());
        }
    }

    /// What a save taken now holds: the state before the save screen was
    /// opened (or the current one), the selection, the variables, the
    /// script file, the pictures and the music.
    pub fn save_data(&self) -> (r: crate::save::SaveData)
        ensures
            r@.state == match self.model().prev_state {
                Some(p) => p,
                None => self.model().state,
            },
            r@.menu_selected == self.selected,
            r@.variables == self.variables.pairs(),
            r@.current_file == match self.model().current_file {
                Some(f) => if no_file(f) {
                    None
                } else {
                    Some(f)
                },
                None => None,
            },
            r@.background == self.model().background,
            r@.bgm == self.model().current_bgm,
            r@.image_params == self.model().image,
            r@.current_image == match self.model().image {
                Some(p) => p.filename,
                None => None,
            },
    {
        let st = match &self.prev_state {
            Some(p) => p.copy(),
            None => self.state.copy(),
        };
        let file = match &self.current_file {
            Some(f) => {
                let fc = crate::text::chars_of(f.as_str());
                if crate::text::str_eq(f.as_str(), "null") || fc.len() == 0 {
                    None
                } else {
                    Some(f.clone())
                }
            },
            None => None,
        };
        let img = match &self.current_image_params {
            Some(p) => Some(p.copy()),
            None => None,
        };
        crate::save::SaveData::new(
            &st,
            self.selected,
            &self.variables,
            file,
            copy_opt(&self.current_background),
            copy_opt(&self.current_bgm),
            img,
        )
    }

    /// Takes up the outcome of writing a save to `slot`: the status line
    /// tells it and the player goes back.
    pub fn save_game_slot(&mut self, slot: usize, written: Result<(), String>)
        ensures
            final(self).model() == saved(
                old(self).model(),
                slot,
                match written {
                    Ok(_) => None,
                    Err(e) => Some(e@),
                },
            ),
    {
        match written {
            Ok(_) => {
                let dg = crate::text::decimal_chars(slot as u64);
                self.set_status("已存档到槽位 ", dg.as_slice(), "");
                assert("已存档到槽位 "@ + dg@ + ""@ =~= "已存档到槽位 "@ + dg@) by {
                    reveal_strlit("");
                }
            },
            Err(e) => {
                let ec = crate::text::chars_of(e.as_str());
                self.set_status("存档失败: ", ec.as_slice(), "");
                assert("存档失败: "@ + e@ + ""@ =~= "存档失败: "@ + e@) by {
                    reveal_strlit("");
                }
            },
        }
        self.go_back();
    }

    /// Takes up the outcome of writing the settings.
    pub fn config_saved(&mut self, written: Result<(), String>)
        ensures
            final(self).model() == (AppModel {
                status: Some(
                    match written {
                        Ok(_) => "配置已保存"@,
                        Err(e) => "保存配置失败: "@ + e@,
                    },
                ),
                ..old(self).model()
            }),
    {
        match written {
            Ok(_) => self.set_status_text("配置已保存"),
            Err(e) => {
                let ec = crate::text::chars_of(e.as_str());
                self.set_status("保存配置失败: ", ec.as_slice(), "");
                assert("保存配置失败: "@ + e@ + ""@ =~= "保存配置失败: "@ + e@) by {
                    reveal_strlit("");
                }
            },
        }
    }

    /// Records which background music plays, as the caller found it.
    pub fn set_current_bgm(&mut self, bgm: Option<String>)
        ensures
            final(self).model() == (AppModel { current_bgm: opt_view(bgm), ..old(self).model() }),
    {
        self.current_bgm = bgm;
    }

    /// Sets the text to reveal, showing its first character.
    pub fn set_target_text(&mut self, text: &str)
        ensures
            final(self).model() == with_target(old(self).model(), text@),
    {
        let t = crate::text::chars_of(text);
        let mut d: Vec<char> = Vec::new();
        if t.len() > 0 {
            d.push(t[0]);
        }
        assert(d@ =~= (if t@.len() > 0 {
            seq![t@[0]]
        } else {
            seq![]
        }));
        self.target_text = t;
        self.display_text = d;
    }

    /// One tick of the text animation: reveals `add_count` more characters
    /// (the caller works out how many from the time that passed), or all of
    /// them when the animation is off.
    pub fn update_animation(&mut self, add_count: usize)
        ensures
            final(self).model() == animate(old(self).model(), add_count as nat),
    {
        if !self.settings.text_animation {
            self.display_text = crate::text::slice_vec(self.target_text.as_slice(), 0, self.target_text.len());
            assert(self.display_text@ =~= self.target_text@);
            return;
        }
        if self.target_text.len() == 0 {
            return;
        }
        let mut k: usize = 0;
        while k < add_count && self.display_text.len() < self.target_text.len()
            invariant
                k <= add_count,
                revealed(old(self).display_text@, old(self).target_text@, add_count as nat) == revealed(
                    self.display_text@,
                    self.target_text@,
                    (add_count - k) as nat,
                ),
                self.target_text@ == old(self).target_text@,
                self.model() == (AppModel { display: self.display_text@, ..old(self).model() }),
            decreases add_count - k,
        {
            let c = self.target_text[self.display_text.len()];
            self.display_text.push(c);
            k = k + 1;
        }
    }

    /// The auto-play timer ran out (`due`): moves the story on, or stops
    /// the timer outside the story; then carries out the resulting tasks.
    pub fn update_auto_play(&mut self, due: bool)
        ensures
            final(self).model() == run_model(auto_play_step(old(self).model(), due), STEP_BUDGET as nat),
    {
        if self.settings.auto_play && due {
            let in_story = match &self.state {
                AppState::InDialogue { .. } => true,
                _ => false,
            };
            if in_story {
                self.advance_body();
                self.emit(Effect::RestartAutoPlay);
            } else {
                self.emit(Effect::ClearAutoPlay);
            }
        }
        self.run();
    }

    /// The speaker of the current line, variables filled in.
    pub fn current_speaker(&self) -> (r: Option<String>)
        ensures
            opt_view(r) == match current_command(self.model()) {
                Some(Command::Text { speaker: Some(s), .. }) => Some(interpolation(self.model().vars, s)),
                _ => None,
            },
    {
        let cur = match &self.state {
            AppState::InDialogue { scene_id, cmd_index } => self.command_copy(scene_id.as_str(), *cmd_index),
            _ => None,
        };
        match cur {
            Some(DialogueCommand::Text { speaker: Some(s), .. }) => Some(self.variables.interpolate(s.as_str())),
            _ => None,
        }
    }

    /// The text of the current line, variables filled in (the caller then
    /// runs its `$(command)` parts).
    pub fn current_text(&self) -> (r: Option<String>)
        ensures
            opt_view(r) == match current_command(self.model()) {
                Some(Command::Text { text, .. }) => Some(interpolation(self.model().vars, text)),
                _ => None,
            },
    {
        let cur = match &self.state {
            AppState::InDialogue { scene_id, cmd_index } => self.command_copy(scene_id.as_str(), *cmd_index),
            _ => None,
        };
        match cur {
            Some(DialogueCommand::Text { text, .. }) => Some(self.variables.interpolate(text.as_str())),
            _ => None,
        }
    }

    /// A new engine at the main menu, from the game's settings file, the
    /// main script, the player's settings, and the other script files
    /// (name and content) that the story may load.
    pub fn new(game_config: crate::parser::GameConfig, dialogue: &str, settings: Settings, files: Vec<(String, String)>) -> (r: App)
        ensures
            r.model().state == StateModel::Menu,
            r.model().menu == menu_entries(),
            r.model().selected == 0,
            r.model().status is None,
            r.model().scenes == crate::parser::script_model(dialogue@).0,
            r.model().settings == settings@,
            !r.model().should_quit,
            r.model().history == Seq::<(Option<Seq<char>>, Seq<char>)>::empty(),
            r.model().prev_state is None,
            r.model().title == game_config.title@,
            r.model().footer == game_config.footer@,
            r.model().vars == Map::<Seq<char>, Seq<char>>::empty(),
            r.model().input == Seq::<char>::empty(),
            r.model().background is None,
            r.model().image is None,
            r.model().target == Seq::<char>::empty(),
            r.model().display == Seq::<char>::empty(),
            r.model().current_file is None,
            r.model().current_bgm is None,
            r.model().orders == Map::<Seq<char>, Seq<Seq<char>>>::empty().insert(
                "dialogue.ng"@,
                crate::parser::script_model(dialogue@).1,
            ),
            r.model().files == pairs_map(pairs_view(files@)),
            r.model().effects == Seq::<EffectModel>::empty(),
            r.model().tasks == Seq::<TaskModel>::empty(),
            r.model().pending is None,
    {
        let (scenes, order) = crate::parser::parse_dialogue_file_with_order(dialogue);
        let mut orders: Table<Vec<String>> = Table::new();
        let ghost ov = strings_view(order@);
        orders.insert("dialogue.ng".to_string(), order);
        assert(orders_view(orders.pairs()) =~= Map::<Seq<char>, Seq<Seq<char>>>::empty().insert(
            "dialogue.ng"@,
            ov,
        ));
        let mut script_files: Table<String> = Table::new();
        let mut i: usize = 0;
        assert(pairs_view(files@).take(0) =~= Seq::<(Seq<char>, Seq<char>)>::empty());
        assert(pairs_map(script_files.pairs()) =~= pairs_map(Seq::<(Seq<char>, Seq<char>)>::empty()));
        while i < files.len()
            invariant
                i <= files@.len(),
                pairs_map(script_files.pairs()) == pairs_map(pairs_view(files@).take(i as int)),
            decreases files@.len() - i,
        {
            let p = &files[i];
            script_files.insert(p.0.clone(), p.1.clone());
            proof {
                let s = pairs_view(files@).take(i as int);
                assert(pairs_view(files@).take(i + 1) =~= s.push((p.0@, p.1@)));
                crate::table::lemma_lookup_push(s, p.0@, p.1@);
            }
            i = i + 1;
        }
        assert(pairs_view(files@).take(files@.len() as int) =~= pairs_view(files@));
        let menu = vec![
            "开始游戏".to_string(),
            "加载游戏".to_string(),
            "关于我们".to_string(),
            "游戏设置".to_string(),
            "退出游戏".to_string(),
        ];
        assert(strings_view(menu@) =~= menu_entries());
        let r = App {
            state: AppState::Menu,
            menu_options: menu,
            selected: 0,
            status_message: None,
            scenes,
            settings,
            should_quit: false,
            history: VecDeque::new(),
            prev_state: None,
            title: game_config.title,
            footer: game_config.footer,
            variables: Variables::new(),
            input_buffer: Vec::new(),
            current_background: None,
            current_image_params: None,
            target_text: Vec::new(),
            display_text: Vec::new(),
            current_file: None,
            current_bgm: None,
            file_scene_order: orders,
            script_files,
            effects: Vec::new(),
            tasks: Vec::new(),
            pending: None,
        };
        assert(history_view(r.history@) =~= Seq::<(Option<Seq<char>>, Seq<char>)>::empty());
        assert(r.effects@.map_values(|e: Effect| e@) =~= Seq::<EffectModel>::empty());
        assert(r.tasks@.map_values(|t: Task| t@) =~= Seq::<TaskModel>::empty());
        assert(r.input_buffer@ =~= Seq::<char>::empty());
        assert(r.target_text@ =~= Seq::<char>::empty());
        r
    }
}

} // verus!
