use ngal::engine::{App, AppState, Effect, Key, Pending, Settings, SettingsAction, HISTORY_MAX};
use ngal::parser::GameConfig;
use ngal::screen::slot_label;

const STORY: &str = "[welcome]\nHello\nAlice:Hi there:alice01.mp3\nchoose:Go left:left|Go right:right\n[left]\nLeft side\nend\n[right]\nname = Bob\nHi {name}\n";

fn config() -> GameConfig {
    GameConfig {
        title: "Test Game".to_string(),
        footer: "footer".to_string(),
        index: "dialogue.ng".to_string(),
        logo: None,
        menu_image: None,
        bgm: None,
    }
}

fn settings() -> Settings {
    Settings {
        bgm_volume: 50,
        voice_volume: 50,
        auto_play: false,
        text_animation: true,
        text_speed: 50,
        background_color: "default".to_string(),
    }
}

fn new_app(script: &str) -> App {
    App::new(config(), script, settings(), Vec::new())
}

fn no_saves() -> Vec<bool> {
    vec![false; 10]
}

fn at(app: &App) -> (String, usize) {
    match &app.state {
        AppState::InDialogue { scene_id, cmd_index } => (scene_id.clone(), *cmd_index),
        _ => panic!("not in dialogue"),
    }
}

#[test]
fn new_engine_starts_at_the_menu() {
    let app = new_app(STORY);
    assert!(matches!(app.state, AppState::Menu));
    assert_eq!(app.menu_options.len(), 5);
    assert_eq!(app.menu_options[0], "开始游戏");
    assert_eq!(app.selected, 0);
    assert_eq!(app.title, "Test Game");
    assert!(app.status_message.is_none());
}

#[test]
fn start_game_shows_the_first_line() {
    let mut app = new_app(STORY);
    app.start_game();
    assert_eq!(at(&app), ("welcome".to_string(), 0));
    assert_eq!(app.current_text().as_deref(), Some("Hello"));
    assert!(app.current_speaker().is_none());
    assert_eq!(app.target_text.iter().collect::<String>(), "Hello");
    assert_eq!(app.display_text.iter().collect::<String>(), "H");
    assert_eq!(app.history.len(), 1);
    let effects = app.take_effects();
    assert!(effects.iter().any(|e| matches!(e, Effect::ExpandShell)));
    assert!(effects.iter().any(|e| matches!(e, Effect::StopBgm)));
    assert!(app.take_effects().is_empty());
}

#[test]
fn start_without_welcome_scene_stays_at_the_menu() {
    let mut app = new_app("[other]\nHi\n");
    app.start_game();
    assert!(matches!(app.state, AppState::Menu));
    // The message is set and then cleared when the start finishes.
    assert!(app.status_message.is_none());
}

#[test]
fn advancing_plays_the_voice_and_reaches_the_choice() {
    let mut app = new_app(STORY);
    app.start_game();
    app.take_effects();
    app.advance_dialogue();
    assert_eq!(at(&app), ("welcome".to_string(), 1));
    assert_eq!(app.current_speaker().as_deref(), Some("Alice"));
    assert_eq!(app.current_text().as_deref(), Some("Hi there"));
    let effects = app.take_effects();
    assert!(effects.iter().any(|e| matches!(e, Effect::StopVoice)));
    assert!(effects.iter().any(|e| matches!(e, Effect::PlayVoice(f) if f == "alice01.mp3")));
    app.advance_dialogue();
    match &app.state {
        AppState::InChoice { options, selected, .. } => {
            assert_eq!(options.len(), 2);
            assert_eq!(*selected, 0);
        }
        _ => panic!("expected a choice"),
    }
}

#[test]
fn choosing_enters_the_target_scene_and_assigns() {
    let mut app = new_app(STORY);
    app.start_game();
    app.advance_dialogue();
    app.advance_dialogue();
    app.handle_event(Key::Down, &no_saves());
    assert!(matches!(app.state, AppState::InChoice { selected: 1, .. }));
    app.handle_event(Key::Enter, &no_saves());
    match app.pending_request() {
        Some(Pending::Assign { name, value }) => {
            assert_eq!(name, "name");
            assert_eq!(value, "Bob");
        }
        _ => panic!("expected an assignment"),
    }
    app.resume_assign(None);
    assert!(app.pending_request().is_none());
    assert_eq!(app.variables.get("name").map(|s| s.as_str()), Some("Bob"));
    assert_eq!(at(&app), ("right".to_string(), 1));
    assert_eq!(app.current_text().as_deref(), Some("Hi Bob"));
}

#[test]
fn a_branch_that_holds_jumps() {
    let mut app = new_app("[welcome]\nif score >= 10: good\nbad line\n[good]\ngood line\n");
    app.start_game();
    match app.pending_request() {
        Some(Pending::Branch { condition, target }) => {
            assert_eq!(condition, "score >= 10");
            assert_eq!(target, "good");
        }
        _ => panic!("expected a branch"),
    }
    app.resume_branch(true);
    assert_eq!(app.current_text().as_deref(), Some("good line"));
}

#[test]
fn a_branch_that_fails_falls_through() {
    let mut app = new_app("[welcome]\nif score >= 10: good\nbad line\n[good]\ngood line\n");
    app.start_game();
    app.resume_branch(false);
    assert_eq!(app.current_text().as_deref(), Some("bad line"));
}

#[test]
fn end_returns_to_the_menu_with_title_music() {
    let mut app = new_app(STORY);
    app.start_game();
    app.advance_dialogue();
    app.advance_dialogue();
    app.select_option();
    assert_eq!(app.current_text().as_deref(), Some("Left side"));
    app.take_effects();
    app.advance_dialogue();
    assert!(matches!(app.state, AppState::Menu));
    assert!(app.take_effects().iter().any(|e| matches!(e, Effect::PlayTitleBgm)));
}

#[test]
fn the_last_line_of_the_file_ends_the_story() {
    let mut app = new_app("[welcome]\nOnly line\n");
    app.start_game();
    app.advance_dialogue();
    assert!(matches!(app.state, AppState::EndOfFile));
    assert_eq!(app.status_message.as_deref(), Some("剧情结束，按任意键返回主菜单"));
}

#[test]
fn scenes_follow_each_other_in_file_order() {
    let mut app = new_app("[welcome]\nfirst\n[second]\nnext scene\n");
    app.start_game();
    app.advance_dialogue();
    assert_eq!(at(&app), ("second".to_string(), 0));
    assert_eq!(app.current_text().as_deref(), Some("next scene"));
}

#[test]
fn history_keeps_the_newest_lines() {
    let mut app = new_app(STORY);
    for i in 0..60 {
        app.add_to_history(Some("S"), &format!("line {}", i));
    }
    assert_eq!(app.history.len(), HISTORY_MAX);
    assert_eq!(app.history.back().unwrap().1, "line 59");
    assert_eq!(app.history.front().unwrap().1, "line 10");
}

#[test]
fn volume_up_then_down_gives_it_back() {
    let mut app = new_app(STORY);
    app.handle_settings(SettingsAction::BgmUp);
    assert_eq!(app.settings.bgm_volume, 60);
    assert_eq!(app.status_message.as_deref(), Some("BGM音量: 60%"));
    assert!(app.take_effects().iter().any(|e| matches!(e, Effect::ApplyBgmVolume)));
    app.handle_settings(SettingsAction::BgmDown);
    assert_eq!(app.settings.bgm_volume, 50);
    app.handle_settings(SettingsAction::VoiceUp);
    app.handle_settings(SettingsAction::VoiceDown);
    assert_eq!(app.settings.voice_volume, 50);
    assert_eq!(app.status_message.as_deref(), Some("语音音量: 50%"));
}

#[test]
fn volume_stops_at_the_limits() {
    let mut app = new_app(STORY);
    for _ in 0..8 {
        app.handle_settings(SettingsAction::BgmUp);
    }
    assert_eq!(app.settings.bgm_volume, 100);
    for _ in 0..12 {
        app.handle_settings(SettingsAction::VoiceDown);
    }
    assert_eq!(app.settings.voice_volume, 0);
}

#[test]
fn background_colour_cycles_through_six() {
    let mut app = new_app(STORY);
    app.handle_settings(SettingsAction::BgColorNext);
    assert_eq!(app.settings.background_color, "#2A2A3E");
    assert_eq!(app.status_message.as_deref(), Some("背景颜色: 深灰紫"));
    for _ in 0..5 {
        app.handle_settings(SettingsAction::BgColorNext);
    }
    assert_eq!(app.settings.background_color, "default");
}

#[test]
fn text_animation_reveals_characters() {
    let mut app = new_app(STORY);
    app.start_game();
    app.update_animation(2);
    assert_eq!(app.display_text.iter().collect::<String>(), "Hel");
    app.update_animation(100);
    assert_eq!(app.display_text.iter().collect::<String>(), "Hello");
}

#[test]
fn save_then_load_restores_the_game() {
    let mut app = new_app(STORY);
    app.start_game();
    app.advance_dialogue();
    app.advance_dialogue();
    app.handle_event(Key::Down, &no_saves());
    app.handle_event(Key::Enter, &no_saves());
    app.resume_assign(None);
    app.open_save_slot();
    assert!(matches!(app.state, AppState::SaveSlot));
    let data = app.save_data();
    assert!(matches!(&data.state, AppState::InDialogue { scene_id, cmd_index: 1 } if scene_id == "right"));
    assert_eq!(data.variables, vec![("name".to_string(), "Bob".to_string())]);
    assert_eq!(data.current_file.as_deref(), Some("dialogue.ng"));
    app.save_game_slot(1, Ok(()));
    assert_eq!(app.status_message.as_deref(), Some("已存档到槽位 1"));

    let mut other = new_app(STORY);
    other.load_game_slot(1, Ok(data));
    assert_eq!(other.variables.get("name").map(|s| s.as_str()), Some("Bob"));
    assert_eq!(at(&other), ("right".to_string(), 1));
    assert_eq!(other.current_text().as_deref(), Some("Hi Bob"));
    assert_eq!(other.status_message.as_deref(), Some("从槽位 1 读档成功"));
}

#[test]
fn failed_load_and_save_are_reported() {
    let mut app = new_app(STORY);
    app.load_game_slot(2, Err("boom".to_string()));
    assert_eq!(app.status_message.as_deref(), Some("读档失败: boom"));
    assert!(matches!(app.state, AppState::Menu));
    app.open_save_slot();
    app.save_game_slot(3, Err("disk full".to_string()));
    assert_eq!(app.status_message.as_deref(), Some("存档失败: disk full"));
}

#[test]
fn menu_keys_move_the_selection_within_the_entries() {
    let mut app = new_app(STORY);
    app.handle_event(Key::Up, &no_saves());
    assert_eq!(app.selected, 0);
    for _ in 0..10 {
        app.handle_event(Key::Down, &no_saves());
    }
    assert_eq!(app.selected, 4);
    app.handle_event(Key::Enter, &no_saves());
    assert!(app.should_quit);
}

#[test]
fn input_command_stores_what_was_typed() {
    let mut app = new_app("[welcome]\ninput:Your name:who\nHello {who}\n");
    app.start_game();
    assert!(matches!(&app.state, AppState::Input { prompt, var_name } if prompt == "Your name" && var_name == "who"));
    app.handle_event(Key::Char('Z'), &no_saves());
    app.handle_event(Key::Char('o'), &no_saves());
    app.handle_event(Key::Backspace, &no_saves());
    app.handle_event(Key::Char('e'), &no_saves());
    app.handle_event(Key::Enter, &no_saves());
    assert_eq!(app.variables.get("who").map(|s| s.as_str()), Some("Ze"));
    assert_eq!(app.current_text().as_deref(), Some("Hello Ze"));
}

#[test]
fn empty_input_takes_the_default_name() {
    let mut app = new_app("[welcome]\ninput:Your name:who\nHello {who}\n");
    app.start_game();
    app.handle_event(Key::Enter, &no_saves());
    assert_eq!(app.variables.get("who").map(|s| s.as_str()), Some("玩家"));
}

#[test]
fn bottom_panel_shows_the_line_or_the_status() {
    let mut app = new_app(STORY);
    let (name, text, is_status) = app.bottom_panel(false, None);
    assert_eq!((name.as_str(), text.as_str(), is_status), ("系统", "footer | q 退出", false));
    app.start_game();
    app.advance_dialogue();
    let (name, text, is_status) = app.bottom_panel(false, Some("Hi there".to_string()));
    assert_eq!((name.as_str(), text.as_str(), is_status), ("Alice", "Hi there", false));
    app.handle_settings(SettingsAction::BgmUp);
    let (_, text, is_status) = app.bottom_panel(false, Some("Hi there".to_string()));
    assert_eq!((text.as_str(), is_status), ("BGM音量: 60%", true));
    app.open_load_slot();
    app.status_message = None;
    assert_eq!(app.bottom_panel(false, None).1, "暂无存档，ESC 返回");
    assert_eq!(app.bottom_panel(true, None).1, "↑↓ 移动，Enter 确认，ESC 返回");
}

#[test]
fn history_lines_are_newest_first() {
    let mut app = new_app(STORY);
    app.add_to_history(Some("Alice"), "one");
    app.add_to_history(None, "two");
    assert_eq!(app.history_lines(), vec!["two".to_string(), "[Alice] one".to_string()]);
}

#[test]
fn slot_labels() {
    assert_eq!(slot_label(3, false, None), "存档槽 3 (空)");
    assert_eq!(slot_label(4, true, Some("2024-01-02 03:04:05")), "存档槽 4 - 2024-01-02 03:04:05");
    assert_eq!(slot_label(10, true, None), "存档槽 10 (有存档)");
}

#[test]
fn save_time_stamp_has_the_date_shape() {
    let app = new_app(STORY);
    let t: Vec<char> = app.save_data().timestamp.chars().collect();
    let n = t.len();
    assert!(n >= 19);
    assert_eq!((t[n - 15], t[n - 12], t[n - 9], t[n - 6], t[n - 3]), ('-', '-', ' ', ':', ':'));
    for i in [n - 14, n - 13, n - 11, n - 10, n - 8, n - 7, n - 5, n - 4, n - 2, n - 1] {
        assert!(t[i].is_ascii_digit());
    }
}

#[test]
fn choice_and_slot_selection_stay_in_range() {
    let mut app = new_app(STORY);
    app.start_game();
    app.advance_dialogue();
    app.advance_dialogue();
    for _ in 0..5 {
        app.handle_event(Key::Down, &no_saves());
    }
    assert!(matches!(app.state, AppState::InChoice { selected: 1, .. }));
    app.handle_event(Key::Up, &no_saves());
    app.handle_event(Key::Up, &no_saves());
    assert!(matches!(app.state, AppState::InChoice { selected: 0, .. }));
    app.open_save_slot();
    for _ in 0..15 {
        app.handle_event(Key::Down, &no_saves());
    }
    assert!(matches!(app.state, AppState::SaveSlot));
    assert_eq!(app.selected, 9);
}
