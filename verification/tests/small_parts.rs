use ngal::args::Args;
use ngal::dialogue::DialogueLine;
use ngal::image::load_image_rgba;
use ngal::save::SaveData;
use ngal::scene::Scene;
use ngal::shell::{next_shell_command, shell_replacement, substitute_call, ShellOutcome};

fn words(v: &[&str]) -> Vec<String> {
    v.iter().map(|s| s.to_string()).collect()
}

#[test]
fn args_default_to_the_current_directory() {
    let a = Args::parse(&words(&["ngal"]));
    assert!(!a.help);
    assert!(!a.version);
    assert_eq!(a.game_dir, ".");
}

#[test]
fn args_take_a_directory_and_help_words() {
    let a = Args::parse(&words(&["ngal", "mygame"]));
    assert!(!a.help);
    assert_eq!(a.game_dir, "mygame");
    for w in ["-h", "--help", "help"] {
        let b = Args::parse(&words(&["ngal", w]));
        assert!(b.help);
        assert_eq!(b.game_dir, ".");
    }
    let c = Args::parse(&words(&["ngal", "one", "--help", "two"]));
    assert!(c.help);
    assert_eq!(c.game_dir, "two");
}

#[test]
fn scene_walks_its_lines() {
    let mut s = Scene::new("Narrator", words(&["first", "second"]));
    assert_eq!(s.speaker(), "Narrator");
    assert_eq!(s.current_text().map(|t| t.as_str()), Some("first"));
    assert!(s.next_line());
    assert_eq!(s.current_text().map(|t| t.as_str()), Some("second"));
    assert!(!s.next_line());
    assert_eq!(s.current_text().map(|t| t.as_str()), Some("second"));
    s.reset();
    assert_eq!(s.current_text().map(|t| t.as_str()), Some("first"));
}

#[test]
fn empty_scene_has_no_line() {
    let mut s = Scene::new("x", Vec::new());
    assert!(s.current_text().is_none());
    assert!(!s.next_line());
}

#[test]
fn slot_paths_and_ranges() {
    assert_eq!(SaveData::slot_path(1), "save/slot1.json");
    assert_eq!(SaveData::slot_path(10), "save/slot10.json");
    assert!(SaveData::slot_in_range(1));
    assert!(SaveData::slot_in_range(10));
    assert!(!SaveData::slot_in_range(0));
    assert!(!SaveData::slot_in_range(11));
    assert_eq!(SaveData::invalid_slot_message(12), "存档槽位无效: 12");
    let mut disk = vec![false; 10];
    disk[2] = true;
    assert!(SaveData::slot_exists(3, &disk));
    assert!(!SaveData::slot_exists(2, &disk));
    assert!(!SaveData::slot_exists(0, &disk));
    assert!(!SaveData::slot_exists(11, &disk));
}

#[test]
fn dialogue_strings_split_at_colons() {
    let l = DialogueLine::from_script_text(" Alice : Hello : a.mp3 ");
    assert_eq!(l.speaker.as_deref(), Some("Alice"));
    assert_eq!(l.text.as_deref(), Some("Hello"));
    assert_eq!(l.voice.as_deref(), Some("a.mp3"));
    assert!(l.music.is_none());
    let n = DialogueLine::from_script_text("  just narration ");
    assert!(n.speaker.is_none());
    assert_eq!(n.text.as_deref(), Some("just narration"));
    let two = DialogueLine::from_script_text("Bob:Hi");
    assert_eq!(two.speaker.as_deref(), Some("Bob"));
    assert_eq!(two.text.as_deref(), Some("Hi"));
    assert!(two.voice.is_none());
    let many = DialogueLine::from_script_text("A: t : v: extra");
    assert_eq!(many.speaker.as_deref(), Some("A"));
    assert_eq!(many.text.as_deref(), Some("t"));
    assert_eq!(many.voice.as_deref(), Some("v: extra"));
}

#[test]
fn shell_parts_are_found_leftmost_first() {
    let (whole, cmd) = next_shell_command("Today is $( date ) and $(whoami)").unwrap();
    assert_eq!(whole, "$( date )");
    assert_eq!(cmd, "date");
    assert!(next_shell_command("no command $() here $(").is_none());
    assert!(next_shell_command("plain").is_none());
}

#[test]
fn shell_replacements() {
    let ok = ShellOutcome::Exited { success: true, stdout: "  hi there\n".to_string() };
    assert_eq!(shell_replacement("echo", &ok), "hi there");
    let bad = ShellOutcome::Exited { success: false, stdout: "x".to_string() };
    assert_eq!(shell_replacement("false", &bad), "[命令执行失败: false]");
    let err = ShellOutcome::Failed("no shell".to_string());
    assert_eq!(shell_replacement("ls", &err), "[命令错误: no shell]");
    assert_eq!(substitute_call("a $(x) b $(x)", "$(x)", "1"), "a 1 b 1");
}

#[test]
fn images_decode_from_png_bytes() {
    // A 1x1 PNG with one opaque red pixel.
    let png: Vec<u8> = vec![
        0x89, 0x50, 0x4E, 0x47, 0x0D, 0x0A, 0x1A, 0x0A, 0x00, 0x00, 0x00, 0x0D, 0x49, 0x48, 0x44, 0x52,
        0x00, 0x00, 0x00, 0x01, 0x00, 0x00, 0x00, 0x01, 0x08, 0x02, 0x00, 0x00, 0x00, 0x90, 0x77, 0x53,
        0xDE, 0x00, 0x00, 0x00, 0x0C, 0x49, 0x44, 0x41, 0x54, 0x08, 0xD7, 0x63, 0xF8, 0xCF, 0xC0, 0x00,
        0x00, 0x03, 0x01, 0x01, 0x00, 0x18, 0xDD, 0x8D, 0xB0, 0x00, 0x00, 0x00, 0x00, 0x49, 0x45, 0x4E,
        0x44, 0xAE, 0x42, 0x60, 0x82,
    ];
    let img = load_image_rgba("red.png", &png).unwrap();
    assert_eq!((img.width, img.height), (1, 1));
    assert_eq!(img.pixels, vec![255, 0, 0, 255]);
}

#[test]
fn undecodable_bytes_give_an_error() {
    match load_image_rgba("x.png", b"not an image") {
        Err(msg) => assert!(msg.starts_with("解码图片失败: ")),
        Ok(_) => panic!("decoded garbage"),
    }
    match load_image_rgba("x", b"not an image") {
        Err(msg) => assert!(msg.starts_with("解码图片失败: ")),
        Ok(_) => panic!("decoded garbage"),
    }
}

fn solid(width: u32, height: u32, rgba: [u8; 4]) -> ngal::image::RgbaImage {
    let mut pixels = Vec::new();
    for _ in 0..(width * height) {
        pixels.extend_from_slice(&rgba);
    }
    ngal::image::RgbaImage { width, height, pixels }
}

#[test]
fn background_cells_stretch_the_picture() {
    let img = solid(1, 1, [255, 0, 0, 255]);
    let cells = ngal::image::background_cells(&img, 3, 2);
    assert_eq!(cells.len(), 2);
    for line in &cells {
        assert_eq!(line.len(), 3);
        for c in line {
            assert_eq!(c.top, (255, 0, 0));
            assert_eq!(c.bottom, Some((255, 0, 0)));
        }
    }
}

#[test]
fn portrait_cells_follow_the_position() {
    let img = solid(1, 1, [0, 0, 255, 255]);
    let drawn = |position: usize| -> Vec<bool> {
        let cells = ngal::image::portrait_cells(&img, 4, 1, position, 2);
        assert_eq!(cells.len(), 1);
        cells[0].iter().map(|c| c.is_some()).collect()
    };
    assert_eq!(drawn(1), vec![true, true, false, false]);
    assert_eq!(drawn(2), vec![false, true, true, false]);
    assert_eq!(drawn(3), vec![false, false, true, true]);
    let cells = ngal::image::portrait_cells(&img, 4, 1, 1, 2);
    let c = cells[0][0].unwrap();
    assert_eq!(c.top, (0, 0, 255));
    assert_eq!(c.bottom, Some((0, 0, 255)));
}

#[test]
fn portrait_cells_centre_rounds_toward_the_start() {
    let img = solid(1, 1, [0, 255, 0, 255]);
    let cells = ngal::image::portrait_cells(&img, 2, 1, 2, 5);
    assert_eq!(cells[0].iter().map(|c| c.is_some()).collect::<Vec<_>>(), vec![true, true]);
}

#[test]
fn transparent_and_empty_portraits_draw_nothing() {
    let clear = solid(1, 1, [9, 9, 9, 0]);
    let cells = ngal::image::portrait_cells(&clear, 3, 2, 2, 3);
    assert!(cells.iter().all(|l| l.iter().all(|c| c.is_none())));
    let img = solid(1, 1, [9, 9, 9, 255]);
    let none = ngal::image::portrait_cells(&img, 3, 2, 2, 0);
    assert_eq!(none.len(), 2);
    assert!(none.iter().all(|l| l.len() == 3 && l.iter().all(|c| c.is_none())));
}

#[test]
fn version_flag_is_no_directory() {
    let a = Args::parse(&words(&["ngal", "--version"]));
    assert!(a.version);
    assert!(!a.help);
    assert_eq!(a.game_dir, ".");
    let b = Args::parse(&words(&["ngal", "game", "--version"]));
    assert!(b.version);
    assert_eq!(b.game_dir, "game");
    let c = Args::parse(&words(&["ngal", "-V"]));
    assert!(!c.version);
    assert_eq!(c.game_dir, "-V");
}

#[test]
fn string_lines_never_start_music() {
    for s in ["plain", "a:b", "a:b:c", "a:b:c:d", ":"] {
        let l = DialogueLine::from_script_text(s);
        assert!(l.music.is_none());
        assert!(l.text.is_some());
    }
    assert_eq!(DialogueLine::from_script_text(" who :x:y:z").speaker.as_deref(), Some("who"));
    assert!(DialogueLine::from_script_text("no colon").speaker.is_none());
}
