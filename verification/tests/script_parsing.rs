use ngal::parser::{parse_dialogue_file, parse_dialogue_file_with_order, parse_line, unescape_chars, ParsedLine};
use ngal::script::DialogueCommand;

fn chars(s: &str) -> Vec<char> {
    s.chars().collect()
}

fn cmd(line: &str) -> DialogueCommand {
    match parse_line(&chars(line)) {
        ParsedLine::Cmd(c) => c,
        ParsedLine::Header(h) => panic!("unexpected header {}", h),
    }
}

fn text_parts(c: &DialogueCommand) -> (Option<String>, String, Option<String>) {
    match c {
        DialogueCommand::Text { speaker, text, voice } => (speaker.clone(), text.clone(), voice.clone()),
        _ => panic!("not a text command"),
    }
}

#[test]
fn header_line_names_a_scene() {
    match parse_line(&chars("[welcome]")) {
        ParsedLine::Header(h) => assert_eq!(h, "welcome"),
        _ => panic!("expected a header"),
    }
}

#[test]
fn narration_speaker_and_voice_lines() {
    assert_eq!(text_parts(&cmd("Chapter 1")), (None, "Chapter 1".to_string(), None));
    assert_eq!(
        text_parts(&cmd("System: Welcome to ngal engine!")),
        (Some("System".to_string()), " Welcome to ngal engine!".to_string(), None)
    );
    assert_eq!(
        text_parts(&cmd("Alice:Hello:alice01.mp3")),
        (Some("Alice".to_string()), "Hello".to_string(), Some("alice01.mp3".to_string()))
    );
}

#[test]
fn escaped_colon_does_not_split() {
    assert_eq!(text_parts(&cmd("Time\\: 12\\:30")), (None, "Time: 12:30".to_string(), None));
    assert_eq!(
        text_parts(&cmd("Bob:a\\:b")),
        (Some("Bob".to_string()), "a:b".to_string(), None)
    );
}

#[test]
fn escapes_are_replaced() {
    let out: String = unescape_chars(&chars("a\\nb\\tc\\'d\\\"e\\x")).into_iter().collect();
    assert_eq!(out, "a\nb\tc'd\"e\\x");
}

#[test]
fn image_commands() {
    match cmd("img:logo.png:2:50%") {
        DialogueCommand::Image(p) => {
            assert_eq!(p.filename.as_deref(), Some("logo.png"));
            assert_eq!(p.position, 2);
            assert_eq!(p.scale, 50);
        }
        _ => panic!("expected an image"),
    }
    match cmd("img:left.png:1") {
        DialogueCommand::Image(p) => {
            assert_eq!(p.filename.as_deref(), Some("left.png"));
            assert_eq!(p.position, 1);
            assert_eq!(p.scale, 100);
        }
        _ => panic!("expected an image"),
    }
    match cmd("img:right.png:3:abc") {
        DialogueCommand::Image(p) => {
            assert_eq!(p.position, 3);
            assert_eq!(p.scale, 100);
        }
        _ => panic!("expected an image"),
    }
    match cmd("img:") {
        DialogueCommand::Image(p) => {
            assert!(p.filename.is_none());
            assert_eq!(p.position, 2);
            assert_eq!(p.scale, 100);
        }
        _ => panic!("expected an image"),
    }
}

#[test]
fn background_and_music_commands() {
    assert!(matches!(cmd("bg:bg.png"), DialogueCommand::Background { filename: Some(f) } if f == "bg.png"));
    assert!(matches!(cmd("bg:"), DialogueCommand::Background { filename: None }));
    assert!(matches!(cmd("music:bgm.mp3"), DialogueCommand::Music { filename } if filename == "bgm.mp3"));
    assert!(matches!(cmd("music:"), DialogueCommand::MusicStop));
}

#[test]
fn choose_command_lists_options() {
    match cmd("choose:Accept:accept|Refuse:refuse|broken") {
        DialogueCommand::Choose { options } => {
            assert_eq!(
                options,
                vec![
                    ("Accept".to_string(), "accept".to_string()),
                    ("Refuse".to_string(), "refuse".to_string())
                ]
            );
        }
        _ => panic!("expected a choice"),
    }
}

#[test]
fn load_input_if_end_and_assignment() {
    assert!(matches!(cmd("load:index"), DialogueCommand::Load { file: None, target } if target == "index"));
    assert!(matches!(cmd("load:day1.ng:welcome"),
        DialogueCommand::Load { file: Some(f), target } if f == "day1.ng" && target == "welcome"));
    assert!(matches!(cmd("input:Please enter your name:name"),
        DialogueCommand::Input { prompt, var_name } if prompt == "Please enter your name" && var_name == "name"));
    assert!(matches!(cmd("if score >= 10: good_end"),
        DialogueCommand::If { condition, target } if condition == "score >= 10" && target == "good_end"));
    assert!(matches!(cmd("end"), DialogueCommand::End));
    assert!(matches!(cmd("c = a + b"),
        DialogueCommand::SetVar { name, value } if name == "c" && value == "a + b"));
    assert!(matches!(cmd("x == 3"), DialogueCommand::Text { .. }));
}

const SCRIPT: &str = "# tutorial\n\n[welcome]   # entry\nChapter 1\nload:index\n\n[index]\nname = Jiahao\nSystem: Hi {name} # greet\nchoose:A:a|B:b\n[a]\nend\n";

#[test]
fn script_scenes_and_order() {
    let (scenes, order) = parse_dialogue_file_with_order(SCRIPT);
    assert_eq!(order, vec!["welcome".to_string(), "index".to_string(), "a".to_string()]);
    assert_eq!(scenes.len(), 3);
    let welcome = scenes.get("welcome").unwrap();
    assert_eq!(welcome.commands.len(), 2);
    assert_eq!(text_parts(&welcome.commands[0]), (None, "Chapter 1".to_string(), None));
    let index = scenes.get("index").unwrap();
    assert_eq!(index.commands.len(), 3);
    assert_eq!(
        text_parts(&index.commands[1]),
        (Some("System".to_string()), " Hi {name}".to_string(), None)
    );
    assert!(matches!(scenes.get("a").unwrap().commands[0], DialogueCommand::End));
    assert!(scenes.get("missing").is_none());
}

#[test]
fn comment_after_line_is_ignored() {
    let with = parse_dialogue_file("[s]\nHello # a remark\n");
    let without = parse_dialogue_file("[s]\nHello\n");
    assert_eq!(
        text_parts(&with.get("s").unwrap().commands[0]),
        text_parts(&without.get("s").unwrap().commands[0])
    );
}

#[test]
fn lines_before_the_first_header_join_the_first_scene() {
    let scenes = parse_dialogue_file("Intro\n[first]\nMore\n");
    let first = scenes.get("first").unwrap();
    assert_eq!(first.commands.len(), 2);
    assert_eq!(text_parts(&first.commands[0]).1, "Intro");
}

#[test]
fn empty_script_has_no_scenes() {
    assert_eq!(parse_dialogue_file("").len(), 0);
    assert_eq!(parse_dialogue_file("# only a comment\n\n").len(), 0);
}

#[test]
fn scene_names_are_the_header_names() {
    let scenes = parse_dialogue_file("[a] # first\nx\n[]\ny\n  [b]  \nz\n[a]\nw\n#[c]\n");
    assert_eq!(scenes.len(), 2);
    assert!(scenes.get("a").is_some());
    assert!(scenes.get("b").is_some());
    assert!(scenes.get("c").is_none());
    assert!(scenes.get("").is_none());
    // The later `[a]` replaces the earlier one; `[]` carried its line into `[b]`.
    assert_eq!(text_parts(&scenes.get("a").unwrap().commands[0]).1, "w");
    let b: Vec<String> = scenes.get("b").unwrap().commands.iter().map(|c| text_parts(c).1).collect();
    assert_eq!(b, vec!["y".to_string(), "z".to_string()]);
}
