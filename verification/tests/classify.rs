use wurstminebot::log::{
    announced_version, check_worlds, compile_deaths, find_lang_entry, find_version, server_start_version,
    AdvancementKind, FollowerState, Level, Line, LogError, RegularLine, Thread,
};
use wurstminebot::pattern::{format_to_regex, DeathPattern};

const LANG: &str = r#"{
    "death.attack.arrow": "%1$s was shot by %2$s",
    "death.attack.fall": "%1$s fell from a high place (ouch).",
    "gui.done": "Done",
    "death.attack.cactus": "%1$s was pricked to death"
}"#;

fn chat(line: &RegularLine) -> Option<(String, String, bool)> {
    match line {
        RegularLine::Chat { sender, msg, is_action } => Some((sender.clone(), msg.clone(), *is_action)),
        _ => None,
    }
}

fn advancement(line: &RegularLine) -> Option<(AdvancementKind, String, String)> {
    match line {
        RegularLine::Advancement { kind, player, advancement } => {
            Some((*kind, player.clone(), advancement.clone()))
        }
        _ => None,
    }
}

fn unknown(line: &RegularLine) -> Option<String> {
    match line {
        RegularLine::Unknown(text) => Some(text.clone()),
        _ => None,
    }
}

fn content(line: Line) -> RegularLine {
    match line {
        Line::Regular { content, .. } => content,
        Line::Unknown(text) => panic!("no envelope: {text}"),
    }
}

fn with_deaths() -> FollowerState {
    let mut state = FollowerState::new();
    assert!(state.refresh("1.20.1", LANG).is_ok());
    state
}

#[test]
fn chat_line_with_envelope() {
    let state = FollowerState::new();
    let line = Line::parse(&state, "2024-01-01 12:00:00 [Server thread/INFO]: <Alice> hello");
    match line {
        Line::Regular { thread, level, content } => {
            assert!(matches!(thread, Thread::Server));
            assert_eq!(level, Level::Info);
            assert_eq!(chat(&content), Some(("Alice".to_string(), "hello".to_string(), false)));
        }
        Line::Unknown(_) => panic!("the envelope was not read"),
    }
}

#[test]
fn other_thread_and_levels() {
    let state = FollowerState::new();
    match Line::parse(&state, "2024-01-01 12:00:00 [Worker-Main-3/WARN]: something") {
        Line::Regular { thread, level, content } => {
            assert!(matches!(thread, Thread::Unknown(name) if name == "Worker-Main-3"));
            assert_eq!(level, Level::Warn);
            assert_eq!(unknown(&content), Some("something".to_string()));
        }
        Line::Unknown(_) => panic!("the envelope was not read"),
    }
    match Line::parse(&state, "12345-01-01 00:00:00 [a/b/ERROR]: x") {
        Line::Regular { thread, level, .. } => {
            assert!(matches!(thread, Thread::Unknown(name) if name == "a/b"));
            assert_eq!(level, Level::Error);
        }
        Line::Unknown(_) => panic!("the envelope was not read"),
    }
}

#[test]
fn lines_without_envelope_are_unknown() {
    let state = FollowerState::new();
    for text in [
        "",
        "<Alice> hello",
        "2024-01-01 12:00:00 [Server thread/INFO]: ",
        "2024-01-01 12:00:00 [Server thread/INFO]:hello",
        "2024-01-01 12:00:00 [Server thread/DEBUG]: hello",
        "2024-01-01 12:00:00 [/INFO]: hello",
        "2024-1-01 12:00:00 [Server thread/INFO]: hello",
        "-01-01 12:00:00 [Server thread/INFO]: hello",
        " 2024-01-01 12:00:00 [Server thread/INFO]: hello",
        "2024-01-01 12:00:00 [Server thread/INFO]: hello\nworld",
        "2024-01-01 12:00:00 [Server thread/INFO] hello",
    ] {
        match Line::parse(&state, text) {
            Line::Unknown(kept) => assert_eq!(kept, text),
            Line::Regular { .. } => panic!("read an envelope in {text:?}"),
        }
    }
}

#[test]
fn thread_and_level_names() {
    assert!(matches!(Thread::from_str("Server thread"), Thread::Server));
    assert!(matches!(Thread::from_str("Server Thread"), Thread::Unknown(name) if name == "Server Thread"));
    assert_eq!(Level::from_str("INFO"), Ok(Level::Info));
    assert_eq!(Level::from_str("WARN"), Ok(Level::Warn));
    assert_eq!(Level::from_str("ERROR"), Ok(Level::Error));
    assert_eq!(Level::from_str("info"), Err(()));
    assert_eq!(Level::from_str(""), Err(()));
}

#[test]
fn chat_forms() {
    let state = FollowerState::new();
    let cases = [
        ("<Alice> hello", Some(("Alice", "hello", false))),
        ("[Not Secure] <Alice> hello there", Some(("Alice", "hello there", false))),
        ("* Bob_99 waves", Some(("Bob_99", "waves", true))),
        ("[Not Secure] * Bob waves", Some(("Bob", "waves", true))),
        ("<Al> too short", None),
        ("<ABCDEFGHIJKLMNOPQ> seventeen", None),
        ("<ABCDEFGHIJKLMNOP> sixteen", Some(("ABCDEFGHIJKLMNOP", "sixteen", false))),
        ("<Ali ce> hello", None),
        ("<Alice>hello", None),
        ("<Alice> ", None),
        ("<Alice> two\nlines", None),
        ("[Not Secure]<Alice> hello", None),
        ("* Bob", None),
        ("*Bob waves", None),
        ("<Ünïcode> hi", None),
        ("<Alice> héllo ✓", Some(("Alice", "héllo ✓", false))),
    ];
    for (text, expected) in cases {
        let got = chat(&RegularLine::parse(&state, text));
        let expected = expected.map(|(s, m, a)| (s.to_string(), m.to_string(), a));
        assert_eq!(got, expected, "for {text:?}");
        if expected.is_none() {
            assert_eq!(unknown(&RegularLine::parse(&state, text)), Some(text.to_string()));
        }
    }
}

#[test]
fn advancement_forms() {
    let state = FollowerState::new();
    let cases = [
        ("Bob has made the advancement [Stone Age]", Some((AdvancementKind::Task, "Bob", "Stone Age"))),
        ("Bob has reached the goal [Sky's the Limit]", Some((AdvancementKind::Goal, "Bob", "Sky's the Limit"))),
        (
            "Bob has completed the challenge [How Did We Get Here?]",
            Some((AdvancementKind::Challenge, "Bob", "How Did We Get Here?")),
        ),
        ("Bob has made the advancement [a]b]", Some((AdvancementKind::Task, "Bob", "a]b"))),
        ("Bob has made the advancement []", None),
        ("Bob has made the advancement [Stone Age", None),
        ("Bob has made the advancement [Stone Age] ", None),
        ("Bo has made the advancement [Stone Age]", None),
        ("Bob  has made the advancement [Stone Age]", None),
    ];
    for (text, expected) in cases {
        let got = advancement(&RegularLine::parse(&state, text));
        let expected = expected.map(|(k, p, a)| (k, p.to_string(), a.to_string()));
        assert_eq!(got, expected, "for {text:?}");
    }
}

#[test]
fn server_start_marker() {
    let state = FollowerState::new();
    for text in [
        "Starting minecraft server version 1.20.1",
        "Starting minecraft server version 1.20.1%",
        "Starting minecraft server version 24w14a pre-release 2",
        "Starting minecraft server version  ",
    ] {
        assert!(matches!(RegularLine::parse(&state, text), RegularLine::ServerStart), "for {text:?}");
    }
    assert_eq!(
        server_start_version("Starting minecraft server version 1.20.1"),
        Some("1.20.1".to_string())
    );
    assert_eq!(
        server_start_version("Starting minecraft server version 1%2% and more"),
        Some("1%2% and more".to_string())
    );
    for text in [
        "Starting minecraft server version ",
        "Starting minecraft server version",
        "starting minecraft server version 1.20.1",
        " Starting minecraft server version 1.20.1",
        "Starting minecraft server version 1.20.1\n",
        "Starting minecraft server version 1.20\n.1",
    ] {
        assert_eq!(server_start_version(text), None, "for {text:?}");
        assert_eq!(unknown(&RegularLine::parse(&state, text)), Some(text.to_string()), "for {text:?}");
    }
}

#[test]
fn server_start_leaves_the_state_alone() {
    let state = with_deaths();
    assert!(matches!(
        RegularLine::parse(&state, "Starting minecraft server version 1.20.1"),
        RegularLine::ServerStart
    ));
    assert!(!state.needs_refresh("1.20.1"));
    assert_eq!(state.pattern_count(), 3);
    assert!(matches!(RegularLine::parse(&state, "Alice was shot by Bob"), RegularLine::Death { .. }));
}

#[test]
fn death_lines_follow_the_language_resource() {
    let empty = FollowerState::new();
    assert_eq!(empty.pattern_count(), 0);
    assert_eq!(
        unknown(&RegularLine::parse(&empty, "Alice was shot by Bob")),
        Some("Alice was shot by Bob".to_string())
    );
    let state = with_deaths();
    assert_eq!(state.pattern_count(), 3);
    for text in [
        "Alice was shot by Bob",
        "Alice was shot by ",
        "Alice fell from a high place (ouch).",
        "Alice was pricked to death",
    ] {
        assert!(
            matches!(RegularLine::parse(&state, text), RegularLine::Death { msg } if msg == text),
            "for {text:?}"
        );
    }
    for text in [
        "Alice was shot by Bob\n",
        "Alice fell from a high place (ouch)!",
        "Alice fell from a high place ouch.",
        "Alice was pricked to death!",
        "Done",
        "xAlice was shot",
    ] {
        assert_eq!(unknown(&RegularLine::parse(&state, text)), Some(text.to_string()), "for {text:?}");
    }
}

#[test]
fn chat_is_read_before_death() {
    let mut state = FollowerState::new();
    assert!(state.refresh("1", r#"{"death.odd": "<%1$s> %2$s"}"#).is_ok());
    assert_eq!(
        chat(&RegularLine::parse(&state, "<Alice> hello")),
        Some(("Alice".to_string(), "hello".to_string(), false))
    );
    assert!(matches!(RegularLine::parse(&state, "<Al> hello"), RegularLine::Death { .. }));
}

#[test]
fn reading_twice_gives_the_same_event() {
    let state = with_deaths();
    for text in [
        "2024-01-01 12:00:00 [Server thread/INFO]: <Alice> hello",
        "2024-01-01 12:00:00 [Server thread/INFO]: Alice was shot by Bob",
        "2024-01-01 12:00:00 [Server thread/INFO]: Bob has reached the goal [x]",
        "garbage",
    ] {
        let first = format!("{:?}", describe(Line::parse(&state, text)));
        let second = format!("{:?}", describe(Line::parse(&state, text)));
        assert_eq!(first, second);
    }
}

fn describe(line: Line) -> (u8, String, String, bool) {
    match line {
        Line::Unknown(text) => (0, text, String::new(), false),
        Line::Regular { content, .. } => match content {
            RegularLine::ServerStart => (1, String::new(), String::new(), false),
            RegularLine::Chat { sender, msg, is_action } => (2, sender, msg, is_action),
            RegularLine::Advancement { player, advancement, .. } => (3, player, advancement, false),
            RegularLine::Death { msg } => (4, msg, String::new(), false),
            RegularLine::Unknown(text) => (5, text, String::new(), false),
        },
    }
}

#[test]
fn templates_become_anchored_patterns() {
    assert_eq!(format_to_regex("%1$s was shot by %2$s"), "^.*\\ was\\ shot\\ by\\ .*$".replace("\\ ", " "));
    assert_eq!(format_to_regex(""), "^$");
    assert_eq!(format_to_regex("a.b"), "^a\\.b$");
    assert_eq!(format_to_regex("%s and %1$ and %$s"), "^%s and %1\\$ and %\\$s$");
    assert_eq!(format_to_regex("%12$s%3$s"), "^.*.*$");
    let pattern = DeathPattern::from_template("death.x", "%1$s (x)").ok().unwrap();
    assert_eq!(pattern.resource_key(), "death.x");
    assert_eq!(pattern.pattern(), "^.* \\(x\\)$");
}

#[test]
fn refresh_is_asked_for_once_per_version() {
    let mut state = FollowerState::new();
    assert!(state.needs_refresh("1.20.1"));
    assert!(state.refresh("1.20.1", LANG).is_ok());
    assert!(!state.needs_refresh("1.20.1"));
    assert!(!state.needs_refresh("1.20.1"));
    assert!(state.needs_refresh("1.20.2"));
    assert!(state.refresh("1.20.2", r#"{"death.a": "%1$s died"}"#).is_ok());
    assert_eq!(state.pattern_count(), 1);
    assert!(!state.needs_refresh("1.20.2"));
    assert!(state.needs_refresh("1.20.1"));
    assert!(matches!(RegularLine::parse(&state, "Alice died"), RegularLine::Death { .. }));
    assert!(matches!(RegularLine::parse(&state, "Alice was shot by Bob"), RegularLine::Unknown(_)));
}

#[test]
fn broken_resource_keeps_the_patterns() {
    let mut state = with_deaths();
    let result = state.refresh("1.20.2", "{\"death.a\": 5}");
    match result {
        Err(e) => {
            assert!(matches!(e, LogError::Json(_)));
            assert!(!e.describe().is_empty());
        }
        Ok(()) => panic!("a number is no template"),
    }
    assert!(matches!(state.refresh("1.20.2", "not json"), Err(LogError::Json(_))));
    assert_eq!(state.pattern_count(), 3);
    assert!(state.needs_refresh("1.20.2"));
    assert!(!state.needs_refresh("1.20.1"));
    assert!(matches!(RegularLine::parse(&state, "Alice was shot by Bob"), RegularLine::Death { .. }));
    let huge = format!("{{\"death.huge\": \"{}\"}}", "%1$s".repeat(400_000));
    assert!(matches!(state.refresh("1.20.3", &huge), Err(LogError::Regex(_))));
    assert_eq!(state.pattern_count(), 3);
    assert!(state.needs_refresh("1.20.3"));
    assert!(!state.needs_refresh("1.20.1"));
}

#[test]
fn oversized_pattern_is_an_error() {
    let template = "%1$s".repeat(400_000);
    let entries = vec![("death.huge".to_string(), template)];
    match compile_deaths(&entries) {
        Err(e) => {
            assert!(matches!(e, LogError::Regex(_)));
            assert!(!e.describe().is_empty());
        }
        Ok(_) => panic!("the pattern should be too large"),
    }
    let ignored = vec![("gui.huge".to_string(), "%1$s".repeat(400_000))];
    assert!(matches!(compile_deaths(&ignored), Ok(patterns) if patterns.is_empty()));
}

#[test]
fn patterns_come_in_key_order() {
    let entries = vec![
        ("death.b".to_string(), "b".to_string()),
        ("other".to_string(), "x".to_string()),
        ("death.a".to_string(), "a%1$s".to_string()),
        ("deathless".to_string(), "y".to_string()),
    ];
    let patterns = compile_deaths(&entries).ok().unwrap();
    let keys: Vec<&str> = patterns.iter().map(|p| p.resource_key()).collect();
    assert_eq!(keys, vec!["death.b", "death.a"]);
    let sources: Vec<&str> = patterns.iter().map(|p| p.pattern()).collect();
    assert_eq!(sources, vec!["^b$", "^a.*$"]);
}

#[test]
fn undecodable_line_is_unknown() {
    let state = FollowerState::new();
    assert!(matches!(Line::parse_bytes(&state, &[0xff, 0xfe, b'a']), Line::Unknown(text) if text.is_empty()));
    let line = Line::parse_bytes(&state, "2024-01-01 12:00:00 [Server thread/INFO]: * Bob héllo".as_bytes());
    assert_eq!(chat(&content(line)), Some(("Bob".to_string(), "héllo".to_string(), true)));
}

#[test]
fn manifest_and_package_lookups() {
    let versions = vec![
        ("1.20.2".to_string(), "https://example.org/a".to_string()),
        ("1.20.1".to_string(), "https://example.org/b".to_string()),
        ("1.20.1".to_string(), "https://example.org/c".to_string()),
    ];
    assert_eq!(find_version(&versions, "1.20.1").ok(), Some("https://example.org/b".to_string()));
    assert!(matches!(find_version(&versions, "1.19"), Err(LogError::MissingVersion)));
    let names = vec![
        "META-INF/MANIFEST.MF".to_string(),
        "assets/minecraft/lang/en_us.json".to_string(),
        "assets/minecraft/lang/en_us.json".to_string(),
    ];
    assert_eq!(find_lang_entry(&names).ok(), Some(1));
    assert!(matches!(find_lang_entry(&names[..1].to_vec()), Err(LogError::MissingLangFile)));
    assert!(matches!(check_worlds(0), Err(LogError::NoWorlds)));
    assert!(check_worlds(2).is_ok());
}

#[test]
fn error_messages() {
    assert_eq!(LogError::Channel.describe(), "unknown error in log handler");
    assert_eq!(LogError::FollowEnded.describe(), "log handler returned unexpectedly");
    assert_eq!(LogError::MissingLangFile.describe(), "no en_us language file in Minecraft client jar");
    assert_eq!(LogError::MissingVersion.describe(), "Minecraft version not found in launcher manifest");
    assert_eq!(LogError::NoWorlds.describe(), "failed to start log handler: no worlds configured");
}

#[test]
fn version_announced_by_a_line() {
    assert_eq!(
        announced_version(b"2024-01-01 12:00:00 [Server thread/INFO]: Starting minecraft server version 1.20.1"),
        Some("1.20.1".to_string())
    );
    assert_eq!(announced_version(b"Starting minecraft server version 1.20.1"), None);
    assert_eq!(
        announced_version(b"2024-01-01 12:00:00 [Server thread/INFO]: Starting minecraft server version "),
        None
    );
    assert_eq!(announced_version(b"2024-01-01 12:00:00 [Server thread/INFO]: <Alice> hello"), None);
    assert_eq!(announced_version(&[0xff, b'a']), None);
}

#[test]
fn literal_text_is_escaped_character_by_character() {
    assert_eq!(
        format_to_regex("\\.+*?()|[]{}^$#&-~"),
        "^\\\\\\.\\+\\*\\?\\(\\)\\|\\[\\]\\{\\}\\^\\$\\#\\&\\-\\~$"
    );
    assert_eq!(format_to_regex("a b%c/d!\"e'"), "^a b%c/d!\"e'$");
    let mut state = FollowerState::new();
    assert!(state.refresh("1", r#"{"death.x": "%1$s died [really] (yes) at 1.5+2"}"#).is_ok());
    assert!(matches!(
        RegularLine::parse(&state, "Alice died [really] (yes) at 1.5+2"),
        RegularLine::Death { .. }
    ));
    assert!(matches!(RegularLine::parse(&state, "Alice died [really] (yes) at 1x5+2"), RegularLine::Unknown(_)));
}
