use wurstminebot::people::{nick_rows, DiscordData, Person, PersonId};
use wurstminebot::twitch::{bridge_messages, NickEntry, NickMap, ServerMessage, Whisper};

fn entry(twitch: &str, minecraft: &str) -> NickEntry {
    NickEntry { twitch: twitch.to_string(), minecraft: minecraft.to_string() }
}

fn map() -> NickMap {
    NickMap::build(&vec![entry("alice_tv", "Alice"), entry("bobstream", "Bob"), entry("alice_tv", "Alice2")])
}

fn told(whispers: &[Whisper]) -> Vec<(String, String, Vec<(String, Option<String>)>)> {
    whispers
        .iter()
        .map(|w| {
            (
                w.recipient.clone(),
                w.chat.root.text.clone(),
                w.chat.extra.iter().map(|p| (p.text.clone(), p.hover.clone())).collect(),
            )
        })
        .collect()
}

#[test]
fn table_is_built_anew_with_the_later_row_deciding() {
    let map = map();
    assert_eq!(map.len(), 2);
    assert_eq!(map.get("alice_tv"), Some("Alice2"));
    assert_eq!(map.get("bobstream"), Some("Bob"));
    assert_eq!(map.get("carol"), None);
    assert_eq!(map.login_at(0), "alice_tv");
    assert_eq!(map.login_at(1), "bobstream");
    assert_eq!(map.nick_at(1), "Bob");
    assert_eq!(NickMap::build(&vec![]).len(), 0);
    let mut map = NickMap::new();
    map.insert("x".to_string(), "X".to_string());
    map.insert("y".to_string(), "Y".to_string());
    map.insert("x".to_string(), "Z".to_string());
    assert_eq!(map.len(), 2);
    assert_eq!(map.get("x"), Some("Z"));
}

#[test]
fn join_and_part_tell_the_streamer() {
    let map = map();
    let join = bridge_messages(&map, &ServerMessage::Join { channel_login: "bobstream".to_string() });
    assert_eq!(told(&join), vec![("Bob".to_string(), "[Twitch] reconnected".to_string(), vec![])]);
    let part = bridge_messages(&map, &ServerMessage::Part { channel_login: "alice_tv".to_string() });
    assert_eq!(told(&part), vec![("Alice2".to_string(), "[Twitch] disconnected".to_string(), vec![])]);
    assert!(bridge_messages(&map, &ServerMessage::Join { channel_login: "nobody".to_string() }).is_empty());
    assert!(bridge_messages(&map, &ServerMessage::Other).is_empty());
}

#[test]
fn chat_of_the_stream_reaches_the_streamer() {
    let map = map();
    let msg = ServerMessage::Privmsg {
        channel_login: "bobstream".to_string(),
        sender_name: "Viewer".to_string(),
        sender_login: "viewer".to_string(),
        message_text: "hello Bob".to_string(),
        is_action: false,
    };
    assert_eq!(
        told(&bridge_messages(&map, &msg)),
        vec![(
            "Bob".to_string(),
            "[Twitch] ".to_string(),
            vec![
                ("<Viewer>".to_string(), Some("viewer".to_string())),
                (" ".to_string(), None),
                ("hello Bob".to_string(), None),
            ]
        )]
    );
    let action = ServerMessage::Privmsg {
        channel_login: "bobstream".to_string(),
        sender_name: "Viewer".to_string(),
        sender_login: "viewer".to_string(),
        message_text: "waves".to_string(),
        is_action: true,
    };
    assert_eq!(told(&bridge_messages(&map, &action))[0].2[0].0, "* Viewer");
    let stranger = ServerMessage::Privmsg {
        channel_login: "elsewhere".to_string(),
        sender_name: "Viewer".to_string(),
        sender_login: "viewer".to_string(),
        message_text: "waves".to_string(),
        is_action: true,
    };
    assert!(bridge_messages(&map, &stranger).is_empty());
}

#[test]
fn reconnect_tells_everyone() {
    let told = told(&bridge_messages(&map(), &ServerMessage::Reconnect));
    assert_eq!(
        told,
        vec![
            ("Alice2".to_string(), "[Twitch] reconnected".to_string(), vec![]),
            ("Bob".to_string(), "[Twitch] reconnected".to_string(), vec![]),
        ]
    );
    assert!(bridge_messages(&NickMap::new(), &ServerMessage::Reconnect).is_empty());
}

fn person(snowflake: Option<u64>, username: &str, discriminator: u16, nick: Option<&str>) -> Person {
    Person {
        wmbid: None,
        name: None,
        discord: snowflake.map(|snowflake| DiscordData {
            snowflake,
            username: username.to_string(),
            discriminator,
            nick: nick.map(|n| n.to_string()),
        }),
        minecraft_nick: None,
        twitch_nick: None,
    }
}

fn people() -> Vec<Person> {
    let mut legacy = person(None, "", 0, None);
    legacy.wmbid = Some("oldtimer".to_string());
    legacy.name = Some("Old Timer".to_string());
    let mut nameless = person(None, "", 0, None);
    nameless.wmbid = Some("plain".to_string());
    let mut streamer = person(Some(5), "stream", 5, None);
    streamer.twitch_nick = Some("streamer_tv".to_string());
    streamer.minecraft_nick = Some("Streamer".to_string());
    let mut half = person(Some(6), "half", 6, None);
    half.twitch_nick = Some("half_tv".to_string());
    vec![
        person(Some(1), "alice", 1, Some("Ally")),
        person(Some(2), "bob", 2, None),
        person(Some(3), "bob", 3, Some("alice")),
        legacy,
        nameless,
        streamer,
        half,
    ]
}

#[test]
fn people_are_found_by_name_only_if_one_matches() {
    let people = people();
    assert_eq!(PersonId::from_discord(&people, "Ally", None), Some(1));
    assert_eq!(PersonId::from_discord(&people, "alice", None), None);
    assert_eq!(PersonId::from_discord(&people, "alice", Some(1)), Some(1));
    assert_eq!(PersonId::from_discord(&people, "bob", None), None);
    assert_eq!(PersonId::from_discord(&people, "bob", Some(3)), Some(3));
    assert_eq!(PersonId::from_discord(&people, "bob", Some(9999)), None);
    assert_eq!(PersonId::from_discord(&people, "Ally", Some(1)), None);
    assert_eq!(PersonId::from_discord(&people, "", None), None);
    assert_eq!(PersonId::from_discord(&vec![], "alice", None), None);
}

#[test]
fn display_names_and_mentions() {
    let people = people();
    assert_eq!(PersonId::Discord(1).display(&people), "Ally");
    assert_eq!(PersonId::Discord(2).display(&people), "bob");
    assert_eq!(PersonId::Discord(77).display(&people), "<@77>");
    assert_eq!(PersonId::LegacyWurstmineberg("oldtimer".to_string()).display(&people), "Old Timer");
    assert_eq!(PersonId::LegacyWurstmineberg("plain".to_string()).display(&people), "plain");
    assert_eq!(PersonId::LegacyWurstmineberg("gone".to_string()).display(&people), "gone");
    assert_eq!(people[0].mention(), "<@1>");
    assert_eq!(people[3].mention(), "Old Timer");
    assert_eq!(people[4].mention(), "plain");
    assert_eq!(people[5].minecraft_nick(), Some("Streamer"));
    assert_eq!(people[5].twitch_nick(), Some("streamer_tv"));
    assert_eq!(people[6].minecraft_nick(), None);
    assert_eq!(people[0].twitch_nick(), None);
}

#[test]
fn nickname_rows_need_both_names() {
    let rows = nick_rows(&people());
    assert_eq!(rows.len(), 1);
    assert_eq!(rows[0].twitch, "streamer_tv");
    assert_eq!(rows[0].minecraft, "Streamer");
    let map = NickMap::build(&rows);
    assert_eq!(map.get("streamer_tv"), Some("Streamer"));
    assert_eq!(map.get("half_tv"), None);
}
