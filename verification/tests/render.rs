use wurstminebot::format::{
    channel_part, discord_to_minecraft, push_decimal, raw_reference, resolve_display,
    role_part, timestamp_part, user_lookup_needed, user_part, ChannelEntry, ChannelLabel, ChatPart,
    Color, Directory, Member, MessagePart, RoleEntry, User, UserEntry,
};
use wurstminebot::minecraft::{tellraw, Chat};
use wurstminebot::relay::{
    after_send, deliver, handle_line, inbound_world, long_message_notice, relay_to_game,
    world_channel, Attachment, Author, Delivery, FollowUp, Handler, Inbound, Route, SendOutcome,
    Step,
};
use wurstminebot::log::{FollowerState, Line, RegularLine};

fn render(dir: &Directory, part: &MessagePart) -> Vec<ChatPart> {
    wurstminebot::format::format(dir, part)
}

fn directory() -> Directory {
    Directory {
        users: vec![
            UserEntry {
                id: 1,
                member: Some(Member { tag: "bob#0001".to_string(), nick: Some("Bobby".to_string()) }),
                user: None,
            },
            UserEntry {
                id: 2,
                member: Some(Member { tag: "carol#0002".to_string(), nick: None }),
                user: Some(User { tag: "carol#9999".to_string(), name: "carol".to_string() }),
            },
            UserEntry {
                id: 3,
                member: None,
                user: Some(User { tag: "dave#0003".to_string(), name: "dave".to_string() }),
            },
            UserEntry { id: 4, member: Some(Member { tag: "erin#0004".to_string(), nick: None }), user: None },
            UserEntry { id: 1, member: None, user: Some(User { tag: "x".to_string(), name: "shadowed".to_string() }) },
        ],
        channels: vec![
            ChannelEntry { id: 10, label: ChannelLabel::Guild("general".to_string()) },
            ChannelEntry { id: 11, label: ChannelLabel::Private("DM with bob".to_string()) },
            ChannelEntry { id: 12, label: ChannelLabel::Other },
        ],
        roles: vec![RoleEntry { id: 20, name: "admin".to_string() }],
    }
}

fn texts(parts: &[ChatPart]) -> Vec<(String, Option<String>)> {
    parts.iter().map(|p| (p.text.clone(), p.hover.clone())).collect()
}

fn pair(text: &str, hover: Option<&str>) -> (String, Option<String>) {
    (text.to_string(), hover.map(|h| h.to_string()))
}

#[test]
fn plain_text_renders_verbatim() {
    let parts = render(&directory(), &MessagePart::PlainText("hello".to_string()));
    assert_eq!(parts.len(), 1);
    assert_eq!(parts[0].text, "hello");
    assert_eq!(parts[0].hover, None);
    assert!(!parts[0].underlined);
    assert_eq!(parts[0].color, None);
    assert_eq!(parts[0].link, None);
}

#[test]
fn empty_renders_to_nothing() {
    assert!(render(&directory(), &MessagePart::Empty).is_empty());
    assert!(render(&directory(), &MessagePart::Nested(vec![])).is_empty());
    assert!(render(&directory(), &MessagePart::Nested(vec![MessagePart::Empty, MessagePart::Nested(vec![])])).is_empty());
}

#[test]
fn mention_with_nickname_and_tag() {
    let parts = render(&directory(), &MessagePart::UserMention { user: 1 });
    assert_eq!(texts(&parts), vec![pair("@Bobby", Some("bob#0001"))]);
}

#[test]
fn mention_falls_back_step_by_step() {
    let dir = directory();
    assert_eq!(texts(&[user_part(&dir, 2)]), vec![pair("@carol", Some("carol#0002"))]);
    assert_eq!(texts(&[user_part(&dir, 3)]), vec![pair("@dave", Some("dave#0003"))]);
    assert_eq!(texts(&[user_part(&dir, 4)]), vec![pair("<@4>", None)]);
    assert_eq!(texts(&[user_part(&dir, 18446744073709551615)]), vec![pair("<@18446744073709551615>", None)]);
    assert!(!user_lookup_needed(&dir.users[0].member));
    assert!(user_lookup_needed(&dir.users[1].member));
    assert!(user_lookup_needed(&None));
    assert_eq!(resolve_display(&dir.users[3]), None);
    assert_eq!(resolve_display(&dir.users[1]), Some(("carol".to_string(), "carol#0002".to_string())));
}

#[test]
fn channels_roles_and_emoji() {
    let dir = directory();
    assert_eq!(channel_part(&dir, 10).text, "#general");
    assert_eq!(channel_part(&dir, 11).text, "DM with bob");
    assert_eq!(channel_part(&dir, 12).text, "#?");
    assert_eq!(channel_part(&dir, 13).text, "<#13>");
    assert_eq!(role_part(&dir, 20).text, "@admin");
    assert_eq!(role_part(&dir, 0).text, "<@&0>");
    let parts = render(&dir, &MessagePart::CustomEmoji { name: "wurst".to_string(), id: 5 });
    assert_eq!(texts(&parts), vec![pair(":wurst:", None)]);
    let parts = render(&dir, &MessagePart::UnicodeEmoji("👍".to_string()));
    assert_eq!(texts(&parts), vec![pair("👍", None)]);
}

#[test]
fn timestamps_carry_the_time_in_utc() {
    let part = timestamp_part(0, "in 5 minutes");
    assert_eq!(part.text, "in 5 minutes");
    assert_eq!(part.hover.as_deref(), Some("1970-01-01 00:00:00 UTC"));
    assert!(part.underlined);
    let part = timestamp_part(1704110400, "12:00");
    assert_eq!(part.hover.as_deref(), Some("2024-01-01 12:00:00 UTC"));
    let part = timestamp_part(i64::MAX, "never");
    assert_eq!(part.hover.as_deref(), Some("UTC"));
}

#[test]
fn nested_parts_render_in_order() {
    let tree = MessagePart::Nested(vec![
        MessagePart::PlainText("hi ".to_string()),
        MessagePart::Nested(vec![
            MessagePart::UserMention { user: 1 },
            MessagePart::Empty,
            MessagePart::PlainText(" see ".to_string()),
        ]),
        MessagePart::ChannelMention(10),
        MessagePart::RoleMention(20),
    ]);
    let mut chat = vec![ChatPart { text: "kept".to_string(), hover: None, underlined: false, color: None, link: None }];
    discord_to_minecraft(&directory(), &mut chat, &tree);
    assert_eq!(
        texts(&chat),
        vec![
            pair("kept", None),
            pair("hi ", None),
            pair("@Bobby", Some("bob#0001")),
            pair(" see ", None),
            pair("#general", None),
            pair("@admin", None),
        ]
    );
}

#[test]
fn numerals() {
    let mut out = String::from("n=");
    push_decimal(&mut out, 0);
    push_decimal(&mut out, 7);
    push_decimal(&mut out, 10);
    push_decimal(&mut out, 9051);
    assert_eq!(out, "n=07109051");
    assert_eq!(raw_reference("<@&", 88318761228054528, ">"), "<@&88318761228054528>");
}

fn events(state: &FollowerState, text: &str) -> Line {
    Line::parse(state, text)
}

#[test]
fn chat_is_relayed_under_the_speakers_name() {
    let state = FollowerState::new();
    let line = events(&state, "2024-01-01 12:00:00 [Server thread/INFO]: <Alice> hello");
    match handle_line(&line, true) {
        Delivery::Attributed { username, avatar_url, content } => {
            assert_eq!(username, "Alice");
            assert_eq!(content, "hello");
            assert_eq!(avatar_url, "https://minotar.net/armor/bust/Alice/1024.png");
        }
        _ => panic!("chat was not attributed"),
    }
    match handle_line(&line, false) {
        Delivery::Post { content } => assert_eq!(content, "<Alice> hello"),
        _ => panic!("chat was not posted"),
    }
}

#[test]
fn advancement_is_relayed_as_a_post() {
    let state = FollowerState::new();
    let line = events(&state, "2024-01-01 12:00:00 [Server thread/INFO]: Bob has made the advancement [Stone Age]");
    for attributed in [true, false] {
        match handle_line(&line, attributed) {
            Delivery::Post { content } => assert_eq!(content, "Bob has made the advancement [Stone Age]"),
            _ => panic!("no post"),
        }
    }
    let goal = RegularLine::Advancement {
        kind: wurstminebot::log::AdvancementKind::Goal,
        player: "Bob_1".to_string(),
        advancement: "a*b".to_string(),
    };
    match deliver(&goal, true) {
        Delivery::Post { content } => assert_eq!(content, "Bob\\_1 has reached the goal [a\\*b]"),
        _ => panic!("no post"),
    }
    let challenge = RegularLine::Advancement {
        kind: wurstminebot::log::AdvancementKind::Challenge,
        player: "Bob".to_string(),
        advancement: "x".to_string(),
    };
    match deliver(&challenge, true) {
        Delivery::Post { content } => assert_eq!(content, "Bob has completed the challenge [x]"),
        _ => panic!("no post"),
    }
}

#[test]
fn markup_in_chat_is_defused() {
    let action = RegularLine::Chat { sender: "Al_ice".to_string(), msg: "waves *hard* @everyone".to_string(), is_action: true };
    match deliver(&action, true) {
        Delivery::Attributed { username, content, .. } => {
            assert_eq!(username, "Al_ice");
            assert_eq!(content, "_waves *hard* @\u{200B}everyone_");
        }
        _ => panic!("not attributed"),
    }
    match deliver(&action, false) {
        Delivery::Post { content } => assert_eq!(content, "* Al\\_ice waves \\*hard\\* @\u{200B}everyone"),
        _ => panic!("not posted"),
    }
    let plain = RegularLine::Chat { sender: "Alice".to_string(), msg: "a_b `c`".to_string(), is_action: false };
    match deliver(&plain, true) {
        Delivery::Attributed { content, .. } => assert_eq!(content, "a\\_b \\`c\\`"),
        _ => panic!("not attributed"),
    }
}

#[test]
fn death_is_posted_and_the_rest_is_dropped() {
    let death = RegularLine::Death { msg: "Alice fell *hard*".to_string() };
    assert!(matches!(deliver(&death, true), Delivery::Post { content } if content == "Alice fell *hard*"));
    assert!(matches!(deliver(&RegularLine::ServerStart, true), Delivery::Nothing));
    assert!(matches!(deliver(&RegularLine::Unknown("x".to_string()), false), Delivery::Nothing));
    assert!(matches!(handle_line(&Line::Unknown("<Alice> hello".to_string()), true), Delivery::Nothing));
}

fn routes() -> Vec<Route> {
    vec![
        Route { world: "wurstmineberg".to_string(), channel: 100 },
        Route { world: "testworld".to_string(), channel: 200 },
        Route { world: "shadow".to_string(), channel: 100 },
    ]
}

fn inbound() -> Inbound {
    Inbound {
        from_bot: false,
        channel: 100,
        channel_name: Some("minecraft".to_string()),
        reply_to: None,
        author: Author { name: "bob".to_string(), nick: Some("Bobby".to_string()), tag: "bob#0001".to_string() },
        body: MessagePart::Nested(vec![
            MessagePart::PlainText("hello ".to_string()),
            MessagePart::UserMention { user: 3 },
        ]),
        attachments: vec![],
    }
}

#[test]
fn routes_are_looked_up_both_ways() {
    let routes = routes();
    assert_eq!(world_channel(&routes, "testworld"), Some(200));
    assert_eq!(world_channel(&routes, "shadow"), Some(100));
    assert_eq!(world_channel(&routes, "nowhere"), None);
    let mut msg = inbound();
    assert_eq!(inbound_world(&routes, &msg), Some("wurstmineberg".to_string()));
    msg.channel = 300;
    assert_eq!(inbound_world(&routes, &msg), None);
    msg.channel = 200;
    assert_eq!(inbound_world(&routes, &msg), Some("testworld".to_string()));
    msg.from_bot = true;
    assert_eq!(inbound_world(&routes, &msg), None);
}

#[test]
fn inbound_message_as_game_chat() {
    let chat = relay_to_game(&directory(), &inbound());
    assert_eq!(chat.root.text, "[Discord:#minecraft");
    assert_eq!(chat.root.color, Some(Color::Aqua));
    assert_eq!(
        texts(&chat.extra),
        vec![
            pair("] ", None),
            pair("<Bobby>", Some("bob#0001")),
            pair(" ", None),
            pair("hello ", None),
            pair("@dave", Some("dave#0003")),
        ]
    );
}

#[test]
fn reply_and_attachments() {
    let mut msg = inbound();
    msg.channel_name = None;
    msg.author.nick = None;
    msg.reply_to = Some(Author { name: "carol".to_string(), nick: None, tag: "carol#0002".to_string() });
    msg.body = MessagePart::Empty;
    msg.attachments = vec![
        Attachment { filename: "a.png".to_string(), url: "https://example.org/a.png".to_string() },
        Attachment { filename: "b.txt".to_string(), url: "https://example.org/b.txt".to_string() },
    ];
    let chat = relay_to_game(&directory(), &msg);
    assert_eq!(chat.root.text, "[Discord:#?");
    assert_eq!(
        texts(&chat.extra),
        vec![
            pair(", replying to ", None),
            pair("carol", Some("carol#0002")),
            pair("] ", None),
            pair("<bob>", Some("bob#0001")),
            pair(" ", None),
            pair(" ", None),
            pair("[a.png]", Some("https://example.org/a.png")),
            pair(" ", None),
            pair("[b.txt]", Some("https://example.org/b.txt")),
        ]
    );
    let link = &chat.extra[6];
    assert_eq!(link.color, Some(Color::Blue));
    assert!(link.underlined);
    assert_eq!(link.link.as_deref(), Some("https://example.org/a.png"));
}

#[test]
fn long_message_gets_a_stand_in() {
    assert_eq!(after_send(SendOutcome::TooLong, false), FollowUp::Substitute);
    assert_eq!(after_send(SendOutcome::TooLong, true), FollowUp::Abort);
    assert_eq!(after_send(SendOutcome::Sent, false), FollowUp::Done);
    assert_eq!(after_send(SendOutcome::Sent, true), FollowUp::Done);
    assert_eq!(after_send(SendOutcome::Failed, false), FollowUp::Abort);
    assert_eq!(after_send(SendOutcome::Failed, true), FollowUp::Abort);
    let notice = long_message_notice(&inbound());
    assert_eq!(notice.root.text, "[Discord:#minecraft] long message from ");
    assert_eq!(notice.root.color, Some(Color::Aqua));
    assert_eq!(texts(&notice.extra), vec![pair("Bobby", Some("bob#0001"))]);
    assert_eq!(
        tellraw("@a", &notice),
        "tellraw @a {\"text\":\"[Discord:#minecraft] long message from \",\"color\":\"aqua\",\"extra\":[{\"text\":\"Bobby\",\"hoverEvent\":{\"action\":\"show_text\",\"value\":{\"text\":\"bob#0001\"}}}]}"
    );
}

#[test]
fn chat_as_json() {
    let mut chat = Chat::new(ChatPart { text: "say \"hi\"\n".to_string(), hover: None, underlined: false, color: None, link: None });
    assert_eq!(chat.to_json(), "{\"text\":\"say \\\"hi\\\"\\n\"}");
    chat.add_extra(ChatPart {
        text: "[f]".to_string(),
        hover: Some("u".to_string()),
        underlined: true,
        color: Some(Color::Blue),
        link: Some("u".to_string()),
    });
    chat.add_extra(ChatPart { text: "x".to_string(), hover: None, underlined: false, color: None, link: None });
    assert_eq!(
        chat.to_json(),
        "{\"text\":\"say \\\"hi\\\"\\n\",\"extra\":[{\"text\":\"[f]\",\"underlined\":true,\"color\":\"blue\",\"clickEvent\":{\"action\":\"open_url\",\"value\":\"u\"},\"hoverEvent\":{\"action\":\"show_text\",\"value\":{\"text\":\"u\"}}},{\"text\":\"x\"}]}"
    );
    assert_eq!(tellraw("Alice", &Chat::new(ChatPart { text: "é".to_string(), hover: None, underlined: false, color: Some(Color::Aqua), link: None })), "tellraw Alice {\"text\":\"é\",\"color\":\"aqua\"}");
}

fn step(step: Step) -> (u8, String, String) {
    match step {
        Step::Ignore => (0, String::new(), String::new()),
        Step::Send { world, command } => (1, world, command),
        Step::Done => (2, String::new(), String::new()),
        Step::Abort => (3, String::new(), String::new()),
    }
}

#[test]
fn too_long_message_is_replaced_once() {
    let handler = Handler { routes: routes() };
    let dir = directory();
    let msg = inbound();
    let first = tellraw("@a", &relay_to_game(&dir, &msg));
    let notice = tellraw("@a", &long_message_notice(&msg));
    let next = |outcomes: &[SendOutcome]| step(handler.message(&dir, &msg, true, &outcomes.to_vec()));
    assert_eq!(next(&[]), (1, "wurstmineberg".to_string(), first));
    assert_eq!(next(&[SendOutcome::Sent]), (2, String::new(), String::new()));
    assert_eq!(next(&[SendOutcome::Failed]).0, 3);
    assert_eq!(next(&[SendOutcome::TooLong]), (1, "wurstmineberg".to_string(), notice.clone()));
    assert_eq!(next(&[SendOutcome::TooLong, SendOutcome::Sent]).0, 2);
    assert_eq!(next(&[SendOutcome::TooLong, SendOutcome::TooLong]).0, 3);
    assert_eq!(next(&[SendOutcome::TooLong, SendOutcome::Failed]).0, 3);
    assert_eq!(next(&[SendOutcome::Sent, SendOutcome::TooLong]).0, 2);
    assert_eq!(next(&[SendOutcome::TooLong, SendOutcome::Sent, SendOutcome::Failed]).0, 2);
    assert!(notice.starts_with("tellraw @a {\"text\":\"[Discord:#minecraft] long message from \""));
}

#[test]
fn messages_that_are_not_relayed() {
    let handler = Handler { routes: routes() };
    let dir = directory();
    let mut msg = inbound();
    assert_eq!(step(handler.message(&dir, &msg, false, &vec![])).0, 0);
    assert_eq!(step(handler.message(&dir, &msg, false, &vec![SendOutcome::TooLong])).0, 0);
    msg.from_bot = true;
    assert_eq!(step(handler.message(&dir, &msg, true, &vec![])).0, 0);
    msg.from_bot = false;
    msg.channel = 999;
    assert_eq!(step(handler.message(&dir, &msg, true, &vec![])).0, 0);
    let nowhere = Handler { routes: vec![] };
    assert_eq!(step(nowhere.message(&dir, &inbound(), true, &vec![])).0, 0);
}
