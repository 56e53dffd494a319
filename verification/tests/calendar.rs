use wurstminebot::cal::{is_unnotified, notice_delay, notifications, push_signed, Event, EventKind};
use wurstminebot::people::{DiscordData, Person, PersonId};

fn people() -> Vec<Person> {
    vec![Person {
        wmbid: None,
        name: None,
        discord: Some(DiscordData { snowflake: 1, username: "alice".to_string(), discriminator: 1, nick: Some("Ally".to_string()) }),
        minecraft_nick: None,
        twitch_nick: None,
    }]
}

fn event(kind: EventKind) -> Event {
    Event { id: 1, start_time: 1704110400, end_time: 1704114000, kind }
}

#[test]
fn titles() {
    let people = people();
    assert_eq!(event(EventKind::Minigame { minigame: "Spleef".to_string() }).title(&people), "Minigame Night: Spleef");
    assert_eq!(
        event(EventKind::Renascence { settlement: "Zucchini".to_string(), hub_coords: (1, -2) }).title(&people),
        "Renascence: Zucchini"
    );
    assert_eq!(
        event(EventKind::RenascenceDragonFight { settlement: "Zucchini".to_string() }).title(&people),
        "Zucchini dragon fight"
    );
    assert_eq!(event(EventKind::Usc { season: 12 }).title(&people), "Ultra Softcore season 12");
    assert_eq!(event(EventKind::Other { title: "Party".to_string(), location: None }).title(&people), "Party");
    assert_eq!(event(EventKind::Tour { area: None, guests: vec![] }).title(&people), "server tour for no one");
    assert_eq!(
        event(EventKind::Tour {
            area: Some("the Nether".to_string()),
            guests: vec![
                PersonId::Discord(1),
                PersonId::Discord(5),
                PersonId::LegacyWurstmineberg("old".to_string())
            ]
        })
        .title(&people),
        "tour of the Nether for Ally, <@5>, and old"
    );
    assert_eq!(
        event(EventKind::Tour { area: None, guests: vec![PersonId::Discord(1), PersonId::Discord(5)] }).title(&people),
        "server tour for Ally and <@5>"
    );
}

#[test]
fn locations() {
    let hub = event(EventKind::Renascence { settlement: "Zucchini".to_string(), hub_coords: (3, -12) });
    assert_eq!(hub.ics_location().as_deref(), Some("Hub 3, -12\nThe Nether\nWurstmineberg"));
    assert_eq!(
        hub.discord_location().as_deref(),
        Some("[Hub](https://wurstmineberg.de/wiki/nether-hub-system) 3, -12\nThe Nether\nWurstmineberg")
    );
    let fight = event(EventKind::RenascenceDragonFight { settlement: "Zucchini".to_string() });
    assert_eq!(fight.ics_location().as_deref(), Some("Zucchini\nWurstmineberg"));
    assert_eq!(
        fight.discord_location().as_deref(),
        Some("[Zucchini](https://wurstmineberg.de/renascence#zucchini)\nWurstmineberg")
    );
    let mut tour = event(EventKind::Tour { area: None, guests: vec![] });
    assert_eq!(tour.ics_location().as_deref(), Some("spawn platform\nZucchini\nWurstmineberg"));
    tour.start_time = 1554595200;
    assert_eq!(tour.ics_location().as_deref(), Some("spawn platform\nZucchini\nWurstmineberg"));
    tour.start_time = 1554595199;
    assert_eq!(tour.ics_location().as_deref(), Some("Platz des Ursprungs\nWurstmineberg"));
    assert_eq!(
        tour.discord_location().as_deref(),
        Some("[Platz des Ursprungs](https://wurstmineberg.de/wiki/old-spawn#platz-des-ursprungs)\nWurstmineberg")
    );
    let area = event(EventKind::Tour { area: Some("End".to_string()), guests: vec![] });
    assert_eq!(area.ics_location().as_deref(), Some("End\nWurstmineberg"));
    assert_eq!(area.discord_location().as_deref(), Some("End\nWurstmineberg"));
    assert_eq!(event(EventKind::Usc { season: 1 }).discord_location().as_deref(), Some("usc.wurstmineberg.de"));
    assert_eq!(
        event(EventKind::Minigame { minigame: "x".to_string() }).ics_location().as_deref(),
        Some("minigame.wurstmineberg.de")
    );
    assert_eq!(event(EventKind::Other { title: "t".to_string(), location: None }).ics_location(), None);
    assert_eq!(
        event(EventKind::Other { title: "t".to_string(), location: Some("here".to_string()) }).discord_location().as_deref(),
        Some("here")
    );
}

#[test]
fn announcement() {
    let notice = notifications(&event(EventKind::Usc { season: 3 }), &people());
    assert_eq!(notice.content, "event starting <t:1704110400:R>");
    assert_eq!(notice.title, "Ultra Softcore season 3");
    assert_eq!(notice.description.as_deref(), Some("usc.wurstmineberg.de"));
    assert_eq!(notice.starts, "<t:1704110400:F>");
    assert_eq!(notice.ends, "<t:1704114000:F>");
}

#[test]
fn notice_times() {
    let e = event(EventKind::Usc { season: 3 });
    assert!(is_unnotified(&e, 1704110400 - 1801));
    assert!(!is_unnotified(&e, 1704110400 - 1800));
    assert_eq!(notice_delay(&e, 1704110400 - 1800 - 60), Some(60));
    assert_eq!(notice_delay(&e, 1704110400 - 1800), Some(0));
    assert_eq!(notice_delay(&e, 1704110400), None);
    let mut early = event(EventKind::Usc { season: 3 });
    early.start_time = i64::MIN;
    assert!(!is_unnotified(&early, i64::MIN));
    assert_eq!(notice_delay(&early, i64::MIN), None);
    let mut late = event(EventKind::Usc { season: 3 });
    late.start_time = i64::MAX;
    assert_eq!(notice_delay(&late, i64::MIN + 1800), Some(u64::MAX - 3600));
}

#[test]
fn signed_numerals() {
    let mut out = String::new();
    push_signed(&mut out, 0);
    out.push(' ');
    push_signed(&mut out, -7);
    out.push(' ');
    push_signed(&mut out, i64::MIN);
    out.push(' ');
    push_signed(&mut out, i64::MAX);
    assert_eq!(out, "0 -7 -9223372036854775808 9223372036854775807");
}
