//! The community's calendar: what an event is called, where it takes place
//! and what is announced before it starts.

use vstd::prelude::*;
use vstd::string::*;
use crate::format::{decimal, push_decimal};
use crate::people::{display_text, Person, PersonId};
use crate::util::{join, listed, texts};

verus! {

/// The kinds of events.
pub enum EventKind {
    Minigame { minigame: String },
    Renascence { settlement: String, hub_coords: (i16, i16) },
    RenascenceDragonFight { settlement: String },
    Tour { area: Option<String>, guests: Vec<PersonId> },
    Usc { season: usize },
    Other { title: String, location: Option<String> },
}

/// An event of the calendar; its times are seconds since 1970.
pub struct Event {
    pub id: i32,
    pub start_time: i64,
    pub end_time: i64,
    pub kind: EventKind,
}

/// The moment from which tours start at the new spawn: 7 April 2019, 0:00 UTC.
pub const NEW_SPAWN_SINCE: i64 = 1554595200;

/// How long before an event's start it is announced, in seconds.
pub const NOTICE_SECS: i64 = 1800;

/// The decimal numeral of an integer, with `-` before a negative one.
pub open spec fn signed(n: int) -> Seq<char> {
    if n < 0 {
        "-"@ + decimal((-n) as nat)
    } else {
        decimal(n as nat)
    }
}

/// What `str::to_lowercase` makes of a text.
pub uninterp spec fn lowercased(text: Seq<char>) -> Seq<char>;

/// Wraps `str::to_lowercase`; the contract only names the result.
#[verifier::external_body]
fn lowercase(text: &str) -> (r: String)
    ensures
        r@ == lowercased(text@),
{
    text.to_lowercase()
}

/// Appends the numeral of `n` to `out`.
pub fn push_signed(out: &mut String, n: i64)
    ensures
        final(out)@ == old(out)@ + signed(n as int),
{
    if n < 0 {
        out.append("-");
        let magnitude: u64 = if n == i64::MIN {
            9223372036854775808u64
        } else {
            (-n) as u64
        };
        push_decimal(out, magnitude);
        assert(out@ =~= old(out)@ + signed(n as int));
    } else {
        push_decimal(out, n as u64);
    }
}

/// The names of the guests of a tour, as shown.
pub open spec fn guest_names(guests: Seq<PersonId>, people: Seq<Person>) -> Seq<Seq<char>> {
    guests.map_values(|g: PersonId| display_text(&g, people))
}

/// The guests of a tour as an English list, or `no one`.
pub open spec fn guest_list(guests: Seq<PersonId>, people: Seq<Person>) -> Seq<char> {
    match listed(guest_names(guests, people)) {
        Some(list) => list,
        None => "no one"@,
    }
}

/// What an event is called.
pub open spec fn title_text(kind: &EventKind, people: Seq<Person>) -> Seq<char> {
    match kind {
        EventKind::Minigame { minigame } => "Minigame Night: "@ + minigame@,
        EventKind::Renascence { settlement, hub_coords } => "Renascence: "@ + settlement@,
        EventKind::RenascenceDragonFight { settlement } => settlement@ + " dragon fight"@,
        EventKind::Tour { area, guests } => match area {
            Some(area) => "tour of "@ + area@ + " for "@ + guest_list(guests@, people),
            None => "server tour for "@ + guest_list(guests@, people),
        },
        EventKind::Usc { season } => "Ultra Softcore season "@ + decimal(*season as nat),
        EventKind::Other { title, location } => title@,
    }
}

/// Where an event takes place, for a calendar file.
pub open spec fn ics_location_text(event: &Event) -> Option<Seq<char>> {
    match event.kind {
        EventKind::Minigame { minigame } => Some("minigame.wurstmineberg.de"@),
        EventKind::Renascence { settlement, hub_coords } => Some(
            "Hub "@ + signed(hub_coords.0 as int) + ", "@ + signed(hub_coords.1 as int)
                + "\nThe Nether\nWurstmineberg"@,
        ),
        EventKind::RenascenceDragonFight { settlement } => Some(settlement@ + "\nWurstmineberg"@),
        EventKind::Tour { area, guests } => match area {
            Some(area) => Some(area@ + "\nWurstmineberg"@),
            None => Some(
                if event.start_time >= NEW_SPAWN_SINCE {
                    "spawn platform\nZucchini\nWurstmineberg"@
                } else {
                    "Platz des Ursprungs\nWurstmineberg"@
                },
            ),
        },
        EventKind::Usc { season } => Some("usc.wurstmineberg.de"@),
        EventKind::Other { title, location } => match location {
            Some(location) => Some(location@),
            None => None,
        },
    }
}

/// Where an event takes place, with links, for the chat platform.
pub open spec fn discord_location_text(event: &Event) -> Option<Seq<char>> {
    match event.kind {
        EventKind::Renascence { settlement, hub_coords } => Some(
            "[Hub](https://wurstmineberg.de/wiki/nether-hub-system) "@ + signed(
                hub_coords.0 as int,
            ) + ", "@ + signed(hub_coords.1 as int) + "\nThe Nether\nWurstmineberg"@,
        ),
        EventKind::RenascenceDragonFight { settlement } => Some(
            "["@ + settlement@ + "](https://wurstmineberg.de/renascence#"@ + lowercased(
                settlement@,
            ) + ")\nWurstmineberg"@,
        ),
        EventKind::Tour { area, guests } => match area {
            Some(area) => Some(area@ + "\nWurstmineberg"@),
            None => Some(
                if event.start_time >= NEW_SPAWN_SINCE {
                    "spawn platform\n[Zucchini](https://wurstmineberg.de/wiki/renascence#zucchini)\nWurstmineberg"@
                } else {
                    "[Platz des Ursprungs](https://wurstmineberg.de/wiki/old-spawn#platz-des-ursprungs)\nWurstmineberg"@
                },
            ),
        },
        _ => ics_location_text(event),
    }
}

fn hub_text(prefix: &str, x: i16, z: i16) -> (r: String)
    ensures
        r@ == prefix@ + signed(x as int) + ", "@ + signed(z as int) + "\nThe Nether\nWurstmineberg"@,
{
    let mut out = String::from_str(prefix);
    push_signed(&mut out, x as i64);
    out.append(", ");
    push_signed(&mut out, z as i64);
    out.append("\nThe Nether\nWurstmineberg");
    out
}

fn guests_text(guests: &Vec<PersonId>, people: &Vec<Person>) -> (r: String)
    ensures
        r@ == guest_list(guests@, people@),
{
    let mut names: Vec<String> = Vec::new();
    let mut i: usize = 0;
    assert(texts(names@) =~= guest_names(guests@.subrange(0, 0), people@));
    while i < guests.len()
        invariant
            i <= guests@.len(),
            texts(names@) == guest_names(guests@.subrange(0, i as int), people@),
        decreases guests@.len() - i,
    {
        let ghost before = names@;
        let name = guests[i].display(people);
        names.push(name);
        assert(texts(names@) =~= texts(before).push(name@));
        assert(guest_names(guests@.subrange(0, i + 1), people@) =~= guest_names(
            guests@.subrange(0, i as int),
            people@,
        ).push(display_text(&guests@[i as int], people@)));
        i += 1;
    }
    assert(guests@.subrange(0, i as int) =~= guests@);
    match join(&names) {
        Some(list) => list,
        None => String::from_str("no one"),
    }
}

impl Event {
    /// What the event is called.
    pub fn title(&self, people: &Vec<Person>) -> (r: String)
        ensures
            r@ == title_text(&self.kind, people@),
    {
        match &self.kind {
            EventKind::Minigame { minigame } => {
                let mut out = String::from_str("Minigame Night: ");
                out.append(minigame.as_str());
                out
            },
            EventKind::Renascence { settlement, hub_coords } => {
                let mut out = String::from_str("Renascence: ");
                out.append(settlement.as_str());
                out
            },
            EventKind::RenascenceDragonFight { settlement } => {
                let mut out = settlement.clone();
                out.append(" dragon fight");
                out
            },
            EventKind::Tour { area, guests } => {
                let list = guests_text(guests, people);
                match area {
                    Some(area) => {
                        let mut out = String::from_str("tour of ");
                        out.append(area.as_str());
                        out.append(" for ");
                        out.append(list.as_str());
                        out
                    },
                    None => {
                        let mut out = String::from_str("server tour for ");
                        out.append(list.as_str());
                        out
                    },
                }
            },
            EventKind::Usc { season } => {
                let mut out = String::from_str("Ultra Softcore season ");
                push_decimal(&mut out, *season as u64);
                out
            },
            EventKind::Other { title, location } => title.clone(),
        }
    }

    /// Where the event takes place, for a calendar file.
    pub fn ics_location(&self) -> (r: Option<String>)
        ensures
            match r {
                Some(text) => ics_location_text(self) == Some(text@),
                None => ics_location_text(self) is None,
            },
    {
        match &self.kind {
            EventKind::Minigame { minigame } => Some(String::from_str("minigame.wurstmineberg.de")),
            EventKind::Renascence { settlement, hub_coords } => Some(
                hub_text("Hub ", hub_coords.0, hub_coords.1),
            ),
            EventKind::RenascenceDragonFight { settlement } => {
                let mut out = settlement.clone();
                out.append("\nWurstmineberg");
                Some(out)
            },
            EventKind::Tour { area, guests } => match area {
                Some(area) => {
                    let mut out = area.clone();
                    out.append("\nWurstmineberg");
                    Some(out)
                },
                None => Some(
                    String::from_str(
                        if self.start_time >= NEW_SPAWN_SINCE {
                            "spawn platform\nZucchini\nWurstmineberg"
                        } else {
                            "Platz des Ursprungs\nWurstmineberg"
                        },
                    ),
                ),
            },
            EventKind::Usc { season } => Some(String::from_str("usc.wurstmineberg.de")),
            EventKind::Other { title, location } => match location {
                Some(location) => Some(location.clone()),
                None => None,
            },
        }
    }

    /// Where the event takes place, with links, for the chat platform.
    pub fn discord_location(&self) -> (r: Option<String>)
        ensures
            match r {
                Some(text) => discord_location_text(self) == Some(text@),
                None => discord_location_text(self) is None,
            },
    {
        match &self.kind {
            EventKind::Renascence { settlement, hub_coords } => Some(
                hub_text(
                    "[Hub](https://wurstmineberg.de/wiki/nether-hub-system) ",
                    hub_coords.0,
                    hub_coords.1,
                ),
            ),
            EventKind::RenascenceDragonFight { settlement } => {
                let mut out = String::from_str("[");
                out.append(settlement.as_str());
                out.append("](https://wurstmineberg.de/renascence#");
                out.append(lowercase(settlement.as_str()).as_str());
                out.append(")\nWurstmineberg");
                Some(out)
            },
            EventKind::Tour { area, guests } => match area {
                Some(area) => {
                    let mut out = area.clone();
                    out.append("\nWurstmineberg");
                    Some(out)
                },
                None => Some(
                    String::from_str(
                        if self.start_time >= NEW_SPAWN_SINCE {
                            "spawn platform\n[Zucchini](https://wurstmineberg.de/wiki/renascence#zucchini)\nWurstmineberg"
                        } else {
                            "[Platz des Ursprungs](https://wurstmineberg.de/wiki/old-spawn#platz-des-ursprungs)\nWurstmineberg"
                        },
                    ),
                ),
            },
            _ => self.ics_location(),
        }
    }
}

/// What is announced before an event starts.
pub struct Notice {
    pub content: String,
    pub title: String,
    pub description: Option<String>,
    pub starts: String,
    pub ends: String,
}

/// A point in time as the chat platform takes it, in the style `style`.
pub open spec fn stamp(time: i64, style: Seq<char>) -> Seq<char> {
    "<t:"@ + signed(time as int) + ":"@ + style + ">"@
}

fn stamp_text(time: i64, style: &str) -> (r: String)
    ensures
        r@ == stamp(time, style@),
{
    let mut out = String::from_str("<t:");
    push_signed(&mut out, time);
    out.append(":");
    out.append(style);
    out.append(">");
    out
}

/// Whether an event is still to be announced at the time `now`: it is if it
/// starts more than the notice's time later.
pub fn is_unnotified(event: &Event, now: i64) -> (r: bool)
    ensures
        r == (event.start_time - NOTICE_SECS > now),
{
    if event.start_time < i64::MIN + NOTICE_SECS {
        false
    } else {
        event.start_time - NOTICE_SECS > now
    }
}

/// The seconds to wait at the time `now` before an event is announced:
/// none if the notice's time has come.
pub fn notice_delay(event: &Event, now: i64) -> (r: Option<u64>)
    ensures
        r == (if event.start_time - NOTICE_SECS - now >= 0 {
            Some((event.start_time - NOTICE_SECS - now) as u64)
        } else {
            None
        }),
{
    let start = event.start_time as i128;
    let wait: i128 = start - (NOTICE_SECS as i128) - (now as i128);
    if wait >= 0 {
        Some(wait as u64)
    } else {
        None
    }
}

/// Writes the announcement of an event.
pub fn notifications(event: &Event, people: &Vec<Person>) -> (r: Notice)
    ensures
        r.content@ == "event starting "@ + stamp(event.start_time, "R"@),
        r.title@ == title_text(&event.kind, people@),
        match r.description {
            Some(text) => discord_location_text(event) == Some(text@),
            None => discord_location_text(event) is None,
        },
        r.starts@ == stamp(event.start_time, "F"@),
        r.ends@ == stamp(event.end_time, "F"@),
{
    let mut content = String::from_str("event starting ");
    content.append(stamp_text(event.start_time, "R").as_str());
    Notice {
        content,
        title: event.title(people),
        description: event.discord_location(),
        starts: stamp_text(event.start_time, "F"),
        ends: stamp_text(event.end_time, "F"),
    }
}

} // verus!
