//! The people of the community, as the membership's records show them.

use vstd::prelude::*;
use vstd::string::*;
use crate::format::{decimal, raw_reference};
use crate::text::same_text;
use crate::twitch::NickEntry;

verus! {

/// How a person is identified.
pub enum PersonId {
    LegacyWurstmineberg(String),
    Discord(u64),
}

/// What the chat platform knows of a person.
pub struct DiscordData {
    pub snowflake: u64,
    pub username: String,
    pub discriminator: u16,
    pub nick: Option<String>,
}

/// A member, former member or invitee of the community.
pub struct Person {
    pub wmbid: Option<String>,
    /// The name that the person chose for display.
    pub name: Option<String>,
    pub discord: Option<DiscordData>,
    pub minecraft_nick: Option<String>,
    pub twitch_nick: Option<String>,
}

/// Whether a person goes by `name`: with a discriminator, they have that
/// username and that discriminator; without, that username or that nickname.
pub open spec fn goes_by(p: Person, name: Seq<char>, discriminator: Option<u16>) -> bool {
    match p.discord {
        None => false,
        Some(d) => match discriminator {
            Some(n) => d.username@ == name && d.discriminator == n,
            None => d.username@ == name || (d.nick is Some && d.nick->0@ == name),
        },
    }
}

/// The number of people who go by `name`.
pub open spec fn count_named(
    people: Seq<Person>,
    name: Seq<char>,
    discriminator: Option<u16>,
) -> nat
    decreases people.len(),
{
    if people.len() == 0 {
        0
    } else {
        count_named(people.drop_last(), name, discriminator) + if goes_by(
            people.last(),
            name,
            discriminator,
        ) {
            1nat
        } else {
            0nat
        }
    }
}

/// The position of the first person who goes by `name`, or the number of people.
pub open spec fn first_named(
    people: Seq<Person>,
    name: Seq<char>,
    discriminator: Option<u16>,
    from: int,
) -> int
    decreases people.len() - from,
{
    if from < 0 || from >= people.len() {
        people.len() as int
    } else if goes_by(people[from], name, discriminator) {
        from
    } else {
        first_named(people, name, discriminator, from + 1)
    }
}

/// The one person who goes by `name`: nobody if none does, and nobody if
/// several do.
pub open spec fn only_named(people: Seq<Person>, name: Seq<char>, discriminator: Option<u16>)
    -> Option<u64> {
    let i = first_named(people, name, discriminator, 0);
    if count_named(people, name, discriminator) == 1 && 0 <= i < people.len()
        && people[i].discord is Some {
        Some(people[i].discord->0.snowflake)
    } else {
        None
    }
}

fn named(p: &Person, name: &str, discriminator: Option<u16>) -> (r: bool)
    ensures
        r == goes_by(*p, name@, discriminator),
{
    match &p.discord {
        None => false,
        Some(d) => match discriminator {
            Some(n) => same_text(d.username.as_str(), name) && d.discriminator == n,
            None => {
                if same_text(d.username.as_str(), name) {
                    true
                } else {
                    match &d.nick {
                        Some(nick) => same_text(nick.as_str(), name),
                        None => false,
                    }
                }
            },
        },
    }
}

impl PersonId {
    /// Looks a person up by name and, optionally, discriminator, which lies
    /// between 1 and 9999.
    pub fn from_discord(people: &Vec<Person>, name: &str, discriminator: Option<u16>) -> (r:
        Option<u64>)
        requires
            discriminator is Some ==> 1 <= discriminator->0 <= 9999,
        ensures
            r == only_named(people@, name@, discriminator),
    {
        let mut found: Option<u64> = None;
        let mut count: usize = 0;
        let mut i: usize = 0;
        assert(people@.subrange(0, 0) =~= Seq::<Person>::empty());
        while i < people.len()
            invariant
                i <= people@.len(),
                count == count_named(people@.subrange(0, i as int), name@, discriminator),
                count <= i,
                count == 0 ==> first_named(people@, name@, discriminator, 0) == first_named(
                    people@,
                    name@,
                    discriminator,
                    i as int,
                ),
                count > 0 ==> {
                    let k = first_named(people@, name@, discriminator, 0);
                    0 <= k < i && people@[k].discord is Some && found == Some(
                        people@[k].discord->0.snowflake,
                    )
                },
            decreases people@.len() - i,
        {
            assert(people@.subrange(0, i + 1).drop_last() =~= people@.subrange(0, i as int));
            assert(people@.subrange(0, i + 1).last() == people@[i as int]);
            if named(&people[i], name, discriminator) {
                if count == 0 {
                    match &people[i].discord {
                        Some(d) => {
                            found = Some(d.snowflake);
                        },
                        None => {},
                    }
                }
                count += 1;
            }
            i += 1;
        }
        assert(people@.subrange(0, i as int) =~= people@);
        if count == 1 {
            found
        } else {
            None
        }
    }
}

/// The position of the first person with the given snowflake, or the
/// number of people.
pub open spec fn snowflake_index(people: Seq<Person>, id: u64, from: int) -> int
    decreases people.len() - from,
{
    if from < 0 || from >= people.len() {
        people.len() as int
    } else if people[from].discord is Some && people[from].discord->0.snowflake == id {
        from
    } else {
        snowflake_index(people, id, from + 1)
    }
}

/// The position of the first person with the given legacy identifier, or
/// the number of people.
pub open spec fn wmbid_index(people: Seq<Person>, wmbid: Seq<char>, from: int) -> int
    decreases people.len() - from,
{
    if from < 0 || from >= people.len() {
        people.len() as int
    } else if people[from].wmbid is Some && people[from].wmbid->0@ == wmbid {
        from
    } else {
        wmbid_index(people, wmbid, from + 1)
    }
}

/// The name shown for a person. One known to the chat platform goes by
/// nickname or else username, and by a raw mention if the records lack
/// them; one with a legacy identifier by the chosen name or else the
/// identifier.
pub open spec fn display_text(id: &PersonId, people: Seq<Person>) -> Seq<char> {
    match id {
        PersonId::Discord(user) => {
            let i = snowflake_index(people, *user, 0);
            if i < people.len() {
                match people[i].discord->0.nick {
                    Some(nick) => nick@,
                    None => people[i].discord->0.username@,
                }
            } else {
                "<@"@ + decimal(*user as nat) + ">"@
            }
        },
        PersonId::LegacyWurstmineberg(wmbid) => {
            let i = wmbid_index(people, wmbid@, 0);
            if i < people.len() && people[i].name is Some {
                people[i].name->0@
            } else {
                wmbid@
            }
        },
    }
}

impl PersonId {
    /// The name shown for the person.
    pub fn display(&self, people: &Vec<Person>) -> (r: String)
        ensures
            r@ == display_text(self, people@),
    {
        match self {
            PersonId::Discord(user) => {
                let mut i: usize = 0;
                while i < people.len()
                    invariant
                        i <= people@.len(),
                        *self == PersonId::Discord(*user),
                        snowflake_index(people@, *user, 0) == snowflake_index(
                            people@,
                            *user,
                            i as int,
                        ),
                    decreases people@.len() - i,
                {
                    match &people[i].discord {
                        Some(d) => {
                            if d.snowflake == *user {
                                return match &d.nick {
                                    Some(nick) => nick.clone(),
                                    None => d.username.clone(),
                                };
                            }
                        },
                        None => {},
                    }
                    i += 1;
                }
                raw_reference("<@", *user, ">")
            },
            PersonId::LegacyWurstmineberg(wmbid) => {
                let mut i: usize = 0;
                while i < people.len()
                    invariant
                        i <= people@.len(),
                        *self == PersonId::LegacyWurstmineberg(*wmbid),
                        wmbid_index(people@, wmbid@, 0) == wmbid_index(people@, wmbid@, i as int),
                    decreases people@.len() - i,
                {
                    let hit = match &people[i].wmbid {
                        Some(w) => same_text(w.as_str(), wmbid.as_str()),
                        None => false,
                    };
                    if hit {
                        return match &people[i].name {
                            Some(name) => name.clone(),
                            None => wmbid.clone(),
                        };
                    }
                    i += 1;
                }
                wmbid.clone()
            },
        }
    }
}

/// The text that mentions a person who has a snowflake or a legacy identifier.
pub open spec fn mention_text(p: &Person) -> Seq<char> {
    match p.discord {
        Some(d) => "<@"@ + decimal(d.snowflake as nat) + ">"@,
        None => match p.name {
            Some(name) => name@,
            None => match p.wmbid {
                Some(wmbid) => wmbid@,
                None => Seq::empty(),
            },
        },
    }
}

impl Person {
    /// The text that mentions the person, who has a snowflake or a legacy
    /// identifier.
    pub fn mention(&self) -> (r: String)
        requires
            self.discord is Some || self.wmbid is Some,
        ensures
            r@ == mention_text(self),
    {
        match &self.discord {
            Some(d) => raw_reference("<@", d.snowflake, ">"),
            None => match &self.name {
                Some(name) => name.clone(),
                None => match &self.wmbid {
                    Some(wmbid) => wmbid.clone(),
                    None => String::new(),
                },
            },
        }
    }

    /// The person's name in the game.
    pub fn minecraft_nick(&self) -> (r: Option<&str>)
        ensures
            match r {
                Some(nick) => self.minecraft_nick is Some && nick@ == self.minecraft_nick->0@,
                None => self.minecraft_nick is None,
            },
    {
        match &self.minecraft_nick {
            Some(nick) => Some(nick.as_str()),
            None => None,
        }
    }

    /// The login of the person's streaming channel.
    pub fn twitch_nick(&self) -> (r: Option<&str>)
        ensures
            match r {
                Some(nick) => self.twitch_nick is Some && nick@ == self.twitch_nick->0@,
                None => self.twitch_nick is None,
            },
    {
        match &self.twitch_nick {
            Some(nick) => Some(nick.as_str()),
            None => None,
        }
    }
}

/// Whether a person has both a streaming channel and a name in the game.
pub open spec fn streams(p: Person) -> bool {
    p.twitch_nick is Some && p.minecraft_nick is Some
}

/// The rows of the nickname table that the people give: one for each
/// person with a streaming channel and a name in the game, in order.
pub open spec fn nick_rows_of(people: Seq<Person>) -> Seq<(Seq<char>, Seq<char>)>
    decreases people.len(),
{
    if people.len() == 0 {
        Seq::empty()
    } else if streams(people.last()) {
        nick_rows_of(people.drop_last()).push(
            (people.last().twitch_nick->0@, people.last().minecraft_nick->0@),
        )
    } else {
        nick_rows_of(people.drop_last())
    }
}

pub open spec fn rows_view(rows: Seq<NickEntry>) -> Seq<(Seq<char>, Seq<char>)> {
    rows.map_values(|e: NickEntry| (e.twitch@, e.minecraft@))
}

/// Collects the rows of the nickname table from the people.
pub fn nick_rows(people: &Vec<Person>) -> (rows: Vec<NickEntry>)
    ensures
        rows_view(rows@) == nick_rows_of(people@),
{
    let mut rows: Vec<NickEntry> = Vec::new();
    let mut i: usize = 0;
    assert(people@.subrange(0, 0) =~= Seq::<Person>::empty());
    assert(rows_view(rows@) =~= nick_rows_of(people@.subrange(0, 0)));
    while i < people.len()
        invariant
            i <= people@.len(),
            rows_view(rows@) == nick_rows_of(people@.subrange(0, i as int)),
        decreases people@.len() - i,
    {
        assert(people@.subrange(0, i + 1).drop_last() =~= people@.subrange(0, i as int));
        assert(people@.subrange(0, i + 1).last() == people@[i as int]);
        let ghost before = rows@;
        match (&people[i].twitch_nick, &people[i].minecraft_nick) {
            (Some(twitch), Some(minecraft)) => {
                let row = NickEntry { twitch: twitch.clone(), minecraft: minecraft.clone() };
                rows.push(row);
                assert(rows_view(rows@) =~= rows_view(before).push((twitch@, minecraft@)));
            },
            _ => {},
        }
        i += 1;
    }
    assert(people@.subrange(0, i as int) =~= people@);
    rows
}

} // verus!
