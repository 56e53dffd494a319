//! Who is in which voice channel, and the JSON text that tells it.

use vstd::prelude::*;
use vstd::string::*;
use crate::format::{decimal, push_decimal};
use crate::minecraft::{json_quote, json_quoted};

verus! {

/// A user in a voice channel.
pub struct VoiceUser {
    pub discriminator: Option<u16>,
    pub snowflake: u64,
    pub username: String,
}

/// A voice channel and the users in it.
pub struct VoiceChannel {
    pub name: String,
    pub snowflake: u64,
    pub members: Vec<VoiceUser>,
}

/// The voice channels that are in use.
pub struct VoiceStates {
    pub channels: Vec<VoiceChannel>,
}

/// The JSON object for a user.
pub open spec fn user_json(u: VoiceUser) -> Seq<char> {
    "{\"discriminator\":"@ + (match u.discriminator {
        Some(d) => decimal(d as nat),
        None => "null"@,
    }) + ",\"snowflake\":"@ + decimal(u.snowflake as nat) + ",\"username\":"@ + json_quoted(
        u.username@,
    ) + "}"@
}

/// The JSON objects of `users`, separated by commas.
pub open spec fn users_json(users: Seq<VoiceUser>) -> Seq<char>
    decreases users.len(),
{
    if users.len() == 0 {
        Seq::empty()
    } else if users.len() == 1 {
        user_json(users[0])
    } else {
        users_json(users.drop_last()) + ","@ + user_json(users.last())
    }
}

/// The JSON object for a channel.
pub open spec fn channel_json(c: VoiceChannel) -> Seq<char> {
    "{\"members\":["@ + users_json(c.members@) + "],\"name\":"@ + json_quoted(c.name@)
        + ",\"snowflake\":"@ + decimal(c.snowflake as nat) + "}"@
}

/// The JSON objects of `channels`, separated by commas.
pub open spec fn channels_json(channels: Seq<VoiceChannel>) -> Seq<char>
    decreases channels.len(),
{
    if channels.len() == 0 {
        Seq::empty()
    } else if channels.len() == 1 {
        channel_json(channels[0])
    } else {
        channels_json(channels.drop_last()) + ","@ + channel_json(channels.last())
    }
}

/// The JSON text that tells who is in which voice channel.
pub open spec fn voice_json(states: &VoiceStates) -> Seq<char> {
    "{\"channels\":["@ + channels_json(states.channels@) + "]}"@
}

fn push_user(out: &mut String, u: &VoiceUser)
    ensures
        final(out)@ == old(out)@ + user_json(*u),
{
    out.append("{\"discriminator\":");
    match u.discriminator {
        Some(d) => push_decimal(out, d as u64),
        None => out.append("null"),
    }
    out.append(",\"snowflake\":");
    push_decimal(out, u.snowflake);
    out.append(",\"username\":");
    out.append(json_quote(u.username.as_str()).as_str());
    out.append("}");
    assert(out@ =~= old(out)@ + user_json(*u));
}

fn push_users(out: &mut String, users: &Vec<VoiceUser>)
    ensures
        final(out)@ == old(out)@ + users_json(users@),
{
    let mut i: usize = 0;
    assert(users@.subrange(0, 0) =~= Seq::<VoiceUser>::empty());
    assert(out@ =~= old(out)@ + users_json(users@.subrange(0, 0)));
    while i < users.len()
        invariant
            i <= users@.len(),
            out@ == old(out)@ + users_json(users@.subrange(0, i as int)),
        decreases users@.len() - i,
    {
        if i > 0 {
            out.append(",");
        }
        push_user(out, &users[i]);
        assert(users@.subrange(0, i + 1).drop_last() =~= users@.subrange(0, i as int));
        assert(users@.subrange(0, i + 1).last() == users@[i as int]);
        assert(users@.subrange(0, i + 1)[0] == users@[0]);
        assert(out@ =~= old(out)@ + users_json(users@.subrange(0, i + 1)));
        i += 1;
    }
    assert(users@.subrange(0, i as int) =~= users@);
}

fn push_channel(out: &mut String, c: &VoiceChannel)
    ensures
        final(out)@ == old(out)@ + channel_json(*c),
{
    out.append("{\"members\":[");
    push_users(out, &c.members);
    out.append("],\"name\":");
    out.append(json_quote(c.name.as_str()).as_str());
    out.append(",\"snowflake\":");
    push_decimal(out, c.snowflake);
    out.append("}");
    assert(out@ =~= old(out)@ + channel_json(*c));
}

/// Writes the JSON text that tells who is in which voice channel.
pub fn dump_info(voice_states: &VoiceStates) -> (r: String)
    ensures
        r@ == voice_json(voice_states),
{
    let channels = &voice_states.channels;
    let mut out = String::from_str("{\"channels\":[");
    let ghost head = out@;
    let mut i: usize = 0;
    assert(channels@.subrange(0, 0) =~= Seq::<VoiceChannel>::empty());
    assert(out@ =~= head + channels_json(channels@.subrange(0, 0)));
    while i < channels.len()
        invariant
            i <= channels@.len(),
            out@ == head + channels_json(channels@.subrange(0, i as int)),
        decreases channels@.len() - i,
    {
        if i > 0 {
            out.append(",");
        }
        push_channel(&mut out, &channels[i]);
        assert(channels@.subrange(0, i + 1).drop_last() =~= channels@.subrange(0, i as int));
        assert(channels@.subrange(0, i + 1).last() == channels@[i as int]);
        assert(channels@.subrange(0, i + 1)[0] == channels@[0]);
        assert(out@ =~= head + channels_json(channels@.subrange(0, i + 1)));
        i += 1;
    }
    assert(channels@.subrange(0, i as int) =~= channels@);
    out.append("]}");
    out
}

} // verus!
