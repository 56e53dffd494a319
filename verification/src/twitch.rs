//! The bridge from the streaming chat to the game: the table of nicknames
//! and what is told to whom for each message of the chat server.

use vstd::prelude::*;
use vstd::string::*;
use crate::format::{chat_view, hover_part, hovered, plain, plain_part, prefixed, ChatPartView};
use crate::minecraft::{Chat, ChatView};
use crate::relay::{aqua, aqua_part};
use crate::text::same_text;

verus! {

/// A streamer: the login of their channel and their name in the game.
pub struct NickEntry {
    pub twitch: String,
    pub minecraft: String,
}

/// The position of the first pair at or after `from` whose login is
/// `login`, or the number of pairs.
pub open spec fn login_index(pairs: Seq<(Seq<char>, Seq<char>)>, login: Seq<char>, from: int) -> int
    decreases pairs.len() - from,
{
    if from < 0 || from >= pairs.len() {
        pairs.len() as int
    } else if pairs[from].0 == login {
        from
    } else {
        login_index(pairs, login, from + 1)
    }
}

pub proof fn lemma_login_index(pairs: Seq<(Seq<char>, Seq<char>)>, login: Seq<char>, from: int)
    requires
        0 <= from <= pairs.len(),
    ensures
        from <= login_index(pairs, login, from) <= pairs.len(),
        login_index(pairs, login, from) < pairs.len() ==> pairs[login_index(pairs, login, from)].0
            == login,
        forall|i: int| from <= i < login_index(pairs, login, from) ==> (#[trigger] pairs[i]).0 != login,
    decreases pairs.len() - from,
{
    if from < pairs.len() && pairs[from].0 != login {
        lemma_login_index(pairs, login, from + 1);
    }
}

/// Whether no login occurs twice.
pub open spec fn distinct_logins(pairs: Seq<(Seq<char>, Seq<char>)>) -> bool {
    forall|i: int, j: int|
        0 <= i < j < pairs.len() ==> (#[trigger] pairs[i]).0 != (#[trigger] pairs[j]).0
}

/// The pairs after `login` was given the nickname `nick`: the pair of a
/// login already there is replaced where it stands, a new one comes last.
pub open spec fn with_pair(
    pairs: Seq<(Seq<char>, Seq<char>)>,
    login: Seq<char>,
    nick: Seq<char>,
) -> Seq<(Seq<char>, Seq<char>)> {
    let i = login_index(pairs, login, 0);
    if i < pairs.len() {
        pairs.update(i, (login, nick))
    } else {
        pairs.push((login, nick))
    }
}

/// The pairs of a table filled from `rows` in order.
pub open spec fn filled(rows: Seq<NickEntry>) -> Seq<(Seq<char>, Seq<char>)>
    decreases rows.len(),
{
    if rows.len() == 0 {
        Seq::empty()
    } else {
        with_pair(filled(rows.drop_last()), rows.last().twitch@, rows.last().minecraft@)
    }
}

pub proof fn lemma_with_pair_distinct(
    pairs: Seq<(Seq<char>, Seq<char>)>,
    login: Seq<char>,
    nick: Seq<char>,
)
    requires
        distinct_logins(pairs),
    ensures
        distinct_logins(with_pair(pairs, login, nick)),
{
    lemma_login_index(pairs, login, 0);
}

/// The table from a channel's login to the streamer's name in the game.
/// No login occurs twice in it.
pub struct NickMap {
    entries: Vec<NickEntry>,
}

impl NickMap {
    /// The pairs of login and nickname, in the order in which the logins came.
    pub closed spec fn pairs(&self) -> Seq<(Seq<char>, Seq<char>)> {
        self.entries@.map_values(|e: NickEntry| (e.twitch@, e.minecraft@))
    }

    /// The table's invariant: no login occurs twice.
    pub closed spec fn wf(&self) -> bool {
        distinct_logins(self.pairs())
    }

    /// The empty table.
    pub fn new() -> (r: NickMap)
        ensures
            r.wf(),
            r.pairs() == Seq::<(Seq<char>, Seq<char>)>::empty(),
    {
        let r = NickMap { entries: Vec::new() };
        assert(r.pairs() =~= Seq::<(Seq<char>, Seq<char>)>::empty());
        r
    }

    /// The number of logins.
    pub fn len(&self) -> (n: usize)
        ensures
            n == self.pairs().len(),
    {
        self.entries.len()
    }

    /// The position of `login`, or the number of logins.
    fn find(&self, login: &str) -> (i: usize)
        ensures
            i == login_index(self.pairs(), login@, 0),
            i <= self.pairs().len(),
    {
        let mut i: usize = 0;
        while i < self.entries.len()
            invariant
                i <= self.entries@.len(),
                login_index(self.pairs(), login@, 0) == login_index(self.pairs(), login@, i as int),
            decreases self.entries@.len() - i,
        {
            if same_text(self.entries[i].twitch.as_str(), login) {
                return i;
            }
            i += 1;
        }
        i
    }

    /// Gives `login` the nickname `nick`.
    pub fn insert(&mut self, login: String, nick: String)
        requires
            old(self).wf(),
        ensures
            final(self).wf(),
            final(self).pairs() == with_pair(old(self).pairs(), login@, nick@),
    {
        let i = self.find(login.as_str());
        proof {
            lemma_with_pair_distinct(self.pairs(), login@, nick@);
        }
        if i < self.entries.len() {
            self.entries[i] = NickEntry { twitch: login, minecraft: nick };
        } else {
            self.entries.push(NickEntry { twitch: login, minecraft: nick });
        }
        assert(self.pairs() =~= with_pair(old(self).pairs(), login@, nick@));
    }

    /// The nickname of the streamer whose channel has the login `login`.
    pub fn get(&self, login: &str) -> (r: Option<&str>)
        ensures
            match r {
                Some(nick) => login_index(self.pairs(), login@, 0) < self.pairs().len() && nick@
                    == self.pairs()[login_index(self.pairs(), login@, 0)].1,
                None => login_index(self.pairs(), login@, 0) == self.pairs().len(),
            },
    {
        let i = self.find(login);
        if i < self.entries.len() {
            Some(self.entries[i].minecraft.as_str())
        } else {
            None
        }
    }

    /// The login at position `i`: a channel to join.
    pub fn login_at(&self, i: usize) -> (r: &str)
        requires
            i < self.pairs().len(),
        ensures
            r@ == self.pairs()[i as int].0,
    {
        self.entries[i].twitch.as_str()
    }

    /// The nickname at position `i`.
    pub fn nick_at(&self, i: usize) -> (r: &str)
        requires
            i < self.pairs().len(),
        ensures
            r@ == self.pairs()[i as int].1,
    {
        self.entries[i].minecraft.as_str()
    }

    /// Builds the table anew from the membership's rows; of two rows with
    /// one login the later decides the nickname.
    pub fn build(rows: &Vec<NickEntry>) -> (r: NickMap)
        ensures
            r.wf(),
            r.pairs() == filled(rows@),
    {
        let mut map = NickMap::new();
        let mut i: usize = 0;
        assert(rows@.subrange(0, 0) =~= Seq::<NickEntry>::empty());
        while i < rows.len()
            invariant
                i <= rows@.len(),
                map.wf(),
                map.pairs() == filled(rows@.subrange(0, i as int)),
            decreases rows@.len() - i,
        {
            assert(rows@.subrange(0, i + 1).drop_last() =~= rows@.subrange(0, i as int));
            assert(rows@.subrange(0, i + 1).last() == rows@[i as int]);
            map.insert(rows[i].twitch.clone(), rows[i].minecraft.clone());
            i += 1;
        }
        assert(rows@.subrange(0, i as int) =~= rows@);
        map
    }
}

/// A message of the streaming chat's server, as far as the bridge reads it.
pub enum ServerMessage {
    Join { channel_login: String },
    Part { channel_login: String },
    Privmsg {
        channel_login: String,
        sender_name: String,
        sender_login: String,
        message_text: String,
        is_action: bool,
    },
    Reconnect,
    Other,
}

/// A chat message for one player of the game.
pub struct Whisper {
    pub recipient: String,
    pub chat: Chat,
}

pub struct WhisperView {
    pub recipient: Seq<char>,
    pub chat: ChatView,
}

impl View for Whisper {
    type V = WhisperView;

    open spec fn view(&self) -> WhisperView {
        WhisperView { recipient: self.recipient@, chat: self.chat@ }
    }
}

pub open spec fn whispers_view(whispers: Seq<Whisper>) -> Seq<WhisperView> {
    whispers.map_values(|w: Whisper| w@)
}

/// A one-piece notice for the player `nick`.
pub open spec fn notice(nick: Seq<char>, text: Seq<char>) -> WhisperView {
    WhisperView { recipient: nick, chat: ChatView { root: aqua(text), extra: Seq::empty() } }
}

/// The name of a chat message's sender as the game shows it.
pub open spec fn sender_label(name: Seq<char>, is_action: bool) -> Seq<char> {
    if is_action {
        "* "@ + name
    } else {
        "<"@ + name + ">"@
    }
}

/// A chat message of the stream, for the player `nick`.
pub open spec fn stream_chat(
    nick: Seq<char>,
    name: Seq<char>,
    login: Seq<char>,
    text: Seq<char>,
    is_action: bool,
) -> WhisperView {
    WhisperView {
        recipient: nick,
        chat: ChatView {
            root: aqua("[Twitch] "@),
            extra: seq![hovered(sender_label(name, is_action), login), plain(" "@), plain(text)],
        },
    }
}

/// A notice with the text `text` for each streamer of `pairs`.
pub open spec fn notices(pairs: Seq<(Seq<char>, Seq<char>)>, text: Seq<char>) -> Seq<WhisperView> {
    pairs.map_values(|p: (Seq<char>, Seq<char>)| notice(p.1, text))
}

/// To whom the channel with the login `login` belongs: one name, or none.
pub open spec fn streamer(pairs: Seq<(Seq<char>, Seq<char>)>, login: Seq<char>) -> Option<
    Seq<char>,
> {
    let i = login_index(pairs, login, 0);
    if i < pairs.len() {
        Some(pairs[i].1)
    } else {
        None
    }
}

/// What the bridge tells for a message of the chat server. A join, a part
/// or a chat message concerns the streamer whose channel it names, and
/// nobody if the channel is unknown; a reconnect concerns every streamer.
pub open spec fn bridge_output(pairs: Seq<(Seq<char>, Seq<char>)>, msg: &ServerMessage) -> Seq<
    WhisperView,
> {
    match msg {
        ServerMessage::Join { channel_login } => match streamer(pairs, channel_login@) {
            Some(nick) => seq![notice(nick, "[Twitch] reconnected"@)],
            None => Seq::empty(),
        },
        ServerMessage::Part { channel_login } => match streamer(pairs, channel_login@) {
            Some(nick) => seq![notice(nick, "[Twitch] disconnected"@)],
            None => Seq::empty(),
        },
        ServerMessage::Privmsg {
            channel_login,
            sender_name,
            sender_login,
            message_text,
            is_action,
        } => match streamer(pairs, channel_login@) {
            Some(nick) => seq![
                stream_chat(nick, sender_name@, sender_login@, message_text@, *is_action),
            ],
            None => Seq::empty(),
        },
        ServerMessage::Reconnect => notices(pairs, "[Twitch] reconnected"@),
        ServerMessage::Other => Seq::empty(),
    }
}

fn notice_for(nick: &str, text: &str) -> (r: Whisper)
    ensures
        r@ == notice(nick@, text@),
{
    Whisper { recipient: nick.to_owned(), chat: Chat::new(aqua_part(text.to_owned())) }
}

/// Decides what is told to whom for a message of the chat server.
pub fn bridge_messages(nick_map: &NickMap, msg: &ServerMessage) -> (r: Vec<Whisper>)
    ensures
        whispers_view(r@) == bridge_output(nick_map.pairs(), msg),
{
    let mut out: Vec<Whisper> = Vec::new();
    match msg {
        ServerMessage::Join { channel_login } => {
            if let Some(nick) = nick_map.get(channel_login.as_str()) {
                out.push(notice_for(nick, "[Twitch] reconnected"));
            }
        },
        ServerMessage::Part { channel_login } => {
            if let Some(nick) = nick_map.get(channel_login.as_str()) {
                out.push(notice_for(nick, "[Twitch] disconnected"));
            }
        },
        ServerMessage::Privmsg {
            channel_login,
            sender_name,
            sender_login,
            message_text,
            is_action,
        } => {
            if let Some(nick) = nick_map.get(channel_login.as_str()) {
                let label = if *is_action {
                    prefixed("* ", sender_name.as_str())
                } else {
                    let mut label = prefixed("<", sender_name.as_str());
                    label.append(">");
                    label
                };
                let mut chat = Chat::new(aqua_part(String::from_str("[Twitch] ")));
                chat.add_extra(hover_part(label, sender_login.clone()));
                chat.add_extra(plain_part(String::from_str(" ")));
                chat.add_extra(plain_part(message_text.clone()));
                assert(chat@.extra =~= seq![
                    hovered(sender_label(sender_name@, *is_action), sender_login@),
                    plain(" "@),
                    plain(message_text@),
                ]);
                out.push(Whisper { recipient: nick.to_owned(), chat });
            }
        },
        ServerMessage::Reconnect => {
            let n = nick_map.len();
            let mut i: usize = 0;
            while i < n
                invariant
                    i <= n,
                    n == nick_map.pairs().len(),
                    whispers_view(out@) == notices(
                        nick_map.pairs().subrange(0, i as int),
                        "[Twitch] reconnected"@,
                    ),
                decreases n - i,
            {
                let ghost before = out@;
                let whisper = notice_for(nick_map.nick_at(i), "[Twitch] reconnected");
                out.push(whisper);
                assert(whispers_view(out@) =~= whispers_view(before).push(whisper@));
                assert(notices(nick_map.pairs().subrange(0, i + 1), "[Twitch] reconnected"@)
                    =~= notices(
                    nick_map.pairs().subrange(0, i as int),
                    "[Twitch] reconnected"@,
                ).push(notice(nick_map.pairs()[i as int].1, "[Twitch] reconnected"@)));
                assert(whispers_view(out@) =~= notices(
                    nick_map.pairs().subrange(0, i + 1),
                    "[Twitch] reconnected"@,
                ));
                i += 1;
            }
            assert(nick_map.pairs().subrange(0, n as int) =~= nick_map.pairs());
        },
        ServerMessage::Other => {},
    }
    assert(whispers_view(out@) =~= bridge_output(nick_map.pairs(), msg));
    out
}

} // verus!
