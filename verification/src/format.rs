//! Rendering of a chat message's fragment tree as game chat.
//!
//! The names that a fragment refers to are looked up in a directory that the
//! caller has filled beforehand; the rendering itself reads and never writes.

use vstd::prelude::*;
use vstd::string::*;
use crate::text::push_char;

verus! {

/// A colour of game chat.
#[derive(Clone, Copy, Debug, PartialEq, Eq)]
pub enum Color {
    Aqua,
    Blue,
}

/// One styled piece of game chat.
pub struct ChatPart {
    pub text: String,
    /// The text shown while the pointer rests on the piece.
    pub hover: Option<String>,
    pub underlined: bool,
    pub color: Option<Color>,
    /// The address that a click on the piece opens.
    pub link: Option<String>,
}

pub struct ChatPartView {
    pub text: Seq<char>,
    pub hover: Option<Seq<char>>,
    pub underlined: bool,
    pub color: Option<Color>,
    pub link: Option<Seq<char>>,
}

pub open spec fn text_view(s: Option<String>) -> Option<Seq<char>> {
    match s {
        Some(s) => Some(s@),
        None => None,
    }
}

impl View for ChatPart {
    type V = ChatPartView;

    open spec fn view(&self) -> ChatPartView {
        ChatPartView {
            text: self.text@,
            hover: text_view(self.hover),
            underlined: self.underlined,
            color: self.color,
            link: text_view(self.link),
        }
    }
}

/// The views of a list of pieces, in order.
pub open spec fn chat_view(parts: Seq<ChatPart>) -> Seq<ChatPartView> {
    parts.map_values(|p: ChatPart| p@)
}

/// A piece of unstyled text.
pub open spec fn plain(text: Seq<char>) -> ChatPartView {
    ChatPartView { text, hover: None, underlined: false, color: None, link: None }
}

/// A piece of text with hover text.
pub open spec fn hovered(text: Seq<char>, hover: Seq<char>) -> ChatPartView {
    ChatPartView { text, hover: Some(hover), underlined: false, color: None, link: None }
}

/// A fragment of a rich chat message.
pub enum MessagePart {
    Empty,
    Nested(Vec<MessagePart>),
    PlainText(String),
    UserMention { user: u64 },
    ChannelMention(u64),
    RoleMention(u64),
    UnicodeEmoji(String),
    CustomEmoji { name: String, id: u64 },
    /// A point in time, in seconds since 1970, with its text in the style
    /// that the message asks for.
    Timestamp { seconds: i64, display: String },
}

/// What is known of a user as a member of the community.
pub struct Member {
    pub tag: String,
    pub nick: Option<String>,
}

/// What is known of a user on the network.
pub struct User {
    pub tag: String,
    pub name: String,
}

pub struct UserEntry {
    pub id: u64,
    pub member: Option<Member>,
    pub user: Option<User>,
}

/// The kinds of channels that a message can refer to.
pub enum ChannelLabel {
    /// A channel of the community, with its name.
    Guild(String),
    /// A private conversation, with its label.
    Private(String),
    /// Any other kind.
    Other,
}

pub struct ChannelEntry {
    pub id: u64,
    pub label: ChannelLabel,
}

pub struct RoleEntry {
    pub id: u64,
    pub name: String,
}

/// The names that were looked up for one message.
pub struct Directory {
    pub users: Vec<UserEntry>,
    pub channels: Vec<ChannelEntry>,
    pub roles: Vec<RoleEntry>,
}

/// The position of the first user entry for `id` at or after `from`, or the
/// number of entries.
pub open spec fn user_index(users: Seq<UserEntry>, id: u64, from: int) -> int
    decreases users.len() - from,
{
    if from < 0 || from >= users.len() {
        users.len() as int
    } else if users[from].id == id {
        from
    } else {
        user_index(users, id, from + 1)
    }
}

pub open spec fn channel_index(channels: Seq<ChannelEntry>, id: u64, from: int) -> int
    decreases channels.len() - from,
{
    if from < 0 || from >= channels.len() {
        channels.len() as int
    } else if channels[from].id == id {
        from
    } else {
        channel_index(channels, id, from + 1)
    }
}

pub open spec fn role_index(roles: Seq<RoleEntry>, id: u64, from: int) -> int
    decreases roles.len() - from,
{
    if from < 0 || from >= roles.len() {
        roles.len() as int
    } else if roles[from].id == id {
        from
    } else {
        role_index(roles, id, from + 1)
    }
}

/// The decimal digit for `d`, which is below ten.
pub open spec fn digit_char(d: nat) -> char {
    if d == 0 {
        '0'
    } else if d == 1 {
        '1'
    } else if d == 2 {
        '2'
    } else if d == 3 {
        '3'
    } else if d == 4 {
        '4'
    } else if d == 5 {
        '5'
    } else if d == 6 {
        '6'
    } else if d == 7 {
        '7'
    } else if d == 8 {
        '8'
    } else {
        '9'
    }
}

/// The decimal numeral of `n`.
pub open spec fn decimal(n: nat) -> Seq<char>
    decreases n,
{
    if n < 10 {
        seq![digit_char(n)]
    } else {
        decimal(n / 10).push(digit_char(n % 10))
    }
}

/// The name shown for a user and the tag attached to it: a member's nickname
/// comes before the user's name, the member's tag before the user's. `None`
/// where the entry holds too little to name the user.
pub open spec fn display_of(entry: UserEntry) -> Option<(Seq<char>, Seq<char>)> {
    match (entry.member, entry.user) {
        (Some(m), Some(u)) => Some(
            (
                match m.nick {
                    Some(nick) => nick@,
                    None => u.name@,
                },
                m.tag@,
            ),
        ),
        (Some(m), None) => match m.nick {
            Some(nick) => Some((nick@, m.tag@)),
            None => None,
        },
        (None, Some(u)) => Some((u.name@, u.tag@)),
        (None, None) => None,
    }
}

/// Whether the user behind a member's entry has to be looked up on the
/// network: it has unless the member is known and has a nickname.
pub open spec fn needs_user(member: Option<Member>) -> bool {
    match member {
        Some(m) => m.nick is None,
        None => true,
    }
}

/// The piece for a mention of the user `id`.
pub open spec fn render_user(users: Seq<UserEntry>, id: u64) -> ChatPartView {
    let i = user_index(users, id, 0);
    if i < users.len() && display_of(users[i]) is Some {
        hovered("@"@ + (display_of(users[i])->0).0, (display_of(users[i])->0).1)
    } else {
        plain("<@"@ + decimal(id as nat) + ">"@)
    }
}

/// The piece for a reference to the channel `id`.
pub open spec fn render_channel(channels: Seq<ChannelEntry>, id: u64) -> ChatPartView {
    let i = channel_index(channels, id, 0);
    if i < channels.len() {
        match channels[i].label {
            ChannelLabel::Guild(name) => plain("#"@ + name@),
            ChannelLabel::Private(label) => plain(label@),
            ChannelLabel::Other => plain("#?"@),
        }
    } else {
        plain("<#"@ + decimal(id as nat) + ">"@)
    }
}

/// The piece for a mention of the role `id`.
pub open spec fn render_role(roles: Seq<RoleEntry>, id: u64) -> ChatPartView {
    let i = role_index(roles, id, 0);
    if i < roles.len() {
        plain("@"@ + roles[i].name@)
    } else {
        plain("<@&"@ + decimal(id as nat) + ">"@)
    }
}

/// The text `YYYY-MM-DD HH:MM:SS UTC` that `chrono` gives for a point in
/// time; `None` where the point lies outside its calendar.
pub uninterp spec fn utc_label(seconds: i64) -> Option<Seq<char>>;

/// The piece for a point in time: its text in the message's style,
/// underlined, with the time in UTC attached.
pub open spec fn render_timestamp(seconds: i64, display: Seq<char>) -> ChatPartView {
    ChatPartView {
        text: display,
        hover: Some(
            match utc_label(seconds) {
                Some(label) => label,
                None => "UTC"@,
            },
        ),
        underlined: true,
        color: None,
        link: None,
    }
}

/// The pieces that a fragment renders to.
pub open spec fn render(dir: &Directory, part: &MessagePart) -> Seq<ChatPartView>
    decreases part,
{
    match part {
        MessagePart::Empty => Seq::empty(),
        MessagePart::Nested(parts) => render_all(dir, parts@),
        MessagePart::PlainText(text) => seq![plain(text@)],
        MessagePart::UserMention { user } => seq![render_user(dir.users@, *user)],
        MessagePart::ChannelMention(id) => seq![render_channel(dir.channels@, *id)],
        MessagePart::RoleMention(id) => seq![render_role(dir.roles@, *id)],
        MessagePart::UnicodeEmoji(text) => seq![plain(text@)],
        MessagePart::CustomEmoji { name, id } => seq![plain(":"@ + name@ + ":"@)],
        MessagePart::Timestamp { seconds, display } => seq![render_timestamp(*seconds, display@)],
    }
}

/// The pieces that a list of fragments renders to, one after the other.
pub open spec fn render_all(dir: &Directory, parts: Seq<MessagePart>) -> Seq<ChatPartView>
    decreases parts,
{
    if parts.len() == 0 {
        Seq::empty()
    } else {
        render_all(dir, parts.drop_last()) + render(dir, &parts.last())
    }
}

/// Appends the decimal numeral of `n` to `out`.
pub fn push_decimal(out: &mut String, n: u64)
    ensures
        final(out)@ == old(out)@ + decimal(n as nat),
    decreases n,
{
    if n >= 10 {
        push_decimal(out, n / 10);
    }
    let d = n % 10;
    let c = if d == 0 {
        '0'
    } else if d == 1 {
        '1'
    } else if d == 2 {
        '2'
    } else if d == 3 {
        '3'
    } else if d == 4 {
        '4'
    } else if d == 5 {
        '5'
    } else if d == 6 {
        '6'
    } else if d == 7 {
        '7'
    } else if d == 8 {
        '8'
    } else {
        '9'
    };
    push_char(out, c);
    assert(final(out)@ =~= old(out)@ + decimal(n as nat));
}

/// The text made of `open`, the numeral of `id` and `close`.
pub fn raw_reference(open: &str, id: u64, close: &str) -> (r: String)
    ensures
        r@ == open@ + decimal(id as nat) + close@,
{
    let mut r = String::from_str(open);
    push_decimal(&mut r, id);
    r.append(close);
    r
}

/// The text made of `prefix` and `name`.
pub fn prefixed(prefix: &str, name: &str) -> (r: String)
    ensures
        r@ == prefix@ + name@,
{
    let mut r = String::from_str(prefix);
    r.append(name);
    r
}

/// A piece of unstyled text.
pub fn plain_part(text: String) -> (r: ChatPart)
    ensures
        r@ == plain(text@),
{
    ChatPart { text, hover: None, underlined: false, color: None, link: None }
}

/// A piece of text with hover text.
pub fn hover_part(text: String, hover: String) -> (r: ChatPart)
    ensures
        r@ == hovered(text@, hover@),
{
    ChatPart { text, hover: Some(hover), underlined: false, color: None, link: None }
}

/// Names a user from what the directory holds of them.
pub fn resolve_display(entry: &UserEntry) -> (r: Option<(String, String)>)
    ensures
        match r {
            Some((name, tag)) => display_of(*entry) == Some((name@, tag@)),
            None => display_of(*entry) is None,
        },
{
    match (&entry.member, &entry.user) {
        (Some(m), Some(u)) => {
            let name = match &m.nick {
                Some(nick) => nick.clone(),
                None => u.name.clone(),
            };
            Some((name, m.tag.clone()))
        },
        (Some(m), None) => match &m.nick {
            Some(nick) => Some((nick.clone(), m.tag.clone())),
            None => None,
        },
        (None, Some(u)) => Some((u.name.clone(), u.tag.clone())),
        (None, None) => None,
    }
}

/// Tells whether the user has to be looked up on the network, given what
/// the community knows of them.
pub fn user_lookup_needed(member: &Option<Member>) -> (r: bool)
    ensures
        r == needs_user(*member),
{
    match member {
        Some(m) => m.nick.is_none(),
        None => true,
    }
}

/// Renders a mention of the user `id`.
pub fn user_part(dir: &Directory, id: u64) -> (r: ChatPart)
    ensures
        r@ == render_user(dir.users@, id),
{
    let mut i: usize = 0;
    while i < dir.users.len() && dir.users[i].id != id
        invariant
            i <= dir.users@.len(),
            user_index(dir.users@, id, 0) == user_index(dir.users@, id, i as int),
        decreases dir.users@.len() - i,
    {
        i += 1;
    }
    if i < dir.users.len() {
        if let Some((name, tag)) = resolve_display(&dir.users[i]) {
            return hover_part(prefixed("@", name.as_str()), tag);
        }
    }
    plain_part(raw_reference("<@", id, ">"))
}

/// Renders a reference to the channel `id`.
pub fn channel_part(dir: &Directory, id: u64) -> (r: ChatPart)
    ensures
        r@ == render_channel(dir.channels@, id),
{
    let mut i: usize = 0;
    while i < dir.channels.len() && dir.channels[i].id != id
        invariant
            i <= dir.channels@.len(),
            channel_index(dir.channels@, id, 0) == channel_index(dir.channels@, id, i as int),
        decreases dir.channels@.len() - i,
    {
        i += 1;
    }
    if i < dir.channels.len() {
        match &dir.channels[i].label {
            ChannelLabel::Guild(name) => plain_part(prefixed("#", name.as_str())),
            ChannelLabel::Private(label) => plain_part(label.clone()),
            ChannelLabel::Other => plain_part(String::from_str("#?")),
        }
    } else {
        plain_part(raw_reference("<#", id, ">"))
    }
}

/// Renders a mention of the role `id`.
pub fn role_part(dir: &Directory, id: u64) -> (r: ChatPart)
    ensures
        r@ == render_role(dir.roles@, id),
{
    let mut i: usize = 0;
    while i < dir.roles.len() && dir.roles[i].id != id
        invariant
            i <= dir.roles@.len(),
            role_index(dir.roles@, id, 0) == role_index(dir.roles@, id, i as int),
        decreases dir.roles@.len() - i,
    {
        i += 1;
    }
    if i < dir.roles.len() {
        plain_part(prefixed("@", dir.roles[i].name.as_str()))
    } else {
        plain_part(raw_reference("<@&", id, ">"))
    }
}

/// Formats a point in time in UTC.
///
/// Wraps `chrono::DateTime::from_timestamp`, which gives nothing for a point
/// outside the calendar, and `DateTime::format`. The contract only names the
/// result.
#[verifier::external_body]
fn utc_text(seconds: i64) -> (r: Option<String>)
    ensures
        text_view(r) == utc_label(seconds),
{
    match chrono::DateTime::from_timestamp(seconds, 0) {
        Some(time) => Some(time.format("%Y-%m-%d %H:%M:%S UTC").to_string()),
        None => None,
    }
}

/// Renders a point in time, given its text in the message's style.
pub fn timestamp_part(seconds: i64, display: &str) -> (r: ChatPart)
    ensures
        r@ == render_timestamp(seconds, display@),
{
    let hover = match utc_text(seconds) {
        Some(label) => label,
        None => String::from_str("UTC"),
    };
    ChatPart {
        text: display.to_owned(),
        hover: Some(hover),
        underlined: true,
        color: None,
        link: None,
    }
}

/// Renders the fragment `part` and appends its pieces to `chat`.
pub fn discord_to_minecraft(dir: &Directory, chat: &mut Vec<ChatPart>, part: &MessagePart)
    ensures
        chat_view(final(chat)@) == chat_view(old(chat)@) + render(dir, part),
    decreases part,
{
    let ghost before = chat@;
    match part {
        MessagePart::Empty => {
            assert(chat_view(chat@) =~= chat_view(before) + render(dir, part));
        },
        MessagePart::Nested(parts) => {
            let mut i: usize = 0;
            assert(parts@.subrange(0, 0) =~= Seq::<MessagePart>::empty());
            assert(chat_view(chat@) =~= chat_view(before) + render_all(
                dir,
                parts@.subrange(0, 0),
            ));
            while i < parts.len()
                invariant
                    i <= parts@.len(),
                    decreases_to!(part => *parts),
                    chat_view(chat@) == chat_view(before) + render_all(
                        dir,
                        parts@.subrange(0, i as int),
                    ),
                decreases parts@.len() - i,
            {
                proof {
                    vstd::std_specs::vec::axiom_vec_index_decreases(*parts, i as int);
                }
                discord_to_minecraft(dir, chat, &parts[i]);
                assert(parts@.subrange(0, i + 1).drop_last() =~= parts@.subrange(0, i as int));
                assert(parts@.subrange(0, i + 1).last() == parts@[i as int]);
                assert(chat_view(chat@) =~= chat_view(before) + render_all(
                    dir,
                    parts@.subrange(0, i + 1),
                ));
                i += 1;
            }
            assert(parts@.subrange(0, i as int) =~= parts@);
        },
        MessagePart::PlainText(text) => {
            chat.push(plain_part(text.clone()));
            assert(chat_view(chat@) =~= chat_view(before) + render(dir, part));
        },
        MessagePart::UserMention { user } => {
            chat.push(user_part(dir, *user));
            assert(chat_view(chat@) =~= chat_view(before) + render(dir, part));
        },
        MessagePart::ChannelMention(id) => {
            chat.push(channel_part(dir, *id));
            assert(chat_view(chat@) =~= chat_view(before) + render(dir, part));
        },
        MessagePart::RoleMention(id) => {
            chat.push(role_part(dir, *id));
            assert(chat_view(chat@) =~= chat_view(before) + render(dir, part));
        },
        MessagePart::UnicodeEmoji(text) => {
            chat.push(plain_part(text.clone()));
            assert(chat_view(chat@) =~= chat_view(before) + render(dir, part));
        },
        MessagePart::CustomEmoji { name, id } => {
            let mut text = prefixed(":", name.as_str());
            text.append(":");
            chat.push(plain_part(text));
            assert(chat_view(chat@) =~= chat_view(before) + render(dir, part));
        },
        MessagePart::Timestamp { seconds, display } => {
            chat.push(timestamp_part(*seconds, display.as_str()));
            assert(chat_view(chat@) =~= chat_view(before) + render(dir, part));
        },
    }
}

/// The rendering of a whole message.
pub fn format(dir: &Directory, part: &MessagePart) -> (r: Vec<ChatPart>)
    ensures
        chat_view(r@) == render(dir, part),
{
    let mut chat: Vec<ChatPart> = Vec::new();
    discord_to_minecraft(dir, &mut chat, part);
    assert(chat_view(chat@) =~= render(dir, part)) by {
        assert(chat_view(Seq::<ChatPart>::empty()) =~= Seq::<ChatPartView>::empty());
    }
    chat
}

/// Plain text renders to itself: one piece with the text and no hover text.
pub proof fn lemma_plain_text_renders_verbatim(dir: &Directory, text: String)
    ensures
        render(dir, &MessagePart::PlainText(text)) == seq![plain(text@)],
        plain(text@).hover is None,
        plain(text@).text == text@,
{
}

/// An empty fragment renders to nothing, and a nested fragment to the
/// renderings of its children, in order.
pub proof fn lemma_nested_concatenates(dir: &Directory, parts: Vec<MessagePart>, last: MessagePart)
    ensures
        render(dir, &MessagePart::Empty) == Seq::<ChatPartView>::empty(),
        render(dir, &MessagePart::Nested(parts)) == render_all(dir, parts@),
        render_all(dir, parts@.push(last)) == render_all(dir, parts@) + render(dir, &last),
{
    assert(parts@.push(last).drop_last() =~= parts@);
}

} // verus!
