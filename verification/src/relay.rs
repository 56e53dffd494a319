//! Routing between a world's log and its chat channel, in both directions.

use vstd::prelude::*;
use vstd::string::*;
use crate::format::{
    chat_view, discord_to_minecraft, hover_part, hovered, plain, plain_part, prefixed, render,
    ChatPart, ChatPartView, Color, Directory, MessagePart,
};
use crate::log::{marker_of, AdvancementKind, Line, LineView, RegularLine, RegularLineView};
use crate::minecraft::{tellraw, tellraw_text, Chat, ChatView};
use crate::text::same_text;

verus! {

/// What `serenity`'s message builder makes of `text` when it pushes it
/// safely: the text with invitations, direction marks, mass mentions and
/// markup characters defused.
pub uninterp spec fn discord_safe(text: Seq<char>) -> Seq<char>;

/// What `serenity`'s message builder makes of `text` when it pushes it
/// safely in italics.
pub uninterp spec fn discord_italic_safe(text: Seq<char>) -> Seq<char>;

/// Defuses a text for the chat platform.
///
/// Wraps `serenity::utils::MessageBuilder::push_safe` on an empty builder;
/// the contract only names the result.
#[verifier::external_body]
fn safe_text(text: &str) -> (r: String)
    ensures
        r@ == discord_safe(text@),
{
    serenity::utils::MessageBuilder::new().push_safe(text).build()
}

/// Defuses a text for the chat platform and sets it in italics.
///
/// Wraps `serenity::utils::MessageBuilder::push_italic_safe` on an empty
/// builder; the contract only names the result.
#[verifier::external_body]
fn italic_safe_text(text: &str) -> (r: String)
    ensures
        r@ == discord_italic_safe(text@),
{
    serenity::utils::MessageBuilder::new().push_italic_safe(text).build()
}

/// What is sent to a world's channel for one event.
pub enum Delivery {
    /// A message that appears under the speaker's own name and picture.
    Attributed { username: String, avatar_url: String, content: String },
    /// A plain post to the channel.
    Post { content: String },
    Nothing,
}

pub enum DeliveryView {
    Attributed { username: Seq<char>, avatar_url: Seq<char>, content: Seq<char> },
    Post { content: Seq<char> },
    Nothing,
}

impl View for Delivery {
    type V = DeliveryView;

    open spec fn view(&self) -> DeliveryView {
        match self {
            Delivery::Attributed { username, avatar_url, content } => DeliveryView::Attributed {
                username: username@,
                avatar_url: avatar_url@,
                content: content@,
            },
            Delivery::Post { content } => DeliveryView::Post { content: content@ },
            Delivery::Nothing => DeliveryView::Nothing,
        }
    }
}

/// The address of a player's picture.
pub open spec fn avatar_of(sender: Seq<char>) -> Seq<char> {
    "https://minotar.net/armor/bust/"@ + sender + "/1024.png"@
}

/// The content of a chat line, defused, in italics if it is an action.
pub open spec fn chat_content(msg: Seq<char>, is_action: bool) -> Seq<char> {
    if is_action {
        discord_italic_safe(msg)
    } else {
        discord_safe(msg)
    }
}

/// The plain post that stands in for an attributed chat message.
pub open spec fn chat_post(sender: Seq<char>, msg: Seq<char>, is_action: bool) -> Seq<char> {
    if is_action {
        "* "@ + discord_safe(sender) + " "@ + discord_safe(msg)
    } else {
        "<"@ + discord_safe(sender) + "> "@ + discord_safe(msg)
    }
}

/// What is sent for an event. Chat goes out under the speaker's name where
/// the channel allows it, and as a plain post where not; achievements and
/// deaths are plain posts; nothing is sent for a server start or an unknown
/// line.
pub open spec fn delivery_for(event: RegularLineView, attributed: bool) -> DeliveryView {
    match event {
        RegularLineView::Chat { sender, msg, is_action } => if attributed {
            DeliveryView::Attributed {
                username: sender,
                avatar_url: avatar_of(sender),
                content: chat_content(msg, is_action),
            }
        } else {
            DeliveryView::Post { content: chat_post(sender, msg, is_action) }
        },
        RegularLineView::Advancement { kind, player, advancement } => DeliveryView::Post {
            content: discord_safe(player) + marker_of(kind) + discord_safe(advancement) + "]"@,
        },
        RegularLineView::Death { msg } => DeliveryView::Post { content: msg },
        RegularLineView::ServerStart => DeliveryView::Nothing,
        RegularLineView::Unknown(_) => DeliveryView::Nothing,
    }
}

/// What is sent for a line of the log.
pub open spec fn delivery_for_line(line: LineView, attributed: bool) -> DeliveryView {
    match line {
        LineView::Regular { thread, level, content } => delivery_for(content, attributed),
        LineView::Unknown(_) => DeliveryView::Nothing,
    }
}

/// Decides what is sent to a world's channel for an event; `attributed`
/// says whether the channel can show a message under the speaker's name.
pub fn deliver(event: &RegularLine, attributed: bool) -> (r: Delivery)
    ensures
        r@ == delivery_for(event@, attributed),
{
    match event {
        RegularLine::Chat { sender, msg, is_action } => {
            if attributed {
                let mut avatar_url = prefixed("https://minotar.net/armor/bust/", sender.as_str());
                avatar_url.append("/1024.png");
                let content = if *is_action {
                    italic_safe_text(msg.as_str())
                } else {
                    safe_text(msg.as_str())
                };
                Delivery::Attributed { username: sender.clone(), avatar_url, content }
            } else {
                let mut content = String::from_str(
                    if *is_action {
                        "* "
                    } else {
                        "<"
                    },
                );
                content.append(safe_text(sender.as_str()).as_str());
                content.append(
                    if *is_action {
                        " "
                    } else {
                        "> "
                    },
                );
                content.append(safe_text(msg.as_str()).as_str());
                Delivery::Post { content }
            }
        },
        RegularLine::Advancement { kind, player, advancement } => {
            let mut content = safe_text(player.as_str());
            content.append(
                match kind {
                    AdvancementKind::Challenge => " has completed the challenge [",
                    AdvancementKind::Goal => " has reached the goal [",
                    AdvancementKind::Task => " has made the advancement [",
                },
            );
            content.append(safe_text(advancement.as_str()).as_str());
            content.append("]");
            Delivery::Post { content }
        },
        RegularLine::Death { msg } => Delivery::Post { content: msg.clone() },
        RegularLine::ServerStart => Delivery::Nothing,
        RegularLine::Unknown(_) => Delivery::Nothing,
    }
}

/// Decides what is sent to a world's channel for a line of its log.
pub fn handle_line(line: &Line, attributed: bool) -> (r: Delivery)
    ensures
        r@ == delivery_for_line(line@, attributed),
{
    match line {
        Line::Regular { thread, level, content } => deliver(content, attributed),
        Line::Unknown(_) => Delivery::Nothing,
    }
}

/// The channel that a world's events go to.
pub struct Route {
    pub world: String,
    pub channel: u64,
}

/// The position of the first route at or after `from` whose world is
/// `world`, or the number of routes.
pub open spec fn world_index(routes: Seq<Route>, world: Seq<char>, from: int) -> int
    decreases routes.len() - from,
{
    if from < 0 || from >= routes.len() {
        routes.len() as int
    } else if routes[from].world@ == world {
        from
    } else {
        world_index(routes, world, from + 1)
    }
}

/// The position of the first route at or after `from` whose channel is
/// `channel`, or the number of routes.
pub open spec fn channel_route(routes: Seq<Route>, channel: u64, from: int) -> int
    decreases routes.len() - from,
{
    if from < 0 || from >= routes.len() {
        routes.len() as int
    } else if routes[from].channel == channel {
        from
    } else {
        channel_route(routes, channel, from + 1)
    }
}

/// The channel configured for `world`, if there is one.
pub fn world_channel(routes: &Vec<Route>, world: &str) -> (r: Option<u64>)
    ensures
        r == (if world_index(routes@, world@, 0) < routes@.len() {
            Some(routes@[world_index(routes@, world@, 0)].channel)
        } else {
            None
        }),
{
    let mut i: usize = 0;
    while i < routes.len()
        invariant
            i <= routes@.len(),
            world_index(routes@, world@, 0) == world_index(routes@, world@, i as int),
        decreases routes@.len() - i,
    {
        if same_text(routes[i].world.as_str(), world) {
            return Some(routes[i].channel);
        }
        i += 1;
    }
    None
}

/// A member of the chat platform as a message shows them.
pub struct Author {
    pub name: String,
    pub nick: Option<String>,
    pub tag: String,
}

/// The name shown for an author: the nickname where there is one.
pub open spec fn shown_name(author: &Author) -> Seq<char> {
    match author.nick {
        Some(nick) => nick@,
        None => author.name@,
    }
}

pub struct Attachment {
    pub filename: String,
    pub url: String,
}

/// A message that arrived on the chat platform.
pub struct Inbound {
    /// Whether a program wrote it.
    pub from_bot: bool,
    pub channel: u64,
    /// The channel's name, where it is a channel of the community.
    pub channel_name: Option<String>,
    /// The author of the message that this one answers.
    pub reply_to: Option<Author>,
    pub author: Author,
    pub body: MessagePart,
    pub attachments: Vec<Attachment>,
}

/// The world that an inbound message is relayed to: none for a message
/// that a program wrote or whose channel belongs to no world.
pub open spec fn target_world(routes: Seq<Route>, msg: &Inbound) -> Option<Seq<char>> {
    let i = channel_route(routes, msg.channel, 0);
    if !msg.from_bot && i < routes.len() {
        Some(routes[i].world@)
    } else {
        None
    }
}

/// Finds the world that an inbound message is relayed to.
pub fn inbound_world(routes: &Vec<Route>, msg: &Inbound) -> (r: Option<String>)
    ensures
        match r {
            Some(world) => target_world(routes@, msg) == Some(world@),
            None => target_world(routes@, msg) is None,
        },
{
    if msg.from_bot {
        return None;
    }
    let mut i: usize = 0;
    while i < routes.len()
        invariant
            i <= routes@.len(),
            !msg.from_bot,
            channel_route(routes@, msg.channel, 0) == channel_route(routes@, msg.channel, i as int),
        decreases routes@.len() - i,
    {
        if routes[i].channel == msg.channel {
            return Some(routes[i].world.clone());
        }
        i += 1;
    }
    None
}

/// The start of every relayed message: where it comes from.
pub open spec fn origin(channel_name: Option<String>) -> Seq<char> {
    "[Discord:#"@ + (match channel_name {
        Some(name) => name@,
        None => "?"@,
    })
}

pub open spec fn aqua(text: Seq<char>) -> ChatPartView {
    ChatPartView { text, hover: None, underlined: false, color: Some(Color::Aqua), link: None }
}

/// The piece that links to an attachment.
pub open spec fn link_part(a: Attachment) -> ChatPartView {
    ChatPartView {
        text: "["@ + a.filename@ + "]"@,
        hover: Some(a.url@),
        underlined: true,
        color: Some(Color::Blue),
        link: Some(a.url@),
    }
}

/// The pieces for a message's attachments: for each a space and its link.
pub open spec fn attachment_parts(attachments: Seq<Attachment>) -> Seq<ChatPartView>
    decreases attachments.len(),
{
    if attachments.len() == 0 {
        Seq::empty()
    } else {
        attachment_parts(attachments.drop_last()).push(plain(" "@)).push(
            link_part(attachments.last()),
        )
    }
}

/// The pieces that name the message answered, if there is one.
pub open spec fn reply_parts(reply_to: Option<Author>) -> Seq<ChatPartView> {
    match reply_to {
        Some(author) => seq![plain(", replying to "@), hovered(shown_name(&author), author.tag@)],
        None => Seq::empty(),
    }
}

/// The game chat for an inbound message: its origin, the message it
/// answers, its author, its body and its attachments.
pub open spec fn game_chat(dir: &Directory, msg: &Inbound) -> ChatView {
    ChatView {
        root: aqua(origin(msg.channel_name)),
        extra: reply_parts(msg.reply_to) + seq![
            plain("] "@),
            hovered("<"@ + shown_name(&msg.author) + ">"@, msg.author.tag@),
            plain(" "@),
        ] + render(dir, &msg.body) + attachment_parts(msg.attachments@),
    }
}

/// The game chat that stands in for a message too long to relay.
pub open spec fn long_notice(msg: &Inbound) -> ChatView {
    ChatView {
        root: aqua(origin(msg.channel_name) + "] long message from "@),
        extra: seq![hovered(shown_name(&msg.author), msg.author.tag@)],
    }
}

fn origin_text(channel_name: &Option<String>) -> (r: String)
    ensures
        r@ == origin(*channel_name),
{
    match channel_name {
        Some(name) => prefixed("[Discord:#", name.as_str()),
        None => prefixed("[Discord:#", "?"),
    }
}

/// A piece of aqua text.
pub fn aqua_part(text: String) -> (r: ChatPart)
    ensures
        r@ == aqua(text@),
{
    ChatPart { text, hover: None, underlined: false, color: Some(Color::Aqua), link: None }
}

fn shown(author: &Author) -> (r: String)
    ensures
        r@ == shown_name(author),
{
    match &author.nick {
        Some(nick) => nick.clone(),
        None => author.name.clone(),
    }
}

/// Renders an inbound message as game chat.
pub fn relay_to_game(dir: &Directory, msg: &Inbound) -> (r: Chat)
    ensures
        r@ == game_chat(dir, msg),
{
    let mut extra: Vec<ChatPart> = Vec::new();
    match &msg.reply_to {
        Some(author) => {
            extra.push(plain_part(String::from_str(", replying to ")));
            extra.push(hover_part(shown(author), author.tag.clone()));
        },
        None => {},
    }
    assert(chat_view(extra@) =~= reply_parts(msg.reply_to));
    extra.push(plain_part(String::from_str("] ")));
    let mut name = prefixed("<", shown(&msg.author).as_str());
    name.append(">");
    extra.push(hover_part(name, msg.author.tag.clone()));
    extra.push(plain_part(String::from_str(" ")));
    let ghost head = chat_view(extra@);
    assert(head =~= reply_parts(msg.reply_to) + seq![
        plain("] "@),
        hovered("<"@ + shown_name(&msg.author) + ">"@, msg.author.tag@),
        plain(" "@),
    ]);
    discord_to_minecraft(dir, &mut extra, &msg.body);
    let ghost body = chat_view(extra@);
    let mut i: usize = 0;
    assert(msg.attachments@.subrange(0, 0) =~= Seq::<Attachment>::empty());
    assert(chat_view(extra@) =~= body + attachment_parts(msg.attachments@.subrange(0, 0)));
    while i < msg.attachments.len()
        invariant
            i <= msg.attachments@.len(),
            chat_view(extra@) == body + attachment_parts(msg.attachments@.subrange(0, i as int)),
        decreases msg.attachments@.len() - i,
    {
        let a = &msg.attachments[i];
        let ghost before = extra@;
        let mut label = prefixed("[", a.filename.as_str());
        label.append("]");
        extra.push(plain_part(String::from_str(" ")));
        let link = ChatPart {
            text: label,
            hover: Some(a.url.clone()),
            underlined: true,
            color: Some(Color::Blue),
            link: Some(a.url.clone()),
        };
        assert(link@ == link_part(*a));
        extra.push(link);
        assert(chat_view(extra@) =~= chat_view(before).push(plain(" "@)).push(link_part(*a)));
        assert(msg.attachments@.subrange(0, i + 1).drop_last() =~= msg.attachments@.subrange(
            0,
            i as int,
        ));
        assert(msg.attachments@.subrange(0, i + 1).last() == msg.attachments@[i as int]);
        assert(chat_view(extra@) =~= body + attachment_parts(
            msg.attachments@.subrange(0, i + 1),
        ));
        i += 1;
    }
    assert(msg.attachments@.subrange(0, i as int) =~= msg.attachments@);
    let r = Chat { root: aqua_part(origin_text(&msg.channel_name)), extra };
    assert(r@.extra =~= game_chat(dir, msg).extra);
    r
}

/// Renders the notice that stands in for a message too long to relay.
pub fn long_message_notice(msg: &Inbound) -> (r: Chat)
    ensures
        r@ == long_notice(msg),
{
    let mut head = origin_text(&msg.channel_name);
    head.append("] long message from ");
    let mut extra: Vec<ChatPart> = Vec::new();
    extra.push(hover_part(shown(&msg.author), msg.author.tag.clone()));
    let r = Chat { root: aqua_part(head), extra };
    assert(r@.extra =~= long_notice(msg).extra);
    r
}

/// How the game server answered a command.
#[derive(Clone, Copy, Debug, PartialEq, Eq)]
pub enum SendOutcome {
    Sent,
    /// The command was longer than the server takes.
    TooLong,
    Failed,
}

/// What the relay does after a command was answered.
#[derive(Clone, Copy, Debug, PartialEq, Eq)]
pub enum FollowUp {
    Done,
    /// Send the notice that stands in for the message.
    Substitute,
    /// Give the failure to the supervisor.
    Abort,
}

/// What follows a command's answer; `substitute` says whether the command
/// already was the stand-in notice. Only a message that was too long is
/// replaced, and only once.
pub open spec fn follow_up(outcome: SendOutcome, substitute: bool) -> FollowUp {
    match outcome {
        SendOutcome::Sent => FollowUp::Done,
        SendOutcome::TooLong => if substitute {
            FollowUp::Abort
        } else {
            FollowUp::Substitute
        },
        SendOutcome::Failed => FollowUp::Abort,
    }
}

/// Decides what follows a command's answer.
pub fn after_send(outcome: SendOutcome, substitute: bool) -> (r: FollowUp)
    ensures
        r == follow_up(outcome, substitute),
{
    match outcome {
        SendOutcome::Sent => FollowUp::Done,
        SendOutcome::TooLong => if substitute {
            FollowUp::Abort
        } else {
            FollowUp::Substitute
        },
        SendOutcome::Failed => FollowUp::Abort,
    }
}

/// What the relay does next about an inbound message.
pub enum Step {
    /// Nothing: the message is not for a world, or the world is not running.
    Ignore,
    /// Send the command to the world and come back with its answer.
    Send { world: String, command: String },
    /// The message is relayed.
    Done,
    /// Give the failure to the supervisor.
    Abort,
}

pub enum StepView {
    Ignore,
    Send { world: Seq<char>, command: Seq<char> },
    Done,
    Abort,
}

impl View for Step {
    type V = StepView;

    open spec fn view(&self) -> StepView {
        match self {
            Step::Ignore => StepView::Ignore,
            Step::Send { world, command } => StepView::Send { world: world@, command: command@ },
            Step::Done => StepView::Done,
            Step::Abort => StepView::Abort,
        }
    }
}

/// The command that shows an inbound message to everyone in the game.
pub open spec fn relay_command(dir: &Directory, msg: &Inbound) -> Seq<char> {
    tellraw_text("@a"@, game_chat(dir, msg))
}

/// The command that shows the stand-in notice to everyone in the game.
pub open spec fn notice_command(msg: &Inbound) -> Seq<char> {
    tellraw_text("@a"@, long_notice(msg))
}

/// The next step for an inbound message, given whether its world is
/// running and the answers to the commands sent for it so far. The message
/// goes out first; if the server finds it too long, the notice goes out in
/// its place, once; any other failure, also of the notice, is passed on.
pub open spec fn next_step(
    routes: Seq<Route>,
    dir: &Directory,
    msg: &Inbound,
    active: bool,
    outcomes: Seq<SendOutcome>,
) -> StepView {
    match target_world(routes, msg) {
        None => StepView::Ignore,
        Some(world) => if !active {
            StepView::Ignore
        } else if outcomes.len() == 0 {
            StepView::Send { world, command: relay_command(dir, msg) }
        } else {
            match follow_up(outcomes[0], false) {
                FollowUp::Done => StepView::Done,
                FollowUp::Abort => StepView::Abort,
                FollowUp::Substitute => if outcomes.len() == 1 {
                    StepView::Send { world, command: notice_command(msg) }
                } else if follow_up(outcomes[1], true) == FollowUp::Done {
                    StepView::Done
                } else {
                    StepView::Abort
                },
            }
        },
    }
}

/// The gateway's side of the relay: it knows the worlds' channels.
pub struct Handler {
    pub routes: Vec<Route>,
}

impl Handler {
    /// Decides the next step for an inbound message; `active` says whether
    /// the world of its channel is running, `outcomes` holds the answers to
    /// the commands that were sent for it so far.
    pub fn message(
        &self,
        dir: &Directory,
        msg: &Inbound,
        active: bool,
        outcomes: &Vec<SendOutcome>,
    ) -> (r: Step)
        ensures
            r@ == next_step(self.routes@, dir, msg, active, outcomes@),
    {
        let world = match inbound_world(&self.routes, msg) {
            Some(world) => world,
            None => {
                return Step::Ignore;
            },
        };
        if !active {
            return Step::Ignore;
        }
        if outcomes.len() == 0 {
            return Step::Send { world, command: tellraw("@a", &relay_to_game(dir, msg)) };
        }
        match after_send(outcomes[0], false) {
            FollowUp::Done => Step::Done,
            FollowUp::Abort => Step::Abort,
            FollowUp::Substitute => {
                if outcomes.len() == 1 {
                    Step::Send { world, command: tellraw("@a", &long_message_notice(msg)) }
                } else {
                    match after_send(outcomes[1], true) {
                        FollowUp::Done => Step::Done,
                        _ => Step::Abort,
                    }
                }
            },
        }
    }
}

/// A message that the server finds too long is not passed on as a failure:
/// the notice is sent in its place, and once that is sent the relay is done.
pub proof fn lemma_long_message_is_replaced(routes: Seq<Route>, dir: &Directory, msg: &Inbound)
    requires
        target_world(routes, msg) is Some,
    ensures
        next_step(routes, dir, msg, true, seq![]) == (StepView::Send {
            world: target_world(routes, msg)->0,
            command: relay_command(dir, msg),
        }),
        next_step(routes, dir, msg, true, seq![SendOutcome::TooLong]) == (StepView::Send {
            world: target_world(routes, msg)->0,
            command: notice_command(msg),
        }),
        next_step(routes, dir, msg, true, seq![SendOutcome::TooLong, SendOutcome::Sent])
            == StepView::Done,
        next_step(routes, dir, msg, true, seq![SendOutcome::Sent]) == StepView::Done,
{
}

} // verus!
