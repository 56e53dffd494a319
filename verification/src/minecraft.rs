//! Game chat as the server's `tellraw` command takes it.

use vstd::prelude::*;
use vstd::string::*;
use crate::format::{chat_view, text_view, ChatPart, ChatPartView, Color};

verus! {

/// A chat message for the game: a root piece and the pieces that follow it.
pub struct Chat {
    pub root: ChatPart,
    pub extra: Vec<ChatPart>,
}

pub struct ChatView {
    pub root: ChatPartView,
    pub extra: Seq<ChatPartView>,
}

impl View for Chat {
    type V = ChatView;

    open spec fn view(&self) -> ChatView {
        ChatView { root: self.root@, extra: chat_view(self.extra@) }
    }
}

/// The JSON string literal that `serde_json` writes for `text`.
pub uninterp spec fn json_quoted(text: Seq<char>) -> Seq<char>;

/// The name of a colour in the game's chat format.
pub open spec fn color_name(color: Color) -> Seq<char> {
    match color {
        Color::Aqua => "aqua"@,
        Color::Blue => "blue"@,
    }
}

/// The member that underlines a piece.
pub open spec fn underline_field(underlined: bool) -> Seq<char> {
    if underlined {
        ",\"underlined\":true"@
    } else {
        Seq::empty()
    }
}

/// The member that colours a piece.
pub open spec fn color_field(color: Option<Color>) -> Seq<char> {
    match color {
        Some(color) => ",\"color\":\""@ + color_name(color) + "\""@,
        None => Seq::empty(),
    }
}

/// The member that makes a piece open an address.
pub open spec fn link_field(link: Option<Seq<char>>) -> Seq<char> {
    match link {
        Some(url) => ",\"clickEvent\":{\"action\":\"open_url\",\"value\":"@ + json_quoted(url)
            + "}"@,
        None => Seq::empty(),
    }
}

/// The member that gives a piece its hover text.
pub open spec fn hover_field(hover: Option<Seq<char>>) -> Seq<char> {
    match hover {
        Some(hover) => ",\"hoverEvent\":{\"action\":\"show_text\",\"value\":{\"text\":"@
            + json_quoted(hover) + "}}"@,
        None => Seq::empty(),
    }
}

/// The members of the JSON object for one piece, without the braces.
pub open spec fn part_fields(p: ChatPartView) -> Seq<char> {
    "\"text\":"@ + json_quoted(p.text) + underline_field(p.underlined) + color_field(p.color)
        + link_field(p.link) + hover_field(p.hover)
}

/// The JSON objects of `parts`, separated by commas.
pub open spec fn parts_json(parts: Seq<ChatPartView>) -> Seq<char>
    decreases parts.len(),
{
    if parts.len() == 0 {
        Seq::empty()
    } else if parts.len() == 1 {
        "{"@ + part_fields(parts[0]) + "}"@
    } else {
        parts_json(parts.drop_last()) + ","@ + "{"@ + part_fields(parts.last()) + "}"@
    }
}

/// The JSON text of a chat message.
pub open spec fn chat_json(chat: ChatView) -> Seq<char> {
    "{"@ + part_fields(chat.root) + (if chat.extra.len() == 0 {
        Seq::empty()
    } else {
        ",\"extra\":["@ + parts_json(chat.extra) + "]"@
    }) + "}"@
}

/// The command that shows `chat` to the players that `rcpt` selects.
pub open spec fn tellraw_text(rcpt: Seq<char>, chat: ChatView) -> Seq<char> {
    "tellraw "@ + rcpt + " "@ + chat_json(chat)
}

/// Quotes a text as a JSON string.
///
/// Wraps `serde_json::to_string` at the type `str`; the contract only names
/// the result. The call reports no error for a text; if it did, the result
/// would be empty.
#[verifier::external_body]
pub(crate) fn json_quote(text: &str) -> (r: String)
    ensures
        r@ == json_quoted(text@),
{
    match serde_json::to_string(text) {
        Ok(quoted) => quoted,
        Err(_) => String::new(),
    }
}

fn push_underline(out: &mut String, underlined: bool)
    ensures
        final(out)@ == old(out)@ + underline_field(underlined),
{
    if underlined {
        out.append(",\"underlined\":true");
    }
    assert(out@ =~= old(out)@ + underline_field(underlined));
}

fn push_color(out: &mut String, color: Option<Color>)
    ensures
        final(out)@ == old(out)@ + color_field(color),
{
    match color {
        Some(color) => {
            out.append(",\"color\":\"");
            match color {
                Color::Aqua => out.append("aqua"),
                Color::Blue => out.append("blue"),
            }
            out.append("\"");
        },
        None => {},
    }
    assert(out@ =~= old(out)@ + color_field(color));
}

fn push_link(out: &mut String, link: &Option<String>)
    ensures
        final(out)@ == old(out)@ + link_field(text_view(*link)),
{
    match link {
        Some(url) => {
            out.append(",\"clickEvent\":{\"action\":\"open_url\",\"value\":");
            out.append(json_quote(url.as_str()).as_str());
            out.append("}");
        },
        None => {},
    }
    assert(out@ =~= old(out)@ + link_field(text_view(*link)));
}

fn push_hover(out: &mut String, hover: &Option<String>)
    ensures
        final(out)@ == old(out)@ + hover_field(text_view(*hover)),
{
    match hover {
        Some(text) => {
            out.append(",\"hoverEvent\":{\"action\":\"show_text\",\"value\":{\"text\":");
            out.append(json_quote(text.as_str()).as_str());
            out.append("}}");
        },
        None => {},
    }
    assert(out@ =~= old(out)@ + hover_field(text_view(*hover)));
}

/// Appends the members of the JSON object for `p` to `out`.
pub fn push_fields(out: &mut String, p: &ChatPart)
    ensures
        final(out)@ == old(out)@ + part_fields(p@),
{
    out.append("\"text\":");
    out.append(json_quote(p.text.as_str()).as_str());
    push_underline(out, p.underlined);
    push_color(out, p.color);
    push_link(out, &p.link);
    push_hover(out, &p.hover);
    assert(out@ =~= old(out)@ + part_fields(p@));
}

impl Chat {
    /// A message of one piece.
    pub fn new(root: ChatPart) -> (r: Chat)
        ensures
            r@ == (ChatView { root: root@, extra: Seq::empty() }),
    {
        let r = Chat { root, extra: Vec::new() };
        assert(r@.extra =~= Seq::<ChatPartView>::empty());
        r
    }

    /// Appends a piece.
    pub fn add_extra(&mut self, part: ChatPart)
        ensures
            final(self)@ == (ChatView { root: old(self)@.root, extra: old(self)@.extra.push(part@) }),
    {
        self.extra.push(part);
        assert(self@.extra =~= old(self)@.extra.push(part@));
    }

    /// The message as JSON text.
    pub fn to_json(&self) -> (r: String)
        ensures
            r@ == chat_json(self@),
    {
        let mut out = String::from_str("{");
        push_fields(&mut out, &self.root);
        let n = self.extra.len();
        if n > 0 {
            out.append(",\"extra\":[");
            let ghost head = out@;
            let mut i: usize = 0;
            assert(chat_view(self.extra@).subrange(0, 0) =~= Seq::<ChatPartView>::empty());
            assert(out@ =~= head + parts_json(chat_view(self.extra@).subrange(0, 0)));
            while i < n
                invariant
                    i <= n,
                    n == self.extra@.len(),
                    out@ == head + parts_json(chat_view(self.extra@).subrange(0, i as int)),
                decreases n - i,
            {
                let ghost all = chat_view(self.extra@);
                let ghost before = out@;
                if i > 0 {
                    out.append(",");
                }
                out.append("{");
                push_fields(&mut out, &self.extra[i]);
                out.append("}");
                assert(all.subrange(0, i + 1).drop_last() =~= all.subrange(0, i as int));
                assert(all.subrange(0, i + 1).last() == self.extra@[i as int]@);
                assert(all.subrange(0, i + 1)[0] == all[0]);
                assert(out@ =~= head + parts_json(all.subrange(0, i + 1)));
                i += 1;
            }
            assert(chat_view(self.extra@).subrange(0, n as int) =~= chat_view(self.extra@));
            out.append("]");
        }
        out.append("}");
        assert(out@ =~= chat_json(self@));
        out
    }
}

/// The text of the command that shows `msg` to the players that `rcpt` selects.
pub fn tellraw(rcpt: &str, msg: &Chat) -> (r: String)
    ensures
        r@ == tellraw_text(rcpt@, msg@),
{
    let mut out = String::from_str("tellraw ");
    out.append(rcpt);
    out.append(" ");
    out.append(msg.to_json().as_str());
    out
}

/// Tells whether a command is short enough for a server that takes
/// commands of up to `limit` bytes.
pub fn command_fits(command: &str, limit: usize) -> (r: bool)
    ensures
        r == (command.spec_bytes().len() <= limit),
{
    command.as_bytes().len() <= limit
}

} // verus!
