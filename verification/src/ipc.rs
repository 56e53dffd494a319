//! The commands of the control channel: how they are written on the line
//! and how a line is read.

use vstd::prelude::*;
use vstd::string::*;
use crate::text::{chars_of, same_text, text_of};

verus! {

/// What `shlex` makes of a word so that a shell reads it as one argument.
pub uninterp spec fn shell_quoted(word: Seq<char>) -> Seq<char>;

/// The words that `shlex` reads from a line; `None` where the line's
/// quoting is broken.
pub uninterp spec fn shell_words(line: Seq<char>) -> Option<Seq<Seq<char>>>;

/// Quotes a word for the command line.
///
/// Wraps `shlex::quote`; the contract only names the result.
#[allow(deprecated)]
#[verifier::external_body]
fn quote(word: &str) -> (r: String)
    ensures
        r@ == shell_quoted(word@),
{
    shlex::quote(word).into_owned()
}

pub open spec fn words_view(words: Seq<String>) -> Seq<Seq<char>> {
    words.map_values(|w: String| w@)
}

/// Splits a command line into words.
///
/// Wraps `shlex::split`; the contract only names the result.
#[verifier::external_body]
fn split(line: &str) -> (r: Option<Vec<String>>)
    ensures
        match r {
            Some(words) => shell_words(line@) == Some(words_view(words@)),
            None => shell_words(line@) is None,
        },
{
    shlex::split(line)
}

/// The quoted words with a space between them.
pub open spec fn command_line(words: Seq<Seq<char>>) -> Seq<char>
    decreases words.len(),
{
    if words.len() == 0 {
        Seq::empty()
    } else if words.len() == 1 {
        shell_quoted(words[0])
    } else {
        command_line(words.drop_last()) + " "@ + shell_quoted(words.last())
    }
}

/// Writes a command as one line for the control channel.
pub fn ipc_command_line(cmd: &Vec<String>) -> (r: String)
    ensures
        r@ == command_line(words_view(cmd@)),
{
    let mut out = String::new();
    let mut i: usize = 0;
    let ghost all = words_view(cmd@);
    assert(all.subrange(0, 0) =~= Seq::<Seq<char>>::empty());
    while i < cmd.len()
        invariant
            i <= cmd@.len(),
            all == words_view(cmd@),
            out@ == command_line(all.subrange(0, i as int)),
        decreases cmd@.len() - i,
    {
        let ghost before = out@;
        if i > 0 {
            out.append(" ");
        }
        out.append(quote(cmd[i].as_str()).as_str());
        assert(all.subrange(0, i + 1).drop_last() =~= all.subrange(0, i as int));
        assert(all.subrange(0, i + 1).last() == cmd@[i as int]@);
        assert(all.subrange(0, i + 1)[0] == all[0]);
        assert(out@ =~= command_line(all.subrange(0, i + 1)));
        i += 1;
    }
    assert(all.subrange(0, i as int) =~= all);
    out
}

/// What can be wrong with the control channel's traffic.
pub enum IpcError {
    /// The reply did not end in a line feed.
    MissingNewline,
    /// The command line's quoting is broken.
    Shlex,
    /// The command is none of those that the bot knows.
    UnknownCommand(Vec<String>),
}

/// The reply without its last character, which has to be a line feed.
pub fn read_reply(buf: &str) -> (r: Result<String, IpcError>)
    ensures
        match r {
            Ok(reply) => buf@.len() > 0 && buf@.last() == '\n' && reply@ == buf@.drop_last(),
            Err(e) => e is MissingNewline && !(buf@.len() > 0 && buf@.last() == '\n'),
        },
{
    let chars = chars_of(buf);
    let n = chars.len();
    if n > 0 && chars[n - 1] == '\n' {
        Ok(text_of(chars.as_slice(), 0, n - 1))
    } else {
        Err(IpcError::MissingNewline)
    }
}

/// A command of the control channel.
pub enum IpcCommand {
    Quit,
    SetDisplayName { user: String, new_display_name: String },
}

pub enum IpcCommandView {
    Quit,
    SetDisplayName { user: Seq<char>, new_display_name: Seq<char> },
}

impl View for IpcCommand {
    type V = IpcCommandView;

    open spec fn view(&self) -> IpcCommandView {
        match self {
            IpcCommand::Quit => IpcCommandView::Quit,
            IpcCommand::SetDisplayName { user, new_display_name } => IpcCommandView::SetDisplayName {
                user: user@,
                new_display_name: new_display_name@,
            },
        }
    }
}

/// The command that a line's words stand for: `quit`, or
/// `set-display-name` with a user and a name.
pub open spec fn command_of(words: Seq<Seq<char>>) -> Option<IpcCommandView> {
    if words.len() >= 1 && words[0] == "quit"@ {
        Some(IpcCommandView::Quit)
    } else if words.len() >= 3 && words[0] == "set-display-name"@ {
        Some(IpcCommandView::SetDisplayName { user: words[1], new_display_name: words[2] })
    } else {
        None
    }
}

/// Reads the command that the words of a line stand for.
pub fn read_command(words: Vec<String>) -> (r: Result<IpcCommand, IpcError>)
    ensures
        match r {
            Ok(cmd) => command_of(words_view(words@)) == Some(cmd@),
            Err(IpcError::UnknownCommand(w)) => command_of(words_view(words@)) is None && w
                == words,
            Err(_) => false,
        },
{
    if words.len() >= 1 && same_text(words[0].as_str(), "quit") {
        Ok(IpcCommand::Quit)
    } else if words.len() >= 3 && same_text(words[0].as_str(), "set-display-name") {
        Ok(
            IpcCommand::SetDisplayName {
                user: words[1].clone(),
                new_display_name: words[2].clone(),
            },
        )
    } else {
        Err(IpcError::UnknownCommand(words))
    }
}

/// Reads a line of the control channel.
pub fn listen_ipc(line: &str) -> (r: Result<IpcCommand, IpcError>)
    ensures
        match r {
            Ok(cmd) => shell_words(line@) is Some && command_of(shell_words(line@)->0) == Some(
                cmd@,
            ),
            Err(IpcError::Shlex) => shell_words(line@) is None,
            Err(IpcError::UnknownCommand(w)) => shell_words(line@) == Some(words_view(w@))
                && command_of(words_view(w@)) is None,
            Err(IpcError::MissingNewline) => false,
        },
{
    match split(line) {
        Some(words) => read_command(words),
        None => Err(IpcError::Shlex),
    }
}

/// The nickname to set so that a user is shown as `new_display_name`: none
/// where that is the user's own name.
pub fn set_display_name(username: &str, new_display_name: &str) -> (r: String)
    ensures
        r@ == (if username@ == new_display_name@ {
            Seq::<char>::empty()
        } else {
            new_display_name@
        }),
{
    if same_text(username, new_display_name) {
        String::new()
    } else {
        new_display_name.to_owned()
    }
}

} // verus!
