//! What the bot's commands answer.

use vstd::prelude::*;
use vstd::string::*;
use crate::emoji::{
    char_of, collect_emoji, emoji_of, letter, nth_letter, reactions_view, Reaction, ReactionView,
};
use crate::format::MessagePart;
use crate::text::push_char;

verus! {

/// The answer to a request for a role, and whether the role is given.
pub open spec fn iam_answer(self_assignable: bool, has_role: bool) -> (bool, Seq<char>) {
    if !self_assignable {
        (false, "this role is not self-assignable"@)
    } else if has_role {
        (false, "you already have this role"@)
    } else {
        (true, "role added"@)
    }
}

/// The answer to a request to drop a role, and whether the role is taken.
pub open spec fn iamn_answer(self_assignable: bool, has_role: bool) -> (bool, Seq<char>) {
    if !self_assignable {
        (false, "this role is not self-assignable"@)
    } else if !has_role {
        (false, "you already don't have this role"@)
    } else {
        (true, "role removed"@)
    }
}

/// Decides a member's request for a role: whether the role is given, and
/// the answer.
pub fn iam(self_assignable: bool, has_role: bool) -> (r: (bool, &'static str))
    ensures
        (r.0, r.1@) == iam_answer(self_assignable, has_role),
{
    if !self_assignable {
        (false, "this role is not self-assignable")
    } else if has_role {
        (false, "you already have this role")
    } else {
        (true, "role added")
    }
}

/// Decides a member's request to drop a role: whether the role is taken,
/// and the answer.
pub fn iamn(self_assignable: bool, has_role: bool) -> (r: (bool, &'static str))
    ensures
        (r.0, r.1@) == iamn_answer(self_assignable, has_role),
{
    if !self_assignable {
        (false, "this role is not self-assignable")
    } else if !has_role {
        (false, "you already don't have this role")
    } else {
        (true, "role removed")
    }
}

/// The text of `n` copies of `c`.
pub open spec fn repeated(c: char, n: nat) -> Seq<char> {
    Seq::new(n, |i: int| c)
}

/// The rare answer to a ping, with `r` times `R` and `n` times `N`.
pub open spec fn bwong(r: nat, n: nat) -> Seq<char> {
    "BWO"@ + repeated('R', r) + repeated('N', n) + "G"@
}

/// The answer to a ping: `pong`, or the rare answer if `rare`.
pub open spec fn ping_answer(rare: bool, r: nat, n: nat) -> Seq<char> {
    if rare {
        bwong(r, n)
    } else {
        "pong"@
    }
}

fn push_repeated(out: &mut String, c: char, n: usize)
    ensures
        final(out)@ == old(out)@ + repeated(c, n as nat),
{
    let mut i: usize = 0;
    assert(out@ =~= old(out)@ + repeated(c, 0));
    while i < n
        invariant
            i <= n,
            out@ == old(out)@ + repeated(c, i as nat),
        decreases n - i,
    {
        push_char(out, c);
        assert(out@ =~= old(out)@ + repeated(c, (i + 1) as nat));
        i += 1;
    }
}

/// Writes the answer to a ping, given what was drawn.
pub fn ping_reply(rare: bool, r: usize, n: usize) -> (reply: String)
    ensures
        reply@ == ping_answer(rare, r as nat, n as nat),
{
    if rare {
        let mut out = String::from_str("BWO");
        push_repeated(&mut out, 'R', r);
        push_repeated(&mut out, 'N', n);
        out.append("G");
        out
    } else {
        String::from_str("pong")
    }
}

/// Draws a flag that is set `numerator` times in `denominator`.
///
/// Wraps `rand::Rng::gen_ratio` on `rand::thread_rng`, which asks for a
/// denominator above zero and a numerator that is no greater. Nothing is
/// claimed of the flag.
#[verifier::external_body]
fn draw_ratio(numerator: u32, denominator: u32) -> (r: bool)
    requires
        0 < denominator,
        numerator <= denominator,
{
    rand::Rng::gen_ratio(&mut rand::thread_rng(), numerator, denominator)
}

/// Draws a number from `low` up to, but not including, `high`.
///
/// Wraps `rand::Rng::gen_range` on `rand::thread_rng`, which asks for a
/// range that is not empty. Only the range is claimed.
#[verifier::external_body]
fn draw_below(low: usize, high: usize) -> (r: usize)
    requires
        low < high,
    ensures
        low <= r < high,
{
    rand::Rng::gen_range(&mut rand::thread_rng(), low..high)
}

/// Answers a ping: `pong`, but once in a hundred times the long answer,
/// with 3 to 19 times `R` and 1 to 4 times `N`.
pub fn ping() -> (reply: String)
    ensures
        reply@ == "pong"@ || exists|r: nat, n: nat|
            3 <= r < 20 && 1 <= n < 5 && reply@ == #[trigger] bwong(r, n),
{
    if draw_ratio(1, 100) {
        let r = draw_below(3, 20);
        let n = draw_below(1, 5);
        let reply = ping_reply(true, r, n);
        assert(reply@ == bwong(r as nat, n as nat));
        reply
    } else {
        ping_reply(false, 0, 0)
    }
}

/// The emoji for the first `count` letters of the alphabet.
pub open spec fn letters(count: nat) -> Seq<ReactionView> {
    Seq::new(count, |i: int| ReactionView::Unicode(seq![letter(i as u8)]))
}

/// The thumbs-up sign.
pub const THUMBS_UP: u32 = 0x1F44D;

/// The thumbs-down sign.
pub const THUMBS_DOWN: u32 = 0x1F44E;

/// The emoji that a poll is answered with: those of the message, if it has
/// any; else, if the command names a number, as many letters, 26 at most;
/// else thumbs up and thumbs down.
pub open spec fn poll_emoji(msg: &MessagePart, count: Option<u8>) -> Seq<ReactionView> {
    if emoji_of(msg).len() > 0 {
        emoji_of(msg)
    } else {
        match count {
            Some(n) => letters(
                if n > 26 {
                    26
                } else {
                    n as nat
                },
            ),
            None => seq![
                ReactionView::Unicode(seq![THUMBS_UP as char]),
                ReactionView::Unicode(seq![THUMBS_DOWN as char]),
            ],
        }
    }
}

fn sign_reaction(code: u32) -> (r: Reaction)
    requires
        code == THUMBS_UP || code == THUMBS_DOWN,
    ensures
        r@ == ReactionView::Unicode(seq![code as char]),
{
    let mut text = String::new();
    match char_of(code) {
        Some(c) => {
            push_char(&mut text, c);
            assert(text@ =~= seq![code as char]);
        },
        None => {},
    }
    Reaction::Unicode(text)
}

/// Chooses the emoji that a poll is answered with.
pub fn poll(msg: &MessagePart, count: Option<u8>) -> (r: Vec<Reaction>)
    ensures
        reactions_view(r@) == poll_emoji(msg, count),
{
    let mut out: Vec<Reaction> = Vec::new();
    collect_emoji(msg, &mut out);
    assert(reactions_view(out@) =~= emoji_of(msg));
    if out.len() > 0 {
        return out;
    }
    match count {
        Some(n) => {
            let limit: u8 = if n > 26 {
                26
            } else {
                n
            };
            let mut i: u8 = 0;
            assert(reactions_view(out@) =~= letters(0));
            while i < limit
                invariant
                    i <= limit <= 26,
                    reactions_view(out@) == letters(i as nat),
                decreases limit - i,
            {
                let ghost before = out@;
                let emoji = nth_letter(i);
                out.push(emoji);
                assert(reactions_view(out@) =~= reactions_view(before).push(emoji@));
                assert(reactions_view(out@) =~= letters((i + 1) as nat));
                i += 1;
            }
        },
        None => {
            out.push(sign_reaction(THUMBS_UP));
            out.push(sign_reaction(THUMBS_DOWN));
            assert(reactions_view(out@) =~= poll_emoji(msg, count));
        },
    }
    out
}

} // verus!
