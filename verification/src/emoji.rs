//! The emoji of a message, and the letters that stand for a poll's choices.

use vstd::prelude::*;
use vstd::string::*;
use crate::format::MessagePart;
use crate::text::push_char;

verus! {

/// An emoji that a message can be answered with.
pub enum Reaction {
    Unicode(String),
    Custom { name: String, id: u64 },
}

pub enum ReactionView {
    Unicode(Seq<char>),
    Custom { name: Seq<char>, id: u64 },
}

impl View for Reaction {
    type V = ReactionView;

    open spec fn view(&self) -> ReactionView {
        match self {
            Reaction::Unicode(text) => ReactionView::Unicode(text@),
            Reaction::Custom { name, id } => ReactionView::Custom { name: name@, id: *id },
        }
    }
}

pub open spec fn reactions_view(reactions: Seq<Reaction>) -> Seq<ReactionView> {
    reactions.map_values(|r: Reaction| r@)
}

/// The emoji of a fragment, in the order of the message.
pub open spec fn emoji_of(part: &MessagePart) -> Seq<ReactionView>
    decreases part,
{
    match part {
        MessagePart::Nested(parts) => emoji_of_all(parts@),
        MessagePart::UnicodeEmoji(text) => seq![ReactionView::Unicode(text@)],
        MessagePart::CustomEmoji { name, id } => seq![
            ReactionView::Custom { name: name@, id: *id },
        ],
        _ => Seq::empty(),
    }
}

pub open spec fn emoji_of_all(parts: Seq<MessagePart>) -> Seq<ReactionView>
    decreases parts,
{
    if parts.len() == 0 {
        Seq::empty()
    } else {
        emoji_of_all(parts.drop_last()) + emoji_of(&parts.last())
    }
}

/// Appends the emoji of `part` to `out`.
pub fn collect_emoji(part: &MessagePart, out: &mut Vec<Reaction>)
    ensures
        reactions_view(final(out)@) == reactions_view(old(out)@) + emoji_of(part),
    decreases part,
{
    let ghost before = out@;
    match part {
        MessagePart::Nested(parts) => {
            let mut i: usize = 0;
            assert(parts@.subrange(0, 0) =~= Seq::<MessagePart>::empty());
            assert(reactions_view(out@) =~= reactions_view(before) + emoji_of_all(
                parts@.subrange(0, 0),
            ));
            while i < parts.len()
                invariant
                    i <= parts@.len(),
                    decreases_to!(part => *parts),
                    reactions_view(out@) == reactions_view(before) + emoji_of_all(
                        parts@.subrange(0, i as int),
                    ),
                decreases parts@.len() - i,
            {
                proof {
                    vstd::std_specs::vec::axiom_vec_index_decreases(*parts, i as int);
                }
                collect_emoji(&parts[i], out);
                assert(parts@.subrange(0, i + 1).drop_last() =~= parts@.subrange(0, i as int));
                assert(parts@.subrange(0, i + 1).last() == parts@[i as int]);
                assert(reactions_view(out@) =~= reactions_view(before) + emoji_of_all(
                    parts@.subrange(0, i + 1),
                ));
                i += 1;
            }
            assert(parts@.subrange(0, i as int) =~= parts@);
        },
        MessagePart::UnicodeEmoji(text) => {
            out.push(Reaction::Unicode(text.clone()));
            assert(reactions_view(out@) =~= reactions_view(before) + emoji_of(part));
        },
        MessagePart::CustomEmoji { name, id } => {
            out.push(Reaction::Custom { name: name.clone(), id: *id });
            assert(reactions_view(out@) =~= reactions_view(before) + emoji_of(part));
        },
        _ => {
            assert(reactions_view(out@) =~= reactions_view(before) + emoji_of(part));
        },
    }
}

/// Walks over the emoji of a message.
pub struct Iter {
    rest: Vec<Reaction>,
}

impl Iter {
    /// The emoji that are still to come.
    pub closed spec fn remaining(&self) -> Seq<ReactionView> {
        reactions_view(self.rest@).reverse()
    }

    /// Starts a walk over the emoji of `msg`.
    pub fn new(msg: &MessagePart) -> (r: Iter)
        ensures
            r.remaining() == emoji_of(msg),
    {
        let mut found: Vec<Reaction> = Vec::new();
        collect_emoji(msg, &mut found);
        assert(reactions_view(found@) =~= emoji_of(msg));
        let mut rest: Vec<Reaction> = Vec::new();
        assert(reactions_view(rest@).reverse() + reactions_view(found@) =~= emoji_of(msg));
        while found.len() > 0
            invariant
                reactions_view(found@) + reactions_view(rest@).reverse() == emoji_of(msg),
            decreases found@.len(),
        {
            let ghost f = found@;
            let ghost r = rest@;
            let last = found.pop().unwrap();
            rest.push(last);
            assert(reactions_view(f) =~= reactions_view(found@).push(last@));
            assert(reactions_view(rest@).reverse() =~= seq![last@] + reactions_view(r).reverse());
            assert(reactions_view(found@) + reactions_view(rest@).reverse() =~= reactions_view(f)
                + reactions_view(r).reverse());
        }
        assert(reactions_view(found@) + reactions_view(rest@).reverse() =~= reactions_view(
            rest@,
        ).reverse());
        Iter { rest }
    }

    /// Hands out the next emoji, if one is left.
    pub fn next(&mut self) -> (r: Option<Reaction>)
        ensures
            match r {
                Some(emoji) => old(self).remaining().len() > 0 && emoji@ == old(
                    self,
                ).remaining()[0] && final(self).remaining() == old(self).remaining().drop_first(),
                None => old(self).remaining().len() == 0 && final(self).remaining() == old(
                    self,
                ).remaining(),
            },
    {
        let ghost before = self.rest@;
        match self.rest.pop() {
            Some(emoji) => {
                assert(reactions_view(before) =~= reactions_view(self.rest@).push(emoji@));
                assert(reactions_view(self.rest@).reverse() =~= reactions_view(
                    before,
                ).reverse().drop_first());
                Some(emoji)
            },
            None => None,
        }
    }
}

/// The first of the regional indicator symbols, which stands for the letter A.
pub const REGIONAL_INDICATOR_A: u32 = 0x1F1E6;

/// The regional indicator symbol for the `n`-th letter of the alphabet, counted from 0.
pub open spec fn letter(n: u8) -> char {
    (REGIONAL_INDICATOR_A + n as u32) as char
}

/// The character with the given code.
///
/// Wraps `char::from_u32`, which gives a character for every code but
/// those of the surrogates and those above the last code point.
#[verifier::external_body]
pub(crate) fn char_of(code: u32) -> (r: Option<char>)
    ensures
        r == (if code <= 0xD7FF || (0xE000 <= code && code <= 0x10FFFF) {
            Some(code as char)
        } else {
            None
        }),
{
    char::from_u32(code)
}

/// The emoji for the `n`-th letter of the alphabet, counted from 0 and below 26.
pub fn nth_letter(n: u8) -> (r: Reaction)
    requires
        n < 26,
    ensures
        r@ == ReactionView::Unicode(seq![letter(n)]),
{
    let mut text = String::new();
    match char_of(REGIONAL_INDICATOR_A + n as u32) {
        Some(c) => {
            push_char(&mut text, c);
            assert(text@ =~= seq![letter(n)]);
        },
        None => {},
    }
    Reaction::Unicode(text)
}

} // verus!
