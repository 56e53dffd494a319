//! Taking a command apart, word by word.

use vstd::prelude::*;
use vstd::string::*;
use crate::people::{only_named, Person, PersonId};
use crate::text::{chars_of, is_digit, lemma_run_bounds, run, same_text, scan, text_of, Class};

verus! {

/// The text `s` without its first `n` characters.
pub open spec fn after(s: Seq<char>, n: int) -> Seq<char> {
    s.subrange(n, s.len() as int)
}

/// The first word of `s`: the characters before the first space.
pub open spec fn first_word(s: Seq<char>) -> Seq<char> {
    s.subrange(0, run(s, 0, Class::NotSpace))
}

/// The text `s` without its first word and the spaces that follow it.
pub open spec fn after_word(s: Seq<char>) -> Seq<char> {
    let rest = after(s, run(s, 0, Class::NotSpace));
    after(rest, run(rest, 0, Class::Space))
}

/// Removes `prefix` from the start of `cmd`, if it stands there.
pub fn eat_optional_prefix(cmd: &mut &str, prefix: char) -> (r: bool)
    ensures
        r == (old(cmd)@.len() > 0 && old(cmd)@[0] == prefix),
        r ==> final(cmd)@ == after(old(cmd)@, 1),
        !r ==> final(cmd)@ == old(cmd)@,
{
    let n = cmd.unicode_len();
    if n > 0 && cmd.get_char(0) == prefix {
        *cmd = cmd.substring_char(1, n);
        true
    } else {
        false
    }
}

/// Removes the spaces at the start of `cmd`.
pub fn eat_whitespace(cmd: &mut &str)
    ensures
        final(cmd)@ == after(old(cmd)@, run(old(cmd)@, 0, Class::Space)),
{
    let chars = chars_of(cmd);
    let n = scan(chars.as_slice(), 0, Class::Space);
    *cmd = cmd.substring_char(n, chars.len());
}

/// The first word of `cmd`, if `cmd` does not start with a space or end at once.
pub fn next_word(cmd: &str) -> (r: Option<String>)
    ensures
        r is Some <==> first_word(cmd@).len() > 0,
        r is Some ==> r->0@ == first_word(cmd@),
{
    let chars = chars_of(cmd);
    let n = scan(chars.as_slice(), 0, Class::NotSpace);
    if n == 0 {
        None
    } else {
        Some(text_of(chars.as_slice(), 0, n))
    }
}

/// Removes the first word of `cmd` and the spaces after it, and hands the
/// word out. Without a first word `cmd` stays.
pub fn eat_word(cmd: &mut &str) -> (r: Option<String>)
    ensures
        r is Some <==> first_word(old(cmd)@).len() > 0,
        r is Some ==> r->0@ == first_word(old(cmd)@) && final(cmd)@ == after_word(old(cmd)@),
        r is None ==> final(cmd)@ == old(cmd)@,
{
    let chars = chars_of(cmd);
    let n = scan(chars.as_slice(), 0, Class::NotSpace);
    if n == 0 {
        None
    } else {
        let word = text_of(chars.as_slice(), 0, n);
        *cmd = cmd.substring_char(n, chars.len());
        eat_whitespace(cmd);
        Some(word)
    }
}

/// The identifier that `serenity` reads from a user mention, `<@..>` or `<@!..>`.
pub uninterp spec fn user_mention_id(mention: Seq<char>) -> Option<u64>;

/// The identifier that `serenity` reads from a role mention, `<@&..>`.
pub uninterp spec fn role_mention_id(mention: Seq<char>) -> Option<u64>;

/// Reads a user mention.
///
/// Wraps `serenity::utils::parse_user_mention`, which cuts the text's last
/// byte off: the text has to end in `>`. The contract only names the result.
#[verifier::external_body]
fn parse_user_mention(mention: &str) -> (r: Option<u64>)
    requires
        mention@.len() > 0,
        mention@.last() == '>',
    ensures
        r == user_mention_id(mention@),
{
    match serenity::utils::parse_user_mention(mention) {
        Some(id) => Some(id.get()),
        None => None,
    }
}

/// Reads a role mention.
///
/// Wraps `serenity::utils::parse_role_mention`; the contract only names the
/// result.
#[verifier::external_body]
fn parse_role_mention(mention: &str) -> (r: Option<u64>)
    ensures
        r == role_mention_id(mention@),
{
    match serenity::utils::parse_role_mention(mention) {
        Some(id) => Some(id.get()),
        None => None,
    }
}

/// The text that may be a mention at the start of `s`: from a `<` at the
/// start up to the first `>`.
pub open spec fn mention_candidate(s: Seq<char>) -> Option<Seq<char>> {
    let n = run(s, 0, Class::NotGreater);
    if s.len() > 0 && s[0] == '<' && n < s.len() {
        Some(s.subrange(0, n + 1))
    } else {
        None
    }
}

fn candidate(cmd: &str) -> (r: Option<String>)
    ensures
        match r {
            Some(text) => mention_candidate(cmd@) == Some(text@) && text@.len() > 0 && text@.last()
                == '>',
            None => mention_candidate(cmd@) is None,
        },
{
    let chars = chars_of(cmd);
    let cs = chars.as_slice();
    if cs.len() == 0 || cs[0] != '<' {
        return None;
    }
    let n = scan(cs, 0, Class::NotGreater);
    if n >= cs.len() {
        return None;
    }
    proof {
        lemma_run_bounds(cs@, 0, Class::NotGreater);
    }
    Some(text_of(cs, 0, n + 1))
}

/// What a mention at the start of a command gives, once read: the
/// identifier, and the command without its first word; or nothing, and the
/// command as it was.
pub open spec fn eaten(s: Seq<char>, id: Option<u64>) -> (Option<u64>, Seq<char>) {
    if id is Some {
        (id, after_word(s))
    } else {
        (None, s)
    }
}

/// The identifier of the user mentioned at the start of `s`.
pub open spec fn user_mentioned(s: Seq<char>) -> Option<u64> {
    match mention_candidate(s) {
        Some(text) => user_mention_id(text),
        None => None,
    }
}

/// The identifier of the role mentioned at the start of `s`.
pub open spec fn role_mentioned(s: Seq<char>) -> Option<u64> {
    match mention_candidate(s) {
        Some(text) => role_mention_id(text),
        None => None,
    }
}

/// Removes a user mention from the start of `cmd`, with the rest of its
/// word, and hands out the user's identifier.
pub fn eat_user_mention(cmd: &mut &str) -> (r: Option<u64>)
    ensures
        (r, final(cmd)@) == eaten(old(cmd)@, user_mentioned(old(cmd)@)),
{
    match candidate(cmd) {
        Some(text) => match parse_user_mention(text.as_str()) {
            Some(id) => {
                proof {
                    lemma_run_bounds(cmd@, 1, Class::NotSpace);
                }
                let _ = eat_word(cmd);
                Some(id)
            },
            None => None,
        },
        None => None,
    }
}

/// Removes a role mention from the start of `cmd`, with the rest of its
/// word, and hands out the role's identifier.
pub fn eat_role_mention(cmd: &mut &str) -> (r: Option<u64>)
    ensures
        (r, final(cmd)@) == eaten(old(cmd)@, role_mentioned(old(cmd)@)),
{
    match candidate(cmd) {
        Some(text) => match parse_role_mention(text.as_str()) {
            Some(id) => {
                proof {
                    lemma_run_bounds(cmd@, 1, Class::NotSpace);
                }
                let _ = eat_word(cmd);
                Some(id)
            },
            None => None,
        },
        None => None,
    }
}

/// A role of the community.
pub struct Role {
    pub id: u64,
    pub name: String,
}

/// The number of roles with the name `name`.
pub open spec fn count_roles(roles: Seq<Role>, name: Seq<char>) -> nat
    decreases roles.len(),
{
    if roles.len() == 0 {
        0
    } else {
        count_roles(roles.drop_last(), name) + if roles.last().name@ == name {
            1nat
        } else {
            0nat
        }
    }
}

/// The position of the first role at or after `from` with the name `name`,
/// or the number of roles.
pub open spec fn first_role(roles: Seq<Role>, name: Seq<char>, from: int) -> int
    decreases roles.len() - from,
{
    if from < 0 || from >= roles.len() {
        roles.len() as int
    } else if roles[from].name@ == name {
        from
    } else {
        first_role(roles, name, from + 1)
    }
}

/// The one role with the name `name`.
pub open spec fn only_role(roles: Seq<Role>, name: Seq<char>) -> Option<u64> {
    let i = first_role(roles, name, 0);
    if count_roles(roles, name) == 1 && 0 <= i < roles.len() {
        Some(roles[i].id)
    } else {
        None
    }
}

/// Finds the one role with the name `name`.
pub fn role_named(roles: &Vec<Role>, name: &str) -> (r: Option<u64>)
    ensures
        r == only_role(roles@, name@),
{
    let mut found: Option<u64> = None;
    let mut count: usize = 0;
    let mut i: usize = 0;
    assert(roles@.subrange(0, 0) =~= Seq::<Role>::empty());
    while i < roles.len()
        invariant
            i <= roles@.len(),
            count == count_roles(roles@.subrange(0, i as int), name@),
            count <= i,
            count == 0 ==> first_role(roles@, name@, 0) == first_role(roles@, name@, i as int),
            count > 0 ==> {
                let k = first_role(roles@, name@, 0);
                0 <= k < i && found == Some(roles@[k].id)
            },
        decreases roles@.len() - i,
    {
        assert(roles@.subrange(0, i + 1).drop_last() =~= roles@.subrange(0, i as int));
        assert(roles@.subrange(0, i + 1).last() == roles@[i as int]);
        if same_text(roles[i].name.as_str(), name) {
            if count == 0 {
                found = Some(roles[i].id);
            }
            count += 1;
        }
        i += 1;
    }
    assert(roles@.subrange(0, i as int) =~= roles@);
    if count == 1 {
        found
    } else {
        None
    }
}

/// The role that the whole of `s` stands for: the role mentioned, if
/// nothing follows the mention; without a mention, the one role of the
/// community, if it is known, that has `s` as its name.
pub open spec fn whole_role(s: Seq<char>, roles: Option<Seq<Role>>) -> (Option<u64>, Seq<char>) {
    if role_mentioned(s) is Some {
        if after_word(s).len() == 0 {
            (role_mentioned(s), after_word(s))
        } else {
            (None, s)
        }
    } else {
        match roles {
            Some(roles) => (only_role(roles, s), s),
            None => (None, s),
        }
    }
}

/// Reads a role from its mention or its name, if that is the whole command.
pub fn eat_role_full(cmd: &mut &str, roles: Option<&Vec<Role>>) -> (r: Option<u64>)
    ensures
        (r, final(cmd)@) == whole_role(
            old(cmd)@,
            match roles {
                Some(roles) => Some(roles@),
                None => None,
            },
        ),
{
    let whole: &str = *cmd;
    match eat_role_mention(cmd) {
        Some(id) => {
            if cmd.unicode_len() == 0 {
                Some(id)
            } else {
                *cmd = whole;
                None
            }
        },
        None => match roles {
            Some(roles) => role_named(roles, cmd),
            None => None,
        },
    }
}

/// The name and discriminator of a tag `@name#0000` at the start of `s`,
/// and the tag's length: a name of 2 to 32 characters other than `@`, `#`
/// and `:`, then `#`, then four digits or none.
pub open spec fn tag_at(s: Seq<char>) -> Option<(Seq<char>, Option<Seq<char>>, int)> {
    let n = run(s, 1, Class::TagName);
    let name = if n > 32 {
        32
    } else {
        n
    };
    if s.len() > 0 && s[0] == '@' && 2 <= name && 1 + name < s.len() && s[1 + name] == '#' {
        if run(s, 2 + name, Class::Digit) >= 4 {
            Some((s.subrange(1, 1 + name), Some(s.subrange(2 + name, 6 + name)), 6 + name))
        } else {
            Some((s.subrange(1, 1 + name), None, 2 + name))
        }
    } else {
        None
    }
}

/// The number that four decimal digits stand for.
pub open spec fn four_digits(d: Seq<char>) -> int {
    (d[0] as int - 48) * 1000 + (d[1] as int - 48) * 100 + (d[2] as int - 48) * 10 + (d[3] as int
        - 48)
}

/// The person that the start of `s` names, and what is left of `s`. Three
/// readings are tried in turn: a mention; a tag `@name#0000` of a person on
/// record; a first word, with or without `@` before it, that one person on
/// record goes by.
pub open spec fn person_at(s: Seq<char>, people: Seq<Person>) -> (Option<u64>, Seq<char>) {
    if user_mentioned(s) is Some {
        (user_mentioned(s), after_word(s))
    } else if tag_at(s) is Some && tagged(s, people) is Some {
        (tagged(s, people), after(s, (tag_at(s)->0).2))
    } else if first_word(s).len() > 0 && only_named(people, bare(first_word(s)), None) is Some {
        (only_named(people, bare(first_word(s)), None), after_word(s))
    } else {
        (None, s)
    }
}

/// The person that the tag at the start of `s` names. A discriminator of
/// `0000` names nobody.
pub open spec fn tagged(s: Seq<char>, people: Seq<Person>) -> Option<u64> {
    match (tag_at(s)->0).1 {
        Some(d) => if four_digits(d) == 0 {
            None
        } else {
            only_named(people, (tag_at(s)->0).0, Some(four_digits(d) as u16))
        },
        None => only_named(people, (tag_at(s)->0).0, None),
    }
}

/// A word without the `@` that may stand before it.
pub open spec fn bare(word: Seq<char>) -> Seq<char> {
    if word.len() > 0 && word[0] == '@' {
        after(word, 1)
    } else {
        word
    }
}

fn digit_value(c: char) -> (r: u16)
    requires
        is_digit(c),
    ensures
        r == c as int - 48,
        r <= 9,
{
    if c == '0' {
        0
    } else if c == '1' {
        1
    } else if c == '2' {
        2
    } else if c == '3' {
        3
    } else if c == '4' {
        4
    } else if c == '5' {
        5
    } else if c == '6' {
        6
    } else if c == '7' {
        7
    } else if c == '8' {
        8
    } else {
        9
    }
}

/// Reads a person from the start of `cmd` and removes what names them.
pub fn eat_person(cmd: &mut &str, people: &Vec<Person>) -> (r: Option<PersonId>)
    ensures
        match r {
            Some(PersonId::Discord(id)) => (Some(id), final(cmd)@) == person_at(
                old(cmd)@,
                people@,
            ),
            Some(PersonId::LegacyWurstmineberg(_)) => false,
            None => person_at(old(cmd)@, people@) == (None::<u64>, final(cmd)@),
        },
{
    if let Some(id) = eat_user_mention(cmd) {
        return Some(PersonId::Discord(id));
    }
    let chars = chars_of(cmd);
    let cs = chars.as_slice();
    let len = cs.len();
    if len > 0 && cs[0] == '@' {
        let n = scan(cs, 1, Class::TagName);
        let name: usize = if n > 32 {
            32
        } else {
            n
        };
        if 2 <= name && 1 + name < len && cs[1 + name] == '#' {
            proof {
                lemma_run_bounds(cs@, 2 + name, Class::Digit);
            }
            let digits = scan(cs, 2 + name, Class::Digit);
            let username = text_of(cs, 1, 1 + name);
            let (found, eat): (Option<u64>, usize) = if digits >= 4 {
                let d = digit_value(cs[2 + name]) * 1000 + digit_value(cs[3 + name]) * 100
                    + digit_value(cs[4 + name]) * 10 + digit_value(cs[5 + name]);
                assert(d == four_digits(cs@.subrange(2 + name, 6 + name)));
                if d == 0 {
                    (None, 6 + name)
                } else {
                    (PersonId::from_discord(people, username.as_str(), Some(d)), 6 + name)
                }
            } else {
                (PersonId::from_discord(people, username.as_str(), None), 2 + name)
            };
            if let Some(id) = found {
                *cmd = cmd.substring_char(eat, len);
                return Some(PersonId::Discord(id));
            }
        }
    }
    let n = scan(cs, 0, Class::NotSpace);
    if n > 0 {
        let from: usize = if cs[0] == '@' {
            1
        } else {
            0
        };
        let word = text_of(cs, from, n);
        assert(word@ =~= bare(first_word(cs@)));
        if let Some(id) = PersonId::from_discord(people, word.as_str(), None) {
            let _ = eat_word(cmd);
            return Some(PersonId::Discord(id));
        }
    }
    None
}

} // verus!
