//! The grammar of the server's log lines, as predicates and functions on
//! character sequences.
//!
//! Every pattern is anchored at both ends. A free-text field takes one or more
//! characters and never holds a line feed; a player name takes three to sixteen
//! characters of the game's identifier alphabet.

use vstd::prelude::*;
use crate::text::{Class, class_has, has_at, is_digit, matches_at, run, scan};

verus! {

/// The marker that the server puts before chat that it could not verify.
pub open spec fn not_secure() -> Seq<char> {
    "[Not Secure] "@
}

/// The text that announces the server's version.
pub open spec fn start_marker() -> Seq<char> {
    "Starting minecraft server version "@
}

pub open spec fn challenge_marker() -> Seq<char> {
    " has completed the challenge ["@
}

pub open spec fn goal_marker() -> Seq<char> {
    " has reached the goal ["@
}

pub open spec fn task_marker() -> Seq<char> {
    " has made the advancement ["@
}

/// Whether position `at` of `s` holds the character `c`.
pub open spec fn ch(s: Seq<char>, at: int, c: char) -> bool {
    0 <= at < s.len() && s[at] == c
}

/// Whether `s` holds two decimal digits at `at`.
pub open spec fn two_digits(s: Seq<char>, at: int) -> bool {
    0 <= at && at + 1 < s.len() && is_digit(s[at]) && is_digit(s[at + 1])
}

/// Whether a free-text field can run from `from` to the end of `s`.
pub open spec fn rest_ok(s: Seq<char>, from: int) -> bool {
    0 <= from < s.len() && run(s, from, Class::NotNewline) == s.len() - from
}

/// The number of characters that an optional "not secure" marker takes at the start of `s`.
pub open spec fn secure_skip(s: Seq<char>) -> int {
    if has_at(s, 0, not_secure()) {
        not_secure().len() as int
    } else {
        0
    }
}

/// Sender and text of a chat line `<name> text`, after the optional marker.
pub open spec fn chat_plain(s: Seq<char>) -> Option<(Seq<char>, Seq<char>)> {
    let p = secure_skip(s);
    let n = run(s, p + 1, Class::Name);
    if ch(s, p, '<') && 3 <= n <= 16 && ch(s, p + 1 + n, '>') && ch(s, p + 2 + n, ' ') && rest_ok(
        s,
        p + 3 + n,
    ) {
        Some((s.subrange(p + 1, p + 1 + n), s.subrange(p + 3 + n, s.len() as int)))
    } else {
        None
    }
}

/// Sender and text of an action line `* name text`, after the optional marker.
pub open spec fn chat_action(s: Seq<char>) -> Option<(Seq<char>, Seq<char>)> {
    let p = secure_skip(s);
    let n = run(s, p + 2, Class::Name);
    if ch(s, p, '*') && ch(s, p + 1, ' ') && 3 <= n <= 16 && ch(s, p + 2 + n, ' ') && rest_ok(
        s,
        p + 3 + n,
    ) {
        Some((s.subrange(p + 2, p + 2 + n), s.subrange(p + 3 + n, s.len() as int)))
    } else {
        None
    }
}

/// Player and title of an achievement line `name<marker>title]`.
pub open spec fn achievement(s: Seq<char>, marker: Seq<char>) -> Option<(Seq<char>, Seq<char>)> {
    let n = run(s, 0, Class::Name);
    let a = n + marker.len();
    if 3 <= n <= 16 && has_at(s, n, marker) && a + 2 <= s.len() && s[s.len() - 1] == ']'
        && run(s, a, Class::NotNewline) == s.len() - a {
        Some((s.subrange(0, n), s.subrange(a, s.len() - 1)))
    } else {
        None
    }
}

/// The version that a server-start line announces: the text that follows
/// the start marker up to the end of the line.
pub open spec fn start_version(s: Seq<char>) -> Option<Seq<char>> {
    let p = start_marker().len() as int;
    if has_at(s, 0, start_marker()) && rest_ok(s, p) {
        Some(s.subrange(p, s.len() as int))
    } else {
        None
    }
}

/// Where the thread name starts, if `s` opens with a timestamp
/// `Y-MM-DD HH:MM:SS` (a year of one or more digits), a space and `[`.
pub open spec fn stamp_end(s: Seq<char>) -> Option<int> {
    let y = run(s, 0, Class::Digit);
    if y >= 1 && ch(s, y, '-') && two_digits(s, y + 1) && ch(s, y + 3, '-') && two_digits(s, y + 4)
        && ch(s, y + 6, ' ') && two_digits(s, y + 7) && ch(s, y + 9, ':') && two_digits(s, y + 10)
        && ch(s, y + 12, ':') && two_digits(s, y + 13) && ch(s, y + 15, ' ') && ch(s, y + 16, '[') {
        Some(y + 17)
    } else {
        None
    }
}

/// Whether the bracketed field `s[from..close]` ends in `/` and the level name
/// `level`, after a thread name of at least one character.
pub open spec fn level_at(s: Seq<char>, from: int, close: int, level: Seq<char>) -> bool {
    from < close - level.len() - 1 && ch(s, close - level.len() - 1, '/') && has_at(
        s,
        close - level.len(),
        level,
    )
}

/// The fields of a line's envelope, as positions in the line.
pub struct Envelope {
    /// The thread name is `s[thread_from..thread_to]`.
    pub thread_from: int,
    pub thread_to: int,
    /// 0 for INFO, 1 for WARN, 2 for ERROR.
    pub level: int,
    /// The message body is `s[body_from..]`.
    pub body_from: int,
}

/// The envelope of the line `s`: timestamp, `[thread/LEVEL]`, a colon, a space
/// and a body of at least one character.
pub open spec fn envelope(s: Seq<char>) -> Option<Envelope> {
    match stamp_end(s) {
        None => None,
        Some(t) => {
            let close = t + run(s, t, Class::NotClose);
            let level: int = if level_at(s, t, close, "INFO"@) {
                0
            } else if level_at(s, t, close, "WARN"@) {
                1
            } else if level_at(s, t, close, "ERROR"@) {
                2
            } else {
                -1
            };
            let name_len = if level == 0 {
                "INFO"@.len()
            } else if level == 1 {
                "WARN"@.len()
            } else {
                "ERROR"@.len()
            };
            if level >= 0 && ch(s, close, ']') && ch(s, close + 1, ':') && ch(s, close + 2, ' ')
                && rest_ok(s, close + 3) {
                Some(
                    Envelope {
                        thread_from: t,
                        thread_to: close - name_len - 1,
                        level,
                        body_from: close + 3,
                    },
                )
            } else {
                None
            }
        },
    }
}

/// Whether a `%N$s` placeholder starts at `at`, and how long it is (0 if none does).
pub open spec fn placeholder_len(s: Seq<char>, at: int) -> int {
    let d = run(s, at + 1, Class::Digit);
    if ch(s, at, '%') && d >= 1 && ch(s, at + 1 + d, '$') && ch(s, at + 2 + d, 's') {
        d + 3
    } else {
        0
    }
}

/// The first position at or after `from` where a placeholder starts, or the
/// length of `s` if there is none.
pub open spec fn literal_end(s: Seq<char>, from: int) -> int
    decreases s.len() - from,
{
    if from < 0 || from >= s.len() {
        s.len() as int
    } else if placeholder_len(s, from) > 0 {
        from
    } else {
        literal_end(s, from + 1)
    }
}

pub proof fn lemma_literal_end_bounds(s: Seq<char>, from: int)
    requires
        0 <= from <= s.len(),
    ensures
        from <= literal_end(s, from) <= s.len(),
        literal_end(s, from) < s.len() ==> placeholder_len(s, literal_end(s, from)) > 0,
    decreases s.len() - from,
{
    if from < s.len() && placeholder_len(s, from) == 0 {
        lemma_literal_end_bounds(s, from + 1);
    }
}

pub fn is_char(cs: &[char], at: usize, c: char) -> (r: bool)
    ensures
        r == ch(cs@, at as int, c),
{
    at < cs.len() && cs[at] == c
}

pub fn has_two_digits(cs: &[char], at: usize) -> (r: bool)
    ensures
        r == two_digits(cs@, at as int),
{
    at < cs.len() && at + 1 < cs.len() && class_has(Class::Digit, cs[at]) && class_has(
        Class::Digit,
        cs[at + 1],
    )
}

pub fn rest_fits(cs: &[char], from: usize) -> (r: bool)
    ensures
        r == rest_ok(cs@, from as int),
{
    from < cs.len() && scan(cs, from, Class::NotNewline) == cs.len() - from
}

/// Steps over the optional "not secure" marker.
pub fn skip_secure(cs: &[char]) -> (p: usize)
    ensures
        p == secure_skip(cs@),
        p <= cs@.len(),
{
    let lit = "[Not Secure] ";
    if matches_at(cs, 0, lit) {
        lit.unicode_len()
    } else {
        0
    }
}

/// The positions `(name_from, name_to, text_from)` of a chat line's fields:
/// `action` selects the form `* name text` over `<name> text`.
pub fn find_chat(cs: &[char], action: bool) -> (r: Option<(usize, usize, usize)>)
    ensures
        match r {
            Some((from, to, text)) => from <= to <= text <= cs@.len() && (if action {
                chat_action(cs@)
            } else {
                chat_plain(cs@)
            }) == Some(
                (cs@.subrange(from as int, to as int), cs@.subrange(text as int, cs@.len() as int)),
            ),
            None => (if action {
                chat_action(cs@)
            } else {
                chat_plain(cs@)
            }) is None,
        },
{
    let p = skip_secure(cs);
    let len = cs.len();
    let from: usize = if action {
        if !(is_char(cs, p, '*') && is_char(cs, p + 1, ' ')) {
            return None;
        }
        p + 2
    } else {
        if !is_char(cs, p, '<') {
            return None;
        }
        p + 1
    };
    let n = scan(cs, from, Class::Name);
    if n < 3 || n > 16 {
        return None;
    }
    let to = from + n;
    if action {
        if !is_char(cs, to, ' ') {
            return None;
        }
        if to + 1 > len || !rest_fits(cs, to + 1) {
            return None;
        }
        Some((from, to, to + 1))
    } else {
        if !(is_char(cs, to, '>') && is_char(cs, to + 1, ' ')) {
            return None;
        }
        if !rest_fits(cs, to + 2) {
            return None;
        }
        Some((from, to, to + 2))
    }
}

/// The positions `(name_to, title_from)` of an achievement line's fields.
pub fn find_achievement(cs: &[char], marker: &str) -> (r: Option<(usize, usize)>)
    ensures
        match r {
            Some((to, title)) => to <= title < cs@.len() && achievement(cs@, marker@) == Some(
                (cs@.subrange(0, to as int), cs@.subrange(title as int, cs@.len() - 1)),
            ),
            None => achievement(cs@, marker@) is None,
        },
{
    let len = cs.len();
    let n = scan(cs, 0, Class::Name);
    if n < 3 || n > 16 {
        return None;
    }
    if !matches_at(cs, n, marker) {
        return None;
    }
    let a = n + marker.unicode_len();
    if len - a < 2 || cs[len - 1] != ']' {
        return None;
    }
    if scan(cs, a, Class::NotNewline) != len - a {
        return None;
    }
    Some((n, a))
}

/// The positions `(from, to)` of the version in a server-start line.
pub fn find_start_version(cs: &[char]) -> (r: Option<(usize, usize)>)
    ensures
        match r {
            Some((from, to)) => from <= to && to == cs@.len() && start_version(cs@) == Some(
                cs@.subrange(from as int, to as int),
            ),
            None => start_version(cs@) is None,
        },
{
    let lit = "Starting minecraft server version ";
    let p = lit.unicode_len();
    if !matches_at(cs, 0, lit) {
        return None;
    }
    if !rest_fits(cs, p) {
        return None;
    }
    Some((p, cs.len()))
}

/// The position after the timestamp and the opening bracket.
pub fn find_stamp_end(cs: &[char]) -> (r: Option<usize>)
    ensures
        match stamp_end(cs@) {
            Some(t) => r == Some(t as usize) && t <= cs@.len(),
            None => r is None,
        },
{
    let y = scan(cs, 0, Class::Digit);
    if y < 1 || cs.len() - y < 17 {
        return None;
    }
    if is_char(cs, y, '-') && has_two_digits(cs, y + 1) && is_char(cs, y + 3, '-')
        && has_two_digits(cs, y + 4) && is_char(cs, y + 6, ' ') && has_two_digits(cs, y + 7)
        && is_char(cs, y + 9, ':') && has_two_digits(cs, y + 10) && is_char(cs, y + 12, ':')
        && has_two_digits(cs, y + 13) && is_char(cs, y + 15, ' ') && is_char(cs, y + 16, '[') {
        Some(y + 17)
    } else {
        None
    }
}

/// Tests whether the bracketed field `cs[from..close]` ends in `/` and `level`.
pub fn has_level(cs: &[char], from: usize, close: usize, level: &str) -> (r: bool)
    requires
        from <= close <= cs@.len(),
    ensures
        r == level_at(cs@, from as int, close as int, level@),
{
    let n = level.unicode_len();
    if close - from < n || close - from - n < 2 {
        return false;
    }
    is_char(cs, close - n - 1, '/') && matches_at(cs, close - n, level)
}

/// The executable form of an envelope's positions.
pub struct EnvelopeAt {
    pub thread_from: usize,
    pub thread_to: usize,
    pub level: u8,
    pub body_from: usize,
}

impl EnvelopeAt {
    pub open spec fn view(&self) -> Envelope {
        Envelope {
            thread_from: self.thread_from as int,
            thread_to: self.thread_to as int,
            level: self.level as int,
            body_from: self.body_from as int,
        }
    }
}

/// Finds the envelope of a line.
pub fn find_envelope(cs: &[char]) -> (r: Option<EnvelopeAt>)
    ensures
        match envelope(cs@) {
            Some(e) => r is Some && r->0@ == e && e.thread_from <= e.thread_to <= e.body_from
                < cs@.len(),
            None => r is None,
        },
{
    let len = cs.len();
    let t = match find_stamp_end(cs) {
        Some(t) => t,
        None => {
            return None;
        },
    };
    let close = t + scan(cs, t, Class::NotClose);
    let (level, n): (u8, usize) = if has_level(cs, t, close, "INFO") {
        (0u8, "INFO".unicode_len())
    } else if has_level(cs, t, close, "WARN") {
        (1u8, "WARN".unicode_len())
    } else if has_level(cs, t, close, "ERROR") {
        (2u8, "ERROR".unicode_len())
    } else {
        return None;
    };
    if len - close < 4 {
        return None;
    }
    if is_char(cs, close, ']') && is_char(cs, close + 1, ':') && is_char(cs, close + 2, ' ')
        && rest_fits(cs, close + 3) {
        Some(EnvelopeAt { thread_from: t, thread_to: close - n - 1, level, body_from: close + 3 })
    } else {
        None
    }
}

/// The length of the placeholder that starts at `at`, or 0.
pub fn placeholder_at(cs: &[char], at: usize) -> (n: usize)
    requires
        at < cs@.len(),
    ensures
        n == placeholder_len(cs@, at as int),
        at + n <= cs@.len(),
{
    if cs[at] != '%' {
        return 0;
    }
    let d = scan(cs, at + 1, Class::Digit);
    if d >= 1 && is_char(cs, at + 1 + d, '$') && is_char(cs, at + 1 + d + 1, 's') {
        d + 3
    } else {
        0
    }
}

/// Finds where the literal text that starts at `from` ends.
pub fn find_literal_end(cs: &[char], from: usize) -> (e: usize)
    requires
        from <= cs@.len(),
    ensures
        e == literal_end(cs@, from as int),
        from <= e <= cs@.len(),
{
    let mut i: usize = from;
    while i < cs.len()
        invariant
            from <= i <= cs@.len(),
            literal_end(cs@, from as int) == literal_end(cs@, i as int),
        decreases cs@.len() - i,
    {
        if placeholder_at(cs, i) > 0 {
            return i;
        }
        i += 1;
    }
    i
}

} // verus!
