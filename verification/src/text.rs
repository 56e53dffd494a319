//! Character-level helpers shared by the parsers and the renderers.

use vstd::prelude::*;
use vstd::std_specs::iter::IteratorSpec;
use vstd::string::*;

verus! {

/// The classes of characters that the line grammar distinguishes.
#[derive(Clone, Copy, Debug, PartialEq, Eq)]
pub enum Class {
    /// An ASCII decimal digit.
    Digit,
    /// A character of the game's identifier alphabet: ASCII letters, digits and `_`.
    Name,
    /// Anything but a closing square bracket.
    NotClose,
    /// Anything but a line feed.
    NotNewline,
    /// Anything but a space.
    NotSpace,
    /// A space.
    Space,
    /// Anything but `>`.
    NotGreater,
    /// Anything but `@`, `#` and `:`.
    TagName,
}

pub open spec fn is_digit(c: char) -> bool {
    '0' <= c && c <= '9'
}

pub open spec fn is_name_char(c: char) -> bool {
    ('A' <= c && c <= 'Z') || ('a' <= c && c <= 'z') || is_digit(c) || c == '_'
}

pub open spec fn in_class(k: Class, c: char) -> bool {
    match k {
        Class::Digit => is_digit(c),
        Class::Name => is_name_char(c),
        Class::NotClose => c != ']',
        Class::NotNewline => c != '\n',
        Class::NotSpace => c != ' ',
        Class::Space => c == ' ',
        Class::NotGreater => c != '>',
        Class::TagName => c != '@' && c != '#' && c != ':',
    }
}

/// The length of the longest run of characters of class `k` in `s` that starts at `from`.
pub open spec fn run(s: Seq<char>, from: int, k: Class) -> int
    decreases s.len() - from,
{
    if 0 <= from < s.len() && in_class(k, s[from]) {
        1 + run(s, from + 1, k)
    } else {
        0
    }
}

/// Whether `lit` stands in `s` at position `at`.
pub open spec fn has_at(s: Seq<char>, at: int, lit: Seq<char>) -> bool {
    0 <= at && at + lit.len() <= s.len() && s.subrange(at, at + lit.len()) == lit
}

pub proof fn lemma_run_bounds(s: Seq<char>, from: int, k: Class)
    requires
        0 <= from <= s.len(),
    ensures
        0 <= run(s, from, k) <= s.len() - from,
        forall|i: int| from <= i < from + run(s, from, k) ==> in_class(k, #[trigger] s[i]),
        from + run(s, from, k) < s.len() ==> !in_class(k, s[from + run(s, from, k)]),
    decreases s.len() - from,
{
    if from < s.len() && in_class(k, s[from]) {
        lemma_run_bounds(s, from + 1, k);
    }
}

/// A run is as long as the stretch of characters of the class that ends
/// at a character of another class or at the end of the text.
pub proof fn lemma_run_exact(s: Seq<char>, from: int, k: Class, n: int)
    requires
        0 <= from,
        0 <= n,
        from + n <= s.len(),
        forall|i: int| from <= i < from + n ==> in_class(k, #[trigger] s[i]),
        from + n == s.len() || !in_class(k, s[from + n]),
    ensures
        run(s, from, k) == n,
    decreases n,
{
    if n > 0 {
        lemma_run_exact(s, from + 1, k, n - 1);
    }
}

pub fn class_has(k: Class, c: char) -> (r: bool)
    ensures
        r == in_class(k, c),
{
    match k {
        Class::Digit => '0' <= c && c <= '9',
        Class::Name => ('A' <= c && c <= 'Z') || ('a' <= c && c <= 'z') || ('0' <= c && c <= '9')
            || c == '_',
        Class::NotClose => c != ']',
        Class::NotNewline => c != '\n',
        Class::NotSpace => c != ' ',
        Class::Space => c == ' ',
        Class::NotGreater => c != '>',
        Class::TagName => c != '@' && c != '#' && c != ':',
    }
}

/// Measures the run of class `k` that starts at `from`.
pub fn scan(cs: &[char], from: usize, k: Class) -> (n: usize)
    requires
        from <= cs@.len(),
    ensures
        n == run(cs@, from as int, k),
        from + n <= cs@.len(),
{
    let mut i: usize = from;
    proof {
        lemma_run_bounds(cs@, from as int, k);
    }
    while i < cs.len() && class_has(k, cs[i])
        invariant
            from <= i <= cs@.len(),
            run(cs@, from as int, k) == (i - from) + run(cs@, i as int, k),
        decreases cs@.len() - i,
    {
        i += 1;
    }
    i - from
}

/// Tests whether the text `lit` stands in `cs` at position `at`.
pub fn matches_at(cs: &[char], at: usize, lit: &str) -> (r: bool)
    requires
        at <= cs@.len(),
    ensures
        r == has_at(cs@, at as int, lit@),
{
    let n = lit.unicode_len();
    let len = cs.len();
    if n > len - at {
        return false;
    }
    let mut i: usize = 0;
    while i < n
        invariant
            i <= n,
            n == lit@.len(),
            len == cs@.len(),
            at + n <= len,
            cs@.subrange(at as int, at + i) == lit@.subrange(0, i as int),
        decreases n - i,
    {
        if cs[at + i] != lit.get_char(i) {
            assert(cs@.subrange(at as int, at + n)[i as int] != lit@[i as int]);
            return false;
        }
        assert(cs@.subrange(at as int, at + i + 1) =~= cs@.subrange(at as int, at + i).push(
            cs@[at + i],
        ));
        assert(lit@.subrange(0, i + 1) =~= lit@.subrange(0, i as int).push(lit@[i as int]));
        i += 1;
    }
    assert(lit@.subrange(0, n as int) =~= lit@);
    true
}

/// The characters of `s`, in order.
pub fn chars_of(s: &str) -> (v: Vec<char>)
    ensures
        v@ == s@,
{
    broadcast use vstd::string::group_string_axioms;

    let mut v: Vec<char> = Vec::new();
    let mut it = s.chars();
    assert(it.remaining() == s@);
    loop
        invariant
            it.obeys_prophetic_iter_laws(),
            v@ + it.remaining() == s@,
        decreases s@.len() - v@.len(),
    {
        let ghost before = it.remaining();
        match it.next() {
            Some(c) => {
                v.push(c);
                assert(v@ + it.remaining() =~= s@);
            },
            None => {
                assert(v@ =~= s@);
                return v;
            },
        }
    }
}

/// Appends one character to a string.
///
/// Wraps `String::push`: the new text is the old text followed by `c`.
#[verifier::external_body]
pub(crate) fn push_char(s: &mut String, c: char)
    ensures
        final(s)@ == old(s)@.push(c),
{
    s.push(c)
}

/// The text made of the characters `cs[from..to]`.
pub fn text_of(cs: &[char], from: usize, to: usize) -> (s: String)
    requires
        from <= to <= cs@.len(),
    ensures
        s@ == cs@.subrange(from as int, to as int),
{
    let mut s = String::new();
    let mut i: usize = from;
    while i < to
        invariant
            from <= i <= to <= cs@.len(),
            s@ == cs@.subrange(from as int, i as int),
        decreases to - i,
    {
        push_char(&mut s, cs[i]);
        assert(s@ =~= cs@.subrange(from as int, i + 1));
        i += 1;
    }
    s
}

/// Whether two texts hold the same characters.
pub fn same_text(a: &str, b: &str) -> (r: bool)
    ensures
        r == (a@ == b@),
{
    let x = chars_of(a);
    if x.len() != b.unicode_len() {
        return false;
    }
    let r = matches_at(x.as_slice(), 0, b);
    proof {
        if r {
            assert(x@.subrange(0, b@.len() as int) =~= x@);
        } else if a@ == b@ {
            assert(x@.subrange(0, b@.len() as int) =~= x@);
        }
    }
    r
}

} // verus!
