//! Death-message patterns: localized templates turned into anchored regular
//! expressions, and the matchers compiled from them.

use vstd::prelude::*;
use vstd::string::*;
use crate::grammar::{
    find_literal_end, lemma_literal_end_bounds, literal_end, placeholder_at, placeholder_len,
};
use crate::text::{chars_of, text_of};

verus! {

/// A compiled regular expression of the `regex` crate, carried as it is.
#[verifier::external_type_specification]
#[verifier::external_body]
pub struct ExRegex(regex::Regex);

/// The error of the `regex` crate's compiler, carried as it is.
#[verifier::external_type_specification]
#[verifier::external_body]
pub struct ExRegexError(regex::Error);

/// Whether `regex::Regex::new`, with its default limits, accepts the pattern `source`.
pub uninterp spec fn regex_compiles(source: Seq<char>) -> bool;

/// Whether the regular expression compiled from `source` matches somewhere in `text`.
pub uninterp spec fn regex_is_match(source: Seq<char>, text: Seq<char>) -> bool;

/// Whether a character has a meaning of its own in a regular expression.
pub open spec fn is_meta(c: char) -> bool {
    c == '\\' || c == '.' || c == '+' || c == '*' || c == '?' || c == '(' || c == ')' || c == '|'
        || c == '[' || c == ']' || c == '{' || c == '}' || c == '^' || c == '$' || c == '#'
        || c == '&' || c == '-' || c == '~'
}

/// The pattern that matches exactly the text `literal`: the text with a
/// backslash before each character that has a meaning of its own.
pub open spec fn regex_escaped(literal: Seq<char>) -> Seq<char>
    decreases literal.len(),
{
    if literal.len() == 0 {
        Seq::empty()
    } else if is_meta(literal.last()) {
        regex_escaped(literal.drop_last()).push('\\').push(literal.last())
    } else {
        regex_escaped(literal.drop_last()).push(literal.last())
    }
}

/// The pattern for the part of `template` that starts at `from`: literal text
/// is escaped, every `%N$s` placeholder becomes `.*`.
pub open spec fn pattern_body(template: Seq<char>, from: int) -> Seq<char>
    decreases template.len() - from,
{
    if from < 0 || from >= template.len() {
        Seq::empty()
    } else {
        let e = literal_end(template, from);
        let literal = regex_escaped(template.subrange(from, e));
        let next = e + placeholder_len(template, e);
        if e >= template.len() || next <= from {
            literal
        } else {
            literal + ".*"@ + pattern_body(template, next)
        }
    }
}

/// The anchored pattern that recognizes the messages made from `template`.
pub open spec fn pattern_source(template: Seq<char>) -> Seq<char> {
    "^"@ + pattern_body(template, 0) + "$"@
}

/// Escapes a literal text for use inside a pattern.
///
/// Wraps `regex::escape`, which puts a backslash before each of the
/// characters that `is_meta` lists and copies the others.
#[verifier::external_body]
fn escape(literal: &str) -> (r: String)
    ensures
        r@ == regex_escaped(literal@),
{
    regex::escape(literal)
}

/// Turns a message template into the source of an anchored regular expression.
pub fn format_to_regex(format: &str) -> (r: String)
    ensures
        r@ == pattern_source(format@),
{
    let chars = chars_of(format);
    let cs = chars.as_slice();
    let len = cs.len();
    let mut out = String::from_str("^");
    let mut i: usize = 0;
    while i < len
        invariant
            i <= len,
            len == cs@.len(),
            out@ + pattern_body(cs@, i as int) == "^"@ + pattern_body(cs@, 0),
        decreases len - i,
    {
        let ghost before = out@;
        let e = find_literal_end(cs, i);
        let literal = text_of(cs, i, e);
        let escaped = escape(literal.as_str());
        out.append(escaped.as_str());
        if e >= len {
            assert(before + pattern_body(cs@, i as int) =~= out@ + pattern_body(cs@, len as int));
            i = len;
        } else {
            proof {
                lemma_literal_end_bounds(cs@, i as int);
            }
            let n = placeholder_at(cs, e);
            out.append(".*");
            assert(before + pattern_body(cs@, i as int) =~= out@ + pattern_body(cs@, e + n));
            i = e + n;
        }
    }
    assert(out@ + pattern_body(cs@, i as int) =~= out@);
    out.append("$");
    out
}

/// One compiled death-message pattern, with the resource key it came from.
///
/// The matcher is always the one compiled from `source`: a value is only ever
/// built by `compile`.
pub struct DeathPattern {
    key: String,
    source: String,
    matcher: regex::Regex,
}

impl DeathPattern {
    /// The resource key of the template.
    pub closed spec fn key(&self) -> Seq<char> {
        self.key@
    }

    /// The source of the regular expression.
    pub closed spec fn source(&self) -> Seq<char> {
        self.source@
    }

    /// Compiles `source` into a matcher.
    ///
    /// Wraps `regex::Regex::new`, which fails on a malformed or oversized
    /// pattern; the contract names when it succeeds and says that the value
    /// keeps `key` and `source`.
    #[verifier::external_body]
    pub(crate) fn compile(key: String, source: String) -> (r: Result<DeathPattern, regex::Error>)
        ensures
            match r {
                Ok(p) => regex_compiles(source@) && p.key() == key@ && p.source() == source@,
                Err(_) => !regex_compiles(source@),
            },
    {
        let matcher = regex::Regex::new(&source)?;
        Ok(DeathPattern { key, source, matcher })
    }

    /// Tests `text` against the matcher.
    ///
    /// Wraps `regex::Regex::is_match`; the contract names its result by the
    /// source that the matcher was compiled from.
    #[verifier::external_body]
    pub(crate) fn is_match(&self, text: &str) -> (r: bool)
        ensures
            r == regex_is_match(self.source(), text@),
    {
        self.matcher.is_match(text)
    }

    /// Builds the pattern for one template of the language resource.
    pub fn from_template(key: &str, template: &str) -> (r: Result<DeathPattern, regex::Error>)
        ensures
            match r {
                Ok(p) => regex_compiles(pattern_source(template@)) && p.key() == key@ && p.source()
                    == pattern_source(template@),
                Err(_) => !regex_compiles(pattern_source(template@)),
            },
    {
        DeathPattern::compile(key.to_owned(), format_to_regex(template))
    }

    /// The resource key of the template.
    pub fn resource_key(&self) -> (r: &str)
        ensures
            r@ == self.key(),
    {
        self.key.as_str()
    }

    /// The source of the regular expression.
    pub fn pattern(&self) -> (r: &str)
        ensures
            r@ == self.source(),
    {
        self.source.as_str()
    }
}

/// The sources of a list of patterns, in order.
pub open spec fn sources(patterns: Seq<DeathPattern>) -> Seq<Seq<char>> {
    patterns.map_values(|p: DeathPattern| p.source())
}

/// The resource keys of a list of patterns, in order.
pub open spec fn keys(patterns: Seq<DeathPattern>) -> Seq<Seq<char>> {
    patterns.map_values(|p: DeathPattern| p.key())
}

/// Whether one of the patterns compiled from `sources` matches `text`.
pub open spec fn any_matches(sources: Seq<Seq<char>>, text: Seq<char>) -> bool {
    exists|i: int| 0 <= i < sources.len() && regex_is_match(#[trigger] sources[i], text)
}

/// Tests `text` against each of `patterns`.
pub fn matches_any(patterns: &Vec<DeathPattern>, text: &str) -> (r: bool)
    ensures
        r == any_matches(sources(patterns@), text@),
{
    let mut i: usize = 0;
    while i < patterns.len()
        invariant
            i <= patterns@.len(),
            forall|j: int| 0 <= j < i ==> !regex_is_match(#[trigger] sources(patterns@)[j], text@),
        decreases patterns@.len() - i,
    {
        if patterns[i].is_match(text) {
            assert(regex_is_match(sources(patterns@)[i as int], text@));
            return true;
        }
        i += 1;
    }
    false
}

} // verus!
