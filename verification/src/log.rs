//! Classification of the server's log lines into events, and the cache of
//! death-message patterns that the classification reads.

use vstd::prelude::*;
use vstd::string::*;
use vstd::slice::slice_subrange;
use vstd::utf8::{decode_utf8, encode_utf8_decode_utf8, valid_utf8};
use crate::grammar::{
    achievement, challenge_marker, chat_action, chat_plain, envelope, find_achievement, find_chat,
    find_envelope, find_start_version, goal_marker, not_secure, start_marker, start_version,
    task_marker,
};
use crate::pattern::{
    any_matches, keys, matches_any, pattern_source, regex_compiles, sources, DeathPattern,
};
use crate::text::{
    chars_of, has_at, in_class, is_name_char, lemma_run_exact, matches_at, same_text, text_of, Class,
};

verus! {

/// The error of the `serde_json` crate's reader, carried as it is.
#[verifier::external_type_specification]
#[verifier::external_body]
pub struct ExJsonError(serde_json::Error);

/// What can end the relay of one world's log.
pub enum LogError {
    /// The language resource is no flat JSON object of texts.
    Json(serde_json::Error),
    /// A death-message template gave a pattern that does not compile.
    Regex(regex::Error),
    /// The channel that delivers the log's new lines failed.
    Channel,
    /// The log's stream of lines ended.
    FollowEnded,
    /// The game client's package holds no English language resource.
    MissingLangFile,
    /// The launcher's manifest does not list the server's version.
    MissingVersion,
    /// No world is configured.
    NoWorlds,
}

/// The thread that wrote a log line.
pub enum Thread {
    Server,
    Unknown(String),
}

pub enum ThreadView {
    Server,
    Unknown(Seq<char>),
}

impl View for Thread {
    type V = ThreadView;

    open spec fn view(&self) -> ThreadView {
        match self {
            Thread::Server => ThreadView::Server,
            Thread::Unknown(name) => ThreadView::Unknown(name@),
        }
    }
}

/// The thread that the name `s` stands for.
pub open spec fn thread_of(s: Seq<char>) -> ThreadView {
    if s == "Server thread"@ {
        ThreadView::Server
    } else {
        ThreadView::Unknown(s)
    }
}

impl Thread {
    pub fn from_str(s: &str) -> (r: Thread)
        ensures
            r@ == thread_of(s@),
    {
        if same_text(s, "Server thread") {
            Thread::Server
        } else {
            Thread::Unknown(s.to_owned())
        }
    }
}

/// The severity of a log line.
#[derive(Clone, Copy, Debug, PartialEq, Eq)]
pub enum Level {
    Info,
    Warn,
    Error,
}

/// The level that the name `s` stands for.
pub open spec fn level_of(s: Seq<char>) -> Option<Level> {
    if s == "INFO"@ {
        Some(Level::Info)
    } else if s == "WARN"@ {
        Some(Level::Warn)
    } else if s == "ERROR"@ {
        Some(Level::Error)
    } else {
        None
    }
}

/// The level with the given number in the envelope: 0, 1 or 2.
pub open spec fn level_numbered(n: int) -> Level {
    if n == 0 {
        Level::Info
    } else if n == 1 {
        Level::Warn
    } else {
        Level::Error
    }
}

impl Level {
    pub fn from_str(s: &str) -> (r: Result<Level, ()>)
        ensures
            r == match level_of(s@) {
                Some(level) => Ok::<Level, ()>(level),
                None => Err::<Level, ()>(()),
            },
    {
        if same_text(s, "INFO") {
            Ok(Level::Info)
        } else if same_text(s, "WARN") {
            Ok(Level::Warn)
        } else if same_text(s, "ERROR") {
            Ok(Level::Error)
        } else {
            Err(())
        }
    }
}

/// The three ranks of achievements that the server announces.
#[derive(Clone, Copy, Debug, PartialEq, Eq)]
pub enum AdvancementKind {
    Challenge,
    Goal,
    Task,
}

/// The words that announce an achievement of the given kind.
pub open spec fn marker_of(kind: AdvancementKind) -> Seq<char> {
    match kind {
        AdvancementKind::Challenge => challenge_marker(),
        AdvancementKind::Goal => goal_marker(),
        AdvancementKind::Task => task_marker(),
    }
}

/// The event that a line's message body stands for.
pub enum RegularLine {
    ServerStart,
    Chat { sender: String, msg: String, is_action: bool },
    Advancement { kind: AdvancementKind, player: String, advancement: String },
    Death { msg: String },
    Unknown(String),
}

pub enum RegularLineView {
    ServerStart,
    Chat { sender: Seq<char>, msg: Seq<char>, is_action: bool },
    Advancement { kind: AdvancementKind, player: Seq<char>, advancement: Seq<char> },
    Death { msg: Seq<char> },
    Unknown(Seq<char>),
}

impl View for RegularLine {
    type V = RegularLineView;

    open spec fn view(&self) -> RegularLineView {
        match self {
            RegularLine::ServerStart => RegularLineView::ServerStart,
            RegularLine::Chat { sender, msg, is_action } => RegularLineView::Chat {
                sender: sender@,
                msg: msg@,
                is_action: *is_action,
            },
            RegularLine::Advancement { kind, player, advancement } => RegularLineView::Advancement {
                kind: *kind,
                player: player@,
                advancement: advancement@,
            },
            RegularLine::Death { msg } => RegularLineView::Death { msg: msg@ },
            RegularLine::Unknown(text) => RegularLineView::Unknown(text@),
        }
    }
}

/// The event of the message body `s`, given the sources of the death-message
/// patterns in force. The forms are tried in a fixed order and the first that
/// fits decides: server start, chat, action, the three achievements, death.
pub open spec fn classify_body(patterns: Seq<Seq<char>>, s: Seq<char>) -> RegularLineView {
    if start_version(s) is Some {
        RegularLineView::ServerStart
    } else if chat_plain(s) is Some {
        RegularLineView::Chat {
            sender: (chat_plain(s)->0).0,
            msg: (chat_plain(s)->0).1,
            is_action: false,
        }
    } else if chat_action(s) is Some {
        RegularLineView::Chat {
            sender: (chat_action(s)->0).0,
            msg: (chat_action(s)->0).1,
            is_action: true,
        }
    } else if achievement(s, challenge_marker()) is Some {
        RegularLineView::Advancement {
            kind: AdvancementKind::Challenge,
            player: (achievement(s, challenge_marker())->0).0,
            advancement: (achievement(s, challenge_marker())->0).1,
        }
    } else if achievement(s, goal_marker()) is Some {
        RegularLineView::Advancement {
            kind: AdvancementKind::Goal,
            player: (achievement(s, goal_marker())->0).0,
            advancement: (achievement(s, goal_marker())->0).1,
        }
    } else if achievement(s, task_marker()) is Some {
        RegularLineView::Advancement {
            kind: AdvancementKind::Task,
            player: (achievement(s, task_marker())->0).0,
            advancement: (achievement(s, task_marker())->0).1,
        }
    } else if any_matches(patterns, s) {
        RegularLineView::Death { msg: s }
    } else {
        RegularLineView::Unknown(s)
    }
}

/// A log line: an envelope with an event, or text that has no envelope.
pub enum Line {
    Regular { thread: Thread, level: Level, content: RegularLine },
    Unknown(String),
}

pub enum LineView {
    Regular { thread: ThreadView, level: Level, content: RegularLineView },
    Unknown(Seq<char>),
}

impl View for Line {
    type V = LineView;

    open spec fn view(&self) -> LineView {
        match self {
            Line::Regular { thread, level, content } => LineView::Regular {
                thread: thread@,
                level: *level,
                content: content@,
            },
            Line::Unknown(text) => LineView::Unknown(text@),
        }
    }
}

/// The reading of the line `s`: a line without an envelope is unknown; of one
/// with an envelope, the body is classified.
pub open spec fn classify_line(patterns: Seq<Seq<char>>, s: Seq<char>) -> LineView {
    match envelope(s) {
        None => LineView::Unknown(s),
        Some(e) => LineView::Regular {
            thread: thread_of(s.subrange(e.thread_from, e.thread_to)),
            level: level_numbered(e.level),
            content: classify_body(patterns, s.subrange(e.body_from, s.len() as int)),
        },
    }
}

/// Whether a key of the language resource names a death message.
pub open spec fn is_death_key(key: Seq<char>) -> bool {
    has_at(key, 0, "death."@)
}

/// The pattern sources for the death messages among `entries`, in order.
pub open spec fn death_sources(entries: Seq<(Seq<char>, Seq<char>)>) -> Seq<Seq<char>>
    decreases entries.len(),
{
    if entries.len() == 0 {
        Seq::empty()
    } else {
        let rest = death_sources(entries.drop_last());
        if is_death_key(entries.last().0) {
            rest.push(pattern_source(entries.last().1))
        } else {
            rest
        }
    }
}

/// The keys of the death messages among `entries`, in order.
pub open spec fn death_keys(entries: Seq<(Seq<char>, Seq<char>)>) -> Seq<Seq<char>>
    decreases entries.len(),
{
    if entries.len() == 0 {
        Seq::empty()
    } else {
        let rest = death_keys(entries.drop_last());
        if is_death_key(entries.last().0) {
            rest.push(entries.last().0)
        } else {
            rest
        }
    }
}

/// Whether every death-message template among `entries` gives a pattern that compiles.
pub open spec fn all_compile(entries: Seq<(Seq<char>, Seq<char>)>) -> bool {
    forall|i: int|
        0 <= i < entries.len() && is_death_key(#[trigger] entries[i].0) ==> regex_compiles(
            pattern_source(entries[i].1),
        )
}

/// The key–text pairs that `serde_json` reads from a flat JSON object of
/// texts, ordered by key; `None` where it reports an error.
pub uninterp spec fn lang_table(json: Seq<char>) -> Option<Seq<(Seq<char>, Seq<char>)>>;

pub open spec fn entries_view(entries: Seq<(String, String)>) -> Seq<(Seq<char>, Seq<char>)> {
    entries.map_values(|e: (String, String)| (e.0@, e.1@))
}

/// Reads a language resource.
///
/// Wraps `serde_json::from_str` at the type of an ordered map from text to
/// text, and hands the map's entries out in its order. The contract only
/// names the result.
#[verifier::external_body]
fn read_lang(json: &str) -> (r: Result<Vec<(String, String)>, serde_json::Error>)
    ensures
        match r {
            Ok(entries) => lang_table(json@) == Some(entries_view(entries@)),
            Err(_) => lang_table(json@) is None,
        },
{
    let table = serde_json::from_str::<std::collections::BTreeMap<String, String>>(json)?;
    Ok(table.into_iter().collect())
}

/// Compiles the death-message patterns of a language resource's entries.
pub fn compile_deaths(entries: &Vec<(String, String)>) -> (r: Result<Vec<DeathPattern>, LogError>)
    ensures
        match r {
            Ok(patterns) => all_compile(entries_view(entries@)) && sources(patterns@)
                == death_sources(entries_view(entries@)) && keys(patterns@) == death_keys(
                entries_view(entries@),
            ),
            Err(e) => !all_compile(entries_view(entries@)) && e is Regex,
        },
{
    let ghost all = entries_view(entries@);
    let mut patterns: Vec<DeathPattern> = Vec::new();
    let mut i: usize = 0;
    while i < entries.len()
        invariant
            i <= entries@.len(),
            all == entries_view(entries@),
            all_compile(all.subrange(0, i as int)),
            sources(patterns@) == death_sources(all.subrange(0, i as int)),
            keys(patterns@) == death_keys(all.subrange(0, i as int)),
        decreases entries@.len() - i,
    {
        let key = entries[i].0.as_str();
        let template = entries[i].1.as_str();
        let key_chars = chars_of(key);
        assert(all.subrange(0, i + 1).drop_last() =~= all.subrange(0, i as int));
        assert(all.subrange(0, i + 1).last() == all[i as int]);
        if matches_at(key_chars.as_slice(), 0, "death.") {
            match DeathPattern::from_template(key, template) {
                Ok(p) => {
                    let ghost before = patterns@;
                    patterns.push(p);
                    assert(sources(patterns@) =~= sources(before).push(p.source()));
                    assert(keys(patterns@) =~= keys(before).push(p.key()));
                },
                Err(e) => {
                    assert(is_death_key(all[i as int].0));
                    return Err(LogError::Regex(e));
                },
            }
        }
        assert forall|j: int|
            0 <= j < i + 1 && is_death_key(
                #[trigger] all.subrange(0, i + 1)[j].0,
            ) implies regex_compiles(pattern_source(all.subrange(0, i + 1)[j].1)) by {
            if j < i {
                assert(all.subrange(0, i as int)[j] == all.subrange(0, i + 1)[j]);
            }
        }
        i += 1;
    }
    assert(all.subrange(0, i as int) =~= all);
    Ok(patterns)
}

/// What the classifier remembers between lines: the version that the server
/// last announced, and the death-message patterns in force.
pub struct FollowerState {
    minecraft_version: Option<String>,
    death_messages: Vec<DeathPattern>,
}

impl FollowerState {
    /// The version that the patterns were last asked for.
    pub closed spec fn version(&self) -> Option<Seq<char>> {
        match self.minecraft_version {
            Some(v) => Some(v@),
            None => None,
        }
    }

    /// The sources of the patterns in force.
    pub closed spec fn patterns(&self) -> Seq<Seq<char>> {
        sources(self.death_messages@)
    }

    /// The resource keys of the patterns in force.
    pub closed spec fn keys(&self) -> Seq<Seq<char>> {
        keys(self.death_messages@)
    }

    /// The state of a follower that has seen no server start yet.
    pub fn new() -> (r: FollowerState)
        ensures
            r.version() is None,
            r.patterns() == Seq::<Seq<char>>::empty(),
            r.keys() == Seq::<Seq<char>>::empty(),
    {
        let r = FollowerState { minecraft_version: None, death_messages: Vec::new() };
        assert(r.patterns() =~= Seq::<Seq<char>>::empty());
        assert(r.keys() =~= Seq::<Seq<char>>::empty());
        r
    }

    /// Whether a server start that announces `version` calls for new
    /// patterns: it does unless `version` is the version remembered.
    pub fn needs_refresh(&self, version: &str) -> (r: bool)
        ensures
            r == (self.version() != Some(version@)),
    {
        match &self.minecraft_version {
            Some(v) => !same_text(v.as_str(), version),
            None => true,
        }
    }

    /// Replaces the patterns by those of the language resource `lang` and
    /// remembers `version` as theirs. Where the resource cannot be read or
    /// one of its death-message templates does not compile, the state stays
    /// as it was, version and patterns.
    pub fn refresh(&mut self, version: &str, lang: &str) -> (r: Result<(), LogError>)
        ensures
            match lang_table(lang@) {
                None => r is Err && r->Err_0 is Json,
                Some(entries) => if all_compile(entries) {
                    r is Ok && final(self).version() == Some(version@) && final(self).patterns()
                        == death_sources(entries) && final(self).keys() == death_keys(entries)
                } else {
                    r is Err && r->Err_0 is Regex
                },
            },
            r is Err ==> final(self).version() == old(self).version() && final(self).patterns()
                == old(self).patterns() && final(self).keys() == old(self).keys(),
    {
        let entries = match read_lang(lang) {
            Ok(entries) => entries,
            Err(e) => {
                return Err(LogError::Json(e));
            },
        };
        match compile_deaths(&entries) {
            Ok(patterns) => {
                self.minecraft_version = Some(version.to_owned());
                self.death_messages = patterns;
                Ok(())
            },
            Err(e) => Err(e),
        }
    }

    /// The number of patterns in force.
    pub fn pattern_count(&self) -> (n: usize)
        ensures
            n == self.patterns().len(),
    {
        self.death_messages.len()
    }
}

/// The version that a message body announces, if it is a server start.
pub fn server_start_version(s: &str) -> (r: Option<String>)
    ensures
        match r {
            Some(v) => start_version(s@) == Some(v@),
            None => start_version(s@) is None,
        },
{
    let chars = chars_of(s);
    let cs = chars.as_slice();
    match find_start_version(cs) {
        Some((from, to)) => Some(text_of(cs, from, to)),
        None => None,
    }
}

impl RegularLine {
    /// Classifies the characters of a message body.
    pub fn parse_chars(state: &FollowerState, cs: &[char]) -> (r: RegularLine)
        ensures
            r@ == classify_body(state.patterns(), cs@),
    {
        let len = cs.len();
        if find_start_version(cs).is_some() {
            return RegularLine::ServerStart;
        }
        if let Some((from, to, text)) = find_chat(cs, false) {
            return RegularLine::Chat {
                sender: text_of(cs, from, to),
                msg: text_of(cs, text, len),
                is_action: false,
            };
        }
        if let Some((from, to, text)) = find_chat(cs, true) {
            return RegularLine::Chat {
                sender: text_of(cs, from, to),
                msg: text_of(cs, text, len),
                is_action: true,
            };
        }
        if let Some((to, title)) = find_achievement(cs, " has completed the challenge [") {
            return RegularLine::Advancement {
                kind: AdvancementKind::Challenge,
                player: text_of(cs, 0, to),
                advancement: text_of(cs, title, len - 1),
            };
        }
        if let Some((to, title)) = find_achievement(cs, " has reached the goal [") {
            return RegularLine::Advancement {
                kind: AdvancementKind::Goal,
                player: text_of(cs, 0, to),
                advancement: text_of(cs, title, len - 1),
            };
        }
        if let Some((to, title)) = find_achievement(cs, " has made the advancement [") {
            return RegularLine::Advancement {
                kind: AdvancementKind::Task,
                player: text_of(cs, 0, to),
                advancement: text_of(cs, title, len - 1),
            };
        }
        let whole = text_of(cs, 0, len);
        assert(whole@ =~= cs@);
        if matches_any(&state.death_messages, whole.as_str()) {
            RegularLine::Death { msg: whole }
        } else {
            RegularLine::Unknown(whole)
        }
    }

    /// Classifies a message body.
    pub fn parse(state: &FollowerState, s: &str) -> (r: RegularLine)
        ensures
            r@ == classify_body(state.patterns(), s@),
    {
        let chars = chars_of(s);
        RegularLine::parse_chars(state, chars.as_slice())
    }
}

/// Reads bytes as text.
///
/// Wraps `std::str::from_utf8`, which accepts exactly the byte sequences
/// that are valid UTF-8 and hands back the same bytes as text.
#[verifier::external_body]
fn decode(bytes: &[u8]) -> (r: Option<&str>)
    ensures
        match r {
            Some(s) => valid_utf8(bytes@) && s.spec_bytes() == bytes@,
            None => !valid_utf8(bytes@),
        },
{
    std::str::from_utf8(bytes).ok()
}

/// The reading of a line given as bytes: bytes that are no text are an
/// unknown line without text.
pub open spec fn classify_bytes(patterns: Seq<Seq<char>>, bytes: Seq<u8>) -> LineView {
    if valid_utf8(bytes) {
        classify_line(patterns, decode_utf8(bytes))
    } else {
        LineView::Unknown(Seq::empty())
    }
}

impl Line {
    /// Reads one line of the log, given as bytes.
    pub fn parse_bytes(state: &FollowerState, bytes: &[u8]) -> (r: Line)
        ensures
            r@ == classify_bytes(state.patterns(), bytes@),
    {
        match decode(bytes) {
            Some(s) => {
                proof {
                    encode_utf8_decode_utf8(s@);
                }
                Line::parse(state, s)
            },
            None => Line::Unknown(String::new()),
        }
    }

    /// Reads one line of the log.
    pub fn parse(state: &FollowerState, s: &str) -> (r: Line)
        ensures
            r@ == classify_line(state.patterns(), s@),
    {
        let chars = chars_of(s);
        let cs = chars.as_slice();
        match find_envelope(cs) {
            None => Line::Unknown(s.to_owned()),
            Some(e) => {
                let name = text_of(cs, e.thread_from, e.thread_to);
                let level = if e.level == 0 {
                    Level::Info
                } else if e.level == 1 {
                    Level::Warn
                } else {
                    Level::Error
                };
                let body = slice_subrange(cs, e.body_from, cs.len());
                Line::Regular {
                    thread: Thread::from_str(name.as_str()),
                    level,
                    content: RegularLine::parse_chars(state, body),
                }
            },
        }
    }
}

/// The version that a line given as bytes announces: that of its body, if
/// the line is text with an envelope around a server start.
pub open spec fn line_version(bytes: Seq<u8>) -> Option<Seq<char>> {
    if valid_utf8(bytes) {
        match envelope(decode_utf8(bytes)) {
            Some(e) => start_version(
                decode_utf8(bytes).subrange(e.body_from, decode_utf8(bytes).len() as int),
            ),
            None => None,
        }
    } else {
        None
    }
}

/// The version that a line of the log announces, if it is a server start.
pub fn announced_version(bytes: &[u8]) -> (r: Option<String>)
    ensures
        match r {
            Some(v) => line_version(bytes@) == Some(v@),
            None => line_version(bytes@) is None,
        },
{
    match decode(bytes) {
        Some(s) => {
            proof {
                encode_utf8_decode_utf8(s@);
            }
            let chars = chars_of(s);
            let cs = chars.as_slice();
            match find_envelope(cs) {
                Some(e) => {
                    let body = slice_subrange(cs, e.body_from, cs.len());
                    match find_start_version(body) {
                        Some((from, to)) => Some(text_of(body, from, to)),
                        None => None,
                    }
                },
                None => None,
            }
        },
        None => None,
    }
}

/// Finds the address under which the launcher's manifest lists `version`:
/// that of the first entry with this version.
pub fn find_version(versions: &Vec<(String, String)>, version: &str) -> (r: Result<String, LogError>)
    ensures
        match r {
            Ok(url) => exists|i: int|
                0 <= i < versions@.len() && versions@[i].0@ == version@ && versions@[i].1@ == url@
                    && forall|j: int| 0 <= j < i ==> (#[trigger] versions@[j]).0@ != version@,
            Err(e) => e is MissingVersion && forall|j: int|
                0 <= j < versions@.len() ==> (#[trigger] versions@[j]).0@ != version@,
        },
{
    let mut i: usize = 0;
    while i < versions.len()
        invariant
            i <= versions@.len(),
            forall|j: int| 0 <= j < i ==> (#[trigger] versions@[j]).0@ != version@,
        decreases versions@.len() - i,
    {
        if same_text(versions[i].0.as_str(), version) {
            return Ok(versions[i].1.clone());
        }
        i += 1;
    }
    Err(LogError::MissingVersion)
}

/// The name of the English language resource in the game client's package.
pub open spec fn lang_entry_name() -> Seq<char> {
    "assets/minecraft/lang/en_us.json"@
}

/// Finds the English language resource among the names of a package's
/// entries: the position of the first entry with its name.
pub fn find_lang_entry(names: &Vec<String>) -> (r: Result<usize, LogError>)
    ensures
        match r {
            Ok(i) => i < names@.len() && names@[i as int]@ == lang_entry_name() && forall|j: int|
                0 <= j < i ==> (#[trigger] names@[j])@ != lang_entry_name(),
            Err(e) => e is MissingLangFile && forall|j: int|
                0 <= j < names@.len() ==> (#[trigger] names@[j])@ != lang_entry_name(),
        },
{
    let mut i: usize = 0;
    while i < names.len()
        invariant
            i <= names@.len(),
            forall|j: int| 0 <= j < i ==> (#[trigger] names@[j])@ != lang_entry_name(),
        decreases names@.len() - i,
    {
        if same_text(names[i].as_str(), "assets/minecraft/lang/en_us.json") {
            return Ok(i);
        }
        i += 1;
    }
    Err(LogError::MissingLangFile)
}

/// Tells whether there is a world to follow: without one the relay cannot start.
pub fn check_worlds(worlds: usize) -> (r: Result<(), LogError>)
    ensures
        worlds > 0 ==> r is Ok,
        worlds == 0 ==> r is Err && r->Err_0 is NoWorlds,
{
    if worlds == 0 {
        Err(LogError::NoWorlds)
    } else {
        Ok(())
    }
}

/// The text that tells the operators of an error.
pub open spec fn error_text(e: &LogError) -> Option<Seq<char>> {
    match e {
        LogError::Json(_) => None,
        LogError::Regex(_) => None,
        LogError::Channel => Some("unknown error in log handler"@),
        LogError::FollowEnded => Some("log handler returned unexpectedly"@),
        LogError::MissingLangFile => Some("no en_us language file in Minecraft client jar"@),
        LogError::MissingVersion => Some("Minecraft version not found in launcher manifest"@),
        LogError::NoWorlds => Some("failed to start log handler: no worlds configured"@),
    }
}

/// Describes an error of the JSON reader.
///
/// Wraps the `to_string` of `serde_json::Error`; nothing is claimed of the text.
#[verifier::external_body]
fn json_error_text(e: &serde_json::Error) -> String {
    e.to_string()
}

/// Describes an error of the pattern compiler.
///
/// Wraps the `to_string` of `regex::Error`; nothing is claimed of the text.
#[verifier::external_body]
fn regex_error_text(e: &regex::Error) -> String {
    e.to_string()
}

impl LogError {
    /// The text that tells the operators of the error. For an error of an
    /// outside reader it is that reader's own description.
    pub fn describe(&self) -> (r: String)
        ensures
            match error_text(self) {
                Some(text) => r@ == text,
                None => true,
            },
    {
        match self {
            LogError::Json(e) => json_error_text(e),
            LogError::Regex(e) => regex_error_text(e),
            LogError::Channel => String::from_str("unknown error in log handler"),
            LogError::FollowEnded => String::from_str("log handler returned unexpectedly"),
            LogError::MissingLangFile => String::from_str(
                "no en_us language file in Minecraft client jar",
            ),
            LogError::MissingVersion => String::from_str(
                "Minecraft version not found in launcher manifest",
            ),
            LogError::NoWorlds => String::from_str(
                "failed to start log handler: no worlds configured",
            ),
        }
    }
}

/// A line that announces a version is a server start, and the version is
/// all that follows the marker: at least one character, no line feed.
pub proof fn lemma_server_start_reads(patterns: Seq<Seq<char>>, version: Seq<char>)
    requires
        version.len() > 0,
        forall|i: int| 0 <= i < version.len() ==> #[trigger] version[i] != '\n',
    ensures
        start_version(start_marker() + version) == Some(version),
        classify_body(patterns, start_marker() + version) == RegularLineView::ServerStart,
{
    let s = start_marker() + version;
    let p = start_marker().len() as int;
    assert(s.subrange(0, p) =~= start_marker());
    assert forall|i: int| p <= i < s.len() implies in_class(Class::NotNewline, #[trigger] s[i]) by {
        assert(s[i] == version[i - p]);
    }
    lemma_run_exact(s, p, Class::NotNewline, s.len() - p);
    assert(s.subrange(p, s.len() as int) =~= version);
}

/// A chat line reads as its parts: the sender's name between `<` and `>`
/// or, for an action, after `* `, then a space and a text of at least one
/// character and without a line feed.
pub proof fn lemma_chat_reads(
    patterns: Seq<Seq<char>>,
    sender: Seq<char>,
    msg: Seq<char>,
    is_action: bool,
)
    requires
        3 <= sender.len() <= 16,
        forall|i: int| 0 <= i < sender.len() ==> is_name_char(#[trigger] sender[i]),
        msg.len() > 0,
        forall|i: int| 0 <= i < msg.len() ==> #[trigger] msg[i] != '\n',
    ensures
        classify_body(
            patterns,
            if is_action {
                "* "@ + sender + " "@ + msg
            } else {
                "<"@ + sender + "> "@ + msg
            },
        ) == (RegularLineView::Chat { sender, msg, is_action }),
{
    reveal_strlit("* ");
    reveal_strlit(" ");
    reveal_strlit("<");
    reveal_strlit("> ");
    reveal_strlit("[Not Secure] ");
    reveal_strlit("Starting minecraft server version ");
    let s = if is_action {
        "* "@ + sender + " "@ + msg
    } else {
        "<"@ + sender + "> "@ + msg
    };
    let from: int = if is_action {
        2
    } else {
        1
    };
    let n = sender.len() as int;
    assert(s.len() == n + 3 + msg.len());
    assert(!has_at(s, 0, not_secure())) by {
        if has_at(s, 0, not_secure()) {
            assert(s.subrange(0, not_secure().len() as int)[0] == not_secure()[0]);
        }
    }
    assert(!has_at(s, 0, start_marker())) by {
        if has_at(s, 0, start_marker()) {
            assert(s.subrange(0, start_marker().len() as int)[0] == start_marker()[0]);
        }
    }
    assert forall|i: int| from <= i < from + n implies in_class(Class::Name, #[trigger] s[i]) by {
        assert(s[i] == sender[i - from]);
    }
    lemma_run_exact(s, from, Class::Name, n);
    assert forall|i: int| n + 3 <= i < s.len() implies in_class(
        Class::NotNewline,
        #[trigger] s[i],
    ) by {
        assert(s[i] == msg[i - n - 3]);
    }
    lemma_run_exact(s, n + 3, Class::NotNewline, s.len() - n - 3);
    assert(s.subrange(from, from + n) =~= sender);
    assert(s.subrange(n + 3, s.len() as int) =~= msg);
}

/// An achievement line reads as its parts: a player's name, the words of
/// one of the three kinds, and between the brackets a title of at least one
/// character and without a line feed.
pub proof fn lemma_advancement_reads(
    patterns: Seq<Seq<char>>,
    name: Seq<char>,
    kind: AdvancementKind,
    title: Seq<char>,
)
    requires
        3 <= name.len() <= 16,
        forall|i: int| 0 <= i < name.len() ==> is_name_char(#[trigger] name[i]),
        title.len() > 0,
        forall|i: int| 0 <= i < title.len() ==> #[trigger] title[i] != '\n',
    ensures
        classify_body(patterns, name + marker_of(kind) + title + "]"@) == (
        RegularLineView::Advancement { kind, player: name, advancement: title }),
{
    reveal_strlit("]");
    reveal_strlit("[Not Secure] ");
    reveal_strlit("Starting minecraft server version ");
    reveal_strlit(" has completed the challenge [");
    reveal_strlit(" has reached the goal [");
    reveal_strlit(" has made the advancement [");
    let m = marker_of(kind);
    let s = name + m + title + "]"@;
    let n = name.len() as int;
    let a = n + m.len();
    assert(s.len() == a + title.len() + 1);
    assert forall|i: int| 0 <= i < n implies in_class(Class::Name, #[trigger] s[i]) by {
        assert(s[i] == name[i]);
    }
    assert forall|i: int| 0 <= i < m.len() implies s[n + i] == m[i] by {}
    assert(s[n] == m[0]);
    lemma_run_exact(s, 0, Class::Name, n);
    assert forall|i: int| a <= i < s.len() implies in_class(Class::NotNewline, #[trigger] s[i]) by {
        if i < a + title.len() {
            assert(s[i] == title[i - a]);
        }
    }
    lemma_run_exact(s, a, Class::NotNewline, s.len() - a);
    assert(s.subrange(n, a) =~= m);
    assert(s.subrange(0, n) =~= name);
    assert(s.subrange(a, s.len() - 1) =~= title);
    assert(achievement(s, m) == Some((name, title)));
    assert(is_name_char(s[0]));
    assert(!has_at(s, 0, not_secure())) by {
        if has_at(s, 0, not_secure()) {
            assert(s.subrange(0, not_secure().len() as int)[0] == not_secure()[0]);
        }
    }
    assert(chat_plain(s) is None);
    assert(chat_action(s) is None);
    assert(!has_at(s, 0, start_marker())) by {
        if has_at(s, 0, start_marker()) {
            let head = s.subrange(0, start_marker().len() as int);
            assert forall|i: int| 0 <= i < 10 implies s[i] == start_marker()[i] by {
                assert(head[i] == s[i]);
            }
            assert(s[8] == ' ');
            assert(n == 8) by {
                if n > 8 {
                    assert(in_class(Class::Name, s[8]));
                } else if n < 8 {
                    assert(s[n] == start_marker()[n]);
                }
            }
            assert(s[9] == m[1]);
        }
    }
    assert(start_version(s) is None);
    assert(kind != AdvancementKind::Challenge ==> !has_at(s, n, challenge_marker())) by {
        if kind != AdvancementKind::Challenge && has_at(s, n, challenge_marker()) {
            assert(s.subrange(n, n + challenge_marker().len())[5] == challenge_marker()[5]);
            assert(s[n + 5] == m[5]);
        }
    }
    assert(kind == AdvancementKind::Task ==> !has_at(s, n, goal_marker())) by {
        if kind == AdvancementKind::Task && has_at(s, n, goal_marker()) {
            assert(s.subrange(n, n + goal_marker().len())[5] == goal_marker()[5]);
            assert(s[n + 5] == m[5]);
        }
    }
}

/// Chat comes before death: a body that reads as chat and is no server
/// start is chat, whatever the death-message patterns are.
pub proof fn lemma_chat_before_death(patterns: Seq<Seq<char>>, s: Seq<char>)
    requires
        start_version(s) is None,
        chat_plain(s) is Some || chat_action(s) is Some,
    ensures
        classify_body(patterns, s) is Chat,
{
}

/// Every line has exactly one reading: a line with an envelope is regular,
/// any other is unknown and keeps its text.
pub proof fn lemma_one_reading(patterns: Seq<Seq<char>>, s: Seq<char>)
    ensures
        envelope(s) is Some <==> classify_line(patterns, s) is Regular,
        envelope(s) is None <==> classify_line(patterns, s) == LineView::Unknown(s),
{
}

/// Reading a line again gives the same event, as long as the patterns in
/// force are the same: two readings of one line under states with equal
/// patterns are equal.
pub proof fn lemma_reading_is_repeatable(a: &FollowerState, b: &FollowerState, s: Seq<char>)
    requires
        a.patterns() == b.patterns(),
    ensures
        classify_line(a.patterns(), s) == classify_line(b.patterns(), s),
        classify_body(a.patterns(), s) == classify_body(b.patterns(), s),
{
}

/// The number of times that new patterns are asked for while the starts of
/// `versions` are seen in order, by a follower that remembers `seen`: once
/// for each start whose version is not the one that the start before it
/// announced.
pub open spec fn refresh_count(seen: Option<Seq<char>>, versions: Seq<Seq<char>>) -> nat
    decreases versions.len(),
{
    if versions.len() == 0 {
        0
    } else {
        refresh_count(Some(versions[0]), versions.drop_first()) + if seen == Some(versions[0]) {
            0nat
        } else {
            1nat
        }
    }
}

/// A version that is announced again and again is asked for once: a
/// follower that has seen none asks once for `n` starts of one version, and
/// one that remembers the version never.
pub proof fn lemma_refresh_once_per_version(version: Seq<char>, n: nat)
    ensures
        refresh_count(Some(version), Seq::new(n, |i: int| version)) == 0,
        n > 0 ==> refresh_count(None, Seq::new(n, |i: int| version)) == 1,
    decreases n,
{
    let starts = Seq::new(n, |i: int| version);
    if n > 0 {
        assert(starts.drop_first() =~= Seq::new((n - 1) as nat, |i: int| version));
        lemma_refresh_once_per_version(version, (n - 1) as nat);
    }
}

/// A start asks for new patterns exactly when its version differs from the
/// one remembered, which after a refresh is the one refreshed for.
pub proof fn lemma_refresh_follows_change(seen: Option<Seq<char>>, version: Seq<char>)
    ensures
        refresh_count(seen, seq![version]) == (if seen == Some(version) {
            0nat
        } else {
            1nat
        }),
{
    reveal_with_fuel(refresh_count, 2);
    assert(seq![version].drop_first() =~= Seq::<Seq<char>>::empty());
}

} // verus!
