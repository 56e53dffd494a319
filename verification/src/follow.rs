//! Following a growing log: what counts as history when the follower starts,
//! and which lines it hands out as the file grows.
//!
//! The follower reads nothing itself. Its caller reads the file's bytes and
//! hands them over: all of them once at the start, to be counted, and then
//! each piece that was appended.

use vstd::prelude::*;

verus! {

/// The outcome of cutting a piece of the file into lines.
pub struct Cut {
    /// The lines that ended in the piece, without their line feeds.
    pub lines: Seq<Seq<u8>>,
    /// The start of the line that the piece leaves open.
    pub pending: Seq<u8>,
    /// Whether the open line is one that began before the follower started.
    pub skipping: bool,
}

/// Cuts `chunk` into lines, after a piece that left `pending` open. While
/// `skipping`, the bytes up to the next line feed belong to history and are
/// dropped.
pub open spec fn cut(pending: Seq<u8>, skipping: bool, chunk: Seq<u8>) -> Cut
    decreases chunk.len(),
{
    if chunk.len() == 0 {
        Cut { lines: Seq::empty(), pending, skipping }
    } else if chunk[0] == 10 {
        let rest = cut(Seq::empty(), false, chunk.drop_first());
        if skipping {
            rest
        } else {
            Cut { lines: seq![pending] + rest.lines, pending: rest.pending, skipping: rest.skipping }
        }
    } else if skipping {
        cut(pending, true, chunk.drop_first())
    } else {
        cut(pending.push(chunk[0]), false, chunk.drop_first())
    }
}

/// The lines of `content` that end in a line feed.
pub open spec fn complete_lines(content: Seq<u8>) -> Seq<Seq<u8>> {
    cut(Seq::empty(), false, content).lines
}

/// Whether `content` ends in the middle of a line.
pub open spec fn mid_line(content: Seq<u8>) -> bool {
    cut(Seq::empty(), false, content).pending.len() > 0
}

/// The number of lines that a reader finds in `content`: those that end in
/// a line feed, and the one that the content may end in the middle of.
pub open spec fn line_count(content: Seq<u8>) -> nat {
    complete_lines(content).len() + if mid_line(content) {
        1nat
    } else {
        0nat
    }
}

/// The lines that a follower hands out in all, if it was started on
/// `existing` and then fed `appended`.
pub open spec fn followed(existing: Seq<u8>, appended: Seq<u8>) -> Seq<Seq<u8>> {
    cut(Seq::empty(), mid_line(existing), appended).lines
}

/// Cutting two pieces one after the other gives the lines of the first and
/// then those of the second, which are the lines of the two pieces joined:
/// how the appended bytes are dealt out does not change what is handed out.
pub proof fn lemma_cut_concat(pending: Seq<u8>, skipping: bool, a: Seq<u8>, b: Seq<u8>)
    ensures
        cut(pending, skipping, a + b).lines == cut(pending, skipping, a).lines + cut(
            cut(pending, skipping, a).pending,
            cut(pending, skipping, a).skipping,
            b,
        ).lines,
        cut(pending, skipping, a + b).pending == cut(
            cut(pending, skipping, a).pending,
            cut(pending, skipping, a).skipping,
            b,
        ).pending,
        cut(pending, skipping, a + b).skipping == cut(
            cut(pending, skipping, a).pending,
            cut(pending, skipping, a).skipping,
            b,
        ).skipping,
    decreases a.len(),
{
    let first = cut(pending, skipping, a);
    let second = cut(first.pending, first.skipping, b);
    if a.len() == 0 {
        assert(a + b =~= b);
        assert(first.lines + second.lines =~= second.lines);
    } else {
        assert((a + b)[0] == a[0]);
        assert((a + b).drop_first() =~= a.drop_first() + b);
        if a[0] == 10 {
            lemma_cut_concat(Seq::empty(), false, a.drop_first(), b);
            let inner = cut(Seq::empty(), false, a.drop_first());
            if !skipping {
                assert(seq![pending] + (inner.lines + second.lines) =~= (seq![pending]
                    + inner.lines) + second.lines);
            }
        } else if skipping {
            lemma_cut_concat(pending, true, a.drop_first(), b);
        } else {
            lemma_cut_concat(pending.push(a[0]), false, a.drop_first(), b);
        }
    }
}

/// A follower that starts in the middle of a line hands out what one that
/// starts at the line's beginning would, but for that first line.
pub proof fn lemma_skipping_drops_first(pending: Seq<u8>, history: Seq<u8>, chunk: Seq<u8>)
    ensures
        cut(history, true, chunk).lines == (if cut(pending, false, chunk).lines.len() > 0 {
            cut(pending, false, chunk).lines.drop_first()
        } else {
            Seq::empty()
        }),
    decreases chunk.len(),
{
    if chunk.len() > 0 {
        if chunk[0] == 10 {
            let rest = cut(Seq::empty(), false, chunk.drop_first());
            assert((seq![pending] + rest.lines).drop_first() =~= rest.lines);
        } else {
            lemma_skipping_drops_first(pending.push(chunk[0]), history, chunk.drop_first());
        }
    }
}

/// No history is replayed and nothing new is lost: the lines that a
/// follower hands out are the complete lines of the whole file but for the
/// first `line_count(existing)` of them, in the file's order.
pub proof fn lemma_follows_from_offset(existing: Seq<u8>, appended: Seq<u8>)
    ensures
        followed(existing, appended) == (if complete_lines(existing + appended).len()
            >= line_count(existing) {
            complete_lines(existing + appended).skip(line_count(existing) as int)
        } else {
            Seq::empty()
        }),
{
    let head = cut(Seq::empty(), false, existing);
    let tail = cut(head.pending, head.skipping, appended);
    lemma_cut_concat(Seq::empty(), false, existing, appended);
    lemma_never_skipping(Seq::empty(), existing);
    let all = complete_lines(existing + appended);
    assert(all == head.lines + tail.lines);
    if mid_line(existing) {
        lemma_skipping_drops_first(head.pending, Seq::empty(), appended);
        if tail.lines.len() > 0 {
            assert(all.skip(head.lines.len() as int + 1) =~= tail.lines.drop_first());
        }
    } else {
        assert(head.pending =~= Seq::<u8>::empty());
        assert(all.skip(head.lines.len() as int) =~= tail.lines);
    }
}

/// The bytes of `lines` as a file holds them: each line with a line feed
/// after it.
pub open spec fn joined(lines: Seq<Seq<u8>>) -> Seq<u8>
    decreases lines.len(),
{
    if lines.len() == 0 {
        Seq::empty()
    } else {
        joined(lines.drop_last()) + lines.last() + seq![10u8]
    }
}

/// Whether a line holds no line feed.
pub open spec fn no_feed(line: Seq<u8>) -> bool {
    forall|j: int| 0 <= j < line.len() ==> #[trigger] line[j] != 10
}

/// Whether no line holds a line feed.
pub open spec fn whole_lines(lines: Seq<Seq<u8>>) -> bool {
    forall|i: int| 0 <= i < lines.len() ==> no_feed(#[trigger] lines[i])
}

/// A line and its line feed complete the open line, and leave none open.
pub proof fn lemma_cut_line(pending: Seq<u8>, line: Seq<u8>)
    requires
        no_feed(line),
    ensures
        cut(pending, false, line + seq![10u8]).lines == seq![pending + line],
        cut(pending, false, line + seq![10u8]).pending == Seq::<u8>::empty(),
        !cut(pending, false, line + seq![10u8]).skipping,
    decreases line.len(),
{
    let chunk = line + seq![10u8];
    if line.len() == 0 {
        reveal_with_fuel(cut, 2);
        assert(chunk[0] == 10);
        assert(chunk.drop_first() =~= Seq::<u8>::empty());
        assert(pending + line =~= pending);
        assert(seq![pending] + Seq::<Seq<u8>>::empty() =~= seq![pending]);
    } else {
        assert(chunk[0] == line[0]);
        assert(line[0] != 10);
        assert(chunk.drop_first() =~= line.drop_first() + seq![10u8]);
        assert(no_feed(line.drop_first())) by {
            assert forall|j: int| 0 <= j < line.drop_first().len() implies #[trigger] line.drop_first()[j]
                != 10 by {
                assert(line.drop_first()[j] == line[j + 1]);
            }
        }
        lemma_cut_line(pending.push(line[0]), line.drop_first());
        assert(pending.push(line[0]) + line.drop_first() =~= pending + line);
    }
}

/// Lines cut from a line's beginning come out as they went in.
pub proof fn lemma_cut_joined(lines: Seq<Seq<u8>>)
    requires
        whole_lines(lines),
    ensures
        cut(Seq::empty(), false, joined(lines)).lines == lines,
        cut(Seq::empty(), false, joined(lines)).pending == Seq::<u8>::empty(),
        !cut(Seq::empty(), false, joined(lines)).skipping,
    decreases lines.len(),
{
    if lines.len() > 0 {
        let init = lines.drop_last();
        let last = lines.last();
        assert(whole_lines(init)) by {
            assert forall|i: int| 0 <= i < init.len() implies no_feed(#[trigger] init[i]) by {
                assert(init[i] == lines[i]);
            }
        }
        lemma_cut_joined(init);
        assert(joined(lines) =~= joined(init) + (last + seq![10u8]));
        lemma_cut_concat(Seq::empty(), false, joined(init), last + seq![10u8]);
        lemma_cut_line(Seq::empty(), last);
        assert(Seq::<u8>::empty() + last =~= last);
        assert(init + seq![last] =~= lines);
    }
}

/// Every line that is appended is handed out once, in the file's order,
/// and nothing else is: a follower started at the end of a line, and fed
/// the lines that were appended since, hands out exactly those lines; and
/// the file then holds its history followed by them.
pub proof fn lemma_appended_lines_are_followed(existing: Seq<u8>, lines: Seq<Seq<u8>>)
    requires
        !mid_line(existing),
        whole_lines(lines),
    ensures
        followed(existing, joined(lines)) == lines,
        complete_lines(existing + joined(lines)) == complete_lines(existing) + lines,
        line_count(existing + joined(lines)) == line_count(existing) + lines.len(),
{
    lemma_cut_joined(lines);
    lemma_cut_concat(Seq::empty(), false, existing, joined(lines));
    lemma_never_skipping(Seq::empty(), existing);
    assert(cut(Seq::empty(), false, existing).pending =~= Seq::<u8>::empty());
}

/// A cut that does not start in history never gets into it.
pub proof fn lemma_never_skipping(pending: Seq<u8>, chunk: Seq<u8>)
    ensures
        !cut(pending, false, chunk).skipping,
    decreases chunk.len(),
{
    if chunk.len() > 0 {
        if chunk[0] == 10 {
            lemma_never_skipping(Seq::empty(), chunk.drop_first());
        } else {
            lemma_never_skipping(pending.push(chunk[0]), chunk.drop_first());
        }
    }
}

/// The bytes of each line, in order.
pub open spec fn lines_view(lines: Seq<Vec<u8>>) -> Seq<Seq<u8>> {
    lines.map_values(|l: Vec<u8>| l@)
}

/// Cuts `chunk` into lines: the executable form of `cut`.
pub fn cut_lines(pending: &mut Vec<u8>, skipping: &mut bool, chunk: &[u8]) -> (lines: Vec<Vec<u8>>)
    ensures
        lines_view(lines@) == cut(old(pending)@, *old(skipping), chunk@).lines,
        final(pending)@ == cut(old(pending)@, *old(skipping), chunk@).pending,
        *final(skipping) == cut(old(pending)@, *old(skipping), chunk@).skipping,
{
    let mut lines: Vec<Vec<u8>> = Vec::new();
    let ghost goal = cut(pending@, *skipping, chunk@);
    let mut i: usize = 0;
    assert(chunk@.subrange(0, chunk@.len() as int) =~= chunk@);
    assert(lines_view(lines@) + goal.lines =~= goal.lines);
    while i < chunk.len()
        invariant
            i <= chunk@.len(),
            goal.lines == lines_view(lines@) + cut(
                pending@,
                *skipping,
                chunk@.subrange(i as int, chunk@.len() as int),
            ).lines,
            goal.pending == cut(
                pending@,
                *skipping,
                chunk@.subrange(i as int, chunk@.len() as int),
            ).pending,
            goal.skipping == cut(
                pending@,
                *skipping,
                chunk@.subrange(i as int, chunk@.len() as int),
            ).skipping,
        decreases chunk@.len() - i,
    {
        let ghost rest = chunk@.subrange(i as int, chunk@.len() as int);
        let ghost before = lines@;
        let ghost open = pending@;
        assert(rest[0] == chunk@[i as int]);
        assert(rest.drop_first() =~= chunk@.subrange(i + 1, chunk@.len() as int));
        let b = chunk[i];
        if b == 10 {
            if *skipping {
                *skipping = false;
            } else {
                let mut line: Vec<u8> = Vec::new();
                std::mem::swap(&mut line, pending);
                lines.push(line);
                assert(lines_view(lines@) =~= lines_view(before).push(open));
                assert(lines_view(before) + (seq![open] + cut(
                    Seq::empty(),
                    false,
                    rest.drop_first(),
                ).lines) =~= lines_view(lines@) + cut(Seq::empty(), false, rest.drop_first()).lines);
            }
            pending.clear();
            assert(pending@ =~= Seq::<u8>::empty());
        } else if !*skipping {
            pending.push(b);
        }
        i += 1;
    }
    assert(lines_view(lines@) + Seq::<Seq<u8>>::empty() =~= lines_view(lines@));
    lines
}

/// Why a log can no longer be followed.
#[derive(Clone, Copy, Debug, PartialEq, Eq)]
pub enum FollowError {
    /// The file is shorter than what was already read of it: it was
    /// truncated or replaced.
    Truncated,
    /// The follower's counters cannot count the bytes of another piece.
    Overflow,
}

/// The follower of one world's log.
pub struct LogFollower {
    offset: u64,
    position: u64,
    pending: Vec<u8>,
    skipping: bool,
}

impl LogFollower {
    /// The number of lines that lie behind the follower: those that it
    /// found at its start and those that it has handed out since.
    pub closed spec fn offset(&self) -> nat {
        self.offset as nat
    }

    /// The number of bytes of the file that the follower has been given.
    pub closed spec fn position(&self) -> nat {
        self.position as nat
    }

    /// The start of the line that is still open.
    pub closed spec fn pending(&self) -> Seq<u8> {
        self.pending@
    }

    /// Whether the open line began before the follower started.
    pub closed spec fn skipping(&self) -> bool {
        self.skipping
    }

    /// Starts a follower on a file that holds `existing`: all of it is
    /// history, the line that it may end in the middle of too.
    pub fn start(existing: &[u8]) -> (r: LogFollower)
        ensures
            r.offset() == line_count(existing@),
            r.position() == existing@.len(),
            r.pending() == Seq::<u8>::empty(),
            r.skipping() == mid_line(existing@),
    {
        let mut pending: Vec<u8> = Vec::new();
        let mut skipping = false;
        proof {
            lemma_cut_len(pending@, false, existing@);
        }
        let lines = cut_lines(&mut pending, &mut skipping, existing);
        let open = pending.len() > 0;
        let size = existing.len();
        assert(lines_view(lines@).len() == lines@.len());
        let count = lines.len() as u64;
        LogFollower {
            offset: if open {
                count + 1
            } else {
                count
            },
            position: size as u64,
            pending: Vec::new(),
            skipping: open,
        }
    }

    /// A follower of a file whose history was counted beforehand: `offset`
    /// lines in `position` bytes, the last of them still open if `mid_line`.
    pub fn at(offset: u64, position: u64, mid_line: bool) -> (r: LogFollower)
        ensures
            r.offset() == offset,
            r.position() == position,
            r.pending() == Seq::<u8>::empty(),
            r.skipping() == mid_line,
    {
        LogFollower { offset, position, pending: Vec::new(), skipping: mid_line }
    }

    /// The lines that lie behind the follower.
    pub fn line_offset(&self) -> (r: u64)
        ensures
            r == self.offset(),
    {
        self.offset
    }

    /// The number of bytes of the file that the follower has been given.
    pub fn byte_position(&self) -> (r: u64)
        ensures
            r == self.position(),
    {
        self.position
    }

    /// Says which bytes of a file that is now `file_len` bytes long are to
    /// be read next: those from the follower's position on. A file shorter
    /// than that position was truncated or replaced.
    pub fn plan_read(&self, file_len: u64) -> (r: Result<(u64, u64), FollowError>)
        ensures
            r == (if file_len < self.position() {
                Err::<(u64, u64), FollowError>(FollowError::Truncated)
            } else {
                Ok::<(u64, u64), FollowError>((self.position() as u64, file_len))
            }),
    {
        if file_len < self.position {
            Err(FollowError::Truncated)
        } else {
            Ok((self.position, file_len))
        }
    }

    /// Whether the follower's counters can count `n` more bytes.
    pub open spec fn has_room(&self, n: nat) -> bool {
        self.offset() + n <= u64::MAX && self.position() + n <= u64::MAX
    }

    /// Takes the bytes that were appended to the file and hands out the
    /// lines that they complete, in order. The offset moves on by their
    /// number and never back. A piece that the counters have no room for is
    /// refused, and the follower stays as it was.
    pub fn feed(&mut self, chunk: &[u8]) -> (r: Result<Vec<Vec<u8>>, FollowError>)
        ensures
            match r {
                Ok(lines) => {
                    &&& old(self).has_room(chunk@.len())
                    &&& lines_view(lines@) == cut(
                        old(self).pending(),
                        old(self).skipping(),
                        chunk@,
                    ).lines
                    &&& final(self).pending() == cut(
                        old(self).pending(),
                        old(self).skipping(),
                        chunk@,
                    ).pending
                    &&& final(self).skipping() == cut(
                        old(self).pending(),
                        old(self).skipping(),
                        chunk@,
                    ).skipping
                    &&& final(self).offset() == old(self).offset() + lines@.len()
                    &&& final(self).position() == old(self).position() + chunk@.len()
                },
                Err(e) => {
                    &&& e == FollowError::Overflow
                    &&& !old(self).has_room(chunk@.len())
                    &&& final(self).pending() == old(self).pending()
                    &&& final(self).skipping() == old(self).skipping()
                    &&& final(self).offset() == old(self).offset()
                    &&& final(self).position() == old(self).position()
                },
            },
    {
        let size = chunk.len() as u64;
        if size > u64::MAX - self.offset || size > u64::MAX - self.position {
            return Err(FollowError::Overflow);
        }
        proof {
            lemma_cut_len(self.pending@, self.skipping, chunk@);
        }
        let lines = cut_lines(&mut self.pending, &mut self.skipping, chunk);
        assert(lines_view(lines@).len() == lines@.len());
        self.offset = self.offset + lines.len() as u64;
        self.position = self.position + size;
        Ok(lines)
    }
}

/// A piece holds no more lines than bytes.
pub proof fn lemma_cut_len(pending: Seq<u8>, skipping: bool, chunk: Seq<u8>)
    ensures
        cut(pending, skipping, chunk).lines.len() <= chunk.len(),
        cut(pending, skipping, chunk).lines.len() + cut(pending, skipping, chunk).pending.len()
            <= chunk.len() + pending.len(),
    decreases chunk.len(),
{
    if chunk.len() > 0 {
        if chunk[0] == 10 {
            lemma_cut_len(Seq::empty(), false, chunk.drop_first());
        } else if skipping {
            lemma_cut_len(pending, true, chunk.drop_first());
        } else {
            lemma_cut_len(pending.push(chunk[0]), false, chunk.drop_first());
        }
    }
}

} // verus!
