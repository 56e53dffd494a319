//! The policy that decides what follows the crash of a long-running task.
//!
//! A log relay is never started again. The stream-chat bridge is, after a wait
//! that starts at one second and doubles with each crash that follows the last
//! one within a day.

use vstd::prelude::*;

verus! {

/// The shortest wait before the bridge connects again, in seconds.
pub const MIN_WAIT_SECS: u64 = 1;

/// The time without a crash after which the wait starts over, in seconds.
pub const RESET_AFTER_SECS: u64 = 86400;

/// The two kinds of supervised tasks.
#[derive(Clone, Copy, Debug, PartialEq, Eq)]
pub enum TaskKind {
    /// Follows and relays the log of one world.
    LogRelay,
    /// Relays the streaming chat.
    StreamBridge,
}

/// Where a supervised task stands.
#[derive(Clone, Copy, Debug, PartialEq, Eq)]
pub enum TaskState {
    Starting,
    Running,
    /// Waiting for the given number of seconds before the next start.
    Backoff(u64),
    Failed,
}

/// What the supervisor does about one crash.
#[derive(Clone, Copy, Debug, PartialEq, Eq)]
pub struct CrashReport {
    /// Whether the operators are told.
    pub notify: bool,
    /// The seconds to wait before the task is started again, if it is.
    pub retry_after: Option<u64>,
}

/// The wait that follows a wait of `last` seconds: twice as long, or the
/// longest wait that fits.
pub open spec fn doubled(last: u64) -> u64 {
    if last <= u64::MAX / 2 {
        (2 * last) as u64
    } else {
        u64::MAX
    }
}

/// The wait after a crash, given the wait after the crash before it (0 if
/// there was none) and the seconds that have passed without a crash.
pub open spec fn next_wait(last: u64, quiet_secs: u64) -> u64 {
    if last == 0 || quiet_secs >= RESET_AFTER_SECS {
        MIN_WAIT_SECS
    } else {
        doubled(last)
    }
}

/// The wait after `n + 1` crashes in a row, each within a day of the one before.
pub open spec fn nth_wait(n: nat) -> u64
    decreases n,
{
    if n == 0 {
        MIN_WAIT_SECS
    } else {
        doubled(nth_wait((n - 1) as nat))
    }
}

pub open spec fn pow2(n: nat) -> nat
    decreases n,
{
    if n == 0 {
        1
    } else {
        2 * pow2((n - 1) as nat)
    }
}

/// The retry policy of the stream-chat bridge.
pub struct Backoff {
    last_wait: u64,
}

impl Backoff {
    /// The wait after the last crash, in seconds; 0 before the first crash.
    pub closed spec fn last(&self) -> u64 {
        self.last_wait
    }

    /// The policy of a bridge that has not crashed yet.
    pub fn new() -> (r: Backoff)
        ensures
            r.last() == 0,
    {
        Backoff { last_wait: 0 }
    }

    /// The wait after the last crash, in seconds; 0 before the first crash.
    pub fn last_wait(&self) -> (r: u64)
        ensures
            r == self.last(),
    {
        self.last_wait
    }

    /// Records a crash that comes `quiet_secs` seconds after the task was
    /// last started. The operators are told unless the wait is the shortest
    /// one: a single crash after a quiet day passes in silence.
    pub fn on_crash(&mut self, quiet_secs: u64) -> (r: CrashReport)
        ensures
            final(self).last() == next_wait(old(self).last(), quiet_secs),
            r.retry_after == Some(final(self).last()),
            r.notify == (final(self).last() > MIN_WAIT_SECS),
            final(self).last() >= MIN_WAIT_SECS,
    {
        let wait: u64 = if self.last_wait == 0 || quiet_secs >= RESET_AFTER_SECS {
            MIN_WAIT_SECS
        } else if self.last_wait <= u64::MAX / 2 {
            2 * self.last_wait
        } else {
            u64::MAX
        };
        self.last_wait = wait;
        CrashReport { notify: wait > MIN_WAIT_SECS, retry_after: Some(wait) }
    }
}

/// Decides what follows the crash of a task of the given kind: the report
/// for the operators and the task's next state.
pub fn on_task_crash(kind: TaskKind, backoff: &mut Backoff, quiet_secs: u64) -> (r: (
    CrashReport,
    TaskState,
))
    ensures
        kind == TaskKind::LogRelay ==> r.0 == (CrashReport { notify: true, retry_after: None })
            && r.1 == TaskState::Failed && final(backoff).last() == old(backoff).last(),
        kind == TaskKind::StreamBridge ==> final(backoff).last() == next_wait(
            old(backoff).last(),
            quiet_secs,
        ) && r.0 == (CrashReport {
            notify: final(backoff).last() > MIN_WAIT_SECS,
            retry_after: Some(final(backoff).last()),
        }) && r.1 == TaskState::Backoff(final(backoff).last()),
{
    match kind {
        TaskKind::LogRelay => (CrashReport { notify: true, retry_after: None }, TaskState::Failed),
        TaskKind::StreamBridge => {
            let report = backoff.on_crash(quiet_secs);
            (report, TaskState::Backoff(backoff.last_wait()))
        },
    }
}

/// The state of a task after the event that ends its current state: a start
/// that succeeds leads to `Running`, the end of a wait to `Starting`; a
/// failed task stays failed.
pub fn after_progress(state: TaskState) -> (r: TaskState)
    ensures
        r == match state {
            TaskState::Starting => TaskState::Running,
            TaskState::Running => TaskState::Running,
            TaskState::Backoff(_) => TaskState::Starting,
            TaskState::Failed => TaskState::Failed,
        },
{
    match state {
        TaskState::Starting => TaskState::Running,
        TaskState::Running => TaskState::Running,
        TaskState::Backoff(_) => TaskState::Starting,
        TaskState::Failed => TaskState::Failed,
    }
}

/// Crashes in quick succession double the wait: the wait after the
/// `n + 1`-th of them is `2^n` seconds, as long as that fits.
pub proof fn lemma_backoff_doubles(n: nat)
    ensures
        pow2(n) <= u64::MAX ==> nth_wait(n) == pow2(n),
        nth_wait(n) >= 1,
    decreases n,
{
    if n > 0 {
        lemma_backoff_doubles((n - 1) as nat);
    }
}

/// Consecutive crashes follow `nth_wait`: from a policy whose last wait is
/// that of the `n`-th crash in a row, a crash within a day gives the wait of
/// the next.
pub proof fn lemma_next_wait_steps(n: nat, quiet_secs: u64)
    requires
        quiet_secs < RESET_AFTER_SECS,
    ensures
        next_wait(0, quiet_secs) == nth_wait(0),
        next_wait(nth_wait(n), quiet_secs) == nth_wait(n + 1),
{
    lemma_backoff_doubles(n);
}

/// A crash within a day of the last start doubles the wait, as long as
/// twice the last wait fits.
pub proof fn lemma_wait_doubles(last: u64, quiet_secs: u64)
    requires
        0 < last <= u64::MAX / 2,
        quiet_secs < RESET_AFTER_SECS,
    ensures
        next_wait(last, quiet_secs) == 2 * last,
{
}

/// A day without a crash starts the waits over, whatever came before.
pub proof fn lemma_quiet_day_resets(last: u64, quiet_secs: u64)
    requires
        quiet_secs >= RESET_AFTER_SECS,
    ensures
        next_wait(last, quiet_secs) == MIN_WAIT_SECS,
{
}

} // verus!
