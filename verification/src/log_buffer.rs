//! The in-application log: a bounded buffer of the most recent entries,
//! oldest first.

use vstd::prelude::*;
use crate::timestamp::Timestamp;
use std::collections::VecDeque;

verus! {

/// How many entries the log keeps.
pub const CAPACITY: usize = 10_000;

/// Severity of a log entry.
#[derive(Clone, Copy, Debug, PartialEq, Eq, Structural)]
pub enum LogLevel {
    Error,
    Warn,
    Info,
    Debug,
    Trace,
}

#[derive(Debug)]
pub struct LogEntry {
    pub time: Timestamp,
    pub level: LogLevel,
    pub target: String,
    pub message: String,
}

/// The entries kept after `entry` is added: the oldest one makes room when
/// the log is full.
pub open spec fn after_push(entries: Seq<LogEntry>, entry: LogEntry) -> Seq<LogEntry> {
    if entries.len() >= CAPACITY {
        entries.drop_first().push(entry)
    } else {
        entries.push(entry)
    }
}

/// Bounded buffer of recent log entries.
#[derive(Debug)]
pub struct LogBuffer {
    entries: VecDeque<LogEntry>,
}

impl View for LogBuffer {
    type V = Seq<LogEntry>;

    closed spec fn view(&self) -> Seq<LogEntry> {
        self.entries@
    }
}

impl LogBuffer {
    #[verifier::type_invariant]
    spec fn within_capacity(&self) -> bool {
        self.entries@.len() <= CAPACITY
    }

    pub fn new() -> (r: LogBuffer)
        ensures
            r@.len() == 0,
    {
        LogBuffer { entries: VecDeque::new() }
    }

    /// Add an entry, dropping the oldest one when the log is full.
    pub fn push(&mut self, entry: LogEntry)
        ensures
            final(self)@ == after_push(old(self)@, entry),
            final(self)@.len() <= CAPACITY,
    {
        proof {
            use_type_invariant(&*self);
        }
        let mut entries = VecDeque::new();
        std::mem::swap(&mut entries, &mut self.entries);
        if entries.len() == CAPACITY {
            let _ = entries.pop_front();
        }
        entries.push_back(entry);
        self.entries = entries;
    }

    /// The `i`-th entry, oldest first.
    pub fn get(&self, i: usize) -> (r: Option<&LogEntry>)
        ensures
            i < self@.len() ==> r == Some(&self@[i as int]),
            i >= self@.len() ==> r is None,
    {
        if i < self.entries.len() {
            Some(&self.entries[i])
        } else {
            None
        }
    }

    pub fn clear(&mut self)
        ensures
            final(self)@.len() == 0,
    {
        let mut entries = VecDeque::new();
        std::mem::swap(&mut entries, &mut self.entries);
    }

    pub fn len(&self) -> (r: usize)
        ensures
            r == self@.len(),
            r <= CAPACITY,
    {
        proof {
            use_type_invariant(self);
        }
        self.entries.len()
    }

    pub fn is_empty(&self) -> (r: bool)
        ensures
            r == (self@.len() == 0),
    {
        self.entries.len() == 0
    }
}

/// The log keeps the newest entries in order: after a push it holds at most
/// its capacity, ends with the new entry, and what it holds is the tail of
/// the old entries followed by the new one.
pub proof fn law_log_keeps_latest(entries: Seq<LogEntry>, entry: LogEntry)
    requires
        entries.len() <= CAPACITY,
    ensures
        after_push(entries, entry).len() <= CAPACITY,
        after_push(entries, entry).last() == entry,
        after_push(entries, entry) == entries.push(entry).subrange(
            entries.push(entry).len() - after_push(entries, entry).len(),
            entries.push(entry).len() as int,
        ),
{
    let pushed = entries.push(entry);
    let kept = after_push(entries, entry);
    assert(kept =~= pushed.subrange(pushed.len() - kept.len(), pushed.len() as int));
}

} // verus!
