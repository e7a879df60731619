//! The in-process log ring: a bounded buffer of log entries with a
//! sequence number that only grows, for replay by the web log stream.

use vstd::prelude::*;
use std::collections::VecDeque;
use crate::engine::ban_manager::now_ms;
use crate::text::{chars_of, string_from_chars};
use crate::domain::ban::copy_string;

verus! {

/// One log entry. `seq` grows by one with every entry.
#[derive(Debug, Clone)]
pub struct LogEntry {
    pub seq: u64,
    pub time_ms: i64,
    pub level: String,
    pub target: String,
    pub message: String,
}

impl LogEntry {
    /// Two entries hold the same values.
    pub open spec fn same(self, o: LogEntry) -> bool {
        &&& self.seq == o.seq
        &&& self.time_ms == o.time_ms
        &&& self.level@ == o.level@
        &&& self.target@ == o.target@
        &&& self.message@ == o.message@
    }

    /// A copy of the entry.
    pub fn duplicate(&self) -> (r: LogEntry)
        ensures
            r.same(*self),
    {
        LogEntry {
            seq: self.seq,
            time_ms: self.time_ms,
            level: copy_string(&self.level),
            target: copy_string(&self.target),
            message: copy_string(&self.message),
        }
    }
}

/// The entries numbered after `after`.
pub open spec fn after_seq(after: u64) -> spec_fn(LogEntry) -> bool {
    |e: LogEntry| e.seq > after
}

/// A bounded ring of log entries.
pub struct LogBuffer {
    entries: VecDeque<LogEntry>,
    cap: usize,
    seq: u64,
}

impl LogBuffer {
    /// The entries, oldest first.
    pub closed spec fn entries(&self) -> Seq<LogEntry> {
        self.entries@
    }

    /// The capacity (at least 1).
    pub closed spec fn capacity(&self) -> nat {
        self.cap as nat
    }

    /// The sequence number of the last entry (0 before any).
    pub closed spec fn seq_spec(&self) -> u64 {
        self.seq
    }

    /// The ring is within its capacity and its entries are numbered
    /// consecutively, ending at the last sequence number.
    pub closed spec fn wf(&self) -> bool {
        &&& self.cap >= 1
        &&& self.entries@.len() <= self.cap
        &&& self.entries@.len() <= self.seq
        &&& forall|i: int| 0 <= i < self.entries@.len() ==> (#[trigger] self.entries@[i]).seq
            == self.seq - self.entries@.len() + 1 + i
    }

    /// A well-formed ring never holds more than its capacity, and holds the
    /// last entries pushed, numbered consecutively up to the last sequence
    /// number.
    pub proof fn lemma_ring_bounded_and_consecutive(&self)
        requires
            self.wf(),
        ensures
            1 <= self.capacity(),
            self.entries().len() <= self.capacity(),
            self.entries().len() <= self.seq_spec(),
            forall|i: int| 0 <= i < self.entries().len() ==> (#[trigger] self.entries()[i]).seq
                == self.seq_spec() - self.entries().len() + 1 + i,
    {
    }

    /// An empty ring holding up to `cap` entries (at least one).
    pub fn new(cap: usize) -> (r: LogBuffer)
        ensures
            r.wf(),
            r.entries().len() == 0,
            r.capacity() == (if cap >= 1 { cap as nat } else { 1 }),
            r.seq_spec() == 0,
    {
        LogBuffer { entries: VecDeque::new(), cap: if cap >= 1 { cap } else { 1 }, seq: 0 }
    }

    /// Appends an entry stamped with the next sequence number and the clock,
    /// dropping the oldest when the ring is full, and gives back a copy.
    pub fn push(&mut self, level: &str, target: &str, message: String) -> (r: LogEntry)
        requires
            old(self).wf(),
            old(self).seq_spec() < u64::MAX,
        ensures
            final(self).wf(),
            final(self).capacity() == old(self).capacity(),
            final(self).seq_spec() == old(self).seq_spec() + 1,
            r.seq == old(self).seq_spec() + 1,
            r.level@ == level@,
            r.target@ == target@,
            r.message@ == message@,
            ({
                let kept = if old(self).entries().len() >= old(self).capacity() {
                    old(self).entries().drop_first()
                } else {
                    old(self).entries()
                };
                &&& final(self).entries().len() == kept.len() + 1
                &&& forall|i: int| 0 <= i < kept.len() ==> #[trigger] final(self).entries()[i] == kept[i]
                &&& final(self).entries().last().same(r)
            }),
    {
        let seq = self.seq + 1;
        self.seq = seq;
        let entry = LogEntry {
            seq,
            time_ms: now_ms(),
            level: string_from_chars(&chars_of(level)),
            target: string_from_chars(&chars_of(target)),
            message,
        };
        let ghost before = self.entries@;
        if self.entries.len() >= self.cap {
            self.entries.pop_front();
        }
        let ghost kept = self.entries@;
        let copy = entry.duplicate();
        self.entries.push_back(entry);
        assert(self.entries@ == kept.push(self.entries@.last()));
        copy
    }

    /// Copies of all entries, oldest first.
    pub fn snapshot(&self) -> (r: Vec<LogEntry>)
        ensures
            r@.len() == self.entries().len(),
            forall|i: int| 0 <= i < r@.len() ==> (#[trigger] r@[i]).same(self.entries()[i]),
    {
        let mut out: Vec<LogEntry> = Vec::new();
        let mut i: usize = 0;
        while i < self.entries.len()
            invariant
                i <= self.entries@.len(),
                out@.len() == i,
                forall|k: int| 0 <= k < i ==> (#[trigger] out@[k]).same(self.entries@[k]),
            decreases self.entries@.len() - i,
        {
            out.push(self.entries[i].duplicate());
            i += 1;
        }
        out
    }

    /// Copies of the entries numbered after `after`, oldest first.
    pub fn since(&self, after: u64) -> (r: Vec<LogEntry>)
        requires
            self.wf(),
        ensures
            ({
                let newer = self.entries().filter(after_seq(after));
                &&& r@.len() == newer.len()
                &&& forall|i: int| 0 <= i < r@.len() ==> (#[trigger] r@[i]).same(newer[i])
            }),
    {
        let ghost all = self.entries@;
        let mut out: Vec<LogEntry> = Vec::new();
        let mut i: usize = 0;
        while i < self.entries.len()
            invariant
                i <= all.len(),
                all == self.entries@,
                out@.len() == all.subrange(0, i as int).filter(after_seq(after)).len(),
                forall|k: int| 0 <= k < out@.len() ==> (#[trigger] out@[k]).same(
                    all.subrange(0, i as int).filter(after_seq(after))[k]),
            decreases all.len() - i,
        {
            let ghost pre = all.subrange(0, i as int);
            let ghost post = all.subrange(0, i as int + 1);
            assert(post =~= pre.push(all[i as int]));
            let ghost p = after_seq(after);
            proof {
                pre.lemma_filter_push(all[i as int], p);
            }
            assert(post.last() == all[i as int]);
            assert(p(post.last()) == (all[i as int].seq > after));
            if self.entries[i].seq > after {
                out.push(self.entries[i].duplicate());
            }
            i += 1;
        }
        assert(all.subrange(0, i as int) =~= all);
        out
    }

    /// The sequence number of the last entry.
    pub fn last_seq(&self) -> (r: u64)
        ensures
            r == self.seq_spec(),
    {
        self.seq
    }
}

} // verus!
