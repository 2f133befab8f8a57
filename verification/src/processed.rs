//! The record of the logs that the relay has taken up.
//!
//! A log is recorded before any work on its job begins and is never
//! forgotten, so that a caller can tell a replayed log from a new one by
//! asking the record before it starts the job.

use crate::word::Word;
use vstd::prelude::*;

verus! {

/// The identity of a log record: where it was emitted.
#[derive(Clone, Copy, Debug, PartialEq, Eq, PartialOrd, Ord, Hash, Structural)]
pub struct LogSource {
    pub source_chain_id: Word,
    pub block_number: Word,
    pub log_index: Word,
}

/// The set of logs taken up so far. It holds each log once.
#[derive(Debug)]
pub struct ProcessedLogs {
    seen: Vec<LogSource>,
}

impl View for ProcessedLogs {
    type V = Set<LogSource>;

    closed spec fn view(&self) -> Set<LogSource> {
        self.seen@.to_set()
    }
}

impl ProcessedLogs {
    /// True when the record holds no log twice. Every record that this
    /// module hands out is well formed, and every operation keeps it so.
    pub closed spec fn wf(&self) -> bool {
        self.seen@.no_duplicates()
    }

    /// The number of logs that the record holds.
    pub closed spec fn count(&self) -> nat {
        self.seen@.len()
    }

    /// The record holds as many logs as its set has members.
    pub proof fn lemma_count_is_cardinality(&self)
        requires
            self.wf(),
        ensures
            self@.finite(),
            self@.len() == self.count(),
    {
        self.seen@.unique_seq_to_set();
    }

    /// An empty record.
    pub fn new() -> (logs: ProcessedLogs)
        ensures
            logs.wf(),
            logs@ == Set::<LogSource>::empty(),
            logs.count() == 0,
    {
        let logs = ProcessedLogs { seen: Vec::new() };
        assert(logs@ =~= Set::<LogSource>::empty());
        logs
    }

    /// Whether the log has been recorded.
    pub fn contains(&self, source: &LogSource) -> (found: bool)
        requires
            self.wf(),
        ensures
            found == self@.contains(*source),
    {
        let mut i: usize = 0;
        while i < self.seen.len()
            invariant
                i <= self.seen@.len(),
                forall|k: int| 0 <= k < i ==> self.seen@[k] != *source,
            decreases self.seen@.len() - i,
        {
            if self.seen[i] == *source {
                return true;
            }
            i += 1;
        }
        false
    }

    /// Records the log and says whether it is new. A log that the record
    /// already holds is not recorded again.
    pub fn record_processed_log(&mut self, source: LogSource) -> (fresh: bool)
        requires
            old(self).wf(),
        ensures
            final(self).wf(),
            final(self)@ == old(self)@.insert(source),
            fresh == !old(self)@.contains(source),
            final(self).count() == old(self).count() + if fresh {
                1nat
            } else {
                0nat
            },
    {
        if self.contains(&source) {
            assert(self@ =~= self@.insert(source));
            false
        } else {
            let ghost before = self.seen@;
            self.seen.push(source);
            proof {
                assert(self.seen@ == before.push(source));
                assert forall|i: int, j: int|
                    0 <= i < self.seen@.len() && 0 <= j < self.seen@.len() && i != j implies self.seen@[i]
                    != self.seen@[j] by {
                    if i < before.len() {
                        assert(before.contains(before[i]));
                    }
                    if j < before.len() {
                        assert(before.contains(before[j]));
                    }
                }
                assert forall|x: LogSource|
                    self.seen@.to_set().contains(x) == before.to_set().insert(source).contains(
                        x,
                    ) by {
                    if before.push(source).contains(x) {
                        let i = choose|i: int|
                            0 <= i < before.push(source).len() && before.push(source)[i] == x;
                        if i < before.len() {
                            assert(before.contains(x));
                        }
                    }
                    if before.contains(x) {
                        let i = choose|i: int| 0 <= i < before.len() && before[i] == x;
                        assert(before.push(source)[i] == x);
                    }
                    if x == source {
                        assert(before.push(source)[before.len() as int] == x);
                    }
                }
                assert(self.seen@.to_set() =~= before.to_set().insert(source));
            }
            true
        }
    }

    /// The number of logs recorded.
    pub fn len(&self) -> (n: usize)
        requires
            self.wf(),
        ensures
            n == self.count(),
            n == self@.len(),
    {
        proof {
            self.lemma_count_is_cardinality();
        }
        self.seen.len()
    }
}

/// Recording a log a second time changes nothing: the set is the same, and
/// it holds the log once.
pub proof fn lemma_replay_recorded_once(logs: Set<LogSource>, source: LogSource)
    requires
        logs.finite(),
    ensures
        logs.insert(source).insert(source) == logs.insert(source),
        logs.insert(source).contains(source),
        logs.insert(source).insert(source).len() == logs.insert(source).len(),
        logs.insert(source).len() == logs.len() + if logs.contains(source) {
            0nat
        } else {
            1nat
        },
{
    assert(logs.insert(source).insert(source) =~= logs.insert(source));
}

} // verus!
