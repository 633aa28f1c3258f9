//! The cleanup executor: walks the rows read back from the report,
//! hands out one deletion target at a time, and records each outcome
//! without ever abandoning the batch.
//!
//! The deletion itself is an external command the caller runs; the
//! executor only decides the order, pairs every outcome with its row,
//! and guarantees that one row's failure never stops the next row.

use vstd::prelude::*;
use crate::report::ReportRow;

verus! {

/// What one external deletion came to: success, or failure with the
/// diagnostic text the command printed.
#[derive(Debug)]
pub enum DeletionOutcome {
    Succeeded,
    Failed(String),
}

/// One line of the cleanup record: the workspace name targeted and how
/// its deletion ended.
#[derive(Debug)]
pub struct LogEntry {
    pub name: String,
    pub outcome: DeletionOutcome,
}

/// The state of one cleanup batch over the rows of a report.
#[derive(Debug)]
pub struct CleanupExecutor {
    /// The report rows, in file order.
    pub rows: Vec<ReportRow>,
    /// How many rows have been dealt with so far.
    pub next: usize,
    /// One entry per dealt-with row, in the same order.
    pub log: Vec<LogEntry>,
}

impl CleanupExecutor {
    /// The executor is consistent: it has processed a prefix of the
    /// rows, and logged exactly those, each under its row's name.
    pub open spec fn wf(self) -> bool {
        &&& self.next <= self.rows@.len()
        &&& self.log@.len() == self.next
        &&& forall|i: int| 0 <= i < self.next ==> self.log@[i].name == self.rows@[i].name
    }

    /// Starts a batch over the given rows, none dealt with yet.
    pub fn new(rows: Vec<ReportRow>) -> (e: Self)
        ensures
            e.wf(),
            e.rows@ == rows@,
            e.next == 0,
            e.log@ == Seq::<LogEntry>::empty(),
    {
        CleanupExecutor { rows, next: 0, log: Vec::new() }
    }

    /// The name the next deletion must target, or nothing when every
    /// row has been dealt with.
    pub fn current_target(&self) -> (t: Option<String>)
        requires
            self.wf(),
        ensures
            match t {
                Some(name) => self.next < self.rows@.len() && name
                    == self.rows@[self.next as int].name,
                None => self.next == self.rows@.len(),
            },
    {
        if self.next < self.rows.len() {
            Some(self.rows[self.next].name.clone())
        } else {
            None
        }
    }

    /// Records the outcome of the current row's deletion and moves to
    /// the next row.  Success and failure are recorded alike: a failed
    /// deletion never stops the batch, and the rows keep their order.
    pub fn record(&mut self, outcome: DeletionOutcome)
        requires
            old(self).wf(),
            old(self).next < old(self).rows@.len(),
        ensures
            final(self).wf(),
            final(self).rows@ == old(self).rows@,
            final(self).next == old(self).next + 1,
            final(self).log@ == old(self).log@.push(
                LogEntry { name: old(self).rows@[old(self).next as int].name, outcome },
            ),
    {
        let n = self.rows.len();
        let name = self.rows[self.next].name.clone();
        self.log.push(LogEntry { name, outcome });
        proof {
            assert(self.next < n);
        }
        self.next = self.next + 1;
    }

    /// Whether every row has been dealt with.
    pub fn is_done(&self) -> (d: bool)
        requires
            self.wf(),
        ensures
            d == (self.next == self.rows@.len()),
    {
        self.next == self.rows.len()
    }
}

} // verus!
