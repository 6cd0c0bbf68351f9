//! Shared progress counters.  The library holds the pure counter state and
//! its update rules; callers guard a `StatusReport` with their own lock
//! and render it after every mutation.

use vstd::prelude::*;

verus! {

/// Process-wide progress counters.
pub struct StatusReport {
    pub files: usize,
    pub items: usize,
    pub total_files: usize,
    pub total_items: usize,
    pub changed_items: usize,
    pub last_file: String,
    pub last_item: String,
}

impl StatusReport {
    /// Fresh counters for a run over `total_files` files holding
    /// `total_items` candidates in all.
    pub fn new(total_files: usize, total_items: usize) -> (r: StatusReport)
        ensures
            r.files == 0,
            r.items == 0,
            r.total_files == total_files,
            r.total_items == total_items,
            r.changed_items == 0,
            r.last_file@.len() == 0,
            r.last_item@.len() == 0,
    {
        StatusReport {
            files: 0,
            items: 0,
            total_files,
            total_items,
            changed_items: 0,
            last_file: String::new(),
            last_item: String::new(),
        }
    }

    /// A worker starts on a file.
    pub fn enter_file(&mut self, f: String)
        requires
            old(self).files < usize::MAX,
        ensures
            final(self).files == old(self).files + 1,
            final(self).last_file@ == f@,
            final(self).items == old(self).items,
            final(self).total_files == old(self).total_files,
            final(self).total_items == old(self).total_items,
            final(self).changed_items == old(self).changed_items,
            final(self).last_item == old(self).last_item,
    {
        self.files = self.files + 1;
        self.last_file = f;
    }

    /// A worker starts on a candidate.
    pub fn enter_item(&mut self, i: String)
        requires
            old(self).items < usize::MAX,
        ensures
            final(self).items == old(self).items + 1,
            final(self).last_item@ == i@,
            final(self).files == old(self).files,
            final(self).total_files == old(self).total_files,
            final(self).total_items == old(self).total_items,
            final(self).changed_items == old(self).changed_items,
            final(self).last_file == old(self).last_file,
    {
        self.items = self.items + 1;
        self.last_item = i;
    }

    /// The current candidate's label changes without advancing the count.
    pub fn update_item(&mut self, i: String)
        ensures
            final(self).last_item@ == i@,
            final(self).files == old(self).files,
            final(self).items == old(self).items,
            final(self).total_files == old(self).total_files,
            final(self).total_items == old(self).total_items,
            final(self).changed_items == old(self).changed_items,
            final(self).last_file == old(self).last_file,
    {
        self.last_item = i;
    }

    /// A candidate was committed.
    pub fn changed_item(&mut self)
        requires
            old(self).changed_items < usize::MAX,
        ensures
            final(self).changed_items == old(self).changed_items + 1,
            final(self).files == old(self).files,
            final(self).items == old(self).items,
            final(self).total_files == old(self).total_files,
            final(self).total_items == old(self).total_items,
            final(self).last_file == old(self).last_file,
            final(self).last_item == old(self).last_item,
    {
        self.changed_items = self.changed_items + 1;
    }

    /// A file's remaining candidates are reconciled against the total when
    /// its task ends early.
    pub fn skip_items(&mut self, i: usize)
        requires
            old(self).items + i <= usize::MAX,
        ensures
            final(self).items == old(self).items + i,
            final(self).files == old(self).files,
            final(self).total_files == old(self).total_files,
            final(self).total_items == old(self).total_items,
            final(self).changed_items == old(self).changed_items,
            final(self).last_file == old(self).last_file,
            final(self).last_item == old(self).last_item,
    {
        self.items = self.items + i;
    }
}

/// One file's share of the progress: how many of its candidates are still
/// unentered.  When the file's task ends, `finish` reconciles the rest so
/// the totals stay consistent.
pub struct StatusPart {
    pub remaining: usize,
}

impl StatusPart {
    /// A part for a file with `remaining` candidates.
    pub fn new(remaining: usize) -> (r: StatusPart)
        ensures
            r.remaining == remaining,
    {
        StatusPart { remaining }
    }

    /// Enters one candidate: the shared count rises, this file's
    /// remainder falls.
    pub fn enter_item(&mut self, report: &mut StatusReport, i: String)
        requires
            old(self).remaining > 0,
            old(report).items < usize::MAX,
        ensures
            final(self).remaining == old(self).remaining - 1,
            final(report).items == old(report).items + 1,
            final(report).last_item@ == i@,
            final(report).files == old(report).files,
            final(report).total_files == old(report).total_files,
            final(report).total_items == old(report).total_items,
            final(report).changed_items == old(report).changed_items,
            final(report).last_file == old(report).last_file,
    {
        report.enter_item(i);
        self.remaining = self.remaining - 1;
    }

    /// Relabels the current candidate.
    pub fn update_item(&mut self, report: &mut StatusReport, i: String)
        ensures
            final(self).remaining == old(self).remaining,
            final(report).last_item@ == i@,
            final(report).files == old(report).files,
            final(report).items == old(report).items,
            final(report).total_files == old(report).total_files,
            final(report).total_items == old(report).total_items,
            final(report).changed_items == old(report).changed_items,
            final(report).last_file == old(report).last_file,
    {
        report.update_item(i);
    }

    /// Marks the current candidate committed.
    pub fn changed_item(&mut self, report: &mut StatusReport)
        requires
            old(report).changed_items < usize::MAX,
        ensures
            final(self).remaining == old(self).remaining,
            final(report).changed_items == old(report).changed_items + 1,
            final(report).files == old(report).files,
            final(report).items == old(report).items,
            final(report).total_files == old(report).total_files,
            final(report).total_items == old(report).total_items,
            final(report).last_file == old(report).last_file,
            final(report).last_item == old(report).last_item,
    {
        report.changed_item();
    }

    /// Ends this file's share: whatever was never entered is counted as
    /// skipped, so the shared totals reconcile.
    pub fn finish(self, report: &mut StatusReport)
        requires
            old(report).items + self.remaining <= usize::MAX,
        ensures
            final(report).items == old(report).items + self.remaining,
            final(report).files == old(report).files,
            final(report).total_files == old(report).total_files,
            final(report).total_items == old(report).total_items,
            final(report).changed_items == old(report).changed_items,
            final(report).last_file == old(report).last_file,
            final(report).last_item == old(report).last_item,
    {
        report.skip_items(self.remaining);
    }
}

} // verus!
