//! Building the caller-facing result: successes and failures are
//! accumulated incrementally over the download phase and finalized once.
//! `success` is true exactly when the failure list is empty.

use vstd::prelude::*;

use crate::model::{pairs_view, DownloadStats};

verus! {

/// The externally observed result of one download run or batch.
pub struct DownloadReport {
    pub success: bool,
    pub downloaded_mods: Vec<String>,
    pub failed_mods: Vec<(String, String)>,
    pub total_size: u64,
}

/// Accumulates per-download outcomes and the byte total; also decides,
/// in sequential mode, when a failure must stop the remaining downloads.
pub struct ReportBuilder {
    pub stats: DownloadStats,
    pub total_size: u64,
    pub continue_on_error: bool,
}

impl ReportBuilder {
    pub fn new(continue_on_error: bool) -> (r: ReportBuilder)
        ensures
            r.stats.installed@.len() == 0,
            r.stats.failed@.len() == 0,
            r.total_size == 0,
            r.continue_on_error == continue_on_error,
    {
        ReportBuilder {
            stats: DownloadStats { installed: Vec::new(), failed: Vec::new() },
            total_size: 0,
            continue_on_error,
        }
    }

    /// Starts the download phase with the resolution failures already
    /// recorded, so they surface in the final report.
    pub fn with_failures(failures: Vec<(String, String)>, continue_on_error: bool) -> (r:
        ReportBuilder)
        ensures
            r.stats.installed@.len() == 0,
            r.stats.failed == failures,
            r.total_size == 0,
            r.continue_on_error == continue_on_error,
    {
        ReportBuilder {
            stats: DownloadStats { installed: Vec::new(), failed: failures },
            total_size: 0,
            continue_on_error,
        }
    }

    /// Records one successfully downloaded mod and its byte count; the
    /// running total saturates at `u64::MAX` instead of overflowing.
    pub fn record_success(&mut self, mod_name: &str, version: &str, bytes: u64)
        ensures
            pairs_view(final(self).stats.installed@) =~= pairs_view(
                old(self).stats.installed@,
            ).push((mod_name@, version@)),
            final(self).stats.failed == old(self).stats.failed,
            final(self).continue_on_error == old(self).continue_on_error,
            final(self).total_size == if old(self).total_size + bytes <= u64::MAX {
                old(self).total_size + bytes
            } else {
                u64::MAX as int
            },
    {
        self.stats.installed.push((mod_name.to_owned(), version.to_owned()));
        if u64::MAX - self.total_size >= bytes {
            self.total_size = self.total_size + bytes;
        } else {
            self.total_size = u64::MAX;
        }
    }

    /// Records one failure (an identifier and a message) without aborting
    /// the rest of the accumulation.
    pub fn record_failure(&mut self, id: &str, message: &str)
        ensures
            pairs_view(final(self).stats.failed@) =~= pairs_view(old(self).stats.failed@).push(
                (id@, message@),
            ),
            final(self).stats.installed == old(self).stats.installed,
            final(self).continue_on_error == old(self).continue_on_error,
            final(self).total_size == old(self).total_size,
    {
        self.stats.failed.push((id.to_owned(), message.to_owned()));
    }

    /// In sequential mode, whether the remaining downloads must be
    /// skipped: something failed and continuing on error is off.
    pub fn should_stop(&self) -> (r: bool)
        ensures
            r == (!self.continue_on_error && self.stats.failed@.len() > 0),
    {
        !self.continue_on_error && self.stats.failed.len() > 0
    }

    /// Finalizes the report: the downloaded names are the installed names
    /// in order, and success holds exactly when nothing failed.
    pub fn finish(self) -> (r: DownloadReport)
        ensures
            r.success == (self.stats.failed@.len() == 0),
            r.downloaded_mods@.len() == self.stats.installed@.len(),
            forall|j: int|
                0 <= j < r.downloaded_mods@.len() ==> r.downloaded_mods@[j]@
                    == self.stats.installed@[j].0@,
            r.failed_mods == self.stats.failed,
            r.total_size == self.total_size,
    {
        let mut names: Vec<String> = Vec::new();
        let n = self.stats.installed.len();
        let mut i: usize = 0;
        while i < n
            invariant
                0 <= i <= n,
                n == self.stats.installed@.len(),
                names@.len() == i,
                forall|j: int| 0 <= j < i ==> names@[j]@ == self.stats.installed@[j].0@,
            decreases n - i,
        {
            names.push(self.stats.installed[i].0.clone());
            i = i + 1;
        }
        let success = self.stats.failed.len() == 0;
        DownloadReport {
            success,
            downloaded_mods: names,
            failed_mods: self.stats.failed,
            total_size: self.total_size,
        }
    }
}

/// The failed report returned when resolution produced no installable
/// mods at all: one failure entry under the given label.
pub fn no_mods_report(label: &str) -> (r: DownloadReport)
    ensures
        !r.success,
        r.downloaded_mods@.len() == 0,
        r.total_size == 0,
        pairs_view(r.failed_mods@) =~= seq![(label@, "No compatible mods found"@)],
{
    let mut failed: Vec<(String, String)> = Vec::new();
    failed.push((label.to_owned(), "No compatible mods found".to_owned()));
    DownloadReport {
        success: false,
        downloaded_mods: Vec::new(),
        failed_mods: failed,
        total_size: 0,
    }
}

/// The failed report returned for a batch with no roots at all.
pub fn empty_batch_report() -> (r: DownloadReport)
    ensures
        !r.success,
        r.downloaded_mods@.len() == 0,
        r.total_size == 0,
        pairs_view(r.failed_mods@) =~= seq![("batch"@, "No mod URLs provided"@)],
{
    let mut failed: Vec<(String, String)> = Vec::new();
    failed.push(("batch".to_owned(), "No mod URLs provided".to_owned()));
    DownloadReport {
        success: false,
        downloaded_mods: Vec::new(),
        failed_mods: failed,
        total_size: 0,
    }
}

} // verus!
