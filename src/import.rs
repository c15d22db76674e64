use vstd::prelude::*;

verus! {

/// The steps of importing one report, in the order in which they run.
#[derive(Clone, Copy, Debug, PartialEq, Eq, Structural)]
pub enum ImportStep {
    Pending,
    /// Fetch the printable document of the report.
    FetchDocument,
    /// Fetch the raw structured export of the report.
    FetchStructuredExport,
    /// Build the ledger entry request and write the local artifacts.
    PersistArtifacts,
    /// Create the ledger entry.
    CreateLedgerEntry,
    /// Attach the document to the ledger entry; a failure here is only
    /// reported.
    UploadAttachment,
    /// Delete the local artifacts; a failure here is only reported.
    Cleanup,
    Done,
    Failed,
}

/// How far along the import a step stands.
pub open spec fn step_rank(s: ImportStep) -> nat {
    match s {
        ImportStep::Pending => 0,
        ImportStep::FetchDocument => 1,
        ImportStep::FetchStructuredExport => 2,
        ImportStep::PersistArtifacts => 3,
        ImportStep::CreateLedgerEntry => 4,
        ImportStep::UploadAttachment => 5,
        ImportStep::Cleanup => 6,
        ImportStep::Done => 7,
        ImportStep::Failed => 8,
    }
}

pub open spec fn is_terminal(s: ImportStep) -> bool {
    s == ImportStep::Done || s == ImportStep::Failed
}

/// The step after `s`, given whether the work of `s` succeeded and whether
/// the local artifacts are to be kept. The fetches, the writing of the
/// artifacts and the creation of the ledger entry fail the report; the
/// upload and the cleanup do not.
pub open spec fn next_step(s: ImportStep, succeeded: bool, keep_files: bool) -> ImportStep {
    match s {
        ImportStep::Pending => ImportStep::FetchDocument,
        ImportStep::FetchDocument => if succeeded { ImportStep::FetchStructuredExport } else { ImportStep::Failed },
        ImportStep::FetchStructuredExport => if succeeded { ImportStep::PersistArtifacts } else { ImportStep::Failed },
        ImportStep::PersistArtifacts => if succeeded { ImportStep::CreateLedgerEntry } else { ImportStep::Failed },
        ImportStep::CreateLedgerEntry => if succeeded { ImportStep::UploadAttachment } else { ImportStep::Failed },
        ImportStep::UploadAttachment => if keep_files { ImportStep::Done } else { ImportStep::Cleanup },
        ImportStep::Cleanup => ImportStep::Done,
        ImportStep::Done => ImportStep::Done,
        ImportStep::Failed => ImportStep::Failed,
    }
}

/// The import of one report.
#[derive(Debug)]
pub struct ImportRun {
    pub step: ImportStep,
    pub keep_files: bool,
}

impl ImportRun {
    pub fn new(keep_files: bool) -> (r: ImportRun)
        ensures
            r.step == ImportStep::Pending,
            r.keep_files == keep_files,
    {
        ImportRun { step: ImportStep::Pending, keep_files }
    }

    /// Moves on from the current step, given whether its work succeeded.
    /// A step that is not final always moves forward; a final one stays.
    pub fn advance(&mut self, succeeded: bool)
        ensures
            final(self).step == next_step(old(self).step, succeeded, old(self).keep_files),
            final(self).keep_files == old(self).keep_files,
            !is_terminal(old(self).step) ==> step_rank(final(self).step) > step_rank(old(self).step),
            is_terminal(old(self).step) ==> final(self).step == old(self).step,
    {
        self.step = match self.step {
            ImportStep::Pending => ImportStep::FetchDocument,
            ImportStep::FetchDocument => if succeeded { ImportStep::FetchStructuredExport } else { ImportStep::Failed },
            ImportStep::FetchStructuredExport => if succeeded { ImportStep::PersistArtifacts } else { ImportStep::Failed },
            ImportStep::PersistArtifacts => if succeeded { ImportStep::CreateLedgerEntry } else { ImportStep::Failed },
            ImportStep::CreateLedgerEntry => if succeeded { ImportStep::UploadAttachment } else { ImportStep::Failed },
            ImportStep::UploadAttachment => if self.keep_files { ImportStep::Done } else { ImportStep::Cleanup },
            ImportStep::Cleanup => ImportStep::Done,
            ImportStep::Done => ImportStep::Done,
            ImportStep::Failed => ImportStep::Failed,
        };
    }

    /// Whether the import has ended, in success or failure.
    pub fn is_finished(&self) -> (r: bool)
        ensures
            r == is_terminal(self.step),
    {
        self.step == ImportStep::Done || self.step == ImportStep::Failed
    }
}

/// The reports selected for import, taken one at a time. The first report
/// that fails abandons the rest of the batch.
#[derive(Debug)]
pub struct ImportBatch {
    pub selected: Vec<u32>,
    pub position: usize,
    pub aborted: bool,
}

impl ImportBatch {
    pub open spec fn wf(&self) -> bool {
        self.position <= self.selected@.len()
            && (self.aborted ==> self.position < self.selected@.len())
    }

    /// The report to import next, if any.
    pub open spec fn next_report(&self) -> Option<u32> {
        if self.aborted || self.position >= self.selected@.len() {
            None
        } else {
            Some(self.selected@[self.position as int])
        }
    }

    pub fn new(selected: Vec<u32>) -> (r: ImportBatch)
        ensures
            r.wf(),
            r.selected@ == selected@,
            r.position == 0,
            !r.aborted,
    {
        ImportBatch { selected, position: 0, aborted: false }
    }

    /// The report to import next: none once the batch is done or abandoned.
    pub fn current(&self) -> (r: Option<u32>)
        requires
            self.wf(),
        ensures
            r == self.next_report(),
    {
        if self.aborted || self.position >= self.selected.len() {
            None
        } else {
            Some(self.selected[self.position])
        }
    }

    /// Records how the import of the current report ended: a report that is
    /// done lets the batch go on with the next; one that failed stops it.
    pub fn finish_report(&mut self, outcome: ImportStep)
        requires
            old(self).wf(),
            old(self).next_report().is_some(),
            is_terminal(outcome),
        ensures
            final(self).wf(),
            final(self).selected@ == old(self).selected@,
            outcome == ImportStep::Done ==> final(self).position == old(self).position + 1 && !final(self).aborted,
            outcome == ImportStep::Failed ==> final(self).position == old(self).position && final(self).aborted
                && final(self).next_report().is_none(),
    {
        if outcome == ImportStep::Done {
            if self.position < self.selected.len() {
                self.position = self.position + 1;
            }
        } else {
            self.aborted = true;
        }
    }
}

} // verus!
