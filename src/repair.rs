use vstd::prelude::*;

use crate::scan::VerificationOutcome;
use crate::wipe::IoError;

verus! {

/// What the caller reports after carrying out an action.
#[derive(Clone, Copy, Debug, PartialEq, Eq, Structural)]
pub enum Event {
    /// The device catalog was read.
    Discovered,
    /// The device catalog could not be read.
    DiscoveryFailed,
    /// The operator picked an unmounted device and confirmed twice.
    Confirmed,
    /// A wipe pass wrote and flushed every chunk.
    PassSucceeded,
    /// A wipe pass stopped at a failed write.
    PassFailed(IoError),
    /// A scan ran to its outcome.
    Scanned(VerificationOutcome),
    /// A scan stopped at a failed read.
    ScanFailed(IoError),
}

/// The final result of a repair loop or of a whole session.
#[derive(Clone, Copy, Debug, PartialEq, Eq, Structural)]
pub enum SessionResult {
    Clean,
    Dirty(u64),
    /// Verification was turned off.
    Skipped,
    /// The last scan could not read the device at this offset.
    ScanFailed(u64),
    /// Discovery failed before any device was touched.
    Aborted,
}

/// What the caller must do next.
#[derive(Clone, Copy, Debug, PartialEq, Eq, Structural)]
pub enum Action {
    Discover,
    AwaitSelection,
    WipePass,
    Scan(u64),
    Finish(SessionResult),
}

#[derive(Clone, Copy, Debug, PartialEq, Eq, Structural)]
pub enum RepairStage {
    Wiping,
    Scanning,
    Finished(SessionResult),
}

/// Re-wipe and re-scan from `start`, at most `passes` times, until a scan
/// comes back clean.
#[derive(Clone, Copy, Debug, PartialEq, Eq, Structural)]
pub struct RepairLoop {
    pub start: u64,
    pub passes: u64,
    /// Wipe passes carried out so far.
    pub iterations: u64,
    pub stage: RepairStage,
}

/// The result a scan outcome stands for.
pub open spec fn result_of(v: VerificationOutcome) -> SessionResult {
    match v {
        VerificationOutcome::Clean => SessionResult::Clean,
        VerificationOutcome::Dirty(o) => SessionResult::Dirty(o),
    }
}

impl RepairLoop {
    pub open spec fn wf(self) -> bool {
        &&& self.iterations <= self.passes
        &&& (self.stage == RepairStage::Wiping ==> self.iterations < self.passes)
    }

    pub open spec fn spec_new(start: u64, passes: u64) -> RepairLoop {
        RepairLoop {
            start,
            passes,
            iterations: 0,
            stage: if passes == 0 {
                RepairStage::Scanning
            } else {
                RepairStage::Wiping
            },
        }
    }

    pub open spec fn spec_action(self) -> Action {
        match self.stage {
            RepairStage::Wiping => Action::WipePass,
            RepairStage::Scanning => Action::Scan(self.start),
            RepairStage::Finished(res) => Action::Finish(res),
        }
    }

    /// After a scan that did not come back clean: wipe again while passes
    /// remain, else stop with `res`.
    pub open spec fn retry_or(self, res: SessionResult) -> RepairLoop {
        if self.iterations < self.passes {
            RepairLoop { stage: RepairStage::Wiping, ..self }
        } else {
            RepairLoop { stage: RepairStage::Finished(res), ..self }
        }
    }

    /// The loop after `e`; an event that does not answer the pending action
    /// changes nothing.
    pub open spec fn spec_next(self, e: Event) -> RepairLoop {
        match (self.stage, e) {
            (RepairStage::Wiping, Event::PassSucceeded) | (RepairStage::Wiping, Event::PassFailed(_)) => {
                RepairLoop { iterations: (self.iterations + 1) as u64, stage: RepairStage::Scanning, ..self }
            },
            (RepairStage::Scanning, Event::Scanned(VerificationOutcome::Clean)) => {
                RepairLoop { stage: RepairStage::Finished(SessionResult::Clean), ..self }
            },
            (RepairStage::Scanning, Event::Scanned(VerificationOutcome::Dirty(o))) => {
                self.retry_or(SessionResult::Dirty(o))
            },
            (RepairStage::Scanning, Event::ScanFailed(err)) => {
                self.retry_or(SessionResult::ScanFailed(err.offset))
            },
            _ => self,
        }
    }

    /// A repair anchored at `start`; with no passes it only scans.
    pub fn new(start: u64, passes: u64) -> (r: Self)
        ensures
            r == Self::spec_new(start, passes),
            r.wf(),
    {
        RepairLoop {
            start,
            passes,
            iterations: 0,
            stage: if passes == 0 {
                RepairStage::Scanning
            } else {
                RepairStage::Wiping
            },
        }
    }

    pub fn action(&self) -> (r: Action)
        ensures
            r == self.spec_action(),
    {
        match self.stage {
            RepairStage::Wiping => Action::WipePass,
            RepairStage::Scanning => Action::Scan(self.start),
            RepairStage::Finished(res) => Action::Finish(res),
        }
    }

    fn retry(&mut self, res: SessionResult)
        requires
            old(self).wf(),
        ensures
            *final(self) == old(self).retry_or(res),
            final(self).wf(),
    {
        if self.iterations < self.passes {
            self.stage = RepairStage::Wiping;
        } else {
            self.stage = RepairStage::Finished(res);
        }
    }

    /// Takes the caller's report on the pending action.
    pub fn step(&mut self, e: Event)
        requires
            old(self).wf(),
        ensures
            *final(self) == old(self).spec_next(e),
            final(self).wf(),
    {
        match (self.stage, e) {
            (RepairStage::Wiping, Event::PassSucceeded) | (RepairStage::Wiping, Event::PassFailed(_)) => {
                self.iterations = self.iterations + 1;
                self.stage = RepairStage::Scanning;
            },
            (RepairStage::Scanning, Event::Scanned(VerificationOutcome::Clean)) => {
                self.stage = RepairStage::Finished(SessionResult::Clean);
            },
            (RepairStage::Scanning, Event::Scanned(VerificationOutcome::Dirty(o))) => {
                self.retry(SessionResult::Dirty(o));
            },
            (RepairStage::Scanning, Event::ScanFailed(err)) => {
                self.retry(SessionResult::ScanFailed(err.offset));
            },
            _ => {},
        }
    }

    /// The final result, once the loop has stopped.
    pub fn result(&self) -> (r: Option<SessionResult>)
        ensures
            match self.stage {
                RepairStage::Finished(res) => r == Some(res),
                _ => r.is_none(),
            },
    {
        match self.stage {
            RepairStage::Finished(res) => Some(res),
            _ => None,
        }
    }
}

/// With no passes the repair loop writes nothing: its one action is the scan
/// from `start`, and its result is that scan's outcome unchanged.
pub proof fn lemma_repair_without_passes(start: u64, e: Event)
    ensures
        RepairLoop::spec_new(start, 0).spec_action() == Action::Scan(start),
        RepairLoop::spec_new(start, 0).spec_next(e).iterations == 0,
        match e {
            Event::Scanned(v) => RepairLoop::spec_new(start, 0).spec_next(e).stage == RepairStage::Finished(
                result_of(v),
            ),
            Event::ScanFailed(err) => RepairLoop::spec_new(start, 0).spec_next(e).stage
                == RepairStage::Finished(SessionResult::ScanFailed(err.offset)),
            _ => RepairLoop::spec_new(start, 0).spec_next(e) == RepairLoop::spec_new(start, 0),
        },
{
}

/// The loop stops after at most `passes` wipe passes, and while it runs it
/// has carried out fewer.
pub proof fn lemma_repair_bounded(r: RepairLoop, e: Event)
    requires
        r.wf(),
    ensures
        r.spec_next(e).wf(),
        r.spec_next(e).iterations <= r.passes,
        r.spec_next(e).iterations == r.iterations || (r.stage == RepairStage::Wiping
            && r.spec_next(e).iterations == r.iterations + 1),
{
}

} // verus!
