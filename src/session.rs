use vstd::prelude::*;

use crate::repair::{Action, Event, RepairLoop, RepairStage, SessionResult};
use crate::scan::VerificationOutcome;

verus! {

/// The pass count used when the operator gives none.
pub const DEFAULT_PASSES: u64 = 5;

/// Where a session stands; it only ever moves forward.
#[derive(Clone, Copy, Debug, PartialEq, Eq, Structural)]
pub enum Phase {
    Discovering,
    Selecting,
    /// This many of the requested passes have been carried out.
    Wiping(u64),
    Verifying,
    Repairing(RepairLoop),
    Done(SessionResult),
}

/// One run against one device: discover, select, wipe `passes` times, then
/// verify and repair unless verification is off.
#[derive(Clone, Copy, Debug, PartialEq, Eq, Structural)]
pub struct WipeSession {
    pub passes: u64,
    pub verify: bool,
    pub phase: Phase,
}

/// How far along the forward order of phases `p` stands.
pub open spec fn phase_rank(p: Phase) -> int {
    match p {
        Phase::Discovering => 0,
        Phase::Selecting => 1,
        Phase::Wiping(_) => 2,
        Phase::Verifying => 3,
        Phase::Repairing(_) => 4,
        Phase::Done(_) => 5,
    }
}

impl WipeSession {
    pub open spec fn wf(self) -> bool {
        match self.phase {
            Phase::Wiping(i) => i < self.passes,
            Phase::Verifying => self.verify,
            Phase::Repairing(r) => {
                &&& self.verify
                &&& r.wf()
                &&& r.passes == self.passes
                &&& !(r.stage is Finished)
            },
            _ => true,
        }
    }

    /// The phase once `done` passes have been carried out.
    pub open spec fn after_passes(self, done: int) -> Phase {
        if done < self.passes {
            Phase::Wiping(done as u64)
        } else if self.verify {
            Phase::Verifying
        } else {
            Phase::Done(SessionResult::Skipped)
        }
    }

    pub open spec fn spec_action(self) -> Action {
        match self.phase {
            Phase::Discovering => Action::Discover,
            Phase::Selecting => Action::AwaitSelection,
            Phase::Wiping(_) => Action::WipePass,
            Phase::Verifying => Action::Scan(0),
            Phase::Repairing(r) => r.spec_action(),
            Phase::Done(res) => Action::Finish(res),
        }
    }

    /// The session after `e`; an event that does not answer the pending
    /// action changes nothing.
    pub open spec fn spec_next(self, e: Event) -> WipeSession {
        let phase = match (self.phase, e) {
            (Phase::Discovering, Event::Discovered) => Phase::Selecting,
            (Phase::Discovering, Event::DiscoveryFailed) => Phase::Done(SessionResult::Aborted),
            (Phase::Selecting, Event::Confirmed) => self.after_passes(0),
            (Phase::Wiping(i), Event::PassSucceeded) | (Phase::Wiping(i), Event::PassFailed(_)) => {
                self.after_passes(i + 1)
            },
            (Phase::Verifying, Event::Scanned(VerificationOutcome::Clean)) => Phase::Done(
                SessionResult::Clean,
            ),
            (Phase::Verifying, Event::Scanned(VerificationOutcome::Dirty(o))) => Phase::Repairing(
                RepairLoop::spec_new(o, self.passes),
            ),
            (Phase::Verifying, Event::ScanFailed(err)) => Phase::Done(
                SessionResult::ScanFailed(err.offset),
            ),
            (Phase::Repairing(r), _) => match r.spec_next(e).stage {
                RepairStage::Finished(res) => Phase::Done(res),
                _ => Phase::Repairing(r.spec_next(e)),
            },
            _ => self.phase,
        };
        WipeSession { phase, ..self }
    }

    /// A session that will wipe `passes` times, verifying afterwards when
    /// `verify` is set.
    pub fn new(passes: u64, verify: bool) -> (r: Self)
        ensures
            r.wf(),
            r.passes == passes,
            r.verify == verify,
            r.phase == Phase::Discovering,
    {
        WipeSession { passes, verify, phase: Phase::Discovering }
    }

    fn after(&self, done: u64) -> (r: Phase)
        ensures
            r == self.after_passes(done as int),
    {
        if done < self.passes {
            Phase::Wiping(done)
        } else if self.verify {
            Phase::Verifying
        } else {
            Phase::Done(SessionResult::Skipped)
        }
    }

    /// What the caller must do next.
    pub fn action(&self) -> (r: Action)
        ensures
            r == self.spec_action(),
    {
        match self.phase {
            Phase::Discovering => Action::Discover,
            Phase::Selecting => Action::AwaitSelection,
            Phase::Wiping(_) => Action::WipePass,
            Phase::Verifying => Action::Scan(0),
            Phase::Repairing(r) => r.action(),
            Phase::Done(res) => Action::Finish(res),
        }
    }

    /// Takes the caller's report on the pending action.
    pub fn step(&mut self, e: Event)
        requires
            old(self).wf(),
        ensures
            *final(self) == old(self).spec_next(e),
            final(self).wf(),
    {
        let phase = match (self.phase, e) {
            (Phase::Discovering, Event::Discovered) => Phase::Selecting,
            (Phase::Discovering, Event::DiscoveryFailed) => Phase::Done(SessionResult::Aborted),
            (Phase::Selecting, Event::Confirmed) => self.after(0),
            (Phase::Wiping(i), Event::PassSucceeded) | (Phase::Wiping(i), Event::PassFailed(_)) => {
                self.after(i + 1)
            },
            (Phase::Verifying, Event::Scanned(VerificationOutcome::Clean)) => Phase::Done(
                SessionResult::Clean,
            ),
            (Phase::Verifying, Event::Scanned(VerificationOutcome::Dirty(o))) => Phase::Repairing(
                RepairLoop::new(o, self.passes),
            ),
            (Phase::Verifying, Event::ScanFailed(err)) => Phase::Done(
                SessionResult::ScanFailed(err.offset),
            ),
            (Phase::Repairing(r), _) => {
                let mut r2 = r;
                r2.step(e);
                match r2.stage {
                    RepairStage::Finished(res) => Phase::Done(res),
                    _ => Phase::Repairing(r2),
                }
            },
            _ => self.phase,
        };
        self.phase = phase;
    }

    /// The session's result, once it is done.
    pub fn result(&self) -> (r: Option<SessionResult>)
        ensures
            match self.phase {
                Phase::Done(res) => r == Some(res),
                _ => r.is_none(),
            },
    {
        match self.phase {
            Phase::Done(res) => Some(res),
            _ => None,
        }
    }
}

/// No transition goes back to an earlier phase, and a finished session stays
/// as it is.
pub proof fn lemma_session_forward(s: WipeSession, e: Event)
    requires
        s.wf(),
    ensures
        s.spec_next(e).wf(),
        phase_rank(s.phase) <= phase_rank(s.spec_next(e).phase),
        s.phase is Done ==> s.spec_next(e) == s,
{
}

/// A failed discovery ends the session as aborted before any pass is asked
/// for, and an aborted session asks for nothing more.
pub proof fn lemma_discovery_failure_aborts(passes: u64, verify: bool, e: Event)
    ensures
        ({
            let s = WipeSession { passes, verify, phase: Phase::Discovering };
            &&& s.spec_action() == Action::Discover
            &&& s.spec_next(Event::DiscoveryFailed).phase == Phase::Done(SessionResult::Aborted)
            &&& s.spec_next(Event::DiscoveryFailed).spec_next(e).spec_action() == Action::Finish(
                SessionResult::Aborted,
            )
        }),
{
}

/// With verification off, the last pass ends the session as skipped and no
/// scan is ever asked for.
pub proof fn lemma_unverified_skips_scan(s: WipeSession, e: Event)
    requires
        s.wf(),
        !s.verify,
    ensures
        !(s.spec_action() is Scan),
        !s.spec_next(e).verify,
        s.spec_next(e).phase is Done ==> s.phase is Done || s.spec_next(e).phase == Phase::Done(
            SessionResult::Aborted,
        ) || s.spec_next(e).phase == Phase::Done(SessionResult::Skipped),
{
}

/// A session reports `Clean` only when the last scan it asked for came back
/// clean.
pub proof fn lemma_clean_needs_clean_scan(s: WipeSession, e: Event)
    requires
        s.wf(),
        !(s.phase is Done),
        s.spec_next(e).phase == Phase::Done(SessionResult::Clean),
    ensures
        s.spec_action() is Scan,
        e == Event::Scanned(VerificationOutcome::Clean),
{
}

/// The session after each of `es` in turn.
pub open spec fn run(s: WipeSession, es: Seq<Event>) -> WipeSession
    decreases es.len(),
{
    if es.len() == 0 {
        s
    } else {
        run(s.spec_next(es[0]), es.drop_first())
    }
}

/// The report on a wipe pass, successful or not.
pub open spec fn is_pass_report(e: Event) -> bool {
    e is PassSucceeded || e is PassFailed
}

proof fn lemma_passes_from(s: WipeSession, i: nat, es: Seq<Event>)
    requires
        i + es.len() == s.passes,
        forall|k: int| 0 <= k < es.len() ==> is_pass_report(#[trigger] es[k]),
    ensures
        run(WipeSession { phase: s.after_passes(i as int), ..s }, es).phase == s.after_passes(
            s.passes as int,
        ),
        forall|k: int|
            0 <= k < es.len() ==> run(WipeSession { phase: s.after_passes(i as int), ..s }, es.take(k)).phase
                == Phase::Wiping((i + k) as u64),
    decreases es.len(),
{
    let t = WipeSession { phase: s.after_passes(i as int), ..s };
    if es.len() > 0 {
        assert(is_pass_report(es[0]));
        assert(t.spec_next(es[0]) == WipeSession { phase: s.after_passes(i + 1 as int), ..s });
        lemma_passes_from(s, (i + 1) as nat, es.drop_first());
        assert forall|k: int| 0 <= k < es.len() implies run(t, #[trigger] es.take(k)).phase == Phase::Wiping(
            (i + k) as u64,
        ) by {
            if k > 0 {
                assert(es.take(k).drop_first() =~= es.drop_first().take(k - 1));
                assert(es.take(k)[0] == es[0]);
            }
        }
    }
}

/// Once confirmed, a session asks for exactly `passes` wipe passes, whether
/// each of them succeeds or fails, and only then verifies, or finishes as
/// skipped when verification is off.
pub proof fn lemma_every_pass_runs(s: WipeSession, es: Seq<Event>)
    requires
        s.phase == Phase::Selecting,
        es.len() == s.passes,
        forall|k: int| 0 <= k < es.len() ==> is_pass_report(#[trigger] es[k]),
    ensures
        forall|k: int|
            0 <= k < es.len() ==> (#[trigger] run(s.spec_next(Event::Confirmed), es.take(k))).spec_action()
                == Action::WipePass,
        run(s.spec_next(Event::Confirmed), es).phase == if s.verify {
            Phase::Verifying
        } else {
            Phase::Done(SessionResult::Skipped)
        },
{
    lemma_passes_from(s, 0, es);
    assert(s.spec_next(Event::Confirmed) == WipeSession { phase: s.after_passes(0), ..s });
    assert forall|k: int| 0 <= k < es.len() implies (#[trigger] run(
        s.spec_next(Event::Confirmed),
        es.take(k),
    )).spec_action() == Action::WipePass by {
        assert(run(s.spec_next(Event::Confirmed), es.take(k)).phase == Phase::Wiping(k as u64));
    }
}

} // verus!
