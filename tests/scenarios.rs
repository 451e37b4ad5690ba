use checked_wipe::repair::{Action, Event, SessionResult};
use checked_wipe::scan::{ScanCursor, VerificationOutcome};
use checked_wipe::session::{Phase, WipeSession};
use checked_wipe::wipe::{zero_chunk, IoError, WipeCursor};

const MIB: usize = 1048576;

/// An in-memory device; the byte at `stuck_at` ignores the first
/// `stuck_writes` writes to it.
struct SimDevice {
    data: Vec<u8>,
    stuck_at: Option<usize>,
    stuck_writes: usize,
    fail_write_at: Option<u64>,
}

impl SimDevice {
    fn new(size: usize, fill: u8) -> SimDevice {
        SimDevice { data: vec![fill; size], stuck_at: None, stuck_writes: 0, fail_write_at: None }
    }

    fn wipe_pass(&mut self) -> Result<(), IoError> {
        let mut cur = WipeCursor::new(self.data.len() as u64);
        while let Some((off, len)) = cur.next_write() {
            if self.fail_write_at == Some(off) {
                return Err(cur.fail());
            }
            let zeros = zero_chunk(len);
            let keep = self.stuck_at.filter(|_| self.stuck_writes > 0).map(|i| self.data[i]);
            self.data[off as usize..off as usize + len].copy_from_slice(&zeros);
            if let (Some(i), Some(v)) = (self.stuck_at, keep) {
                if i >= off as usize && i < off as usize + len {
                    self.data[i] = v;
                    self.stuck_writes -= 1;
                }
            }
            cur.advance();
        }
        Ok(())
    }

    fn scan(&self, start: u64) -> VerificationOutcome {
        let mut cur = ScanCursor::new(start, self.data.len() as u64);
        loop {
            match cur.next_read() {
                None => return VerificationOutcome::Clean,
                Some((off, len)) => {
                    if let Some(v) = cur.feed(&self.data[off as usize..off as usize + len]) {
                        return v;
                    }
                }
            }
        }
    }
}

struct Trace {
    result: SessionResult,
    wipes: usize,
    repair_wipes: usize,
    scans: Vec<u64>,
}

fn run(dev: &mut SimDevice, passes: u64, verify: bool, discovery_ok: bool) -> Trace {
    let mut s = WipeSession::new(passes, verify);
    let mut trace = Trace { result: SessionResult::Aborted, wipes: 0, repair_wipes: 0, scans: Vec::new() };
    loop {
        let e = match s.action() {
            Action::Discover => {
                if discovery_ok {
                    Event::Discovered
                } else {
                    Event::DiscoveryFailed
                }
            }
            Action::AwaitSelection => Event::Confirmed,
            Action::WipePass => {
                trace.wipes += 1;
                if matches!(s.phase, Phase::Repairing(_)) {
                    trace.repair_wipes += 1;
                }
                match dev.wipe_pass() {
                    Ok(()) => Event::PassSucceeded,
                    Err(err) => Event::PassFailed(err),
                }
            }
            Action::Scan(start) => {
                trace.scans.push(start);
                Event::Scanned(dev.scan(start))
            }
            Action::Finish(res) => {
                trace.result = res;
                return trace;
            }
        };
        s.step(e);
    }
}

#[test]
fn one_pass_verified_is_clean() {
    let mut dev = SimDevice::new(MIB, 0xAB);
    let t = run(&mut dev, 1, true, true);
    assert_eq!(t.result, SessionResult::Clean);
    assert_eq!(t.wipes, 1);
    assert_eq!(t.scans, vec![0]);
    assert!(dev.data.iter().all(|b| *b == 0));
}

#[test]
fn residual_byte_repaired_on_second_iteration() {
    let mut dev = SimDevice::new(2 * MIB + 77, 0x5A);
    dev.stuck_at = Some(4096);
    dev.stuck_writes = 4;
    let mut after_wipe = SimDevice::new(2 * MIB + 77, 0x5A);
    after_wipe.stuck_at = Some(4096);
    after_wipe.stuck_writes = 1;
    after_wipe.wipe_pass().unwrap();
    assert_eq!(after_wipe.scan(0), VerificationOutcome::Dirty(4096));

    let t = run(&mut dev, 3, true, true);
    assert_eq!(t.result, SessionResult::Clean);
    assert_eq!(t.repair_wipes, 2);
    assert_eq!(t.wipes, 5);
    assert_eq!(t.scans, vec![0, 4096, 4096]);
}

#[test]
fn residual_byte_persists_through_repair() {
    let mut dev = SimDevice::new(MIB, 0x5A);
    dev.stuck_at = Some(4096);
    dev.stuck_writes = usize::MAX;
    let t = run(&mut dev, 3, true, true);
    assert_eq!(t.result, SessionResult::Dirty(4096));
    assert_eq!(t.repair_wipes, 3);
    assert_eq!(t.wipes, 6);
    assert_eq!(t.scans, vec![0, 4096, 4096, 4096]);
}

#[test]
fn verification_off_skips_scan() {
    let mut dev = SimDevice::new(MIB, 1);
    let t = run(&mut dev, 2, false, true);
    assert_eq!(t.result, SessionResult::Skipped);
    assert_eq!(t.wipes, 2);
    assert!(t.scans.is_empty());
}

#[test]
fn discovery_failure_aborts_before_wiping() {
    let mut dev = SimDevice::new(MIB, 1);
    let t = run(&mut dev, 5, true, false);
    assert_eq!(t.result, SessionResult::Aborted);
    assert_eq!(t.wipes, 0);
    assert!(t.scans.is_empty());
    assert!(dev.data.iter().all(|b| *b == 1));
}

#[test]
fn failed_pass_does_not_stop_later_passes() {
    let mut dev = SimDevice::new(3 * MIB, 9);
    dev.fail_write_at = Some(MIB as u64);
    assert_eq!(dev.wipe_pass(), Err(IoError { offset: MIB as u64 }));
    let t = run(&mut dev, 4, true, true);
    assert_eq!(t.wipes, 4 + 4);
    assert_eq!(t.result, SessionResult::Dirty(MIB as u64));
}

#[test]
fn many_passes_end_like_one() {
    let mut once = SimDevice::new(MIB + 5, 0xFF);
    let mut thrice = SimDevice::new(MIB + 5, 0xFF);
    let a = run(&mut once, 1, true, true);
    let b = run(&mut thrice, 3, true, true);
    assert_eq!(a.result, b.result);
    assert_eq!(once.data, thrice.data);
}

#[test]
fn session_stays_done() {
    let mut s = WipeSession::new(1, true);
    s.step(Event::DiscoveryFailed);
    assert_eq!(s.result(), Some(SessionResult::Aborted));
    s.step(Event::Discovered);
    s.step(Event::Confirmed);
    assert_eq!(s.phase, Phase::Done(SessionResult::Aborted));
}

#[test]
fn unexpected_event_changes_nothing() {
    let mut s = WipeSession::new(2, true);
    s.step(Event::PassSucceeded);
    assert_eq!(s.phase, Phase::Discovering);
    s.step(Event::Discovered);
    s.step(Event::Scanned(VerificationOutcome::Clean));
    assert_eq!(s.phase, Phase::Selecting);
    assert_eq!(s.action(), Action::AwaitSelection);
    assert_eq!(s.result(), None);
}

#[test]
fn zero_passes_verified_scans_once() {
    let mut dev = SimDevice::new(100, 0);
    dev.data[42] = 7;
    let t = run(&mut dev, 0, true, true);
    assert_eq!(t.wipes, 0);
    assert_eq!(t.scans, vec![0, 42]);
    assert_eq!(t.result, SessionResult::Dirty(42));
}

#[test]
fn scan_failure_is_reported() {
    let mut s = WipeSession::new(1, true);
    s.step(Event::Discovered);
    s.step(Event::Confirmed);
    s.step(Event::PassSucceeded);
    assert_eq!(s.action(), Action::Scan(0));
    s.step(Event::ScanFailed(IoError { offset: 512 }));
    assert_eq!(s.result(), Some(SessionResult::ScanFailed(512)));
}
