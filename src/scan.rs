use vstd::prelude::*;

verus! {

/// What a scan of a byte range found.
#[derive(Clone, Copy, Debug, PartialEq, Eq, Structural)]
pub enum VerificationOutcome {
    /// Every byte of the scanned range is zero.
    Clean,
    /// The first non-zero byte of the scanned range lies at this offset.
    Dirty(u64),
}

/// `r` is what a scan of `content` from `start` to its end must report.
pub open spec fn scan_matches(content: Seq<u8>, start: int, r: VerificationOutcome) -> bool {
    match r {
        VerificationOutcome::Clean => forall|o: int| start <= o < content.len() ==> content[o] == 0,
        VerificationOutcome::Dirty(off) => {
            &&& start <= off < content.len()
            &&& content[off as int] != 0
            &&& forall|o: int| start <= o < off ==> content[o] == 0
        },
    }
}

/// Scans `content` from `start` to its end and reports the first non-zero byte.
pub fn scan(content: &[u8], start: u64) -> (r: VerificationOutcome)
    ensures
        scan_matches(content@, start as int, r),
{
    let mut i: usize = if start < content.len() as u64 { start as usize } else { content.len() };
    while i < content.len()
        invariant
            i <= content.len(),
            start <= i || i == content.len(),
            forall|o: int| start <= o < i ==> content@[o] == 0,
        decreases content.len() - i,
    {
        if content[i] != 0 {
            return VerificationOutcome::Dirty(i as u64);
        }
        i = i + 1;
    }
    VerificationOutcome::Clean
}

/// Bytes read from the device at a time, so that memory use stays bounded.
pub const CHUNK_SIZE: u64 = 1048576;

/// Length of the chunk that starts at `pos` on a device of `size` bytes.
pub open spec fn chunk_len(pos: int, size: int) -> int {
    if size - pos < CHUNK_SIZE {
        size - pos
    } else {
        CHUNK_SIZE as int
    }
}

/// `seen` holds the bytes read from `start` on, and `r` is what they show.
pub open spec fn read_outcome(seen: Seq<u8>, start: int, size: int, r: VerificationOutcome) -> bool {
    match r {
        VerificationOutcome::Clean => {
            &&& seen.len() == size - start
            &&& forall|j: int| 0 <= j < seen.len() ==> seen[j] == 0
        },
        VerificationOutcome::Dirty(off) => {
            &&& start <= off < size
            &&& seen.len() == off - start + 1
            &&& seen[off - start] != 0
            &&& forall|j: int| 0 <= j < off - start ==> seen[j] == 0
        },
    }
}

/// A scan in progress over the range `[start, size)` of a device, fed one
/// chunk at a time by whoever reads the device.
pub struct ScanCursor {
    pub start: u64,
    pub pos: u64,
    pub size: u64,
    /// The bytes handed in so far, from `start` on.
    pub seen: Ghost<Seq<u8>>,
}

impl ScanCursor {
    /// Nothing non-zero has been met yet and `pos` marks how far the scan got.
    pub open spec fn wf(self) -> bool {
        &&& self.start <= self.pos <= self.size
        &&& self.seen@.len() == self.pos - self.start
        &&& forall|j: int| 0 <= j < self.seen@.len() ==> self.seen@[j] == 0
    }

    /// A scan of a device of `size` bytes from `start`; a start past the end
    /// scans nothing.
    pub fn new(start: u64, size: u64) -> (r: Self)
        ensures
            r.wf(),
            r.size == size,
            r.start == if start < size { start } else { size },
            r.pos == r.start,
    {
        let s = if start < size { start } else { size };
        ScanCursor { start: s, pos: s, size, seen: Ghost(Seq::empty()) }
    }

    /// Where and how much to read next, or `None` once the range is covered.
    pub fn next_read(&self) -> (r: Option<(u64, usize)>)
        requires
            self.wf(),
        ensures
            match r {
                None => self.pos == self.size,
                Some((off, len)) => {
                    &&& off == self.pos
                    &&& len == chunk_len(self.pos as int, self.size as int)
                    &&& 0 < len
                },
            },
    {
        if self.pos == self.size {
            None
        } else if self.size - self.pos < CHUNK_SIZE {
            Some((self.pos, (self.size - self.pos) as usize))
        } else {
            Some((self.pos, CHUNK_SIZE as usize))
        }
    }

    /// Takes the chunk read at `pos` and returns the outcome once it is known:
    /// the first non-zero byte stops the scan, reaching the end with none
    /// gives `Clean`.
    pub fn feed(&mut self, chunk: &[u8]) -> (r: Option<VerificationOutcome>)
        requires
            old(self).wf(),
            old(self).pos < old(self).size,
            chunk@.len() == chunk_len(old(self).pos as int, old(self).size as int),
        ensures
            final(self).start == old(self).start,
            final(self).size == old(self).size,
            final(self).seen@.len() <= old(self).seen@.len() + chunk@.len(),
            final(self).seen@ == (old(self).seen@ + chunk@).subrange(0, final(self).seen@.len() as int),
            match r {
                None => {
                    &&& final(self).wf()
                    &&& final(self).pos == old(self).pos + chunk@.len()
                    &&& final(self).pos < final(self).size
                },
                Some(v) => read_outcome(final(self).seen@, final(self).start as int, final(self).size as int, v),
            },
    {
        let ghost all = self.seen@ + chunk@;
        match scan(chunk, 0) {
            VerificationOutcome::Dirty(i) => {
                let off = self.pos + i;
                self.seen = Ghost(all.subrange(0, (off - self.start) as int + 1));
                self.pos = off;
                Some(VerificationOutcome::Dirty(off))
            },
            VerificationOutcome::Clean => {
                self.pos = self.pos + chunk.len() as u64;
                self.seen = Ghost(all);
                assert(all.subrange(0, all.len() as int) =~= all);
                if self.pos == self.size {
                    Some(VerificationOutcome::Clean)
                } else {
                    None
                }
            },
        }
    }
}

/// A scan fed chunk by chunk reports what a scan of the whole device content
/// from `start` reports, when the chunks were the device's bytes.
pub proof fn lemma_read_outcome_matches(content: Seq<u8>, start: int, seen: Seq<u8>, r: VerificationOutcome)
    requires
        0 <= start <= content.len(),
        start + seen.len() <= content.len(),
        seen == content.subrange(start, start + seen.len()),
        read_outcome(seen, start, content.len() as int, r),
    ensures
        scan_matches(content, start, r),
{
    match r {
        VerificationOutcome::Clean => {
            assert forall|o: int| start <= o < content.len() implies content[o] == 0 by {
                assert(seen[o - start] == content[o]);
            }
        },
        VerificationOutcome::Dirty(off) => {
            assert(seen[off - start] == content[off as int]);
            assert forall|o: int| start <= o < off implies content[o] == 0 by {
                assert(seen[o - start] == content[o]);
            }
        },
    }
}

/// A clean scan from offset 0 means every byte of the device is zero.
pub proof fn lemma_clean_means_zeroed(content: Seq<u8>)
    requires
        scan_matches(content, 0, VerificationOutcome::Clean),
    ensures
        forall|o: int| 0 <= o < content.len() ==> content[o] == 0,
{
}

/// A scan from 0 found `before` dirty at `off`; the repair then left each
/// byte below `off` as it was or zeroed it, and a scan of `after` from `off`
/// came back clean. Then every byte of `after` is zero.
pub proof fn lemma_repaired_means_zeroed(before: Seq<u8>, after: Seq<u8>, off: u64)
    requires
        before.len() == after.len(),
        scan_matches(before, 0, VerificationOutcome::Dirty(off)),
        forall|o: int| 0 <= o < off ==> after[o] == before[o] || after[o] == 0,
        scan_matches(after, off as int, VerificationOutcome::Clean),
    ensures
        forall|o: int| 0 <= o < after.len() ==> after[o] == 0,
{
    assert forall|o: int| 0 <= o < after.len() implies after[o] == 0 by {
        if o < off {
            assert(before[o] == 0);
        }
    }
}

} // verus!
