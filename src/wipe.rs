use vstd::prelude::*;

use crate::scan::{chunk_len, scan_matches, VerificationOutcome, CHUNK_SIZE};

verus! {

/// A device write that failed, with the offset of the chunk it was writing.
#[derive(Clone, Copy, Debug, PartialEq, Eq, Structural)]
pub struct IoError {
    pub offset: u64,
}

/// Device content after one pass that wrote every chunk: all zero.
pub open spec fn wiped(content: Seq<u8>) -> Seq<u8> {
    Seq::new(content.len(), |i: int| 0u8)
}

/// Device content after `n` passes that all wrote every chunk.
pub open spec fn wiped_times(content: Seq<u8>, n: nat) -> Seq<u8>
    decreases n,
{
    if n == 0 {
        content
    } else {
        wiped(wiped_times(content, (n - 1) as nat))
    }
}

/// A zero-filled buffer of `len` bytes, the data every chunk write carries.
pub fn zero_chunk(len: usize) -> (r: Vec<u8>)
    ensures
        r@.len() == len,
        forall|i: int| 0 <= i < len ==> r@[i] == 0,
{
    let mut v: Vec<u8> = Vec::with_capacity(len);
    while v.len() < len
        invariant
            v@.len() <= len,
            forall|i: int| 0 <= i < v@.len() ==> v@[i] == 0,
        decreases len - v@.len(),
    {
        v.push(0u8);
    }
    v
}

/// One wipe pass in progress: chunks are written from offset 0 to the end of
/// the device, one after another, and a failed write ends the pass.
pub struct WipeCursor {
    pub pos: u64,
    pub size: u64,
}

impl WipeCursor {
    pub open spec fn wf(self) -> bool {
        self.pos <= self.size
    }

    /// A pass over a device of `size` bytes, starting at offset 0.
    pub fn new(size: u64) -> (r: Self)
        ensures
            r.wf(),
            r.pos == 0,
            r.size == size,
    {
        WipeCursor { pos: 0, size }
    }

    /// The chunk to write next, or `None` once the whole device is written
    /// and only the flush remains.
    pub fn next_write(&self) -> (r: Option<(u64, usize)>)
        requires
            self.wf(),
        ensures
            match r {
                None => self.pos == self.size,
                Some((off, len)) => {
                    &&& off == self.pos
                    &&& len == chunk_len(self.pos as int, self.size as int)
                    &&& 0 < len
                },
            },
    {
        if self.pos == self.size {
            None
        } else if self.size - self.pos < CHUNK_SIZE {
            Some((self.pos, (self.size - self.pos) as usize))
        } else {
            Some((self.pos, CHUNK_SIZE as usize))
        }
    }

    /// The chunk at `pos` was written: move past it.
    pub fn advance(&mut self)
        requires
            old(self).wf(),
            old(self).pos < old(self).size,
        ensures
            final(self).wf(),
            final(self).size == old(self).size,
            final(self).pos == old(self).pos + chunk_len(old(self).pos as int, old(self).size as int),
            final(self).pos > old(self).pos,
    {
        if self.size - self.pos < CHUNK_SIZE {
            self.pos = self.size;
        } else {
            self.pos = self.pos + CHUNK_SIZE;
        }
    }

    /// The chunk at `pos` could not be written: the pass fails there.
    pub fn fail(&self) -> (r: IoError)
        ensures
            r.offset == self.pos,
    {
        IoError { offset: self.pos }
    }
}

/// Passes that all write every chunk leave the device as one such pass does,
/// so a scan from offset 0 afterwards reports the same outcome, `Clean`.
pub proof fn lemma_passes_idempotent(content: Seq<u8>, n: nat)
    requires
        n >= 1,
    ensures
        wiped_times(content, n) == wiped_times(content, 1),
        scan_matches(wiped_times(content, n), 0, VerificationOutcome::Clean),
    decreases n,
{
    assert(wiped(wiped_times(content, 0)) =~= wiped(content));
    assert(wiped_times(content, 1) == wiped(content));
    if n > 1 {
        lemma_passes_idempotent(content, (n - 1) as nat);
        assert(wiped(wiped_times(content, (n - 1) as nat)) =~= wiped(content));
    }
}

} // verus!
