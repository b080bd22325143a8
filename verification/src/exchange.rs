//! Double-buffer exchange between a streaming peripheral and software.
//!
//! A stream has two buffers. The peripheral transfers one of them while
//! software works on the other, and the roles swap at every completion
//! signal. The exchange keeps track of which buffer the peripheral holds,
//! hands the other one to software, and notices when software was handed
//! the same buffer twice in a row, which means that a completion went by
//! unserved and a frame was lost.

use vstd::prelude::*;

verus! {

/// One of the two buffers of a stream.
#[derive(Clone, Copy, Debug, PartialEq, Eq, Structural)]
pub enum BufferId {
    /// The buffer that the peripheral transfers first.
    First,
    /// The buffer that the peripheral transfers second.
    Second,
}

impl BufferId {
    /// Position of the buffer in the stream's pair: 0 or 1.
    pub open spec fn position(self) -> int {
        match self {
            BufferId::First => 0,
            BufferId::Second => 1,
        }
    }

    /// The other buffer of the pair.
    pub open spec fn opposite(self) -> BufferId {
        match self {
            BufferId::First => BufferId::Second,
            BufferId::Second => BufferId::First,
        }
    }

    /// Buffer that the peripheral holds after `k` more completions, when it
    /// holds `self` now.
    pub open spec fn after(self, k: nat) -> BufferId
        decreases k,
    {
        if k == 0 {
            self
        } else {
            self.after((k - 1) as nat).opposite()
        }
    }

    /// Position of the buffer in the stream's pair: 0 or 1.
    pub fn index(self) -> (i: usize)
        ensures
            i == self.position(),
            i < 2,
    {
        match self {
            BufferId::First => 0,
            BufferId::Second => 1,
        }
    }

    /// Buffer at position `i`, or `None` where `i` is neither 0 nor 1.
    pub fn from_index(i: usize) -> (b: Option<BufferId>)
        ensures
            b.is_some() <==> i < 2,
            b matches Some(buffer) ==> buffer.position() == i,
    {
        if i == 0 {
            Some(BufferId::First)
        } else if i == 1 {
            Some(BufferId::Second)
        } else {
            None
        }
    }

    /// The other buffer of the pair.
    pub fn other(self) -> (b: BufferId)
        ensures
            b == self.opposite(),
            b != self,
            b.position() == 1 - self.position(),
    {
        match self {
            BufferId::First => BufferId::Second,
            BufferId::Second => BufferId::First,
        }
    }
}

/// What software is handed at a completion signal.
#[derive(Clone, Copy, Debug, PartialEq, Eq, Structural)]
pub struct Claim {
    /// The buffer that software owns until the next completion.
    pub buffer: BufferId,
    /// Whether this is the buffer that software was handed the time before:
    /// its contents are stale and at least one frame was lost.
    pub stale: bool,
}

/// Ownership record of one double-buffered stream.
#[derive(Clone, Copy, Debug, PartialEq, Eq, Structural)]
pub struct Exchange {
    /// Buffer that the peripheral held when the last completion was served.
    pub hardware: BufferId,
    /// Number of completions served with a stale buffer, saturating.
    pub dropped: u32,
}

impl Exchange {
    /// Buffer that software owns.
    pub open spec fn software(&self) -> BufferId {
        self.hardware.opposite()
    }

    /// What serving a completion returns when the peripheral reports that
    /// it now holds `active`.
    pub open spec fn claim(&self, active: BufferId) -> Claim {
        Claim { buffer: active.opposite(), stale: active == self.hardware }
    }

    /// The record that serving that completion leaves behind.
    pub open spec fn served(&self, active: BufferId) -> Exchange {
        Exchange {
            hardware: active,
            dropped: if active == self.hardware && self.dropped < u32::MAX {
                (self.dropped + 1) as u32
            } else {
                self.dropped
            },
        }
    }

    /// The record after a transfer fault: ownership is as before and one
    /// more frame counts as lost.
    pub open spec fn faulted(&self) -> Exchange {
        Exchange {
            hardware: self.hardware,
            dropped: if self.dropped < u32::MAX {
                (self.dropped + 1) as u32
            } else {
                self.dropped
            },
        }
    }

    /// The record of a stream that has not completed a buffer yet: the
    /// peripheral holds the first buffer.
    pub fn new() -> (e: Exchange)
        ensures
            e.hardware == BufferId::First,
            e.dropped == 0,
    {
        Exchange { hardware: BufferId::First, dropped: 0 }
    }

    /// Buffer that the peripheral owns.
    pub fn hardware_owned(&self) -> (b: BufferId)
        ensures
            b == self.hardware,
    {
        self.hardware
    }

    /// Buffer that software owns; never the one that the peripheral owns.
    pub fn software_owned(&self) -> (b: BufferId)
        ensures
            b == self.software(),
            b != self.hardware,
            b.position() != self.hardware.position(),
    {
        self.hardware.other()
    }

    /// Records a transfer fault: the frame in flight is lost, ownership
    /// stays as it is.
    pub fn fault(&mut self)
        ensures
            *final(self) == old(self).faulted(),
            final(self).software() != final(self).hardware,
    {
        self.dropped = self.dropped.saturating_add(1);
    }

    /// Serves a completion signal. `active` is the buffer that the
    /// peripheral reports as the one it transfers now. Software is handed
    /// the other one.
    pub fn complete(&mut self, active: BufferId) -> (claim: Claim)
        ensures
            claim == old(self).claim(active),
            *final(self) == old(self).served(active),
            claim.buffer == final(self).software(),
            claim.buffer != final(self).hardware,
    {
        let stale: bool = active == self.hardware;
        if stale {
            self.dropped = self.dropped.saturating_add(1);
        }
        self.hardware = active;
        Claim { buffer: active.other(), stale }
    }
}

/// After any number of completions the peripheral holds one buffer of the
/// pair and the other is the opposite one; an even number of completions
/// brings it back to the buffer it started from, an odd number to the
/// other.
pub proof fn lemma_after_parity(start: BufferId, k: nat)
    ensures
        start.after(k) == (if k % 2 == 0 {
            start
        } else {
            start.opposite()
        }),
    decreases k,
{
    if k > 0 {
        lemma_after_parity(start, (k - 1) as nat);
    }
}

/// In every state of an exchange, the buffer that software owns is not the
/// buffer that the peripheral owns, and both are buffers of the pair.
pub proof fn law_ownership_disjoint(e: Exchange)
    ensures
        e.software() != e.hardware,
        e.software().position() != e.hardware.position(),
        0 <= e.software().position() < 2,
        0 <= e.hardware.position() < 2,
        e.software().position() + e.hardware.position() == 1,
{
}

/// Serving a completion keeps ownership disjoint whatever happened before:
/// if `k` completions (at least one) fired since the last one was served,
/// software is handed a buffer of the pair that the peripheral does not
/// hold, and that buffer is stale exactly when `k` is even, that is when a
/// completion went by unserved.
pub proof fn law_missed_completions(e: Exchange, k: nat)
    requires
        k >= 1,
    ensures
        e.claim(e.hardware.after(k)).buffer != e.hardware.after(k),
        e.served(e.hardware.after(k)).software() == e.claim(e.hardware.after(k)).buffer,
        e.served(e.hardware.after(k)).software() != e.served(e.hardware.after(k)).hardware,
        e.claim(e.hardware.after(k)).stale <==> k % 2 == 0,
        e.claim(e.hardware.after(k)).stale <==> e.claim(e.hardware.after(k)).buffer
            == e.software(),
{
    lemma_after_parity(e.hardware, k);
}

} // verus!
