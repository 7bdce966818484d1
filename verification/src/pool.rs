//! Accounting for the two process-wide connection pools: how many handles
//! a pool may hand out at once, and when a borrower must wait.
//!
//! The physical connections live with an outside pooling layer; this model
//! carries the bound and the count that layer must respect, so that
//! exhaustion is part of every contract.

use vstd::prelude::*;

verus! {

/// What the pool answers when asked for a handle.
#[derive(Clone, Copy, Debug, PartialEq, Eq, Structural)]
pub enum BorrowOutcome {
    /// A handle is available; the borrower holds it until it gives it
    /// back.
    Granted,
    /// Every allowed connection is out; the borrower waits until one is
    /// returned.
    MustWait,
}

/// One pool's accounting: the bound it was opened with — nothing caps an
/// unbounded pool — and how many handles are currently out.
pub struct ConnPool {
    pub max_connections: Option<u32>,
    pub in_use: u32,
}

impl ConnPool {
    /// The count never exceeds the bound.
    pub open spec fn wf(&self) -> bool {
        match self.max_connections {
            Some(m) => self.in_use <= m,
            None => true,
        }
    }

    /// Every allowed connection is out.
    pub open spec fn exhausted(&self) -> bool {
        match self.max_connections {
            Some(m) => self.in_use >= m,
            None => false,
        }
    }

    /// Open a pool. `None` lets it grow unbounded; `Some(n)` caps
    /// concurrent handles at `n`.
    pub fn open(max_connections: Option<u32>) -> (p: ConnPool)
        ensures
            p.max_connections == max_connections,
            p.in_use == 0,
            p.wf(),
    {
        ConnPool { max_connections, in_use: 0 }
    }

    /// Ask for a handle: granted while the pool is below its bound, else
    /// the borrower must wait for a handle to come back. The bound itself
    /// never changes.
    pub fn try_borrow(&mut self) -> (r: BorrowOutcome)
        requires
            old(self).wf(),
            old(self).in_use < u32::MAX,
        ensures
            final(self).wf(),
            final(self).max_connections == old(self).max_connections,
            r == (if old(self).exhausted() {
                BorrowOutcome::MustWait
            } else {
                BorrowOutcome::Granted
            }),
            old(self).exhausted() ==> final(self).in_use == old(self).in_use,
            !old(self).exhausted() ==> final(self).in_use == old(self).in_use + 1,
    {
        let granted = match self.max_connections {
            Some(m) => self.in_use < m,
            None => true,
        };
        if granted {
            self.in_use = self.in_use + 1;
            BorrowOutcome::Granted
        } else {
            BorrowOutcome::MustWait
        }
    }

    /// Return a handle to the pool; the connection is reused, not closed.
    pub fn give_back(&mut self)
        requires
            old(self).in_use > 0,
        ensures
            final(self).max_connections == old(self).max_connections,
            final(self).in_use == old(self).in_use - 1,
            old(self).wf() ==> final(self).wf(),
    {
        self.in_use = self.in_use - 1;
    }
}

} // verus!
