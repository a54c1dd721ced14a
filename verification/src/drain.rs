//! The drain protocol: after a batch has been processed, every member is
//! acknowledged individually, in arrival order, one at a time; a failed
//! acknowledgment is fatal and ends the protocol (and the consumer) at
//! once.
//!
//! The surrounding application performs each acknowledgment call and
//! reports whether it succeeded; this type decides which delivery is next
//! and whether the drain is complete, still running, or fatally broken.

use vstd::prelude::*;

use crate::delivery::Delivery;

verus! {

/// Where a drain stands after an acknowledgment report.
#[derive(PartialEq, Eq, Structural, Clone, Copy, Debug)]
pub enum DrainStatus {
    /// More members remain to acknowledge.
    InProgress,
    /// Every member of the batch has been acknowledged, in order.
    Complete,
    /// An acknowledgment failed; the consumer must terminate.
    Fatal,
}

/// One batch mid-drain: the processed deliveries and how many of them have
/// been acknowledged so far.
pub struct Drain {
    items: Vec<Delivery>,
    acked: usize,
    fatal: bool,
}

impl Drain {
    /// The batch being drained, in arrival order.
    pub closed spec fn spec_items(&self) -> Seq<Delivery> {
        self.items@
    }

    /// How many members have been acknowledged so far: always the first
    /// `spec_acked()` members of the batch, in order.
    pub closed spec fn spec_acked(&self) -> nat {
        self.acked as nat
    }

    /// Whether an acknowledgment has failed.
    pub closed spec fn spec_fatal(&self) -> bool {
        self.fatal
    }

    /// The drain's invariant.
    pub closed spec fn wf(&self) -> bool {
        self.acked <= self.items@.len()
    }

    /// Whether every member has been acknowledged.
    pub open spec fn spec_complete(&self) -> bool {
        self.spec_acked() == self.spec_items().len()
    }

    /// The members acknowledged so far, in the order their acknowledgments
    /// were issued.
    pub open spec fn spec_acked_members(&self) -> Seq<Delivery> {
        self.spec_items().take(self.spec_acked() as int)
    }

    /// Starts draining a processed batch: nothing acknowledged yet.
    pub fn new(batch: Vec<Delivery>) -> (r: Drain)
        ensures
            r.wf(),
            r.spec_items() == batch@,
            r.spec_acked() == 0,
            !r.spec_fatal(),
    {
        Drain { items: batch, acked: 0, fatal: false }
    }

    /// The next delivery to acknowledge: the earliest-arrived member not
    /// yet acknowledged, or nothing once the drain is complete.
    pub fn next_to_ack(&self) -> (r: Option<&Delivery>)
        requires
            self.wf(),
            !self.spec_fatal(),
        ensures
            (r is Some) <==> !self.spec_complete(),
            r is Some ==> *r.unwrap() == self.spec_items()[self.spec_acked() as int],
    {
        if self.acked < self.items.len() {
            Some(&self.items[self.acked])
        } else {
            None
        }
    }

    /// Records the outcome of acknowledging the delivery that
    /// `next_to_ack` handed out.
    ///
    /// Success acknowledges exactly that member and moves on; failure is
    /// fatal: the drain accepts nothing further, so no later member is
    /// ever acknowledged and no further batch is accumulated from here.
    pub fn record_ack(&mut self, ok: bool) -> (s: DrainStatus)
        requires
            old(self).wf(),
            !old(self).spec_fatal(),
            !old(self).spec_complete(),
        ensures
            final(self).wf(),
            final(self).spec_items() == old(self).spec_items(),
            ok ==> {
                &&& final(self).spec_acked() == old(self).spec_acked() + 1
                &&& final(self).spec_acked_members() == old(self).spec_acked_members().push(
                    old(self).spec_items()[old(self).spec_acked() as int],
                )
                &&& !final(self).spec_fatal()
                &&& s == (if final(self).spec_complete() {
                    DrainStatus::Complete
                } else {
                    DrainStatus::InProgress
                })
            },
            !ok ==> {
                &&& final(self).spec_acked() == old(self).spec_acked()
                &&& final(self).spec_fatal()
                &&& s == DrainStatus::Fatal
            },
    {
        let n = self.items.len();
        proof {
            let items = self.items@;
            let a = self.acked as int;
            assert(a < items.len());
            assert(items.take(a + 1) =~= items.take(a).push(items[a]));
        }
        if ok {
            self.acked = self.acked + 1;
            if self.acked == n {
                DrainStatus::Complete
            } else {
                DrainStatus::InProgress
            }
        } else {
            self.fatal = true;
            DrainStatus::Fatal
        }
    }

    /// Ends a completed drain, giving the batch container back empty so
    /// the next accumulation cycle can reuse it.
    pub fn finish(self) -> (r: Vec<Delivery>)
        requires
            self.wf(),
            self.spec_complete(),
            !self.spec_fatal(),
        ensures
            r@.len() == 0,
    {
        let mut items = self.items;
        items.clear();
        items
    }
}

/// Acknowledgment completeness: a complete drain has acknowledged exactly
/// the members of the batch, one acknowledgment each, in arrival order —
/// the member at position `i` as the `i`-th acknowledgment.
pub proof fn lemma_drain_complete(d: Drain)
    requires
        d.wf(),
        d.spec_complete(),
    ensures
        d.spec_acked_members() == d.spec_items(),
{
    assert(d.spec_items().take(d.spec_items().len() as int) =~= d.spec_items());
}

} // verus!
