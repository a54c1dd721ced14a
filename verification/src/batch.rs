//! The batch accumulator: fills an ordered, capacity-bounded batch of
//! deliveries from a sequence of pull outcomes, then hands the whole batch
//! out for processing.
//!
//! Each pull attempt at the delivery source ends in one of the outcomes of
//! [`PullOutcome`]; the accumulator decides, outcome by outcome, whether to
//! keep filling, and what the flushed batch holds. The surrounding
//! application performs the pulls (with the configured inactivity window as
//! the per-attempt timeout) and feeds the outcomes in.

use vstd::prelude::*;

use crate::delivery::Delivery;

verus! {

/// What one bounded pull attempt at the delivery source ended in.
pub enum PullOutcome {
    /// A delivery arrived within the inactivity window.
    Delivered(Delivery),
    /// The inactivity window elapsed with no delivery.
    TimedOut,
    /// The source yielded an error instead of a delivery.
    Failed,
    /// The source reported end-of-stream.
    Closed,
}

/// The batch that filling with capacity `cap` builds from `events`: the
/// longest prefix of arriving deliveries, cut off at the first outcome that
/// is not a delivery, or at capacity.
pub open spec fn fill_batch(cap: nat, events: Seq<PullOutcome>) -> Seq<Delivery>
    decreases events.len(),
{
    if cap == 0 || events.len() == 0 {
        Seq::empty()
    } else {
        match events.first() {
            PullOutcome::Delivered(d) => seq![d] + fill_batch((cap - 1) as nat,
            events.drop_first()),
            _ => Seq::empty(),
        }
    }
}

/// Whether, after `events`, filling with capacity `cap` is still waiting
/// for more: every outcome so far was a delivery and capacity is not yet
/// reached.
pub open spec fn still_filling(cap: nat, events: Seq<PullOutcome>) -> bool
    decreases events.len(),
{
    if events.len() == 0 {
        cap > 0
    } else {
        match events.first() {
            PullOutcome::Delivered(_) => cap > 0 && still_filling(
                (cap - 1) as nat,
                events.drop_first(),
            ),
            _ => false,
        }
    }
}

/// All deliveries among `events`, in arrival order.
pub open spec fn arrivals(events: Seq<PullOutcome>) -> Seq<Delivery>
    decreases events.len(),
{
    if events.len() == 0 {
        Seq::empty()
    } else {
        match events.first() {
            PullOutcome::Delivered(d) => seq![d] + arrivals(events.drop_first()),
            _ => arrivals(events.drop_first()),
        }
    }
}

/// While filling is still open, the batch holds exactly one delivery per
/// event seen so far.
proof fn lemma_still_filling_len(cap: nat, events: Seq<PullOutcome>)
    requires
        still_filling(cap, events),
    ensures
        fill_batch(cap, events).len() == events.len() < cap,
    decreases events.len(),
{
    if events.len() > 0 {
        lemma_still_filling_len((cap - 1) as nat, events.drop_first());
    }
}

/// How one more outcome extends the batch: while filling is open, a
/// delivery is appended and anything else leaves the batch as it is; the
/// next outcome keeps filling open exactly when it is a delivery that does
/// not reach capacity.
proof fn lemma_fill_snoc(cap: nat, events: Seq<PullOutcome>, ev: PullOutcome)
    requires
        still_filling(cap, events),
    ensures
        fill_batch(cap, events.push(ev)) == match ev {
            PullOutcome::Delivered(d) => fill_batch(cap, events).push(d),
            _ => fill_batch(cap, events),
        },
        still_filling(cap, events.push(ev)) == (ev is Delivered && events.len() + 1 < cap),
    decreases events.len(),
{
    lemma_still_filling_len(cap, events);
    if events.len() == 0 {
        assert(events.push(ev).first() == ev);
        assert(events.push(ev).drop_first() =~= Seq::<PullOutcome>::empty());
        assert(fill_batch((cap - 1) as nat, Seq::<PullOutcome>::empty()) =~= Seq::<
            Delivery,
        >::empty());
        assert(still_filling((cap - 1) as nat, Seq::<PullOutcome>::empty()) == ((cap - 1) as nat
            > 0));
        match ev {
            PullOutcome::Delivered(d) => {
                assert(fill_batch(cap, events.push(ev)) =~= fill_batch(cap, events).push(d));
            },
            _ => {
                assert(fill_batch(cap, events.push(ev)) =~= fill_batch(cap, events));
            },
        }
    } else {
        assert(events.push(ev).first() == events.first());
        assert(events.push(ev).drop_first() =~= events.drop_first().push(ev));
        lemma_fill_snoc((cap - 1) as nat, events.drop_first(), ev);
        match ev {
            PullOutcome::Delivered(d) => {
                assert(fill_batch(cap, events.push(ev)) =~= fill_batch(cap, events).push(d));
            },
            _ => {
                assert(fill_batch(cap, events.push(ev)) =~= fill_batch(cap, events));
            },
        }
    }
}

/// Capacity bound: the batch that filling builds never exceeds `cap`.
pub proof fn lemma_fill_batch_bounded(cap: nat, events: Seq<PullOutcome>)
    ensures
        fill_batch(cap, events).len() <= cap,
    decreases events.len(),
{
    if cap > 0 && events.len() > 0 {
        match events.first() {
            PullOutcome::Delivered(_) => {
                lemma_fill_batch_bounded((cap - 1) as nat, events.drop_first());
            },
            _ => {},
        }
    }
}

/// Filling never collects more deliveries than arrived.
proof fn lemma_fill_le_arrivals(cap: nat, events: Seq<PullOutcome>)
    ensures
        fill_batch(cap, events).len() <= arrivals(events).len(),
    decreases events.len(),
{
    if cap > 0 && events.len() > 0 {
        match events.first() {
            PullOutcome::Delivered(_) => {
                lemma_fill_le_arrivals((cap - 1) as nat, events.drop_first());
            },
            _ => {},
        }
    }
}

/// Order preservation: the batch that filling builds is exactly the first
/// `fill_batch(cap, events).len()` deliveries that arrived, in arrival
/// order.
pub proof fn lemma_fill_batch_order(cap: nat, events: Seq<PullOutcome>)
    ensures
        fill_batch(cap, events) == arrivals(events).take(fill_batch(cap, events).len() as int),
    decreases events.len(),
{
    lemma_fill_le_arrivals(cap, events);
    if cap == 0 || events.len() == 0 {
        assert(fill_batch(cap, events) =~= arrivals(events).take(
            fill_batch(cap, events).len() as int,
        ));
    } else {
        match events.first() {
            PullOutcome::Delivered(d) => {
                let rest = events.drop_first();
                lemma_fill_batch_order((cap - 1) as nat, rest);
                lemma_fill_le_arrivals((cap - 1) as nat, rest);
                let k = fill_batch((cap - 1) as nat, rest).len() as int;
                assert(fill_batch(cap, events) == seq![d] + fill_batch((cap - 1) as nat, rest));
                assert(arrivals(events) == seq![d] + arrivals(rest));
                assert(arrivals(events).take(k + 1) =~= seq![d] + arrivals(rest).take(k));
                assert(fill_batch(cap, events) =~= arrivals(events).take(
                    fill_batch(cap, events).len() as int,
                ));
            },
            _ => {
                assert(fill_batch(cap, events) =~= arrivals(events).take(
                    fill_batch(cap, events).len() as int,
                ));
            },
        }
    }
}

/// Timeout flush: however many deliveries have arrived in an open fill, a
/// pull attempt that ends without one (the window elapsed, or the source
/// erred or closed) ends the fill, losing nothing — the flush then hands
/// out exactly the deliveries accumulated so far rather than waiting for
/// more.
pub proof fn lemma_fill_ends_on_non_delivery(cap: nat, events: Seq<PullOutcome>, ev: PullOutcome)
    requires
        still_filling(cap, events),
        !(ev is Delivered),
    ensures
        !still_filling(cap, events.push(ev)),
        fill_batch(cap, events.push(ev)) == fill_batch(cap, events),
{
    lemma_fill_snoc(cap, events, ev);
}

/// The batch accumulator: one instance drives one accumulation cycle after
/// another, remembering (in ghost state) the pull outcomes of the current
/// cycle.
pub struct Batcher {
    capacity: usize,
    batch: Vec<Delivery>,
    filling: bool,
    log: Ghost<Seq<PullOutcome>>,
}

impl Batcher {
    /// The configured capacity: the ceiling on every batch.
    pub closed spec fn spec_capacity(&self) -> nat {
        self.capacity as nat
    }

    /// The deliveries accumulated so far in this cycle.
    pub closed spec fn spec_batch(&self) -> Seq<Delivery> {
        self.batch@
    }

    /// The pull outcomes of the current cycle, oldest first.
    pub closed spec fn spec_log(&self) -> Seq<PullOutcome> {
        self.log@
    }

    /// Whether the current cycle is still accepting pull outcomes.
    pub closed spec fn spec_filling(&self) -> bool {
        self.filling
    }

    /// The accumulator's invariant: the batch is exactly what the logged
    /// outcomes fill, and the filling flag mirrors whether that fill is
    /// still open.
    pub closed spec fn wf(&self) -> bool {
        &&& self.capacity >= 1
        &&& self.batch@ == fill_batch(self.capacity as nat, self.log@)
        &&& self.filling == still_filling(self.capacity as nat, self.log@)
    }

    /// A fresh accumulator with the given batch capacity, ready to fill.
    pub fn new(capacity: usize) -> (r: Batcher)
        requires
            capacity >= 1,
        ensures
            r.wf(),
            r.spec_capacity() == capacity,
            r.spec_batch().len() == 0,
            r.spec_log().len() == 0,
            r.spec_filling(),
    {
        Batcher { capacity, batch: Vec::new(), filling: true, log: Ghost(Seq::empty()) }
    }

    /// Feeds the outcome of one pull attempt into the current cycle.
    ///
    /// A delivery is appended to the batch; any other outcome ends the
    /// fill. The result says whether another pull attempt should follow,
    /// which is the case exactly while the fill stays open.
    pub fn fill_step(&mut self, ev: PullOutcome) -> (more: bool)
        requires
            old(self).wf(),
            old(self).spec_filling(),
        ensures
            final(self).wf(),
            final(self).spec_capacity() == old(self).spec_capacity(),
            final(self).spec_log() == old(self).spec_log().push(ev),
            final(self).spec_batch() == match ev {
                PullOutcome::Delivered(d) => old(self).spec_batch().push(d),
                _ => old(self).spec_batch(),
            },
            more == final(self).spec_filling(),
            more == (ev is Delivered && final(self).spec_batch().len() < old(
                self,
            ).spec_capacity()),
    {
        proof {
            lemma_fill_snoc(self.capacity as nat, self.log@, ev);
            lemma_still_filling_len(self.capacity as nat, self.log@);
        }
        self.log = Ghost(self.log@.push(ev));
        match ev {
            PullOutcome::Delivered(d) => {
                self.batch.push(d);
                if self.batch.len() == self.capacity {
                    self.filling = false;
                }
            },
            _ => {
                self.filling = false;
            },
        }
        self.filling
    }

    /// Ends the cycle: hands out the accumulated batch for processing, or
    /// nothing if no delivery arrived, and resets the accumulator for the
    /// next cycle.
    ///
    /// A batch is handed out exactly when it is nonempty, it never exceeds
    /// the capacity, and it lists the cycle's deliveries in arrival order.
    pub fn flush(&mut self) -> (r: Option<Vec<Delivery>>)
        requires
            old(self).wf(),
            !old(self).spec_filling(),
        ensures
            final(self).wf(),
            final(self).spec_capacity() == old(self).spec_capacity(),
            final(self).spec_batch().len() == 0,
            final(self).spec_log().len() == 0,
            final(self).spec_filling(),
            (r is Some) <==> old(self).spec_batch().len() > 0,
            r is Some ==> {
                &&& r.unwrap()@ == old(self).spec_batch()
                &&& r.unwrap()@ == fill_batch(old(self).spec_capacity(), old(self).spec_log())
                &&& 1 <= r.unwrap()@.len() <= old(self).spec_capacity()
                &&& r.unwrap()@ == arrivals(old(self).spec_log()).take(r.unwrap()@.len() as int)
            },
    {
        proof {
            lemma_fill_batch_bounded(self.capacity as nat, self.log@);
            lemma_fill_batch_order(self.capacity as nat, self.log@);
        }
        self.log = Ghost(Seq::empty());
        self.filling = true;
        if self.batch.is_empty() {
            None
        } else {
            let mut out: Vec<Delivery> = Vec::new();
            core::mem::swap(&mut out, &mut self.batch);
            Some(out)
        }
    }

    /// Takes the emptied batch container back after a drain, so the next
    /// cycle fills the same container rather than a fresh one.
    pub fn reuse_container(&mut self, container: Vec<Delivery>)
        requires
            old(self).wf(),
            old(self).spec_batch().len() == 0,
            container@.len() == 0,
        ensures
            final(self).wf(),
            final(self).spec_capacity() == old(self).spec_capacity(),
            final(self).spec_batch() == old(self).spec_batch(),
            final(self).spec_log() == old(self).spec_log(),
            final(self).spec_filling() == old(self).spec_filling(),
    {
        proof {
            assert(container@ =~= self.batch@);
        }
        self.batch = container;
    }
}

} // verus!
