use vstd::prelude::*;
use crate::event::{Doc, Event};

verus! {

broadcast use vstd::std_specs::vec::group_vec_axioms, vstd::seq::group_seq_axioms;

/// Number of events the hub retains for its slowest subscriber.
pub const HUB_CAPACITY: usize = 100;

/// Model of a fan-out hub: every document ever published, in publish
/// order, and whether the hub has been torn down.
pub struct HubModel {
    pub hist: Seq<Doc>,
    pub closed: bool,
}

/// Model of a subscription: `attach` is the publish position at which it
/// was created, `pos` the position of the next event it will receive,
/// `seen` the documents it has received since it last observed a gap, and
/// `lagged` whether it has ever observed a gap.
pub struct SubModel {
    pub attach: nat,
    pub pos: nat,
    pub seen: Seq<Doc>,
    pub lagged: bool,
}

/// Model of one receive outcome: the view of [`RecvOutcome`].
pub enum RecvStep {
    Received(Doc),
    Lagged(nat),
    Pending,
    Closed,
}

/// Outcome of a single receive on a subscription.
#[derive(Debug, PartialEq, Eq)]
pub enum RecvOutcome {
    /// The next event, in publish order.
    Received(Event),
    /// The subscriber fell more than [`HUB_CAPACITY`] events behind; this
    /// many events were dropped for it and its view moved to the oldest
    /// retained event.
    Lagged(u64),
    /// No event has been published past this subscription's position yet.
    Pending,
    /// The hub was torn down.
    Closed,
}

impl View for RecvOutcome {
    type V = RecvStep;

    open spec fn view(&self) -> RecvStep {
        match self {
            RecvOutcome::Received(e) => RecvStep::Received(e@),
            RecvOutcome::Lagged(n) => RecvStep::Lagged(*n as nat),
            RecvOutcome::Pending => RecvStep::Pending,
            RecvOutcome::Closed => RecvStep::Closed,
        }
    }
}

/// Position of the oldest event the hub still retains.
pub open spec fn oldest(h: HubModel) -> nat {
    if h.hist.len() <= HUB_CAPACITY as nat {
        0
    } else {
        (h.hist.len() - HUB_CAPACITY as nat) as nat
    }
}

/// What publishing a document does to the hub: appended in order while the
/// hub is open, refused once it is closed.
pub open spec fn spec_publish(h: HubModel, d: Doc) -> HubModel {
    if h.closed {
        h
    } else {
        HubModel { hist: h.hist.push(d), closed: false }
    }
}

/// What one receive does to a subscription at `s` against a hub at `h`.
pub open spec fn spec_receive(h: HubModel, s: SubModel) -> (RecvStep, SubModel) {
    if h.closed {
        (RecvStep::Closed, s)
    } else if s.pos >= h.hist.len() {
        (RecvStep::Pending, s)
    } else if s.pos < oldest(h) {
        (
            RecvStep::Lagged((oldest(h) - s.pos) as nat),
            SubModel { attach: s.attach, pos: oldest(h), seen: Seq::empty(), lagged: true },
        )
    } else {
        (
            RecvStep::Received(h.hist[s.pos as int]),
            SubModel {
                attach: s.attach,
                pos: s.pos + 1,
                seen: s.seen.push(h.hist[s.pos as int]),
                lagged: s.lagged,
            },
        )
    }
}

/// A subscription is coherent with a hub when its positions lie within the
/// publish history and everything it has received since its last gap is a
/// contiguous, in-order slice of that history ending at its position, all
/// of it at or after its attach position.
pub open spec fn sub_wf(s: SubModel, h: HubModel) -> bool {
    &&& s.attach <= s.pos <= h.hist.len()
    &&& s.seen.len() <= s.pos
    &&& s.attach <= s.pos - s.seen.len()
    &&& s.seen == h.hist.subrange(s.pos - s.seen.len(), s.pos as int)
    &&& (!s.lagged ==> s.pos - s.seen.len() == s.attach)
}

/// An in-process broadcaster: one writer publishes documents, any number
/// of subscriptions read them independently in publish order, with at most
/// [`HUB_CAPACITY`] events buffered for a slow reader.
pub struct Hub {
    buf: Vec<Event>,
    total: u64,
    closed: bool,
    hist: Ghost<Seq<Doc>>,
}

/// A consumer's independent receive view into a [`Hub`].
pub struct Subscription {
    cursor: u64,
    attach: Ghost<nat>,
    seen: Ghost<Seq<Doc>>,
    lagged: bool,
}

impl View for Hub {
    type V = HubModel;

    closed spec fn view(&self) -> HubModel {
        HubModel { hist: self.hist@, closed: self.closed }
    }
}

impl View for Subscription {
    type V = SubModel;

    closed spec fn view(&self) -> SubModel {
        SubModel {
            attach: self.attach@,
            pos: self.cursor as nat,
            seen: self.seen@,
            lagged: self.lagged,
        }
    }
}

impl Hub {
    /// The buffer never outgrows the capacity: the retained window.
    pub closed spec fn buffered(&self) -> nat {
        self.buf@.len()
    }

    /// Internal coherence: the buffer holds exactly the retained suffix of
    /// the publish history.
    pub closed spec fn wf(&self) -> bool {
        &&& self.hist@.len() == self.total as nat
        &&& self.buf@.len() == if self.total as nat <= HUB_CAPACITY as nat {
            self.total as nat
        } else {
            HUB_CAPACITY as nat
        }
        &&& forall|i: int|
            0 <= i < self.buf@.len() ==> self.buf@[i]@ == self.hist@[oldest(self@) + i]
    }

    /// A fresh, open hub with an empty history.
    pub fn new() -> (r: Hub)
        ensures
            r.wf(),
            r@ == (HubModel { hist: Seq::<Doc>::empty(), closed: false }),
    {
        Hub { buf: Vec::new(), total: 0, closed: false, hist: Ghost(Seq::empty()) }
    }

    /// Publish a document: appended to the single total order while the
    /// hub is open, refused once it is closed. Never blocks and never
    /// buffers more than [`HUB_CAPACITY`] events.
    pub fn publish(&mut self, e: Event) -> (accepted: bool)
        requires
            old(self).wf(),
            old(self)@.hist.len() < u64::MAX as nat,
        ensures
            final(self).wf(),
            final(self)@ == spec_publish(old(self)@, e@),
            accepted == !old(self)@.closed,
            final(self).buffered() <= HUB_CAPACITY as nat,
    {
        if self.closed {
            return false;
        }
        let ghost d = e@;
        if self.buf.len() >= HUB_CAPACITY {
            self.buf.remove(0);
        }
        self.buf.push(e);
        self.total = self.total + 1;
        proof {
            self.hist@ = self.hist@.push(d);
        }
        true
    }

    /// Attach a new subscription at the current publish position: it will
    /// see every event published after this point and nothing before.
    pub fn subscribe(&self) -> (s: Subscription)
        requires
            self.wf(),
        ensures
            s@ == (SubModel {
                attach: self@.hist.len(),
                pos: self@.hist.len(),
                seen: Seq::<Doc>::empty(),
                lagged: false,
            }),
            sub_wf(s@, self@),
    {
        let s = Subscription {
            cursor: self.total,
            attach: Ghost(self.total as nat),
            seen: Ghost(Seq::empty()),
            lagged: false,
        };
        proof {
            assert(s@.seen =~= self@.hist.subrange(
                s@.pos - s@.seen.len(),
                s@.pos as int,
            ));
        }
        s
    }

    /// One receive step for `sub`: the next event in publish order, a gap
    /// report if the subscriber fell behind, `Pending` if it has consumed
    /// everything published so far, or `Closed` once the hub is torn down.
    pub fn receive(&self, sub: &mut Subscription) -> (r: RecvOutcome)
        requires
            self.wf(),
            sub_wf(old(sub)@, self@),
        ensures
            (r@, final(sub)@) == spec_receive(self@, old(sub)@),
            sub_wf(final(sub)@, self@),
    {
        if self.closed {
            return RecvOutcome::Closed;
        }
        if sub.cursor >= self.total {
            return RecvOutcome::Pending;
        }
        let oldest_pos = self.total - self.buf.len() as u64;
        if sub.cursor < oldest_pos {
            let n = oldest_pos - sub.cursor;
            sub.cursor = oldest_pos;
            proof {
                sub.seen@ = Seq::empty();
            }
            sub.lagged = true;
            proof {
                assert(final(sub)@.seen =~= self@.hist.subrange(
                    final(sub)@.pos - final(sub)@.seen.len(),
                    final(sub)@.pos as int,
                ));
            }
            return RecvOutcome::Lagged(n);
        }
        let idx = (sub.cursor - oldest_pos) as usize;
        let e = self.buf[idx].dup();
        proof {
            assert(e@ == self@.hist[sub.cursor as int]);
        }
        sub.cursor = sub.cursor + 1;
        proof {
            sub.seen@ = sub.seen@.push(e@);
            assert(final(sub)@.seen =~= self@.hist.subrange(
                final(sub)@.pos - final(sub)@.seen.len(),
                final(sub)@.pos as int,
            ));
        }
        RecvOutcome::Received(e)
    }

    /// How many documents have ever been published to this hub.
    pub fn published_count(&self) -> (r: u64)
        requires
            self.wf(),
        ensures
            r as nat == self@.hist.len(),
    {
        self.total
    }

    /// Tear the hub down: the history stays as it is, and every further
    /// receive on any subscription reports `Closed`.
    pub fn close(&mut self)
        requires
            old(self).wf(),
        ensures
            final(self).wf(),
            final(self)@ == (HubModel { hist: old(self)@.hist, closed: true }),
    {
        self.closed = true;
    }
}

/// Publishing while a subscription is attached leaves that subscription
/// coherent: what it has already received stays a contiguous in-order
/// slice of the (now longer) history.
pub proof fn lemma_sub_wf_preserved_by_publish(h: HubModel, s: SubModel, d: Doc)
    requires
        sub_wf(s, h),
    ensures
        sub_wf(s, spec_publish(h, d)),
{
    let h2 = spec_publish(h, d);
    if !h.closed {
        assert(h2.hist.subrange(s.pos - s.seen.len(), s.pos as int) =~= h.hist.subrange(
            s.pos - s.seen.len(),
            s.pos as int,
        ));
    }
}

/// Ordered delivery: a subscriber that attached before publish position
/// `k` and has received past `k` without ever lagging received event `k`
/// itself, at its place in the original publish order.
pub proof fn lemma_ordered_delivery(h: HubModel, s: SubModel, k: nat)
    requires
        sub_wf(s, h),
        !s.lagged,
        s.attach <= k < s.pos,
    ensures
        s.seen.len() == s.pos - s.attach,
        s.seen[k - s.attach] == h.hist[k as int],
{
}

/// Nothing from before the attach position: every document a subscription
/// has received was published at or after the position it attached at.
pub proof fn lemma_no_events_before_attach(h: HubModel, s: SubModel, j: int)
    requires
        sub_wf(s, h),
        0 <= j < s.seen.len(),
    ensures
        s.seen[j] == h.hist[s.pos - s.seen.len() + j],
        s.pos - s.seen.len() + j >= s.attach,
{
}

/// Two subscribers that attached at the same position and have received
/// the same number of events, neither ever lagging, have received the
/// identical sequence of documents in the identical order.
pub proof fn lemma_consumers_agree(h: HubModel, s1: SubModel, s2: SubModel)
    requires
        sub_wf(s1, h),
        sub_wf(s2, h),
        !s1.lagged,
        !s2.lagged,
        s1.attach == s2.attach,
        s1.pos == s2.pos,
    ensures
        s1.seen == s2.seen,
{
}

/// A subscriber left more than [`HUB_CAPACITY`] events behind receives a
/// gap report naming exactly how many events it missed, rather than the
/// publisher having blocked or buffered without bound.
pub proof fn lemma_overrun_lags(h: HubModel, s: SubModel)
    requires
        sub_wf(s, h),
        !h.closed,
        h.hist.len() - s.pos > HUB_CAPACITY as nat,
    ensures
        spec_receive(h, s).0 == RecvStep::Lagged((oldest(h) - s.pos) as nat),
        oldest(h) > s.pos,
{
}

/// Once the hub is torn down, every subscription observes `Closed` on its
/// next receive, whatever its position, and its state does not change.
pub proof fn lemma_closed_receives_closed(h: HubModel, s: SubModel)
    requires
        h.closed,
    ensures
        spec_receive(h, s) == (RecvStep::Closed, s),
{
}

} // verus!
