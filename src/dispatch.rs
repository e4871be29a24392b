use crate::registry::PeerId;
use vstd::prelude::*;

verus! {

/// A message as peers exchange it.
#[derive(Clone, Debug, PartialEq, Eq)]
pub enum Payload {
    Text(String),
    Binary(Vec<u8>),
}

/// One send: the peer it goes to and the message it carries.
pub type Delivery = (PeerId, Payload);

/// The sends of a fan-out of `payload` to `targets`, in the order they are
/// made: one per entry of `targets`, duplicates included.
pub open spec fn sends_of(targets: Seq<PeerId>, payload: Payload) -> Seq<Delivery> {
    targets.map_values(|p: PeerId| (p, payload))
}

/// The messages that `peer` is sent, in order, in the log of sends `log`.
pub open spec fn received_by(log: Seq<Delivery>, peer: PeerId) -> Seq<Payload>
    decreases log.len(),
{
    if log.len() == 0 {
        Seq::empty()
    } else {
        let rest = received_by(log.drop_last(), peer);
        if log.last().0 == peer {
            rest.push(log.last().1)
        } else {
            rest
        }
    }
}

/// How many times `peer` occurs in `s`.
pub open spec fn count_of(s: Seq<PeerId>, peer: PeerId) -> nat
    decreases s.len(),
{
    if s.len() == 0 {
        0
    } else {
        count_of(s.drop_last(), peer) + if s.last() == peer {
            1nat
        } else {
            0nat
        }
    }
}

/// The targets whose send succeeded, in order: the entries of `targets`
/// whose outcome in `outcomes` is `true`.
pub open spec fn delivered_to(targets: Seq<PeerId>, outcomes: Seq<bool>) -> Seq<PeerId>
    recommends
        outcomes.len() <= targets.len(),
    decreases outcomes.len(),
{
    if outcomes.len() == 0 {
        Seq::empty()
    } else {
        let n = outcomes.len() - 1;
        let rest = delivered_to(targets, outcomes.drop_last());
        if outcomes[n] {
            rest.push(targets[n])
        } else {
            rest
        }
    }
}

/// A fan-out of one message in progress: the peers to send it to, in order,
/// and the outcome of each send made so far. A failed send is recorded and
/// the fan-out goes on with the next peer; nothing is retried.
pub struct Broadcast {
    payload: Payload,
    targets: Vec<PeerId>,
    outcomes: Vec<bool>,
}

impl Broadcast {
    /// The message being sent.
    pub closed spec fn spec_payload(&self) -> Payload {
        self.payload
    }

    /// The peers to send to, in order.
    pub closed spec fn spec_targets(&self) -> Seq<PeerId> {
        self.targets@
    }

    /// The outcome of each send made so far, in order.
    pub closed spec fn spec_outcomes(&self) -> Seq<bool> {
        self.outcomes@
    }

    /// No more sends are made than there are targets.
    pub open spec fn wf(&self) -> bool {
        self.spec_outcomes().len() <= self.spec_targets().len()
    }

    /// Every target has been sent to.
    pub open spec fn spec_is_done(&self) -> bool {
        self.spec_outcomes().len() == self.spec_targets().len()
    }

    /// Starts a fan-out of `payload` to every peer of `targets`, in order;
    /// a peer listed twice is sent the message twice.
    pub fn new(payload: Payload, targets: Vec<PeerId>) -> (r: Broadcast)
        ensures
            r.wf(),
            r.spec_payload() == payload,
            r.spec_targets() == targets@,
            r.spec_outcomes() == Seq::<bool>::empty(),
    {
        Broadcast { payload, targets, outcomes: Vec::new() }
    }

    /// The message being sent.
    pub fn payload(&self) -> (r: &Payload)
        ensures
            *r == self.spec_payload(),
    {
        &self.payload
    }

    /// The peers to send to, in order.
    pub fn targets(&self) -> (r: &Vec<PeerId>)
        ensures
            r@ == self.spec_targets(),
    {
        &self.targets
    }

    /// The outcome of each send made so far, in order.
    pub fn outcomes(&self) -> (r: &Vec<bool>)
        ensures
            r@ == self.spec_outcomes(),
    {
        &self.outcomes
    }

    /// Whether every target has been sent to.
    pub fn is_done(&self) -> (r: bool)
        requires
            self.wf(),
        ensures
            r == self.spec_is_done(),
    {
        self.outcomes.len() == self.targets.len()
    }

    /// The peer that the next send goes to, or `None` once every target has
    /// been sent to.
    pub fn next_target(&self) -> (r: Option<PeerId>)
        requires
            self.wf(),
        ensures
            self.spec_is_done() ==> r is None,
            !self.spec_is_done() ==> r == Some(self.spec_targets()[self.spec_outcomes().len() as int]),
    {
        if self.outcomes.len() < self.targets.len() {
            Some(self.targets[self.outcomes.len()])
        } else {
            None
        }
    }

    /// Records the outcome of the send to the current target and moves on to
    /// the next one, whether the send succeeded or not.
    pub fn record(&mut self, delivered: bool)
        requires
            old(self).wf(),
            !old(self).spec_is_done(),
        ensures
            final(self).wf(),
            final(self).spec_payload() == old(self).spec_payload(),
            final(self).spec_targets() == old(self).spec_targets(),
            final(self).spec_outcomes() == old(self).spec_outcomes().push(delivered),
    {
        self.outcomes.push(delivered);
    }

    /// The peers whose send succeeded so far, in order.
    pub fn delivered(&self) -> (r: Vec<PeerId>)
        requires
            self.wf(),
        ensures
            r@ == delivered_to(self.spec_targets(), self.spec_outcomes()),
    {
        let mut r: Vec<PeerId> = Vec::new();
        let mut i: usize = 0;
        while i < self.outcomes.len()
            invariant
                i <= self.outcomes@.len(),
                self.outcomes@.len() <= self.targets@.len(),
                r@ == delivered_to(self.targets@, self.outcomes@.take(i as int)),
            decreases self.outcomes@.len() - i,
        {
            proof {
                assert(self.outcomes@.take(i + 1).drop_last() =~= self.outcomes@.take(i as int));
            }
            if self.outcomes[i] {
                r.push(self.targets[i]);
            }
            i = i + 1;
        }
        assert(self.outcomes@.take(i as int) =~= self.outcomes@);
        r
    }
}

} // verus!
