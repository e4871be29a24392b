use crate::dispatch::{Broadcast, Payload};
use crate::registry::{joined, members_of, GroupId, GroupRegistry, PeerId};
use vstd::prelude::*;

verus! {

/// Where a connection's handler stands: it reacts to messages until the
/// connection closes, and to nothing after that.
pub enum HandlerState {
    Connected,
    /// The connection closed, with the close code and reason the transport
    /// gave, kept for diagnostics.
    Closed { code: u16, reason: String },
}

/// The peers that a message from `peer`, a member of `group` if any, is
/// sent to with the group state `m`: every member of its group, in order,
/// then `peer` itself once more (the echo). A peer outside any group is
/// sent only the echo.
pub open spec fn fan_out(m: Map<GroupId, Seq<PeerId>>, group: Option<GroupId>, peer: PeerId) -> Seq<
    PeerId,
> {
    match group {
        Some(g) => members_of(m, g).push(peer),
        None => seq![peer],
    }
}

/// The per-connection controller: bound to its own peer and, for a group
/// member, to that group of the registry.
pub struct RelayHandler {
    peer: PeerId,
    group: Option<GroupId>,
    state: HandlerState,
}

impl RelayHandler {
    /// The peer this handler serves.
    pub closed spec fn spec_peer(&self) -> PeerId {
        self.peer
    }

    /// The group this handler's peer belongs to, if any.
    pub closed spec fn spec_group(&self) -> Option<GroupId> {
        self.group
    }

    /// Whether the connection is still open.
    pub closed spec fn spec_connected(&self) -> bool {
        self.state is Connected
    }

    /// A handler for a peer that belongs to no group: its messages are only
    /// echoed back to it.
    pub fn standalone(peer: PeerId) -> (r: RelayHandler)
        ensures
            r.spec_peer() == peer,
            r.spec_group() is None,
            r.spec_connected(),
    {
        RelayHandler { peer, group: None, state: HandlerState::Connected }
    }

    /// Adds `peer` to `group` in the registry, creating the group if needed,
    /// and returns a handler bound to that group.
    pub fn join(registry: &mut GroupRegistry, group: GroupId, peer: PeerId) -> (r: RelayHandler)
        ensures
            final(registry)@ == joined(old(registry)@, group, peer),
            r.spec_peer() == peer,
            r.spec_group() == Some(group),
            r.spec_connected(),
    {
        registry.add_member(group, peer);
        RelayHandler { peer, group: Some(group), state: HandlerState::Connected }
    }

    /// Reacts to a message from this handler's peer: while connected, the
    /// message goes to every current member of the group, then back to the
    /// sender. A closed handler sends nothing and returns `None`.
    pub fn on_message(&self, registry: &GroupRegistry, payload: Payload) -> (r: Option<Broadcast>)
        ensures
            !self.spec_connected() ==> r is None,
            self.spec_connected() ==> r is Some && {
                let b = r->Some_0;
                &&& b.wf()
                &&& b.spec_payload() == payload
                &&& b.spec_targets() == fan_out(registry@, self.spec_group(), self.spec_peer())
                &&& b.spec_outcomes() == Seq::<bool>::empty()
            },
    {
        match self.state {
            HandlerState::Connected => {
                let mut targets = match self.group {
                    Some(g) => registry.members(g),
                    None => Vec::new(),
                };
                targets.push(self.peer);
                proof {
                    if self.group is None {
                        assert(targets@ =~= seq![self.peer]);
                    }
                }
                Some(Broadcast::new(payload, targets))
            },
            HandlerState::Closed { .. } => None,
        }
    }

    /// Reacts to the connection closing: the handler becomes closed and
    /// keeps the code and reason. The peer stays listed in its group.
    pub fn on_close(&mut self, code: u16, reason: String)
        ensures
            !final(self).spec_connected(),
            final(self).spec_peer() == old(self).spec_peer(),
            final(self).spec_group() == old(self).spec_group(),
            final(self).close_code() == Some(code),
    {
        self.state = HandlerState::Closed { code, reason };
    }

    /// The close code the connection ended with, or `None` while connected.
    pub closed spec fn close_code(&self) -> Option<u16> {
        match self.state {
            HandlerState::Connected => None,
            HandlerState::Closed { code, .. } => Some(code),
        }
    }

    /// The peer this handler serves.
    pub fn peer(&self) -> (r: PeerId)
        ensures
            r == self.spec_peer(),
    {
        self.peer
    }

    /// The group this handler's peer belongs to, if any.
    pub fn group(&self) -> (r: Option<GroupId>)
        ensures
            r == self.spec_group(),
    {
        self.group
    }

    /// Whether the connection is still open.
    pub fn is_connected(&self) -> (r: bool)
        ensures
            r == self.spec_connected(),
    {
        match self.state {
            HandlerState::Connected => true,
            HandlerState::Closed { .. } => false,
        }
    }

    /// The close code and reason, once the connection has closed.
    pub fn close_info(&self) -> (r: Option<(u16, &String)>)
        ensures
            self.spec_connected() <==> r is None,
            r is Some ==> Some(r->Some_0.0) == self.close_code(),
    {
        match &self.state {
            HandlerState::Connected => None,
            HandlerState::Closed { code, reason } => Some((*code, reason)),
        }
    }
}

} // verus!
