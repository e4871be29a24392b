use std::collections::HashMap;
use vstd::prelude::*;

verus! {

broadcast use vstd::std_specs::hash::group_hash_axioms;

/// Identity of a connected peer: the connection it stands for.
pub type PeerId = u64;

/// Identifier of a group of peers.
pub type GroupId = u64;

/// The members of `group` in the registry state `m`; a group that was never
/// created has none.
pub open spec fn members_of(m: Map<GroupId, Seq<PeerId>>, group: GroupId) -> Seq<PeerId> {
    if m.contains_key(group) {
        m[group]
    } else {
        Seq::empty()
    }
}

/// The registry state after asking for `group`: unchanged when the group
/// exists, otherwise with a new empty group under that identifier.
pub open spec fn with_group(m: Map<GroupId, Seq<PeerId>>, group: GroupId) -> Map<
    GroupId,
    Seq<PeerId>,
> {
    m.insert(group, members_of(m, group))
}

/// The registry state after `peer` joins `group`, which is created first if
/// needed. The same peer may join twice and is then listed twice.
pub open spec fn joined(m: Map<GroupId, Seq<PeerId>>, group: GroupId, peer: PeerId) -> Map<
    GroupId,
    Seq<PeerId>,
> {
    m.insert(group, members_of(m, group).push(peer))
}

/// Process-wide store mapping each group identifier to the peers that have
/// joined it. Groups are created on first use and never removed; members
/// are only ever added.
pub struct GroupRegistry {
    groups: HashMap<GroupId, Vec<PeerId>>,
}

impl View for GroupRegistry {
    type V = Map<GroupId, Seq<PeerId>>;

    closed spec fn view(&self) -> Map<GroupId, Seq<PeerId>> {
        Map::new(|g: GroupId| self.groups@.contains_key(g), |g: GroupId| self.groups@[g]@)
    }
}

impl GroupRegistry {
    /// A registry with no groups.
    pub fn new() -> (r: GroupRegistry)
        ensures
            r@ == Map::<GroupId, Seq<PeerId>>::empty(),
    {
        let r = GroupRegistry { groups: HashMap::new() };
        assert(r@ =~= Map::<GroupId, Seq<PeerId>>::empty());
        r
    }

    /// Returns the members of `group`, creating the group empty if it does
    /// not exist yet. The result is a snapshot of the membership at the
    /// time of the call.
    pub fn get_or_create_group(&mut self, group: GroupId) -> (members: Vec<PeerId>)
        ensures
            final(self)@ == with_group(old(self)@, group),
            members@ == members_of(old(self)@, group),
    {
        match self.groups.get(&group) {
            Some(v) => {
                let members = v.clone();
                assert(members@ =~= v@);
                proof {
                    assert(self@ =~= with_group(self@, group));
                }
                members
            },
            None => {
                let ghost before = self@;
                self.groups.insert(group, Vec::new());
                assert(self@ =~= with_group(before, group));
                Vec::new()
            },
        }
    }

    /// Adds `peer` to `group` in one step, creating the group if needed.
    /// No check is made for a peer that is already a member.
    pub fn add_member(&mut self, group: GroupId, peer: PeerId)
        ensures
            final(self)@ == joined(old(self)@, group, peer),
    {
        let ghost before = self@;
        match self.groups.remove(&group) {
            Some(v) => {
                let mut v = v;
                v.push(peer);
                self.groups.insert(group, v);
            },
            None => {
                let mut v: Vec<PeerId> = Vec::new();
                v.push(peer);
                self.groups.insert(group, v);
            },
        }
        assert(self@ =~= joined(before, group, peer));
    }

    /// A snapshot of the members of `group`; empty if the group does not
    /// exist.
    pub fn members(&self, group: GroupId) -> (r: Vec<PeerId>)
        ensures
            r@ == members_of(self@, group),
    {
        match self.groups.get(&group) {
            Some(v) => {
                let r = v.clone();
                assert(r@ =~= v@);
                r
            },
            None => Vec::new(),
        }
    }

    /// Whether a group exists under `group`.
    pub fn contains_group(&self, group: GroupId) -> (r: bool)
        ensures
            r == self@.contains_key(group),
    {
        self.groups.contains_key(&group)
    }

    /// The number of groups created so far.
    pub fn group_count(&self) -> (r: usize)
        ensures
            r == self@.len(),
    {
        assert(self@.dom() =~= self.groups@.dom());
        self.groups.len()
    }
}

} // verus!
