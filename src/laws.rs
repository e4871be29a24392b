//! Properties that relate the registry, the handlers and the fan-out.
use crate::dispatch::{count_of, delivered_to, received_by, sends_of, Payload, Delivery};
use crate::handler::fan_out;
use crate::registry::{joined, members_of, with_group, GroupId, PeerId};
use vstd::prelude::*;

verus! {

/// The registry state after each peer of `peers` joins `group`, in order.
pub open spec fn joined_all(m: Map<GroupId, Seq<PeerId>>, group: GroupId, peers: Seq<PeerId>) -> Map<
    GroupId,
    Seq<PeerId>,
>
    decreases peers.len(),
{
    if peers.len() == 0 {
        m
    } else {
        joined(joined_all(m, group, peers.drop_last()), group, peers.last())
    }
}

/// `n` copies of `payload`.
pub open spec fn repeated(payload: Payload, n: nat) -> Seq<Payload> {
    Seq::new(n, |i: int| payload)
}

proof fn lemma_count_push(s: Seq<PeerId>, x: PeerId, peer: PeerId)
    ensures
        count_of(s.push(x), peer) == count_of(s, peer) + if x == peer {
            1nat
        } else {
            0nat
        },
{
    assert(s.push(x).drop_last() =~= s);
}

proof fn lemma_count_absent(s: Seq<PeerId>, peer: PeerId)
    requires
        !s.contains(peer),
    ensures
        count_of(s, peer) == 0,
    decreases s.len(),
{
    if s.len() > 0 {
        assert(!s.drop_last().contains(peer)) by {
            if s.drop_last().contains(peer) {
                let i = choose|i: int| 0 <= i < s.drop_last().len() && s.drop_last()[i] == peer;
                assert(s[i] == peer);
            }
        }
        lemma_count_absent(s.drop_last(), peer);
        assert(s[s.len() - 1] != peer);
    }
}

proof fn lemma_count_unique(s: Seq<PeerId>, peer: PeerId)
    requires
        s.no_duplicates(),
        s.contains(peer),
    ensures
        count_of(s, peer) == 1,
    decreases s.len(),
{
    let init = s.drop_last();
    assert(init.no_duplicates());
    if s.last() == peer {
        assert(!init.contains(peer)) by {
            if init.contains(peer) {
                let i = choose|i: int| 0 <= i < init.len() && init[i] == peer;
                assert(s[i] == s[s.len() - 1]);
            }
        }
        lemma_count_absent(init, peer);
    } else {
        let i = choose|i: int| 0 <= i < s.len() && s[i] == peer;
        assert(i < s.len() - 1);
        assert(init[i] == peer);
        lemma_count_unique(init, peer);
    }
}

/// When a member of a group sends a message, each member is sent it once
/// through the group and the sender once more as the echo: with no member
/// listed twice, the sender gets two sends, every other member one, and no
/// other peer any.
pub proof fn law_fan_out_counts(m: Map<GroupId, Seq<PeerId>>, group: GroupId, sender: PeerId)
    requires
        members_of(m, group).no_duplicates(),
        members_of(m, group).contains(sender),
    ensures
        count_of(fan_out(m, Some(group), sender), sender) == 2,
        forall|p: PeerId|
            p != sender && members_of(m, group).contains(p) ==> count_of(
                #[trigger] fan_out(m, Some(group), sender),
                p,
            ) == 1,
        forall|p: PeerId|
            !members_of(m, group).contains(p) ==> count_of(
                #[trigger] fan_out(m, Some(group), sender),
                p,
            ) == 0,
{
    let s = members_of(m, group);
    lemma_count_push(s, sender, sender);
    lemma_count_unique(s, sender);
    assert forall|p: PeerId| p != sender && s.contains(p) implies count_of(
        #[trigger] fan_out(m, Some(group), sender),
        p,
    ) == 1 by {
        lemma_count_push(s, sender, p);
        lemma_count_unique(s, p);
    }
    assert forall|p: PeerId| !s.contains(p) implies count_of(
        #[trigger] fan_out(m, Some(group), sender),
        p,
    ) == 0 by {
        lemma_count_push(s, sender, p);
        lemma_count_absent(s, p);
    }
}

/// Any number of joins to a group that does not exist yet create exactly
/// one group, which then lists every joining peer in order; no other group
/// changes.
pub proof fn law_one_group_per_id(m: Map<GroupId, Seq<PeerId>>, group: GroupId, peers: Seq<PeerId>)
    requires
        !m.contains_key(group),
        peers.len() > 0,
    ensures
        joined_all(m, group, peers).dom() == m.dom().insert(group),
        joined_all(m, group, peers)[group] == peers,
        forall|g: GroupId| g != group && m.contains_key(g) ==> #[trigger] joined_all(m, group, peers)[g] == m[g],
    decreases peers.len(),
{
    let init = peers.drop_last();
    if init.len() == 0 {
        assert(joined_all(m, group, init) == m);
        assert(seq![peers.last()] =~= peers);
        assert(joined_all(m, group, peers).dom() =~= m.dom().insert(group));
    } else {
        law_one_group_per_id(m, group, init);
        assert(init.push(peers.last()) =~= peers);
        assert(joined_all(m, group, peers).dom() =~= m.dom().insert(group));
    }
}

/// Asking for a group twice is the same as asking once.
pub proof fn law_get_or_create_idempotent(m: Map<GroupId, Seq<PeerId>>, group: GroupId)
    ensures
        with_group(with_group(m, group), group) == with_group(m, group),
{
    assert(with_group(with_group(m, group), group) =~= with_group(m, group));
}

/// Adding a member in one step is the same as asking for the group and
/// then inserting the peer into it.
pub proof fn law_add_member_is_get_then_insert(m: Map<GroupId, Seq<PeerId>>, group: GroupId, peer: PeerId)
    ensures
        joined(m, group, peer) == with_group(m, group).insert(
            group,
            with_group(m, group)[group].push(peer),
        ),
{
    assert(joined(m, group, peer) =~= with_group(m, group).insert(
        group,
        with_group(m, group)[group].push(peer),
    ));
}

/// A failed send costs only its own target: once every send of a fan-out
/// has been made, a peer none of whose sends failed has succeeded in as
/// many sends as it is listed, whatever became of the sends to others.
pub proof fn law_failure_isolation(targets: Seq<PeerId>, outcomes: Seq<bool>, peer: PeerId)
    requires
        outcomes.len() == targets.len(),
        forall|i: int| 0 <= i < targets.len() && targets[i] == peer ==> #[trigger] outcomes[i],
    ensures
        count_of(delivered_to(targets, outcomes), peer) == count_of(targets, peer),
    decreases targets.len(),
{
    if targets.len() > 0 {
        let n = targets.len() - 1;
        let t0 = targets.drop_last();
        let o0 = outcomes.drop_last();
        assert forall|i: int| 0 <= i < t0.len() && t0[i] == peer implies #[trigger] o0[i] by {
            assert(targets[i] == peer);
            assert(outcomes[i]);
        }
        law_failure_isolation(t0, o0, peer);
        lemma_delivered_prefix(targets, outcomes);
        assert(delivered_to(targets, outcomes.drop_last()) == delivered_to(t0, o0));
        if outcomes[n] {
            lemma_count_push(delivered_to(t0, o0), targets[n], peer);
        } else {
            assert(targets[n] != peer);
        }
        assert(t0.push(targets[n]) =~= targets);
        lemma_count_push(t0, targets[n], peer);
    }
}

proof fn lemma_delivered_prefix(targets: Seq<PeerId>, outcomes: Seq<bool>)
    requires
        outcomes.len() == targets.len(),
        targets.len() > 0,
    ensures
        delivered_to(targets, outcomes.drop_last()) == delivered_to(
            targets.drop_last(),
            outcomes.drop_last(),
        ),
{
    lemma_delivered_depends_on_prefix(targets, targets.drop_last(), outcomes.drop_last());
}

proof fn lemma_delivered_depends_on_prefix(a: Seq<PeerId>, b: Seq<PeerId>, outcomes: Seq<bool>)
    requires
        outcomes.len() <= a.len(),
        outcomes.len() <= b.len(),
        forall|i: int| 0 <= i < outcomes.len() ==> a[i] == b[i],
    ensures
        delivered_to(a, outcomes) == delivered_to(b, outcomes),
    decreases outcomes.len(),
{
    if outcomes.len() > 0 {
        lemma_delivered_depends_on_prefix(a, b, outcomes.drop_last());
        assert(a[outcomes.len() - 1] == b[outcomes.len() - 1]);
    }
}

proof fn lemma_received_concat(a: Seq<Delivery>, b: Seq<Delivery>, peer: PeerId)
    ensures
        received_by(a + b, peer) == received_by(a, peer) + received_by(b, peer),
    decreases b.len(),
{
    if b.len() == 0 {
        assert(a + b =~= a);
        assert(received_by(a, peer) + received_by(b, peer) =~= received_by(a, peer));
    } else {
        assert((a + b).drop_last() =~= a + b.drop_last());
        lemma_received_concat(a, b.drop_last(), peer);
        if b.last().0 == peer {
            assert(received_by(a, peer) + received_by(b.drop_last(), peer).push(b.last().1)
                =~= (received_by(a, peer) + received_by(b.drop_last(), peer)).push(b.last().1));
        }
    }
}

proof fn lemma_received_fan_out(targets: Seq<PeerId>, payload: Payload, peer: PeerId)
    ensures
        received_by(sends_of(targets, payload), peer) == repeated(payload, count_of(targets, peer)),
    decreases targets.len(),
{
    if targets.len() == 0 {
        assert(received_by(sends_of(targets, payload), peer) =~= repeated(payload, 0));
    } else {
        let t0 = targets.drop_last();
        assert(sends_of(targets, payload).drop_last() =~= sends_of(t0, payload));
        lemma_received_fan_out(t0, payload, peer);
        assert(t0.push(targets.last()) =~= targets);
        lemma_count_push(t0, targets.last(), peer);
        if targets.last() == peer {
            assert(repeated(payload, count_of(t0, peer)).push(payload) =~= repeated(
                payload,
                count_of(targets, peer),
            ));
        }
    }
}

/// Two messages fanned out one after the other reach each peer in that
/// order: every send of the first to a peer comes before every send of the
/// second to it.
pub proof fn law_order_kept(
    first_targets: Seq<PeerId>,
    first: Payload,
    second_targets: Seq<PeerId>,
    second: Payload,
    peer: PeerId,
)
    ensures
        received_by(sends_of(first_targets, first) + sends_of(second_targets, second), peer)
            == repeated(first, count_of(first_targets, peer)) + repeated(
            second,
            count_of(second_targets, peer),
        ),
{
    lemma_received_concat(sends_of(first_targets, first), sends_of(second_targets, second), peer);
    lemma_received_fan_out(first_targets, first, peer);
    lemma_received_fan_out(second_targets, second, peer);
}

} // verus!
