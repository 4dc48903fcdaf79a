use crate::proto::{Command, CommandView, Event, EventView};
use crate::room::{answer_offer, fan_out_spec};
use crate::snapshot::{offer_changes, PeerSnapshot, PeerSnapshotView, RoomSnapshot};
use std::collections::{HashMap, HashSet};
use vstd::prelude::*;

verus! {

/// Identifies a member of the session.
pub type MemberId = u64;

/// The abstract state of a resolver.
pub struct ResolverView {
    /// The authoritative snapshot of each registered member.
    pub snapshots: Map<MemberId, Map<u64, PeerSnapshotView>>,
    /// The registered members, in the order of their first registration.
    pub members: Seq<MemberId>,
    /// The members whose synchronization pass is in progress.
    pub in_sync: Set<MemberId>,
    /// The events handed to connections, oldest first, with their addressee.
    pub outbox: Seq<(MemberId, EventView)>,
}

/// The snapshot a member starts from: one peer, with neither offer nor answer.
pub open spec fn seed_snapshot() -> Map<u64, PeerSnapshotView> {
    map![1u64 => PeerSnapshotView { sdp_offer: None, sdp_answer: None }]
}

/// What an event does to the authoritative snapshot of its addressee.
pub open spec fn apply_event(snap: Map<u64, PeerSnapshotView>, e: EventView) -> Map<
    u64,
    PeerSnapshotView,
> {
    match e {
        EventView::PeersRemoved { peers_ids } => snap.remove_keys(peers_ids.to_set()),
        EventView::SdpAnswerMade { peer_id, sdp_answer } => if snap.contains_key(peer_id) {
            snap.insert(
                peer_id,
                PeerSnapshotView { sdp_offer: snap[peer_id].sdp_offer, sdp_answer: Some(sdp_answer) },
            )
        } else {
            snap
        },
        EventView::SnapshotSynchronized { .. } => snap,
    }
}

/// Sending `e` to member `m`: the state changes first, then the event is handed on
/// unless `m` is in synchronization. Events for unknown members are dropped.
pub open spec fn send_event_spec(s: ResolverView, m: MemberId, e: EventView) -> ResolverView {
    if !s.snapshots.contains_key(m) {
        s
    } else {
        let in_sync = if e is SnapshotSynchronized {
            s.in_sync.remove(m)
        } else {
            s.in_sync
        };
        ResolverView {
            snapshots: s.snapshots.insert(m, apply_event(s.snapshots[m], e)),
            members: s.members,
            in_sync,
            outbox: if in_sync.contains(m) {
                s.outbox
            } else {
                s.outbox.push((m, e))
            },
        }
    }
}

/// Registering member `m`: its snapshot is reset to the seed.
pub open spec fn register_spec(s: ResolverView, m: MemberId) -> ResolverView {
    ResolverView {
        snapshots: s.snapshots.insert(m, seed_snapshot()),
        members: if s.members.contains(m) {
            s.members
        } else {
            s.members.push(m)
        },
        in_sync: s.in_sync,
        outbox: s.outbox,
    }
}

/// The room's reaction to an offer, `k` times over.
pub open spec fn fan_out_times(s: ResolverView, k: nat) -> ResolverView
    decreases k,
{
    if k == 0 {
        s
    } else {
        fan_out_spec(fan_out_times(s, (k - 1) as nat))
    }
}

/// A synchronization pass of member `m` against its submitted snapshot: `m` is
/// marked in synchronization, the room reacts once for each peer present in
/// both snapshots whose offer changed, and then `m` is sent its authoritative
/// snapshot as it stands, which ends the pass. Unknown members are ignored.
pub open spec fn sync_spec(s: ResolverView, m: MemberId, incoming: Map<u64, PeerSnapshotView>) -> ResolverView {
    if !s.snapshots.contains_key(m) {
        s
    } else {
        let marked = ResolverView { in_sync: s.in_sync.insert(m), ..s };
        let passed = fan_out_times(marked, offer_changes(s.snapshots[m], incoming).len());
        send_event_spec(passed, m, EventView::SnapshotSynchronized { snapshot: passed.snapshots[m] })
    }
}

/// What a command of member `m` does. Commands of unknown members, and
/// commands other than an answer or a synchronization request, change nothing.
pub open spec fn command_spec(s: ResolverView, m: MemberId, c: CommandView) -> ResolverView {
    if !s.snapshots.contains_key(m) {
        s
    } else {
        match c {
            CommandView::MakeSdpAnswer { .. } => fan_out_spec(s),
            CommandView::SynchronizeMe { snapshot } => sync_spec(s, m, snapshot),
            _ => s,
        }
    }
}

/// The registry of members agrees with the snapshots held, each member once.
pub open spec fn registry_consistent(s: ResolverView) -> bool {
    &&& s.members.no_duplicates()
    &&& forall|m: MemberId| s.snapshots.contains_key(m) <==> s.members.contains(m)
}

/// The authority's per-member snapshots, synchronization set and outgoing events.
pub struct SnapshotResolver {
    current_snapshot: HashMap<MemberId, RoomSnapshot>,
    members: Vec<MemberId>,
    members_in_sync_state: HashSet<MemberId>,
    outbox: Vec<(MemberId, Event)>,
}

/// The abstract content of one outgoing event.
pub open spec fn delivery_view(d: (MemberId, Event)) -> (MemberId, EventView) {
    (d.0, d.1@)
}

impl View for SnapshotResolver {
    type V = ResolverView;

    closed spec fn view(&self) -> ResolverView {
        ResolverView {
            snapshots: self.current_snapshot@.map_values(|r: RoomSnapshot| r@),
            members: self.members@,
            in_sync: self.members_in_sync_state@,
            outbox: self.outbox@.map_values(|d: (MemberId, Event)| delivery_view(d)),
        }
    }
}

/// Applies `event` to `snapshot` as the authority's own state change.
fn apply_to_snapshot(snapshot: &mut RoomSnapshot, event: &Event)
    ensures
        final(snapshot)@ == apply_event(old(snapshot)@, event@),
{
    broadcast use vstd::std_specs::hash::group_hash_axioms;

    match event {
        Event::PeersRemoved { peers_ids } => {
            let ghost start = snapshot@;
            let mut i: usize = 0;
            while i < peers_ids.len()
                invariant
                    i <= peers_ids@.len(),
                    snapshot@ == start.remove_keys(peers_ids@.take(i as int).to_set()),
                decreases peers_ids@.len() - i,
            {
                let ghost before = snapshot@;
                snapshot.peers.remove(&peers_ids[i]);
                proof {
                    assert(peers_ids@.take(i + 1).to_set() =~= peers_ids@.take(i as int).to_set().insert(
                        peers_ids@[i as int],
                    )) by {
                        assert(peers_ids@.take(i + 1) =~= peers_ids@.take(i as int).push(peers_ids@[i as int]));
                        peers_ids@.take(i as int).lemma_push_to_set_commute(peers_ids@[i as int]);
                    }
                }
                assert(snapshot@ =~= before.remove(peers_ids@[i as int]));
                assert(start.remove_keys(peers_ids@.take(i as int).to_set().insert(peers_ids@[i as int]))
                    =~= before.remove(peers_ids@[i as int]));
                i = i + 1;
            }
            assert(peers_ids@.take(i as int) =~= peers_ids@);
        },
        Event::SdpAnswerMade { peer_id, sdp_answer } => {
            if snapshot.peers.contains_key(peer_id) {
                let ghost before = snapshot@;
                let peer = snapshot.peers.remove(peer_id);
                match peer {
                    Some(peer) => {
                        snapshot.peers.insert(
                            *peer_id,
                            PeerSnapshot { sdp_offer: peer.sdp_offer, sdp_answer: Some(sdp_answer.clone()) },
                        );
                    },
                    None => {},
                }
                assert(snapshot@ =~= apply_event(before, event@));
            }
        },
        Event::SnapshotSynchronized { .. } => {},
    }
}

impl SnapshotResolver {
    /// A resolver with no members.
    pub fn new() -> (r: SnapshotResolver)
        ensures
            r@.snapshots == Map::<MemberId, Map<u64, PeerSnapshotView>>::empty(),
            r@.members == Seq::<MemberId>::empty(),
            r@.in_sync == Set::<MemberId>::empty(),
            r@.outbox == Seq::<(MemberId, EventView)>::empty(),
            r.wf(),
    {
        let r = SnapshotResolver {
            current_snapshot: HashMap::new(),
            members: Vec::new(),
            members_in_sync_state: HashSet::new(),
            outbox: Vec::new(),
        };
        assert(r@.snapshots =~= Map::<MemberId, Map<u64, PeerSnapshotView>>::empty());
        assert(r@.outbox =~= Seq::<(MemberId, EventView)>::empty());
        r
    }

    /// Well-formedness: each registered member appears once in the registry.
    pub open spec fn wf(&self) -> bool {
        registry_consistent(self@)
    }

    /// Registers `member_id`, resetting its authoritative snapshot to the seed
    /// (one peer with id 1 and neither offer nor answer). A member registered
    /// before keeps its place in the registry; nothing of its old snapshot survives.
    pub fn new_member_conn(&mut self, member_id: MemberId)
        requires
            old(self).wf(),
        ensures
            final(self).wf(),
            final(self)@ == register_spec(old(self)@, member_id),
    {
        broadcast use vstd::std_specs::hash::group_hash_axioms;

        let mut room_snap = RoomSnapshot::new();
        room_snap.insert_peer(1, PeerSnapshot { sdp_answer: None, sdp_offer: None });
        assert(room_snap@ =~= seed_snapshot());
        let known = self.current_snapshot.contains_key(&member_id);
        self.current_snapshot.insert(member_id, room_snap);
        if !known {
            self.members.push(member_id);
        }
        assert(self@.snapshots =~= old(self)@.snapshots.insert(member_id, seed_snapshot()));
        assert forall|m: MemberId| self@.snapshots.contains_key(m) <==> self@.members.contains(m) by {
            if m != member_id && !known {
                assert(self@.members.contains(m) ==> old(self)@.members.contains(m)) by {
                    if self@.members.contains(m) {
                        let k = choose|k: int| 0 <= k < self@.members.len() && self@.members[k] == m;
                        assert(old(self)@.members[k] == m);
                    }
                }
                assert(old(self)@.members.contains(m) ==> self@.members.contains(m)) by {
                    if old(self)@.members.contains(m) {
                        let k = choose|k: int| 0 <= k < old(self)@.members.len() && old(self)@.members[k] == m;
                        assert(self@.members[k] == m);
                    }
                }
            }
            if m == member_id && !known {
                assert(self@.members[self@.members.len() - 1] == m);
            }
        }
        assert(self@ == register_spec(old(self)@, member_id));
    }

    /// Sends `event` to `member_id`: the member's authoritative snapshot changes
    /// first, whatever its synchronization state; the event is handed to its
    /// connection only if the member is not in synchronization afterwards.
    pub fn send_event(&mut self, member_id: MemberId, event: Event)
        requires
            old(self).wf(),
        ensures
            final(self).wf(),
            final(self)@ == send_event_spec(old(self)@, member_id, event@),
    {
        broadcast use vstd::std_specs::hash::group_hash_axioms;

        let current = self.current_snapshot.remove(&member_id);
        match current {
            Some(mut snapshot) => {
                apply_to_snapshot(&mut snapshot, &event);
                self.current_snapshot.insert(member_id, snapshot);
                if let Event::SnapshotSynchronized { .. } = &event {
                    self.members_in_sync_state.remove(&member_id);
                }
                if !self.members_in_sync_state.contains(&member_id) {
                    self.outbox.push((member_id, event));
                }
                assert(self@.snapshots =~= send_event_spec(old(self)@, member_id, event@).snapshots);
                assert(self@.outbox =~= send_event_spec(old(self)@, member_id, event@).outbox);
            },
            None => {
                assert(self.current_snapshot@ =~= old(self).current_snapshot@);
            },
        }
    }

    /// Dispatches a command of `member_id`: an answer is propagated through the
    /// room as an offer would be, a synchronization request runs a pass, and
    /// anything else is ignored.
    pub fn on_command(&mut self, member_id: MemberId, command: Command)
        requires
            old(self).wf(),
        ensures
            final(self).wf(),
            final(self)@ == command_spec(old(self)@, member_id, command@),
    {
        broadcast use vstd::std_specs::hash::group_hash_axioms;

        if !self.current_snapshot.contains_key(&member_id) {
            return;
        }
        match command {
            Command::MakeSdpAnswer { peer_id, sdp_answer } => {
                answer_offer(self, peer_id, &sdp_answer);
            },
            Command::SynchronizeMe { snapshot } => {
                self.sync(member_id, snapshot);
            },
            _ => {},
        }
    }

    /// Runs a synchronization pass of `member_id` against `with_snapshot`.
    pub fn sync(&mut self, member_id: MemberId, with_snapshot: RoomSnapshot)
        requires
            old(self).wf(),
        ensures
            final(self).wf(),
            final(self)@ == sync_spec(old(self)@, member_id, with_snapshot@),
    {
        broadcast use vstd::std_specs::hash::group_hash_axioms;

        let actions = match self.current_snapshot.get(&member_id) {
            Some(room_snapshot) => room_snapshot.offer_actions(&with_snapshot),
            None => {
                return;
            },
        };
        self.members_in_sync_state.insert(member_id);
        let ghost marked = self@;
        assert(marked == (ResolverView { in_sync: old(self)@.in_sync.insert(member_id), ..old(self)@ }));
        let mut i: usize = 0;
        while i < actions.len()
            invariant
                self.wf(),
                i <= actions@.len(),
                self@ == fan_out_times(marked, i as nat),
            decreases actions@.len() - i,
        {
            let (peer_id, group) = &actions[i];
            // A cleared offer is handed on as empty text: the room's reaction
            // does not depend on the offer.
            let sdp_offer = match &group.sdp_offer {
                Some(offer) => offer.clone(),
                None => String::new(),
            };
            answer_offer(self, *peer_id, &sdp_offer);
            i = i + 1;
        }
        let final_room_snapshot = match self.current_snapshot.get(&member_id) {
            Some(snapshot) => snapshot.copy(),
            None => RoomSnapshot::new(),
        };
        self.send_event(member_id, Event::SnapshotSynchronized { snapshot: final_room_snapshot });
    }

    /// The number of registered members.
    pub fn member_count(&self) -> (n: usize)
        ensures
            n == self@.members.len(),
    {
        self.members.len()
    }

    /// The `i`-th registered member, in order of registration.
    pub fn member_at(&self, i: usize) -> (m: MemberId)
        requires
            i < self@.members.len(),
        ensures
            m == self@.members[i as int],
    {
        self.members[i]
    }

    /// A copy of the authoritative snapshot of `member_id`, if it is registered.
    pub fn snapshot_of(&self, member_id: MemberId) -> (r: Option<RoomSnapshot>)
        ensures
            r is Some <==> self@.snapshots.contains_key(member_id),
            r is Some ==> r->Some_0@ == self@.snapshots[member_id],
    {
        broadcast use vstd::std_specs::hash::group_hash_axioms;

        match self.current_snapshot.get(&member_id) {
            Some(snapshot) => Some(snapshot.copy()),
            None => None,
        }
    }

    /// Whether `member_id` is in a synchronization pass.
    pub fn is_in_sync(&self, member_id: MemberId) -> (r: bool)
        ensures
            r == self@.in_sync.contains(member_id),
    {
        broadcast use vstd::std_specs::hash::group_hash_axioms;

        self.members_in_sync_state.contains(&member_id)
    }

    /// Hands out the events waiting for delivery, oldest first, and empties the outbox.
    pub fn take_deliveries(&mut self) -> (r: Vec<(MemberId, Event)>)
        requires
            old(self).wf(),
        ensures
            final(self).wf(),
            r@.map_values(|d: (MemberId, Event)| delivery_view(d)) == old(self)@.outbox,
            final(self)@ == (ResolverView { outbox: Seq::empty(), ..old(self)@ }),
    {
        let mut r: Vec<(MemberId, Event)> = Vec::new();
        std::mem::swap(&mut r, &mut self.outbox);
        assert(self@.outbox =~= Seq::<(MemberId, EventView)>::empty());
        r
    }
}

} // verus!
