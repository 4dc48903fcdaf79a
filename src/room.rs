use crate::proto::{Command, Event, EventView};
use crate::snapshot::RoomSnapshot;
use crate::snapshot_resolver::{
    register_spec, send_event_spec, MemberId, ResolverView, SnapshotResolver,
};
use vstd::prelude::*;

verus! {

/// The answer the room synthesizes for an offer.
pub open spec fn synthesized_answer() -> Seq<char> {
    seq!['h', 'e', 'l', 'l', 'o']
}

/// The event the room fans out when an offer is made: an answer for peer 1.
pub open spec fn answer_event() -> EventView {
    EventView::SdpAnswerMade { peer_id: 1, sdp_answer: synthesized_answer() }
}

/// Sends `e` to each member of `ms`, first to last.
pub open spec fn send_to_all(s: ResolverView, ms: Seq<MemberId>, e: EventView) -> ResolverView
    decreases ms.len(),
{
    if ms.len() == 0 {
        s
    } else {
        send_event_spec(send_to_all(s, ms.drop_last(), e), ms.last(), e)
    }
}

/// The room's reaction to an offer: every registered member, in order of
/// registration, is sent the synthesized answer.
pub open spec fn fan_out_spec(s: ResolverView) -> ResolverView {
    send_to_all(s, s.members, answer_event())
}

/// The synthesized answer event.
fn answer_made() -> (e: Event)
    ensures
        e@ == answer_event(),
{
    let sdp_answer = String::from_str("hello");
    proof {
        reveal_strlit("hello");
        assert(sdp_answer@ =~= synthesized_answer());
    }
    Event::SdpAnswerMade { peer_id: 1, sdp_answer }
}

/// Reacts to an offer for `peer_id` by sending the synthesized answer to every
/// registered member of `resolver`. The resolver reaches the room's policy
/// through this function, so that it holds no reference to the room.
pub fn answer_offer(resolver: &mut SnapshotResolver, peer_id: u64, sdp_offer: &String)
    requires
        old(resolver).wf(),
    ensures
        final(resolver).wf(),
        final(resolver)@ == fan_out_spec(old(resolver)@),
{
    let ghost s0 = resolver@;
    let n = resolver.member_count();
    let mut i: usize = 0;
    while i < n
        invariant
            resolver.wf(),
            n == s0.members.len(),
            0 <= i <= n,
            resolver@.members == s0.members,
            resolver@ == send_to_all(s0, s0.members.take(i as int), answer_event()),
        decreases n - i,
    {
        let m = resolver.member_at(i);
        resolver.send_event(m, answer_made());
        assert(s0.members.take(i + 1).drop_last() =~= s0.members.take(i as int));
        i = i + 1;
    }
    assert(s0.members.take(n as int) =~= s0.members);
}

/// The session's authority: owns the resolver, and decides what an offer leads to.
pub struct Room {
    snapshot_resolver: SnapshotResolver,
}

impl View for Room {
    type V = ResolverView;

    closed spec fn view(&self) -> ResolverView {
        self.snapshot_resolver@
    }
}

impl Room {
    /// Well-formedness of the resolver the room owns.
    pub closed spec fn wf(&self) -> bool {
        self.snapshot_resolver.wf()
    }

    /// A room with no members.
    pub fn new() -> (r: Room)
        ensures
            r.wf(),
            r@.snapshots == Map::<MemberId, Map<u64, crate::snapshot::PeerSnapshotView>>::empty(),
            r@.members == Seq::<MemberId>::empty(),
            r@.in_sync == Set::<MemberId>::empty(),
            r@.outbox == Seq::<(MemberId, EventView)>::empty(),
    {
        Room { snapshot_resolver: SnapshotResolver::new() }
    }

    /// An offer for `peer_id` was made: every registered member is sent the
    /// synthesized answer for peer 1, one event each.
    pub fn on_make_sdp_offer(&mut self, peer_id: u64, sdp_offer: String)
        requires
            old(self).wf(),
        ensures
            final(self).wf(),
            final(self)@ == fan_out_spec(old(self)@),
    {
        answer_offer(&mut self.snapshot_resolver, peer_id, &sdp_offer);
    }

    /// Registers a member's connection with the resolver.
    pub fn new_member_conn(&mut self, member_id: MemberId)
        requires
            old(self).wf(),
        ensures
            final(self).wf(),
            final(self)@ == register_spec(old(self)@, member_id),
    {
        self.snapshot_resolver.new_member_conn(member_id);
    }

    /// Hands a command of `member_id` to the resolver.
    pub fn on_command(&mut self, member_id: MemberId, command: Command)
        requires
            old(self).wf(),
        ensures
            final(self).wf(),
            final(self)@ == crate::snapshot_resolver::command_spec(old(self)@, member_id, command@),
    {
        self.snapshot_resolver.on_command(member_id, command);
    }

    /// A copy of the authoritative snapshot of `member_id`, if it is registered.
    pub fn snapshot_of(&self, member_id: MemberId) -> (r: Option<RoomSnapshot>)
        ensures
            r is Some <==> self@.snapshots.contains_key(member_id),
            r is Some ==> r->Some_0@ == self@.snapshots[member_id],
    {
        self.snapshot_resolver.snapshot_of(member_id)
    }

    /// Hands out the events waiting for delivery, oldest first, and empties the outbox.
    pub fn take_deliveries(&mut self) -> (r: Vec<(MemberId, Event)>)
        requires
            old(self).wf(),
        ensures
            final(self).wf(),
            r@.map_values(|d: (MemberId, Event)| crate::snapshot_resolver::delivery_view(d))
                == old(self)@.outbox,
            final(self)@ == (ResolverView { outbox: Seq::empty(), ..old(self)@ }),
    {
        self.snapshot_resolver.take_deliveries()
    }
}

} // verus!
