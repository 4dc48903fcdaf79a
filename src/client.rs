use crate::proto::{Command, CommandView};
use crate::snapshot::{PeerSnapshot, PeerSnapshotView, RoomSnapshot};
use vstd::prelude::*;

verus! {

/// The snapshot a client submits when it reconnects: peer 1 with the offer
/// "hello" and no answer.
pub open spec fn reconnect_snapshot() -> Map<u64, PeerSnapshotView> {
    map![1u64 => PeerSnapshotView { sdp_offer: Some(seq!['h', 'e', 'l', 'l', 'o']), sdp_answer: None }]
}

/// Builds the snapshot a client submits when it reconnects.
pub fn test_room_snapshot() -> (r: RoomSnapshot)
    ensures
        r@ == reconnect_snapshot(),
{
    let mut room = RoomSnapshot::new();
    let offer = String::from_str("hello");
    proof {
        reveal_strlit("hello");
        assert(offer@ =~= seq!['h', 'e', 'l', 'l', 'o']);
    }
    let peer = PeerSnapshot { sdp_offer: Some(offer), sdp_answer: None };
    room.insert_peer(1, peer);
    assert(room@ =~= reconnect_snapshot());
    room
}

/// The command a client sends when it reconnects: a synchronization request
/// with its reconnect snapshot.
pub fn reconnect_command() -> (c: Command)
    ensures
        c@ == (CommandView::SynchronizeMe { snapshot: reconnect_snapshot() }),
{
    Command::SynchronizeMe { snapshot: test_room_snapshot() }
}

} // verus!
