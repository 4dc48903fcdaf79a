use room_sync::proto::{Command, Event};
use room_sync::room::Room;
use room_sync::server::Server;
use room_sync::snapshot::{PeerSnapshot, RoomSnapshot};
use room_sync::snapshot_resolver::SnapshotResolver;

fn peer(offer: Option<&str>, answer: Option<&str>) -> PeerSnapshot {
    PeerSnapshot {
        sdp_offer: offer.map(|s| s.to_string()),
        sdp_answer: answer.map(|s| s.to_string()),
    }
}

fn answer_of(room: &Room, member: u64, peer_id: u64) -> Option<String> {
    room.snapshot_of(member).unwrap().peers[&peer_id].sdp_answer.clone()
}

fn is_answer(e: &Event, peer: u64, answer: &str) -> bool {
    match e {
        Event::SdpAnswerMade { peer_id, sdp_answer } => *peer_id == peer && sdp_answer == answer,
        _ => false,
    }
}

#[test]
fn registration_seeds_one_empty_peer() {
    let mut room = Room::new();
    room.new_member_conn(1);
    let snap = room.snapshot_of(1).unwrap();
    assert_eq!(snap.peers.len(), 1);
    assert!(snap.peers[&1].sdp_offer.is_none());
    assert!(snap.peers[&1].sdp_answer.is_none());
    assert!(room.take_deliveries().is_empty());
}

#[test]
fn synchronize_folds_room_answer_into_result() {
    let mut room = Room::new();
    room.new_member_conn(1);
    let mut incoming = RoomSnapshot::new();
    incoming.insert_peer(1, peer(Some("X"), None));
    room.on_command(1, Command::SynchronizeMe { snapshot: incoming });
    let out = room.take_deliveries();
    assert_eq!(out.len(), 1);
    assert_eq!(out[0].0, 1);
    match &out[0].1 {
        Event::SnapshotSynchronized { snapshot } => {
            assert_eq!(snapshot.peers.len(), 1);
            assert!(snapshot.peers[&1].sdp_offer.is_none());
            assert_eq!(snapshot.peers[&1].sdp_answer, Some("hello".to_string()));
        }
        other => panic!("unexpected event {:?}", other),
    }
    assert_eq!(answer_of(&room, 1, 1), Some("hello".to_string()));
}

#[test]
fn answer_reaches_every_member() {
    let mut room = Room::new();
    room.new_member_conn(1);
    room.new_member_conn(2);
    room.on_command(1, Command::MakeSdpAnswer { peer_id: 7, sdp_answer: "ans".to_string() });
    let out = room.take_deliveries();
    assert_eq!(out.len(), 2);
    assert_eq!(out[0].0, 1);
    assert!(is_answer(&out[0].1, 1, "hello"));
    assert_eq!(out[1].0, 2);
    assert!(is_answer(&out[1].1, 1, "hello"));
    assert_eq!(answer_of(&room, 1, 1), Some("hello".to_string()));
    assert_eq!(answer_of(&room, 2, 1), Some("hello".to_string()));
}

#[test]
fn sync_withholds_events_from_the_syncing_member() {
    let mut room = Room::new();
    room.new_member_conn(1);
    room.new_member_conn(2);
    let mut incoming = RoomSnapshot::new();
    incoming.insert_peer(1, peer(Some("X"), None));
    room.on_command(1, Command::SynchronizeMe { snapshot: incoming });
    let out = room.take_deliveries();
    let to_one: Vec<&Event> = out.iter().filter(|d| d.0 == 1).map(|d| &d.1).collect();
    let to_two: Vec<&Event> = out.iter().filter(|d| d.0 == 2).map(|d| &d.1).collect();
    assert_eq!(to_one.len(), 1);
    assert!(matches!(to_one[0], Event::SnapshotSynchronized { .. }));
    assert_eq!(to_two.len(), 1);
    assert!(is_answer(to_two[0], 1, "hello"));
    assert_eq!(out.last().unwrap().0, 1);
}

#[test]
fn sync_without_changes_only_returns_snapshot() {
    let mut room = Room::new();
    room.new_member_conn(1);
    room.new_member_conn(2);
    let mut incoming = RoomSnapshot::new();
    incoming.insert_peer(1, peer(None, Some("ignored")));
    incoming.insert_peer(5, peer(Some("new peer"), None));
    room.on_command(1, Command::SynchronizeMe { snapshot: incoming });
    let out = room.take_deliveries();
    assert_eq!(out.len(), 1);
    assert_eq!(out[0].0, 1);
    match &out[0].1 {
        Event::SnapshotSynchronized { snapshot } => {
            assert_eq!(snapshot.peers.len(), 1);
            assert!(snapshot.peers[&1].sdp_answer.is_none());
        }
        other => panic!("unexpected event {:?}", other),
    }
}

#[test]
fn peers_removed_changes_state_and_is_delivered() {
    let mut resolver = SnapshotResolver::new();
    resolver.new_member_conn(3);
    resolver.send_event(3, Event::PeersRemoved { peers_ids: vec![1, 42] });
    assert!(resolver.snapshot_of(3).unwrap().peers.is_empty());
    let out = resolver.take_deliveries();
    assert_eq!(out.len(), 1);
    assert!(matches!(&out[0].1, Event::PeersRemoved { peers_ids } if peers_ids == &vec![1, 42]));
}

#[test]
fn answer_for_missing_peer_changes_nothing() {
    let mut resolver = SnapshotResolver::new();
    resolver.new_member_conn(1);
    resolver.send_event(1, Event::SdpAnswerMade { peer_id: 8, sdp_answer: "a".to_string() });
    let snap = resolver.snapshot_of(1).unwrap();
    assert_eq!(snap.peers.len(), 1);
    assert!(snap.peers[&1].sdp_answer.is_none());
    assert_eq!(resolver.take_deliveries().len(), 1);
}

#[test]
fn events_for_unknown_member_are_dropped() {
    let mut resolver = SnapshotResolver::new();
    resolver.new_member_conn(1);
    resolver.send_event(2, Event::SdpAnswerMade { peer_id: 1, sdp_answer: "a".to_string() });
    resolver.send_event(2, Event::PeersRemoved { peers_ids: vec![1] });
    assert!(resolver.take_deliveries().is_empty());
    assert_eq!(resolver.snapshot_of(1).unwrap().peers.len(), 1);
}

#[test]
fn reregistration_resets_snapshot() {
    let mut room = Room::new();
    room.new_member_conn(1);
    room.on_make_sdp_offer(1, "offer".to_string());
    assert_eq!(answer_of(&room, 1, 1), Some("hello".to_string()));
    room.new_member_conn(1);
    let snap = room.snapshot_of(1).unwrap();
    assert_eq!(snap.peers.len(), 1);
    assert!(snap.peers[&1].sdp_offer.is_none());
    assert!(snap.peers[&1].sdp_answer.is_none());
    room.take_deliveries();
    room.on_make_sdp_offer(1, "offer".to_string());
    assert_eq!(room.take_deliveries().len(), 1);
}

#[test]
fn unknown_member_commands_do_nothing() {
    let mut room = Room::new();
    room.new_member_conn(1);
    let commands = vec![
        Command::MakeSdpOffer { peer_id: 1, sdp_offer: "o".to_string() },
        Command::MakeSdpAnswer { peer_id: 1, sdp_answer: "a".to_string() },
        Command::UpdateTrack { peer_id: 1, track_id: 2, is_muted: true },
        Command::SynchronizeMe { snapshot: RoomSnapshot::new() },
    ];
    for c in commands {
        room.on_command(99, c);
    }
    assert!(room.take_deliveries().is_empty());
    assert!(room.snapshot_of(99).is_none());
    assert!(answer_of(&room, 1, 1).is_none());
}

#[test]
fn unhandled_commands_are_ignored() {
    let mut room = Room::new();
    room.new_member_conn(1);
    room.on_command(1, Command::MakeSdpOffer { peer_id: 1, sdp_offer: "o".to_string() });
    room.on_command(1, Command::UpdateTrack { peer_id: 1, track_id: 2, is_muted: false });
    assert!(room.take_deliveries().is_empty());
    assert!(answer_of(&room, 1, 1).is_none());
}

#[test]
fn offer_before_any_member_is_a_no_op() {
    let mut room = Room::new();
    room.on_make_sdp_offer(1, "x".to_string());
    assert!(room.take_deliveries().is_empty());
}

#[test]
fn resolver_tracks_members_in_registration_order() {
    let mut resolver = SnapshotResolver::new();
    resolver.new_member_conn(5);
    resolver.new_member_conn(2);
    resolver.new_member_conn(5);
    assert_eq!(resolver.member_count(), 2);
    assert_eq!(resolver.member_at(0), 5);
    assert_eq!(resolver.member_at(1), 2);
    assert!(!resolver.is_in_sync(5));
}

#[test]
fn resolver_sync_ends_out_of_sync() {
    let mut resolver = SnapshotResolver::new();
    resolver.new_member_conn(1);
    let mut incoming = RoomSnapshot::new();
    incoming.insert_peer(1, peer(Some("X"), None));
    resolver.sync(1, incoming);
    assert!(!resolver.is_in_sync(1));
    let out = resolver.take_deliveries();
    assert_eq!(out.len(), 1);
    assert!(matches!(&out[0].1, Event::SnapshotSynchronized { .. }));
}

#[test]
fn server_wraps_room() {
    let mut room = Room::new();
    room.new_member_conn(1);
    let _server = Server::new(room);
}
