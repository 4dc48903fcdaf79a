use room_sync::client::{reconnect_command, test_room_snapshot};
use room_sync::proto::Command;
use room_sync::snapshot::{PeerSnapshot, RoomSnapshot, TrackSnapshot};

fn peer(offer: Option<&str>, answer: Option<&str>) -> PeerSnapshot {
    PeerSnapshot {
        sdp_offer: offer.map(|s| s.to_string()),
        sdp_answer: answer.map(|s| s.to_string()),
    }
}

#[test]
fn diff_of_equal_peers_is_empty() {
    let a = peer(Some("o"), Some("a"));
    let b = peer(Some("o"), Some("a"));
    let d = a.diff(&b);
    assert!(d.sdp_offer_change.is_none());
    assert!(d.sdp_answer_change.is_none());
    assert!(d.on_make_sdp_offer().is_none());
}

#[test]
fn diff_reports_changed_offer() {
    let a = peer(None, None);
    let b = peer(Some("X"), None);
    let d = a.diff(&b);
    assert_eq!(d.sdp_offer_change, Some(Some("X".to_string())));
    assert!(d.sdp_answer_change.is_none());
    let group = d.on_make_sdp_offer().unwrap();
    assert_eq!(group.sdp_offer, Some("X".to_string()));
}

#[test]
fn diff_reports_cleared_offer() {
    let a = peer(Some("X"), None);
    let b = peer(None, None);
    let d = a.diff(&b);
    assert_eq!(d.sdp_offer_change, Some(None));
    let group = d.on_make_sdp_offer().unwrap();
    assert_eq!(group.sdp_offer, None);
}

#[test]
fn diff_of_answer_only_is_not_an_offer_action() {
    let a = peer(Some("X"), None);
    let b = peer(Some("X"), Some("ans"));
    let d = a.diff(&b);
    assert!(d.sdp_offer_change.is_none());
    assert_eq!(d.sdp_answer_change, Some(Some("ans".to_string())));
    assert!(d.on_make_sdp_offer().is_none());
}

#[test]
fn diff_reports_both_fields() {
    let a = peer(Some("1"), Some("2"));
    let b = peer(Some("3"), None);
    let d = a.diff(&b);
    assert_eq!(d.sdp_offer_change, Some(Some("3".to_string())));
    assert_eq!(d.sdp_answer_change, Some(None));
    assert_eq!(d.on_make_sdp_offer().unwrap().sdp_offer, Some("3".to_string()));
}

#[test]
fn insert_peer_replaces_existing_entry() {
    let mut room = RoomSnapshot::new();
    assert!(room.peers.is_empty());
    room.insert_peer(4, peer(Some("a"), None));
    room.insert_peer(4, peer(Some("b"), None));
    assert_eq!(room.peers.len(), 1);
    assert_eq!(room.peers[&4].sdp_offer, Some("b".to_string()));
}

#[test]
fn offer_actions_cover_only_shared_changed_peers() {
    let mut current = RoomSnapshot::new();
    current.insert_peer(1, peer(None, None));
    current.insert_peer(2, peer(Some("same"), None));
    current.insert_peer(3, peer(Some("old"), None));
    let mut incoming = RoomSnapshot::new();
    incoming.insert_peer(1, peer(Some("new"), None));
    incoming.insert_peer(2, peer(Some("same"), Some("x")));
    incoming.insert_peer(3, peer(None, None));
    incoming.insert_peer(9, peer(Some("only here"), None));
    let mut actions: Vec<(u64, Option<String>)> = current
        .offer_actions(&incoming)
        .into_iter()
        .map(|(id, g)| (id, g.sdp_offer))
        .collect();
    actions.sort();
    assert_eq!(actions, vec![(1, Some("new".to_string())), (3, None)]);
}

#[test]
fn copy_keeps_every_peer() {
    let room = test_room_snapshot();
    let copy = room.copy();
    assert_eq!(copy.peers.len(), 1);
    assert_eq!(copy.peers[&1].sdp_offer, Some("hello".to_string()));
    assert_eq!(copy.peers[&1].sdp_answer, None);
}

#[test]
fn reconnect_sends_the_test_snapshot() {
    match reconnect_command() {
        Command::SynchronizeMe { snapshot } => {
            assert_eq!(snapshot.peers.len(), 1);
            assert_eq!(snapshot.peers[&1].sdp_offer, Some("hello".to_string()));
            assert!(snapshot.peers[&1].sdp_answer.is_none());
        }
        other => panic!("unexpected command {:?}", other),
    }
}

#[test]
fn track_snapshot_keeps_mute_flag() {
    assert!(TrackSnapshot::new(true).is_muted);
    assert!(!TrackSnapshot::new(false).is_muted);
}
