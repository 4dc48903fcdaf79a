use crate::snapshot::{PeerSnapshotView, RoomSnapshot};
use vstd::prelude::*;

verus! {

/// A message from a member to the authority.
#[derive(Debug)]
pub enum Command {
    MakeSdpOffer { peer_id: u64, sdp_offer: String },
    MakeSdpAnswer { peer_id: u64, sdp_answer: String },
    UpdateTrack { peer_id: u64, track_id: u64, is_muted: bool },
    SynchronizeMe { snapshot: RoomSnapshot },
}

/// The abstract content of a command.
pub enum CommandView {
    MakeSdpOffer { peer_id: u64, sdp_offer: Seq<char> },
    MakeSdpAnswer { peer_id: u64, sdp_answer: Seq<char> },
    UpdateTrack { peer_id: u64, track_id: u64, is_muted: bool },
    SynchronizeMe { snapshot: Map<u64, PeerSnapshotView> },
}

impl View for Command {
    type V = CommandView;

    open spec fn view(&self) -> CommandView {
        match self {
            Command::MakeSdpOffer { peer_id, sdp_offer } => CommandView::MakeSdpOffer {
                peer_id: *peer_id,
                sdp_offer: sdp_offer@,
            },
            Command::MakeSdpAnswer { peer_id, sdp_answer } => CommandView::MakeSdpAnswer {
                peer_id: *peer_id,
                sdp_answer: sdp_answer@,
            },
            Command::UpdateTrack { peer_id, track_id, is_muted } => CommandView::UpdateTrack {
                peer_id: *peer_id,
                track_id: *track_id,
                is_muted: *is_muted,
            },
            Command::SynchronizeMe { snapshot } => CommandView::SynchronizeMe { snapshot: snapshot@ },
        }
    }
}

/// The abstract content of an event.
pub enum EventView {
    SnapshotSynchronized { snapshot: Map<u64, PeerSnapshotView> },
    SdpAnswerMade { peer_id: u64, sdp_answer: Seq<char> },
    PeersRemoved { peers_ids: Seq<u64> },
}

/// A message from the authority to a member.
#[derive(Debug)]
pub enum Event {
    SnapshotSynchronized { snapshot: RoomSnapshot },
    SdpAnswerMade { peer_id: u64, sdp_answer: String },
    PeersRemoved { peers_ids: Vec<u64> },
}

impl View for Event {
    type V = EventView;

    open spec fn view(&self) -> EventView {
        match self {
            Event::SnapshotSynchronized { snapshot } => EventView::SnapshotSynchronized {
                snapshot: snapshot@,
            },
            Event::SdpAnswerMade { peer_id, sdp_answer } => EventView::SdpAnswerMade {
                peer_id: *peer_id,
                sdp_answer: sdp_answer@,
            },
            Event::PeersRemoved { peers_ids } => EventView::PeersRemoved { peers_ids: peers_ids@ },
        }
    }
}

} // verus!
