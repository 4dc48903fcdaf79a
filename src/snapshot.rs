use std::collections::HashMap;
use vstd::prelude::*;

verus! {

/// What an optional SDP string holds, as a sequence of characters.
pub open spec fn text_view(t: Option<String>) -> Option<Seq<char>> {
    match t {
        Some(s) => Some(s@),
        None => None,
    }
}

/// The abstract negotiation state of one peer.
pub struct PeerSnapshotView {
    pub sdp_offer: Option<Seq<char>>,
    pub sdp_answer: Option<Seq<char>>,
}

/// One peer's negotiation state; either field is absent until that stage is reached.
#[derive(Clone, Debug)]
pub struct PeerSnapshot {
    pub sdp_offer: Option<String>,
    pub sdp_answer: Option<String>,
}

impl View for PeerSnapshot {
    type V = PeerSnapshotView;

    open spec fn view(&self) -> PeerSnapshotView {
        PeerSnapshotView { sdp_offer: text_view(self.sdp_offer), sdp_answer: text_view(self.sdp_answer) }
    }
}

/// Views every peer of a map of peers.
pub open spec fn peers_view(peers: Map<u64, PeerSnapshot>) -> Map<u64, PeerSnapshotView> {
    peers.map_values(|p: PeerSnapshot| p@)
}

/// One member's view of all peers of the room, keyed by peer id.
#[derive(Clone, Debug)]
pub struct RoomSnapshot {
    pub peers: HashMap<u64, PeerSnapshot>,
}

impl View for RoomSnapshot {
    type V = Map<u64, PeerSnapshotView>;

    open spec fn view(&self) -> Map<u64, PeerSnapshotView> {
        peers_view(self.peers@)
    }
}

/// Copies an optional SDP string.
pub fn copy_text(t: &Option<String>) -> (r: Option<String>)
    ensures
        text_view(r) == text_view(*t),
{
    match t {
        Some(s) => Some(s.clone()),
        None => None,
    }
}

/// Whether two optional SDP strings hold the same text (both absent counts as equal).
pub fn same_text(a: &Option<String>, b: &Option<String>) -> (r: bool)
    ensures
        r == (text_view(*a) == text_view(*b)),
{
    match (a, b) {
        (Some(x), Some(y)) => x.eq(y),
        (None, None) => true,
        _ => false,
    }
}

impl PeerSnapshot {
    /// A copy of this peer with the same offer and answer.
    pub fn copy(&self) -> (r: PeerSnapshot)
        ensures
            r@ == self@,
    {
        PeerSnapshot { sdp_offer: copy_text(&self.sdp_offer), sdp_answer: copy_text(&self.sdp_answer) }
    }
}

impl RoomSnapshot {
    /// A snapshot with no peers.
    pub fn new() -> (r: RoomSnapshot)
        ensures
            r@ == Map::<u64, PeerSnapshotView>::empty(),
    {
        let r = RoomSnapshot { peers: HashMap::new() };
        assert(r@ =~= Map::<u64, PeerSnapshotView>::empty());
        r
    }

    /// A copy of this snapshot, peer for peer.
    pub fn copy(&self) -> (r: RoomSnapshot)
        ensures
            r@ == self@,
    {
        RoomSnapshot { peers: self.peers.clone() }
    }

    /// Adds `peer` under `peer_id`, replacing any peer stored there before.
    pub fn insert_peer(&mut self, peer_id: u64, peer: PeerSnapshot)
        ensures
            final(self)@ == old(self)@.insert(peer_id, peer@),
    {
        proof {
            broadcast use vstd::std_specs::hash::group_hash_axioms;
        }
        self.peers.insert(peer_id, peer);
        assert(self@ =~= old(self)@.insert(peer_id, peer@));
    }
}

/// A change of one field: `None` if unchanged, `Some(v)` if it changed to `v`.
pub open spec fn change_view(c: Option<Option<String>>) -> Option<Option<Seq<char>>> {
    match c {
        Some(t) => Some(text_view(t)),
        None => None,
    }
}

/// How one field of a peer changed from `current` to `incoming`.
pub open spec fn field_change(current: Option<Seq<char>>, incoming: Option<Seq<char>>) -> Option<
    Option<Seq<char>>,
> {
    if current == incoming {
        None
    } else {
        Some(incoming)
    }
}

/// The abstract field-wise difference between two peers.
pub struct PeerSnapshotDiffView {
    pub sdp_offer_change: Option<Option<Seq<char>>>,
    pub sdp_answer_change: Option<Option<Seq<char>>>,
}

/// The field-wise difference that leads from `current` to `incoming`.
pub open spec fn peer_diff(current: PeerSnapshotView, incoming: PeerSnapshotView) -> PeerSnapshotDiffView {
    PeerSnapshotDiffView {
        sdp_offer_change: field_change(current.sdp_offer, incoming.sdp_offer),
        sdp_answer_change: field_change(current.sdp_answer, incoming.sdp_answer),
    }
}

/// The comparison of two peers: for each field, `None` if unchanged, else the new value.
pub struct PeerSnapshotDiff {
    pub sdp_offer_change: Option<Option<String>>,
    pub sdp_answer_change: Option<Option<String>>,
}

impl View for PeerSnapshotDiff {
    type V = PeerSnapshotDiffView;

    open spec fn view(&self) -> PeerSnapshotDiffView {
        PeerSnapshotDiffView {
            sdp_offer_change: change_view(self.sdp_offer_change),
            sdp_answer_change: change_view(self.sdp_answer_change),
        }
    }
}

/// The part of a diff that calls for propagating an offer: the new offer.
pub struct OnMakeSdpOfferPeerSnapshotDiffGroup {
    pub sdp_offer: Option<String>,
}

/// The offer to propagate for a diff, if its offer changed.
pub open spec fn offer_group(d: PeerSnapshotDiffView) -> Option<Option<Seq<char>>> {
    d.sdp_offer_change
}

impl PeerSnapshotDiff {
    /// Classifies this diff as an offer propagation when the offer changed.
    pub fn on_make_sdp_offer(&self) -> (r: Option<OnMakeSdpOfferPeerSnapshotDiffGroup>)
        ensures
            r is Some <==> self@.sdp_offer_change is Some,
            r is Some ==> Some(text_view(r->Some_0.sdp_offer)) == offer_group(self@),
    {
        match &self.sdp_offer_change {
            Some(sdp_offer) => Some(OnMakeSdpOfferPeerSnapshotDiffGroup { sdp_offer: copy_text(sdp_offer) }),
            None => None,
        }
    }
}

impl PeerSnapshot {
    /// Compares this peer with `another`, field by field.
    pub fn diff(&self, another: &PeerSnapshot) -> (r: PeerSnapshotDiff)
        ensures
            r@ == peer_diff(self@, another@),
    {
        let mut diff = PeerSnapshotDiff { sdp_answer_change: None, sdp_offer_change: None };
        if !same_text(&self.sdp_answer, &another.sdp_answer) {
            diff.sdp_answer_change = Some(copy_text(&another.sdp_answer));
        }
        if !same_text(&self.sdp_offer, &another.sdp_offer) {
            diff.sdp_offer_change = Some(copy_text(&another.sdp_offer));
        }
        diff
    }
}

/// Whether a track is muted.
#[derive(Debug)]
pub struct TrackSnapshot {
    pub is_muted: bool,
}

impl TrackSnapshot {
    pub fn new(is_muted: bool) -> (r: TrackSnapshot)
        ensures
            r.is_muted == is_muted,
    {
        TrackSnapshot { is_muted }
    }
}

/// A diff of two peers is classified as an offer propagation exactly when their
/// offers differ, and then carries the second peer's offer.
pub proof fn lemma_offer_classification(a: PeerSnapshotView, b: PeerSnapshotView)
    ensures
        offer_group(peer_diff(a, b)) is Some <==> a.sdp_offer != b.sdp_offer,
        a.sdp_offer != b.sdp_offer ==> offer_group(peer_diff(a, b)) == Some(b.sdp_offer),
{
}

/// Whether peer `p` is present in both snapshots with different offers.
pub open spec fn offer_changed(
    current: Map<u64, PeerSnapshotView>,
    incoming: Map<u64, PeerSnapshotView>,
    p: u64,
) -> bool {
    current.contains_key(p) && incoming.contains_key(p) && current[p].sdp_offer != incoming[p].sdp_offer
}

/// The peers present in both snapshots whose offers differ.
pub open spec fn offer_changes(current: Map<u64, PeerSnapshotView>, incoming: Map<u64, PeerSnapshotView>) -> Set<
    u64,
> {
    Set::new(|p: u64| offer_changed(current, incoming, p))
}

impl RoomSnapshot {
    /// Diffs each peer present in both this snapshot and `incoming`, and keeps
    /// the offer propagations: one entry per changed peer, with its new offer.
    pub fn offer_actions(&self, incoming: &RoomSnapshot) -> (r: Vec<(u64, OnMakeSdpOfferPeerSnapshotDiffGroup)>)
        ensures
            r@.map_values(|a: (u64, OnMakeSdpOfferPeerSnapshotDiffGroup)| a.0).no_duplicates(),
            r@.map_values(|a: (u64, OnMakeSdpOfferPeerSnapshotDiffGroup)| a.0).to_set() == offer_changes(
                self@,
                incoming@,
            ),
            r@.len() == offer_changes(self@, incoming@).len(),
            forall|j: int|
                0 <= j < r@.len() ==> text_view(#[trigger] r@[j].1.sdp_offer) == incoming@[r@[j].0].sdp_offer,
    {
        broadcast use vstd::std_specs::hash::group_hash_axioms;

        let mut r: Vec<(u64, OnMakeSdpOfferPeerSnapshotDiffGroup)> = Vec::new();
        let peers = incoming.peers.iter();
        let ghost s = vstd::std_specs::iter::IteratorSpec::remaining(&peers);
        assert(s.no_duplicates());
        for pair in it: peers
            invariant
                it.seq() == s,
                s.no_duplicates(),
                s == vstd::std_specs::iter::IteratorSpec::remaining(
                    &vstd::std_specs::hash::spec_hash_map_iter(&incoming.peers),
                ),
                r@.map_values(|a: (u64, OnMakeSdpOfferPeerSnapshotDiffGroup)| a.0).no_duplicates(),
                forall|j: int|
                    0 <= j < r@.len() ==> {
                        &&& offer_changed(self@, incoming@, #[trigger] r@[j].0)
                        &&& text_view(r@[j].1.sdp_offer) == incoming@[r@[j].0].sdp_offer
                        &&& exists|i: int| 0 <= i < it.index() && *s[i].0 == r@[j].0
                    },
                forall|i: int|
                    0 <= i < it.index() && offer_changed(self@, incoming@, *s[i].0) ==> r@.map_values(
                        |a: (u64, OnMakeSdpOfferPeerSnapshotDiffGroup)| a.0,
                    ).contains(*#[trigger] s[i].0),
        {
            let (peer_id, new_peer) = pair;
            let ghost idx = it.index();
            let ghost ids0 = r@.map_values(|a: (u64, OnMakeSdpOfferPeerSnapshotDiffGroup)| a.0);
            let ghost r0 = r@;
            assert(pair == s[idx]);
            assert(incoming.peers@[*peer_id] == *new_peer);
            proof {
                assert forall|j: int| 0 <= j < r0.len() implies r0[j].0 != *peer_id by {
                    let i = choose|i: int| 0 <= i < idx && *s[i].0 == r0[j].0;
                    if r0[j].0 == *peer_id {
                        assert(incoming.peers@.contains_key(*s[i].0));
                        assert(s[i] == s[idx]);
                    }
                }
            }
            match self.peers.get(peer_id) {
                Some(current_peer) => {
                    assert(self@[*peer_id] == current_peer@);
                    assert(incoming@[*peer_id] == new_peer@);
                    let d = current_peer.diff(new_peer);
                    match d.on_make_sdp_offer() {
                        Some(group) => {
                            assert(offer_changed(self@, incoming@, *peer_id));
                            r.push((*peer_id, group));
                            proof {
                                let ids1 = r@.map_values(|a: (u64, OnMakeSdpOfferPeerSnapshotDiffGroup)| a.0);
                                assert(ids1 =~= ids0.push(*peer_id));
                                assert(ids1[r0.len() as int] == *peer_id);
                                assert forall|j: int| 0 <= j < r@.len() implies {
                                    &&& offer_changed(self@, incoming@, #[trigger] r@[j].0)
                                    &&& text_view(r@[j].1.sdp_offer) == incoming@[r@[j].0].sdp_offer
                                    &&& exists|i: int| 0 <= i < idx + 1 && *s[i].0 == r@[j].0
                                } by {
                                    if j < r0.len() {
                                        assert(r@[j] == r0[j]);
                                        let i = choose|i: int| 0 <= i < idx && *s[i].0 == r0[j].0;
                                        assert(0 <= i < idx + 1 && *s[i].0 == r@[j].0);
                                    } else {
                                        assert(*s[idx].0 == r@[j].0);
                                    }
                                }
                                assert forall|i: int|
                                    0 <= i < idx + 1 && offer_changed(self@, incoming@, *s[i].0) implies ids1.contains(*s[i].0) by {
                                    if i < idx {
                                        let k = choose|k: int| 0 <= k < ids0.len() && ids0[k] == *s[i].0;
                                        assert(ids1[k] == *s[i].0);
                                    }
                                }
                            }
                        },
                        None => {
                            assert(!offer_changed(self@, incoming@, *peer_id));
                        },
                    }
                },
                None => {
                    assert(!offer_changed(self@, incoming@, *peer_id));
                },
            }
        }
        let ghost ids = r@.map_values(|a: (u64, OnMakeSdpOfferPeerSnapshotDiffGroup)| a.0);
        proof {
            assert forall|p: u64| offer_changes(self@, incoming@).contains(p) implies ids.to_set().contains(p) by {
                assert(incoming.peers@.contains_key(p));
                assert(s.contains((&p, &incoming.peers@[p])));
                let i = choose|i: int| 0 <= i < s.len() && s[i] == (&p, &incoming.peers@[p]);
                assert(*s[i].0 == p);
            }
            assert forall|p: u64| ids.to_set().contains(p) implies offer_changes(self@, incoming@).contains(p) by {
                let k = choose|k: int| 0 <= k < ids.len() && ids[k] == p;
                assert(offer_changed(self@, incoming@, r@[k].0));
            }
            assert(ids.to_set() =~= offer_changes(self@, incoming@));
            ids.unique_seq_to_set();
        }
        r
    }
}

} // verus!
