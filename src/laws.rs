use crate::proto::{CommandView, EventView};
use crate::room::{answer_event, fan_out_spec, send_to_all};
use crate::snapshot::PeerSnapshotView;
use crate::snapshot_resolver::{
    command_spec, fan_out_times, register_spec, seed_snapshot, send_event_spec, sync_spec,
    MemberId, ResolverView,
};
use vstd::prelude::*;

verus! {

/// While `m` is in synchronization, sending other events to a list of members
/// keeps `m` in synchronization and hands none of them to `m`.
proof fn lemma_send_to_all_withheld(s: ResolverView, ms: Seq<MemberId>, e: EventView, m: MemberId)
    requires
        s.in_sync.contains(m),
        !(e is SnapshotSynchronized),
    ensures
        send_to_all(s, ms, e).in_sync == s.in_sync,
        send_to_all(s, ms, e).members == s.members,
        send_to_all(s, ms, e).snapshots.dom() == s.snapshots.dom(),
        send_to_all(s, ms, e).outbox.len() >= s.outbox.len(),
        send_to_all(s, ms, e).outbox.subrange(0, s.outbox.len() as int) == s.outbox,
        forall|i: int|
            s.outbox.len() <= i < send_to_all(s, ms, e).outbox.len() ==> (#[trigger] send_to_all(
                s,
                ms,
                e,
            ).outbox[i]).0 != m,
    decreases ms.len(),
{
    if ms.len() > 0 {
        lemma_send_to_all_withheld(s, ms.drop_last(), e, m);
        let p = send_to_all(s, ms.drop_last(), e);
        let r = send_to_all(s, ms, e);
        assert(r == send_event_spec(p, ms.last(), e));
        if p.snapshots.contains_key(ms.last()) {
            assert(r.snapshots.dom() =~= p.snapshots.dom());
        }
        assert(r.outbox.subrange(0, p.outbox.len() as int) =~= p.outbox);
        assert(r.outbox.subrange(0, s.outbox.len() as int) =~= s.outbox) by {
            assert(p.outbox.subrange(0, s.outbox.len() as int) == s.outbox);
        }
        assert forall|i: int| s.outbox.len() <= i < r.outbox.len() implies (#[trigger] r.outbox[i]).0 != m by {
            if i < p.outbox.len() {
                assert(r.outbox[i] == p.outbox[i]);
            }
        }
    } else {
        assert(s.outbox.subrange(0, s.outbox.len() as int) =~= s.outbox);
    }
}

/// While `m` is in synchronization, any number of the room's reactions keep
/// `m` in synchronization and hand it no event.
proof fn lemma_fan_out_times_withheld(s: ResolverView, k: nat, m: MemberId)
    requires
        s.in_sync.contains(m),
    ensures
        fan_out_times(s, k).in_sync == s.in_sync,
        fan_out_times(s, k).members == s.members,
        fan_out_times(s, k).snapshots.dom() == s.snapshots.dom(),
        fan_out_times(s, k).outbox.len() >= s.outbox.len(),
        fan_out_times(s, k).outbox.subrange(0, s.outbox.len() as int) == s.outbox,
        forall|i: int|
            s.outbox.len() <= i < fan_out_times(s, k).outbox.len() ==> (#[trigger] fan_out_times(
                s,
                k,
            ).outbox[i]).0 != m,
    decreases k,
{
    if k > 0 {
        lemma_fan_out_times_withheld(s, (k - 1) as nat, m);
        let p = fan_out_times(s, (k - 1) as nat);
        let r = fan_out_times(s, k);
        lemma_send_to_all_withheld(p, p.members, answer_event(), m);
        assert(r == fan_out_spec(p));
        assert(r.outbox.subrange(0, s.outbox.len() as int) =~= s.outbox) by {
            assert(r.outbox.subrange(0, p.outbox.len() as int) == p.outbox);
            assert(p.outbox.subrange(0, s.outbox.len() as int) == s.outbox);
        }
        assert forall|i: int| s.outbox.len() <= i < r.outbox.len() implies (#[trigger] r.outbox[i]).0 != m by {
            if i < p.outbox.len() {
                assert(r.outbox.subrange(0, p.outbox.len() as int) == p.outbox);
                assert(r.outbox[i] == p.outbox[i]);
            }
        }
    } else {
        assert(s.outbox.subrange(0, s.outbox.len() as int) =~= s.outbox);
    }
}

/// A synchronization pass of a registered member `m` hands `m` exactly one
/// event: the closing `SnapshotSynchronized`, last of all, carrying its
/// authoritative snapshot after every update of the pass. Events that the pass
/// sends to `m` before that are applied to its snapshot but withheld, and `m`
/// is out of synchronization when the pass ends. Events to other members are
/// only appended: the earlier outbox stays as it was.
pub proof fn lemma_sync_delivers_only_result(s: ResolverView, m: MemberId, incoming: Map<u64, PeerSnapshotView>)
    requires
        s.snapshots.contains_key(m),
    ensures
        sync_spec(s, m, incoming).outbox.len() > s.outbox.len(),
        sync_spec(s, m, incoming).outbox.subrange(0, s.outbox.len() as int) == s.outbox,
        sync_spec(s, m, incoming).outbox.last() == (
            m,
            EventView::SnapshotSynchronized { snapshot: sync_spec(s, m, incoming).snapshots[m] },
        ),
        forall|i: int|
            s.outbox.len() <= i < sync_spec(s, m, incoming).outbox.len() - 1 ==> (
            #[trigger] sync_spec(s, m, incoming).outbox[i]).0 != m,
        !sync_spec(s, m, incoming).in_sync.contains(m),
{
    let marked = ResolverView { in_sync: s.in_sync.insert(m), ..s };
    let k = crate::snapshot::offer_changes(s.snapshots[m], incoming).len();
    lemma_fan_out_times_withheld(marked, k, m);
    let passed = fan_out_times(marked, k);
    let r = sync_spec(s, m, incoming);
    assert(passed.snapshots.contains_key(m));
    assert(r.outbox =~= passed.outbox.push((m, EventView::SnapshotSynchronized { snapshot: passed.snapshots[m] })));
    assert(r.snapshots[m] == passed.snapshots[m]);
    assert(r.outbox.subrange(0, s.outbox.len() as int) =~= s.outbox) by {
        assert(passed.outbox.subrange(0, s.outbox.len() as int) == s.outbox);
    }
    assert forall|i: int| s.outbox.len() <= i < r.outbox.len() - 1 implies (#[trigger] r.outbox[i]).0 != m by {
        assert(r.outbox[i] == passed.outbox[i]);
    }
}

/// Removing peers from member `m` changes its authoritative snapshot whether
/// or not `m` is in synchronization.
pub proof fn lemma_removal_applies_while_withheld(s: ResolverView, m: MemberId, ids: Seq<u64>)
    requires
        s.snapshots.contains_key(m),
    ensures
        send_event_spec(s, m, EventView::PeersRemoved { peers_ids: ids }).snapshots[m]
            == s.snapshots[m].remove_keys(ids.to_set()),
        forall|p: u64|
            ids.contains(p) ==> !send_event_spec(
                s,
                m,
                EventView::PeersRemoved { peers_ids: ids },
            ).snapshots[m].contains_key(p),
{
}

/// Registering a member resets its authoritative snapshot to the seed, whatever
/// state it had; registering it twice is the same as registering it once.
pub proof fn lemma_registration_resets(s: ResolverView, m: MemberId)
    ensures
        register_spec(s, m).snapshots[m] == seed_snapshot(),
        register_spec(register_spec(s, m), m) == register_spec(s, m),
{
    let r = register_spec(s, m);
    assert(r.members.contains(m)) by {
        if !s.members.contains(m) {
            assert(r.members[r.members.len() - 1] == m);
        }
    }
    assert(register_spec(r, m).snapshots =~= r.snapshots);
}

/// A command of an unregistered member changes nothing and sends nothing.
pub proof fn lemma_unknown_member_ignored(s: ResolverView, m: MemberId, c: CommandView)
    requires
        !s.snapshots.contains_key(m),
    ensures
        command_spec(s, m, c) == s,
{
}

/// Events other than `SnapshotSynchronized` never change who is in synchronization.
proof fn lemma_send_to_all_keeps_in_sync(s: ResolverView, ms: Seq<MemberId>, e: EventView)
    requires
        !(e is SnapshotSynchronized),
    ensures
        send_to_all(s, ms, e).in_sync == s.in_sync,
    decreases ms.len(),
{
    if ms.len() > 0 {
        lemma_send_to_all_keeps_in_sync(s, ms.drop_last(), e);
    }
}

/// A command of a member that is not in synchronization leaves the set of
/// members in synchronization as it found it: a pass never outlives the
/// command that started it.
pub proof fn lemma_command_leaves_sync_set(s: ResolverView, m: MemberId, c: CommandView)
    requires
        !s.in_sync.contains(m),
    ensures
        command_spec(s, m, c).in_sync == s.in_sync,
{
    if s.snapshots.contains_key(m) {
        match c {
            CommandView::MakeSdpAnswer { .. } => {
                lemma_send_to_all_keeps_in_sync(s, s.members, answer_event());
            },
            CommandView::SynchronizeMe { snapshot } => {
                let marked = ResolverView { in_sync: s.in_sync.insert(m), ..s };
                let k = crate::snapshot::offer_changes(s.snapshots[m], snapshot).len();
                lemma_fan_out_times_withheld(marked, k, m);
                assert(sync_spec(s, m, snapshot).in_sync =~= s.in_sync);
            },
            _ => {},
        }
    }
}

} // verus!
