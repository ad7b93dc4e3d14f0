//! How an attempt at a transfer is judged, what it is called and what it asks
//! the node agents for.
use vstd::prelude::*;

use crate::cluster::{list_or_empty, Node, NodeAddress};
use crate::controller::clock::{rfc3339_moment, rfc3339_text, Moment};
use crate::controller::laws::effects_of;
use crate::controller::plan::{EffectView, FinalizerEdit, Kind, NeedView, Seen, StepView};
use crate::controller::pods::nanos;
use crate::controller::state_machine::adopting_next;
use crate::controller::transfer::{
    backup_name, begin_next, destruction, ips_of, nets_of, observed, peers_of, pod_cidrs,
    restore_name, restore_of, retry_next, snapshot_text, start_next, teardown, transferring_next,
    verdict, DestructionView, ObsView, TeardownView, VerdictView,
};
use crate::controller::{target_volume, Config};
use crate::crd::openebs::InfoView;
use crate::crd::zfs_evacuation::{
    Phase, StatusView, TargetView, TransferView, ZFSEvacuation,
};
use crate::text::{decimal, decimals_tell_numbers_apart, hex, views};
use crate::transfer::relay::{cidr, ip_of, IpAddr, IpNet};

verus! {

// ------------------------------------------------------------------ the verdict

/// Have the two agents, the controller's memory and the relay nothing to say
/// that decides an attempt before its times do?
pub open spec fn undecided(o: ObsView) -> bool {
    &&& !(o.bkp_status == "Done"@ && o.rst_status == "Done"@)
    &&& o.failure_reason is None
    &&& o.bkp_status != "Failed"@ && o.bkp_status != "Invalid"@
    &&& o.rst_status != "Failed"@ && o.rst_status != "Invalid"@
    &&& o.mem is Some
    &&& o.mem->0.attempt == o.attempt
}

/// An attempt is complete exactly if both agents report Done, whatever else is
/// known of it; the bytes are those that the relay counted.
pub proof fn attempts_complete_when_both_sides_are_done(o: ObsView)
    ensures
        verdict(o) is Complete <==> o.bkp_status == "Done"@ && o.rst_status == "Done"@,
        verdict(o) matches VerdictView::Complete(bytes) ==> match o.mem {
            Some(m) => bytes == Some(m.bytes),
            None => bytes is None,
        },
{
}

/// Of what has failed, the first of these is the reason: what was recorded, what
/// the backup reports, what the restore reports, and that the relay is gone.
pub proof fn failures_are_reported_in_order(o: ObsView)
    requires
        !(o.bkp_status == "Done"@ && o.rst_status == "Done"@),
    ensures
        o.failure_reason is Some ==> verdict(o) == VerdictView::FailAttempt(o.failure_reason->0),
        o.failure_reason is None && (o.bkp_status == "Failed"@ || o.bkp_status == "Invalid"@)
            ==> verdict(o) == VerdictView::FailAttempt("backup reported status "@ + o.bkp_status),
        o.failure_reason is None && o.bkp_status != "Failed"@ && o.bkp_status != "Invalid"@ && (
        o.rst_status == "Failed"@ || o.rst_status == "Invalid"@) ==> verdict(o)
            == VerdictView::FailAttempt("restore reported status "@ + o.rst_status),
        o.failure_reason is None && o.bkp_status != "Failed"@ && o.bkp_status != "Invalid"@
            && o.rst_status != "Failed"@ && o.rst_status != "Invalid"@ && o.mem is None ==> verdict(
            o,
        ) == VerdictView::FailAttempt("controller restarted mid-transfer"@),
{
}

/// A relay of a later attempt means that the status is behind, one of an earlier
/// attempt that the relay is: neither fails the attempt.
pub proof fn stale_sides_are_told_apart(o: ObsView)
    requires
        o.mem is Some,
        undecided(ObsView { attempt: o.mem->0.attempt, ..o }),
    ensures
        verdict(o) is StaleStatus <==> o.mem->0.attempt > o.attempt,
        verdict(o) is StaleRelay <==> o.mem->0.attempt < o.attempt,
{
}

/// The stall verdict needs a relay task that is still running and has delivered
/// bytes, and then none for longer than the limit: an attempt whose relay task
/// has finished is never stalled, whatever its byte count and its last activity.
pub proof fn only_running_relays_stall(o: ObsView)
    requires
        verdict(o) == VerdictView::FailAttempt("transfer stalled (no bytes)"@),
        o.failure_reason is None,
    ensures
        o.mem is Some,
        !o.mem->0.task_finished,
        o.mem->0.bytes > 0,
        o.rst_exists,
        o.now_secs - o.mem->0.last_activity > o.stall_secs,
{
    reveal_strlit("transfer stalled (no bytes)");
    reveal_strlit("transfer timed out");
    reveal_strlit("controller restarted mid-transfer");
    reveal_strlit("backup reported status ");
    reveal_strlit("restore reported status ");
    assert("transfer stalled (no bytes)"@.len() == 27);
    assert("transfer stalled (no bytes)"@[0] == 't');
    assert("transfer timed out"@.len() == 18);
    assert("controller restarted mid-transfer"@.len() == 33);
    assert(("backup reported status "@ + o.bkp_status)[0] == 'b');
    assert(("restore reported status "@ + o.rst_status)[0] == 'r');
}

/// Once the time allowed has passed, an attempt that nothing else decides is
/// failed as timed out, unless its relay is still running and has delivered
/// bytes: a task that has finished does not save it, nor does one that has not
/// delivered any.
pub proof fn overdue_attempts_time_out(o: ObsView)
    requires
        undecided(o),
    ensures
        verdict(o) == VerdictView::FailAttempt("transfer timed out"@) <==> o.elapsed_secs
            > o.timeout_secs && (o.mem->0.task_finished || o.mem->0.bytes == 0),
{
    reveal_strlit("transfer stalled (no bytes)");
    reveal_strlit("transfer timed out");
    assert("transfer stalled (no bytes)"@.len() == 27);
    assert("transfer timed out"@.len() == 18);
}

/// An attempt that nothing decides and that is not overdue waits for its source
/// to connect, then asks for the restore, and then goes on for as long as it is
/// not stalled.
pub proof fn attempts_go_on_in_order(o: ObsView)
    requires
        undecided(o),
        o.elapsed_secs <= o.timeout_secs || (!o.mem->0.task_finished && o.mem->0.bytes > 0),
    ensures
        verdict(o) is WaitingForSource <==> !o.rst_exists && !o.mem->0.source_connected,
        verdict(o) is CreateRestore <==> !o.rst_exists && o.mem->0.source_connected,
        verdict(o) == VerdictView::Continue(o.mem->0.bytes) <==> o.rst_exists && (
        o.mem->0.task_finished || o.mem->0.bytes == 0 || o.now_secs - o.mem->0.last_activity
            <= o.stall_secs),
        verdict(o) == VerdictView::FailAttempt("transfer stalled (no bytes)"@) <==> o.rst_exists
            && !o.mem->0.task_finished && o.mem->0.bytes > 0 && o.now_secs
            - o.mem->0.last_activity > o.stall_secs,
{
}

/// What is judged is what was read: the statuses of backup and restore, the
/// relay, how long ago the attempt started, and the limits, an hour for the
/// whole if the evacuation does not say.
pub proof fn verdicts_judge_what_was_read(
    evac: ZFSEvacuation,
    seen: Seen,
    t: TransferView,
    stall_secs: u64,
    now: Option<Moment>,
)
    requires
        seen.relay is Some,
    ensures
        ({
            let o = observed(evac, seen, t, stall_secs, now);
            &&& o.attempt == t.attempt
            &&& o.failure_reason == t.failure_reason
            &&& seen.backup is Found && seen.backup->0.status is Some ==> o.bkp_status
                == seen.backup->0.status->0@
            &&& seen.restore is Found && seen.restore->0.status is Some ==> o.rst_status
                == seen.restore->0.status->0@
            &&& seen.backup !is Found ==> o.bkp_status.len() == 0
            &&& seen.restore !is Found ==> o.rst_status.len() == 0
            &&& o.rst_exists == (seen.restore is Found)
            &&& o.mem == seen.relay->0
            &&& now is Some ==> o.now_secs == now->0.secs
            &&& now is None ==> o.now_secs == 0 && o.elapsed_secs == 0
            &&& o.stall_secs == stall_secs
            &&& o.timeout_secs == if evac.spec.transfer_timeout_seconds is Some {
                evac.spec.transfer_timeout_seconds->0
            } else {
                3600
            }
            &&& now is Some && t.started_at is Some && rfc3339_moment(t.started_at->0) is Some && nanos(
                rfc3339_moment(t.started_at->0)->0,
            ) <= nanos(now->0) && now->0.nanos < 1_000_000_000 ==> {
                let past = nanos(now->0) - nanos(rfc3339_moment(t.started_at->0)->0);
                o.elapsed_secs * 1_000_000_000 <= past < (o.elapsed_secs + 1) * 1_000_000_000
            }
            &&& t.started_at is None ==> o.elapsed_secs == 0
        }),
{
}

// ------------------------------------------------------------------ the machine

/// A copied volume is adopted exactly if both agents report Done; the relay is
/// then dropped and its bytes are recorded.
pub proof fn volumes_are_adopted_when_both_sides_are_done(
    evac: ZFSEvacuation,
    seen: Seen,
    st: StatusView,
    cfg: Config,
    now: Option<Moment>,
)
    requires
        st.phase == Phase::Transferring,
        st.transfer is Some,
        seen.backup !is Unread,
        seen.restore !is Unread,
        seen.relay is Some,
    ensures
        ({
            let next = transferring_next(evac, seen, st, cfg, now);
            let done = seen.backup is Found && seen.backup->0.status is Some
                && seen.backup->0.status->0@ == "Done"@ && seen.restore is Found
                && seen.restore->0.status is Some && seen.restore->0.status->0@ == "Done"@;
            &&& next.0.phase == Phase::Adopting <==> done
            &&& done ==> effects_of(next.1) =~= seq![EffectView::DropRelay, EffectView::WriteStatus]
            &&& done && seen.relay->0 is Some ==> next.0.transfer is Some
                && next.0.transfer->0.bytes_relayed == Some((seen.relay->0)->0.bytes)
            &&& done && seen.relay->0 is None ==> next.0.transfer == st.transfer
            &&& done ==> next.0.transfer is Some && next.0.transfer->0.snap_name
                == st.transfer->0.snap_name && next.0.transfer->0.attempt == st.transfer->0.attempt
        }),
{
    reveal_strlit("Done");
    let t = st.transfer->0;
    let o = observed(evac, seen, t, cfg.stall_seconds, now);
    attempts_complete_when_both_sides_are_done(o);
    let next = transferring_next(evac, seen, st, cfg, now);
    if verdict(o) !is Complete {
        assert(next.0.phase != Phase::Adopting);
    }
}

/// A failed attempt is made again exactly if fewer than the attempts allowed
/// have been made, three if the evacuation does not say; else the evacuation is
/// unwound. Either way its backup and restore are gone by then, and its relay.
pub proof fn failed_attempts_are_made_again(
    evac: ZFSEvacuation,
    seen: Seen,
    st: StatusView,
    t: TransferView,
    reason: Seq<char>,
)
    requires
        st.transfer == Some(t),
        seen.relay is Some,
        st.phase == Phase::Transferring,
    ensures
        ({
            let next = retry_next(evac, seen, st, t, reason);
            let allowed = if evac.spec.max_attempts is Some {
                evac.spec.max_attempts->0
            } else {
                3
            };
            &&& next.0.phase == Phase::Aborting <==> seen.relay->0 is None && seen.backup is Absent
                && seen.restore is Absent && t.attempt >= allowed
            &&& next.1 is Spawn ==> seen.relay->0 is None && seen.backup is Absent && seen.restore
                is Absent && t.attempt < allowed && next.1->Spawn_0 == t.attempt + 1
            &&& next.0.phase == Phase::Aborting || seen.relay->0 is Some ==> next.0.transfer
                is Some && next.0.transfer->0.failure_reason == Some(reason)
            &&& seen.relay->0 is Some ==> effects_of(next.1) =~= seq![EffectView::DropRelay]
        }),
{
}

/// A relay is started only for an attempt later than any whose relay still
/// runs, between the source and the target that were recorded, and admits only
/// peers of those two nodes.
pub proof fn relays_start_between_the_two_nodes(seen: Seen, st: StatusView, attempt: u32)
    requires
        start_next(seen, st, attempt).1 is Spawn,
    ensures
        start_next(seen, st, attempt).0 == st,
        st.source is Some,
        st.target is Some,
        seen.relay is Some,
        seen.relay->0 is Some ==> (seen.relay->0)->0.attempt < attempt,
        seen.source_node is Found,
        seen.target_node is Found,
        start_next(seen, st, attempt).1->Spawn_0 == attempt,
        start_next(seen, st, attempt).1->Spawn_1 == peers_of(
            seen.source_node->0,
        ),
        start_next(seen, st, attempt).1->Spawn_2 == peers_of(
            seen.target_node->0,
        ),
        start_next(seen, st, attempt).1->Spawn_1.len() > 0,
        start_next(seen, st, attempt).1->Spawn_2.len() > 0,
{
}

/// Nodes are looked up by the identities that were recorded.
pub proof fn relays_look_up_both_nodes(seen: Seen, st: StatusView, attempt: u32)
    ensures
        start_next(seen, st, attempt).1 matches StepView::Read(NeedView::SourceNode(id))
            ==> st.source is Some && id == st.source->0.node_id,
        start_next(seen, st, attempt).1 matches StepView::Read(NeedView::TargetNode(id))
            ==> st.target is Some && id == st.target->0.node_id,
{
}

// ------------------------------------------------------------------ the objects

/// Beginning an attempt records it, with its ports in the order backup, restore,
/// and asks the source's agent for a backup of the source volume, to the
/// controller's address at the first of the two ports.
pub proof fn attempts_ask_for_a_backup_of_the_source(
    evac: ZFSEvacuation,
    st: StatusView,
    attempt: u32,
    backup_port: u16,
    restore_port: u16,
    noise: u16,
    now: Option<Moment>,
    pod_ip: Seq<char>,
)
    requires
        st.source is Some,
        evac.metadata.name is Some,
    ensures
        ({
            let next = begin_next(
                evac,
                st,
                attempt,
                backup_port,
                restore_port,
                noise,
                now,
                pod_ip,
            );
            let e = effects_of(next.1);
            &&& next.0.transfer is Some
            &&& next.0.transfer->0.attempt == attempt
            &&& next.0.transfer->0.ports =~= seq![backup_port, restore_port]
            &&& next.0.transfer->0.failure_reason is None
            &&& next.0.transfer->0.bytes_relayed is None
            &&& now is Some && now->0.secs <= 253_402_300_799 ==> next.0.transfer->0.started_at
                == Some(rfc3339_text(now->0.secs))
            &&& !next.0.transfer->0.target_snap_delete_issued
            &&& next.0 == (StatusView {
                transfer: next.0.transfer,
                message: next.0.message,
                ..st
            })
            &&& e.len() == 2
            &&& e[0] == EffectView::WriteStatus
            &&& e[1] is CreateBackup
            &&& ({
                let b = e[1]->CreateBackup_0;
                &&& b.metadata.name == Some(
                    evac.metadata.name->0@ + "-evac-a"@ + decimal(attempt as nat),
                )
                &&& b.metadata.labels is None
                &&& b.volume_name == st.source->0.volume_handle
                &&& b.owner_node_id == st.source->0.node_id
                &&& b.snap_name == Some(next.0.transfer->0.snap_name)
                &&& b.prev_snap_name is None
                &&& b.backup_dest == pod_ip + ":"@ + decimal(backup_port as nat)
                &&& b.status == Some("Init"@)
            })
        }),
{
}

/// The restore is asked of the target's agent: into the new volume, from the
/// controller's address at the restore's port, with the source volume's
/// properties on the target's pool.
pub proof fn restores_are_asked_of_the_target(
    evac: Seq<char>,
    info: InfoView,
    target: TargetView,
    attempt: u32,
    pod_ip: Seq<char>,
    restore_port: u16,
)
    ensures
        ({
            let r = restore_of(evac, info, target, attempt, pod_ip, restore_port);
            &&& r.api_version == "zfs.openebs.io"@ + "/v1"@
            &&& r.kind == "ZFSRestore"@
            &&& r.metadata.name == Some(
                evac + "-evacr-a"@ + decimal(attempt as nat),
            )
            &&& r.volume_name == target.new_volume_handle
            &&& r.owner_node_id == target.node_id
            &&& r.restore_src == pod_ip + ":"@ + decimal(restore_port as nat)
            &&& r.status == Some("Init"@)
            &&& r.vol_spec is Some
            &&& r.vol_spec->0.owner_node_id == target.node_id
            &&& r.vol_spec->0.pool_name == target.pool
            &&& r.vol_spec->0.snapname is None
            &&& r.vol_spec->0.capacity == info.capacity
            &&& r.vol_spec->0.fs_type == info.fs_type
            &&& r.vol_spec->0.volume_type == info.volume_type
            &&& r.vol_spec->0.extra == info.extra
        }),
{
}

/// What asks for the restore takes its port from the second of the recorded
/// ones, and its properties from the source volume.
pub proof fn restores_use_the_recorded_port(
    evac: ZFSEvacuation,
    seen: Seen,
    st: StatusView,
    cfg: Config,
    now: Option<Moment>,
)
    requires
        st.phase == Phase::Transferring,
        st.transfer is Some,
        st.source is Some,
        st.target is Some,
        seen.backup !is Unread,
        seen.restore is Absent,
        seen.relay is Some,
        seen.source_volume is Found,
        st.transfer->0.ports.len() == 2,
        undecided(observed(evac, seen, st.transfer->0, cfg.stall_seconds, now)),
        (seen.relay->0)->0.source_connected,
        !(seen.relay->0)->0.task_finished,
        (seen.relay->0)->0.bytes > 0,
    ensures
        ({
            let next = transferring_next(evac, seen, st, cfg, now);
            &&& next.0 == st
            &&& effects_of(next.1) =~= seq![
                EffectView::CreateRestore(
                    restore_of(
                        evac.metadata.any_name(),
                        seen.source_volume->0.spec.0@,
                        st.target->0,
                        st.transfer->0.attempt,
                        cfg.pod_ip@,
                        st.transfer->0.ports[1],
                    ),
                ),
            ]
        }),
{
    let o = observed(evac, seen, st.transfer->0, cfg.stall_seconds, now);
    attempts_go_on_in_order(o);
}

/// The new volume carries the name that was chosen for it, the target node's
/// label, and the source volume's properties on the target's pool; it is no
/// clone, and its agent has yet to make it Ready.
pub proof fn new_volumes_belong_to_the_target(info: InfoView, target: TargetView)
    ensures
        ({
            let v = target_volume(info, target);
            &&& v.metadata.name == Some(target.new_volume_handle)
            &&& v.metadata.labels is Some
            &&& v.metadata.labels->0 == Map::<Seq<char>, Seq<char>>::empty().insert(
                "kubernetes.io/nodename"@,
                target.node_id,
            )
            &&& v.metadata.uid is None
            &&& v.metadata.finalizers is None
            &&& v.metadata.annotations is None
            &&& v.spec.owner_node_id == target.node_id
            &&& v.spec.pool_name == target.pool
            &&& v.spec.snapname is None
            &&& v.spec.capacity == info.capacity
            &&& v.spec.fs_type == info.fs_type
            &&& v.spec.volume_type == info.volume_type
            &&& v.spec.extra == info.extra
            &&& v.state == Some("Pending"@)
        }),
{
}

/// A copied volume is committed to exactly if its agent reports Ready; if the
/// agent reports Failed the evacuation is unwound; else it is waited for.
pub proof fn ready_volumes_are_committed_to(seen: Seen, st: StatusView)
    requires
        st.phase == Phase::Adopting,
        st.source is Some,
        st.target is Some,
        seen.target_volume is Found,
    ensures
        ({
            let next = adopting_next(seen, st);
            let s = seen.target_volume->0.status;
            &&& next.0.phase == Phase::Committing <==> s is Some && s->0.state is Some
                && s->0.state->0@ == "Ready"@
            &&& next.0.phase == Phase::Aborting <==> s is Some && s->0.state is Some
                && s->0.state->0@ == "Failed"@
            &&& next.0.phase != Phase::Committing && next.0.phase != Phase::Aborting ==> next.0.phase
                == Phase::Adopting
        }),
{
    reveal_strlit("Ready");
    reveal_strlit("Failed");
    assert("Ready"@.len() == 5);
    assert("Failed"@.len() == 6);
}

/// A volume that is not there yet is created after the source volume, for the
/// target.
pub proof fn missing_volumes_are_created(seen: Seen, st: StatusView)
    requires
        st.phase == Phase::Adopting,
        st.source is Some,
        st.target is Some,
        seen.target_volume is Absent,
        seen.source_volume is Found,
    ensures
        adopting_next(seen, st).0 == st,
        effects_of(adopting_next(seen, st).1) =~= seq![
            EffectView::CreateVolume(target_volume(seen.source_volume->0.spec.0@, st.target->0)),
        ],
{
}

// ------------------------------------------------------------------ teardown

/// An attempt is torn down exactly if neither its backup nor its restore is
/// left. What is left is deleted first; one that is being deleted already has
/// the agent's finalizer taken off if its node is gone, and is waited for if it
/// is not.
pub proof fn attempts_are_torn_down(seen: Seen, evac: Seq<char>, attempt: u32, st: StatusView)
    requires
        seen.backup !is Unread,
        seen.restore !is Unread,
        st.source is Some,
        st.target is Some,
        seen.source_node !is Unread,
        seen.target_node !is Unread,
    ensures
        ({
            let b = evac + "-evac-a"@ + decimal(attempt as nat);
            let r = evac + "-evacr-a"@ + decimal(attempt as nat);
            let t = teardown(seen, evac, attempt, st);
            &&& t is Gone <==> seen.backup is Absent && seen.restore is Absent
            &&& t matches TeardownView::Going(e) ==> {
                &&& e.contains(EffectView::Delete(Kind::ZfsBackup, b)) <==> seen.backup is Found
                    && seen.backup->0.metadata.deletion_timestamp is None
                &&& e.contains(EffectView::Delete(Kind::ZfsRestore, r)) <==> seen.restore is Found
                    && seen.restore->0.metadata.deletion_timestamp is None
                &&& e.contains(
                    EffectView::EditFinalizers(Kind::ZfsBackup, b, FinalizerEdit::DropZfs),
                ) <==> seen.backup is Found && seen.backup->0.metadata.deletion_timestamp is Some
                    && seen.source_node is Absent
                &&& e.contains(
                    EffectView::EditFinalizers(Kind::ZfsRestore, r, FinalizerEdit::DropZfs),
                ) <==> seen.restore is Found && seen.restore->0.metadata.deletion_timestamp is Some
                    && seen.target_node is Absent
                &&& e.len() <= 2
                &&& seen.backup is Found && seen.backup->0.metadata.deletion_timestamp is None
                    ==> e[0] == EffectView::Delete(Kind::ZfsBackup, b)
            }
            &&& !(t is Read)
        }),
{
    let b = evac + "-evac-a"@ + decimal(attempt as nat);
    let r = evac + "-evacr-a"@ + decimal(attempt as nat);
    if let TeardownView::Going(e) = teardown(seen, evac, attempt, st) {
        let db = EffectView::Delete(Kind::ZfsBackup, b);
        let dr = EffectView::Delete(Kind::ZfsRestore, r);
        let fb = EffectView::EditFinalizers(Kind::ZfsBackup, b, FinalizerEdit::DropZfs);
        let fr = EffectView::EditFinalizers(Kind::ZfsRestore, r, FinalizerEdit::DropZfs);
        if e.len() > 0 {
            assert(e.contains(e[0]));
            assert(e.contains(e[e.len() - 1]));
        }
    }
}

/// The target's transfer snapshot is deleted only once its agent has taken it in
/// hand, which its finalizer shows, or once its node is gone; it counts as gone
/// only when there is none and its deletion was issued, or when its volume is
/// gone.
pub proof fn snapshots_are_destroyed_by_their_agent(seen: Seen, st: StatusView)
    requires
        st.transfer is Some,
        st.target is Some,
    ensures
        ({
            let t = st.transfer->0;
            let d = destruction(seen, st);
            &&& d is Gone ==> seen.target_snapshot is Absent && (t.target_snap_delete_issued
                || seen.target_volume is Absent)
            &&& seen.target_snapshot is Absent && t.target_snap_delete_issued ==> d is Gone
            &&& d matches DestructionView::Going(e, _, issued) ==> {
                &&& e.contains(EffectView::Delete(Kind::ZfsSnapshot, t.snap_name)) ==> {
                    &&& issued
                    &&& !t.target_snap_delete_issued
                    &&& seen.target_snapshot is Found
                    &&& seen.target_snapshot->0.metadata.deletion_timestamp is None
                    &&& seen.target_node is Absent || agent_holds(seen)
                }
                &&& e.contains(
                    EffectView::EditFinalizers(
                        Kind::ZfsSnapshot,
                        t.snap_name,
                        FinalizerEdit::DropZfs,
                    ),
                ) ==> t.target_snap_delete_issued && seen.target_snapshot is Found
                    && seen.target_node is Absent
                &&& issued && e.len() == 0 ==> seen.target_snapshot is Found
                    && seen.target_snapshot->0.metadata.deletion_timestamp is Some
            }
            &&& seen.target_snapshot is Found && !t.target_snap_delete_issued && (
            seen.target_snapshot->0.metadata.deletion_timestamp is Some || agent_holds(seen)
                || seen.target_node is Absent) ==> d is Going && d->Going_2
            &&& seen.target_snapshot is Found && !t.target_snap_delete_issued
                && seen.target_snapshot->0.metadata.deletion_timestamp is None && (agent_holds(seen)
                || seen.target_node is Absent) ==> d is Going && d->Going_0 =~= seq![
                EffectView::Delete(Kind::ZfsSnapshot, t.snap_name),
            ]
            &&& seen.target_snapshot is Found && t.target_snap_delete_issued && seen.target_node
                is Absent ==> d is Going && d->Going_0 =~= seq![
                EffectView::EditFinalizers(
                    Kind::ZfsSnapshot,
                    t.snap_name,
                    FinalizerEdit::DropZfs,
                ),
            ]
        }),
{
    let d = destruction(seen, st);
    let t = st.transfer->0;
    if agent_holds(seen) {
        let h = seen.target_snapshot->0.metadata.held_by();
        let f = seen.target_snapshot->0.metadata.finalizers;
        let k = choose|k: int|
            0 <= k < f->0@.len() && (#[trigger] f->0@[k])@ == "zfs.openebs.io/finalizer"@;
        assert(h[k] == f->0@[k]@);
        assert(h.contains(crate::crd::openebs::ZFS_FINALIZER@));
    }
    if let DestructionView::Going(e, _, issued) = d {
        if e.len() > 0 {
            assert(e.len() == 1);
            assert forall|x: EffectView| e.contains(x) implies x == e[0] by {}
        }
        if e.contains(EffectView::Delete(Kind::ZfsSnapshot, t.snap_name)) {
            assert(e[0] == EffectView::Delete(Kind::ZfsSnapshot, t.snap_name));
            if seen.target_snapshot->0.metadata.held_by().contains(
                crate::crd::openebs::ZFS_FINALIZER@,
            ) {
                let h = seen.target_snapshot->0.metadata.held_by();
                let f = seen.target_snapshot->0.metadata.finalizers;
                let k = choose|k: int|
                    0 <= k < h.len() && h[k] == crate::crd::openebs::ZFS_FINALIZER@;
                assert(h[k] == f->0@[k]@);
                assert(agent_holds(seen));
            }
        }
    }
}

/// Does the target's transfer snapshot carry its agent's finalizer?
pub open spec fn agent_holds(seen: Seen) -> bool {
    &&& seen.target_snapshot is Found
    &&& seen.target_snapshot->0.metadata.finalizers is Some
    &&& exists|k: int|
        0 <= k < seen.target_snapshot->0.metadata.finalizers->0@.len() && (
        #[trigger] seen.target_snapshot->0.metadata.finalizers->0@[k])@
            == "zfs.openebs.io/finalizer"@
}

/// A snapshot that was never registered is registered first, on the target, for
/// the new volume.
pub proof fn unknown_snapshots_are_registered(seen: Seen, st: StatusView)
    requires
        st.transfer is Some,
        st.target is Some,
        !st.transfer->0.target_snap_delete_issued,
        seen.target_snapshot is Absent,
        seen.target_volume is Found,
    ensures
        destruction(seen, st) matches DestructionView::Going(e, _, issued) && {
            &&& !issued
            &&& e.len() == 1
            &&& e[0] is CreateSnapshot
            &&& ({
                let s = e[0]->CreateSnapshot_0;
                &&& s.metadata.name == Some(st.transfer->0.snap_name)
                &&& s.metadata.labels is Some
                &&& s.metadata.labels->0 == Map::<Seq<char>, Seq<char>>::empty().insert(
                    "kubernetes.io/nodename"@,
                    st.target->0.node_id,
                ).insert("openebs.io/persistent-volume"@, st.target->0.new_volume_handle)
                &&& s.spec.owner_node_id == st.target->0.node_id
                &&& s.spec.pool_name == st.target->0.pool
                &&& s.state == Some("Pending"@)
            })
        },
{
}

// ------------------------------------------------------------------ names

/// Backups and restores of different attempts have different names, and no
/// backup has the name of a restore.
pub proof fn names_tell_attempts_apart(evac: Seq<char>, a: u32, b: u32)
    ensures
        backup_name(evac, a) == backup_name(evac, b) ==> a == b,
        restore_name(evac, a) == restore_name(evac, b) ==> a == b,
        backup_name(evac, a) != restore_name(evac, b),
{
    reveal_strlit("-evac-a");
    reveal_strlit("-evacr-a");
    let n = evac.len() as int;
    decimals_tell_numbers_apart(a as nat, b as nat);
    let x = backup_name(evac, a);
    let y = backup_name(evac, b);
    if x == y {
        assert(decimal(a as nat) =~= x.skip(n + 7));
        assert(decimal(b as nat) =~= y.skip(n + 7));
    }
    let v = restore_name(evac, a);
    let w = restore_name(evac, b);
    if v == w {
        assert(decimal(a as nat) =~= v.skip(n + 8));
        assert(decimal(b as nat) =~= w.skip(n + 8));
    }
    assert(x[n + 5] == '-');
    assert(w[n + 5] == 'r');
}

/// Snapshots of different attempts, and of different draws, have different
/// names.
pub proof fn names_tell_snapshots_apart(a: u32, b: u32, noise: u16)
    ensures
        snapshot_text(a, noise) == snapshot_text(b, noise) ==> a == b,
        snapshot_text(a, noise) == "zevac-a"@ + decimal(a as nat) + "-"@ + hex(noise as nat, 4),
{
    reveal_strlit("zevac-a");
    reveal_strlit("-");
    decimals_tell_numbers_apart(a as nat, b as nat);
    let x = snapshot_text(a, noise);
    let y = snapshot_text(b, noise);
    if x == y {
        let tail = "-"@ + hex(noise as nat, 4);
        assert(x =~= "zevac-a"@ + decimal(a as nat) + tail);
        assert(y =~= "zevac-a"@ + decimal(b as nat) + tail);
        let k = x.len() - tail.len();
        assert(decimal(a as nat) =~= x.subrange(7, k));
        assert(decimal(b as nat) =~= y.subrange(7, k));
    }
}

// ------------------------------------------------------------------ peers

/// A node's addresses are its internal and external ones that can be read, in
/// their order, and no others: not its host name.
pub proof fn nodes_connect_from_their_addresses(addresses: Seq<NodeAddress>, a: NodeAddress)
    ensures
        ips_of(Seq::empty()).len() == 0,
        ({
            let counts = (a.type_@ == "InternalIP"@ || a.type_@ == "ExternalIP"@) && ip_of(
                a.address@,
            ) is Some;
            ips_of(addresses.push(a)) == if counts {
                ips_of(addresses).push(ip_of(a.address@)->0)
            } else {
                ips_of(addresses)
            }
        }),
{
    assert(addresses.push(a).drop_last() =~= addresses);
    assert(addresses.push(a).last() == a);
}

/// Of the texts for its pods' networks those that can be read count, in their
/// order.
pub proof fn readable_networks_count(texts: Seq<Seq<char>>, text: Seq<char>)
    ensures
        nets_of(Seq::empty()).len() == 0,
        nets_of(texts.push(text)) == match cidr(text) {
            Some(net) => nets_of(texts).push(net),
            None => nets_of(texts),
        },
{
    assert(texts.push(text).drop_last() =~= texts);
    assert(texts.push(text).last() == text);
}

/// A text that a node gives for its pods' network.
pub open spec fn is_pod_network(node: Node, text: Seq<char>) -> bool {
    &&& node.spec is Some
    &&& (node.spec->0.pod_cidr is Some && node.spec->0.pod_cidr->0@ == text) || (
    node.spec->0.pod_cidrs is Some && exists|i: int|
        0 <= i < node.spec->0.pod_cidrs->0@.len() && (#[trigger] node.spec->0.pod_cidrs->0@[i])@
            == text)
}

/// A node's peers are each of its addresses, alone, and its pods' networks.
pub proof fn peers_are_addresses_and_pod_networks(node: Node, net: IpNet)
    ensures
        peers_of(node).contains(net) <==> (ips_of(node.addresses()).contains(net.addr) && net.prefix
            == (if net.addr is V4 {
            32int
        } else {
            128int
        })) || nets_of(pod_cidrs(node)).contains(net),
        node.status is Some && node.status->0.addresses is Some ==> node.addresses()
            == node.status->0.addresses->0@,
{
    let ips = ips_of(node.addresses());
    let nets = nets_of(pod_cidrs(node));
    lemma_hosts_and_nets(ips, nets, net);
}

proof fn lemma_hosts_and_nets(ips: Seq<IpAddr>, nets: Seq<IpNet>, net: IpNet)
    ensures
        (ips.map_values(|a: IpAddr| IpNet { addr: a, prefix: a.bits() as u8 }) + nets).contains(net)
            <==> (ips.contains(net.addr) && net.prefix == (if net.addr is V4 {
            32int
        } else {
            128int
        })) || nets.contains(net),
{
    let hosts = ips.map_values(|a: IpAddr| IpNet { addr: a, prefix: a.bits() as u8 });
    let all = hosts + nets;
    if all.contains(net) {
        let k = choose|k: int| 0 <= k < all.len() && all[k] == net;
        if k < hosts.len() {
            assert(hosts[k].addr == ips[k]);
            assert(ips.contains(net.addr));
        } else {
            assert(nets[k - hosts.len()] == net);
        }
    }
    if ips.contains(net.addr) {
        let k = choose|k: int| 0 <= k < ips.len() && ips[k] == net.addr;
        assert(all[k] == hosts[k]);
    }
    if nets.contains(net) {
        let k = choose|k: int| 0 <= k < nets.len() && nets[k] == net;
        assert(all[hosts.len() + k] == net);
    }
}

/// The texts for a node's pods' networks are what `podCIDR` and `podCIDRs` say.
pub proof fn pod_networks_are_what_the_node_says(node: Node)
    ensures
        forall|text: Seq<char>| #[trigger]
            pod_cidrs(node).contains(text) <==> is_pod_network(node, text),
{
    let texts = pod_cidrs(node);
    assert forall|text: Seq<char>| #[trigger] texts.contains(text) <==> is_pod_network(node, text) by {
        if let Some(s) = node.spec {
            let listed = views(list_or_empty(s.pod_cidrs));
            if listed.contains(text) {
                let i = choose|i: int| 0 <= i < listed.len() && listed[i] == text;
                assert(s.pod_cidrs->0@[i]@ == text);
                assert(texts[i] == text);
            }
            if s.pod_cidrs is Some {
                assert forall|i: int|
                    0 <= i < s.pod_cidrs->0@.len() && (#[trigger] s.pod_cidrs->0@[i])@
                        == text implies texts.contains(text) by {
                    assert(listed[i] == text);
                    assert(texts[i] == text);
                }
            }
            if s.pod_cidr is Some && s.pod_cidr->0@ == text && !listed.contains(text) {
                assert(texts[listed.len() as int] == text);
            }
            if texts.contains(text) {
                let i = choose|i: int| 0 <= i < texts.len() && texts[i] == text;
                if i < listed.len() {
                    assert(listed[i] == text);
                    assert(listed.contains(text));
                }
            }
        }
    }
}

/// A relay is not started without its two nodes, nor towards one that no peer can
/// connect from: that is a fault, and changes nothing.
pub proof fn relays_need_both_nodes(seen: Seen, st: StatusView, attempt: u32)
    requires
        st.source is Some,
        st.target is Some,
        seen.relay is Some,
        seen.relay->0 is Some ==> (seen.relay->0)->0.attempt < attempt,
        seen.source_node !is Unread,
        seen.target_node !is Unread,
    ensures
        start_next(seen, st, attempt).0 == st,
        start_next(seen, st, attempt).1 is Fault <==> seen.source_node is Absent
            || seen.target_node is Absent || peers_of(seen.source_node->0).len() == 0 || peers_of(
            seen.target_node->0,
        ).len() == 0,
        !(start_next(seen, st, attempt).1 is Fault) ==> start_next(seen, st, attempt).1 is Spawn,
{
}

} // verus!
