//! Every step goes by what was recorded: it reads, changes and removes the
//! objects that the status and the spec name, and no others.
use vstd::prelude::*;

use crate::controller::abort::abort_next;
use crate::controller::clock::Moment;
use crate::controller::laws::effects_of;
use crate::controller::plan::{
    Action, Effect, EffectView, FinalizerEdit, Kind, Need, NeedView, Outcome, Seen, Step, StepView,
};
use crate::controller::pv_swap::{committing_next, swapping_next};
use crate::controller::state_machine::{
    adopting_next, cancel, cleaning_up_next, guarding_next, locking_next, pending_next,
    quiescing_next, reconcile_next, retaining_next, target_selecting_next, withdrawn_by_deletion,
    CancelView, Chance,
};
use crate::controller::transfer::{
    destruction, start_next, teardown, transferring_next, DestructionView, TeardownView,
    TransferObs,
};
use crate::controller::Config;
use crate::crd::openebs::{VolumeInfo, ZFSBackup, ZFSRestore};
use crate::crd::zfs_evacuation::{
    EvacuationMode, Phase, PvcRef, SourceInfo, StatusView, TargetInfo, TransferStatus,
    ZFSEvacuation, ZFSEvacuationStatus,
};
use crate::text::decimal;
use crate::transfer::relay::IpNet;

verus! {

// ------------------------------------------------------------------ what is read

/// The name of the current attempt's backup.
pub open spec fn recorded_backup(evac: ZFSEvacuation, st: StatusView) -> Option<Seq<char>> {
    match st.transfer {
        Some(t) => Some(evac.metadata.any_name() + "-evac-a"@ + decimal(t.attempt as nat)),
        None => None,
    }
}

/// The name of the current attempt's restore.
pub open spec fn recorded_restore(evac: ZFSEvacuation, st: StatusView) -> Option<Seq<char>> {
    match st.transfer {
        Some(t) => Some(evac.metadata.any_name() + "-evacr-a"@ + decimal(t.attempt as nat)),
        None => None,
    }
}

/// Is what a step asks for what was recorded?
pub open spec fn is_on_record(need: NeedView, evac: ZFSEvacuation, st: StatusView) -> bool {
    match need {
        NeedView::Pv => true,
        NeedView::Relay => true,
        NeedView::Evacuations => true,
        NeedView::Inventory => true,
        NeedView::Pvc(ns, name) => st.pvc_ref is Some && ns == st.pvc_ref->0.namespace && name
            == st.pvc_ref->0.name,
        NeedView::Pods(ns, name) => st.pvc_ref is Some && ns == st.pvc_ref->0.namespace && name
            == st.pvc_ref->0.name,
        NeedView::Siblings(ns, _) => st.pvc_ref is Some && ns == st.pvc_ref->0.namespace,
        NeedView::SourceVolume(h) => st.source is Some && h == st.source->0.volume_handle,
        NeedView::SourceNode(id) => st.source is Some && id == st.source->0.node_id,
        NeedView::SourceNodeByName(name) => st.source is Some && name == st.source->0.node,
        NeedView::TargetVolume(h) => st.target is Some && h == st.target->0.new_volume_handle,
        NeedView::TargetNode(id) => st.target is Some && id == st.target->0.node_id,
        NeedView::Backup(name) => recorded_backup(evac, st) == Some(name),
        NeedView::Restore(name) => recorded_restore(evac, st) == Some(name),
        NeedView::TargetSnapshot(name) => st.transfer is Some && name == st.transfer->0.snap_name,
        NeedView::Snapshots(_) => false,
    }
}

/// Does a step ask, if it asks, for what was recorded?
pub open spec fn asks_by_the_record(
    step: StepView,
    evac: ZFSEvacuation,
    st: StatusView,
) -> bool {
    step matches StepView::Read(n) ==> is_on_record(n, evac, st)
}

proof fn parts_ask_by_the_record(
    evac: ZFSEvacuation,
    seen: Seen,
    st: StatusView,
    cfg: Config,
    attempt: u32,
)
    ensures
        st.transfer is Some ==> (teardown(
            seen,
            evac.metadata.any_name(),
            st.transfer->0.attempt,
            st,
        ) matches TeardownView::Read(n) ==> is_on_record(n, evac, st)),
        destruction(seen, st) matches DestructionView::Read(n) ==> is_on_record(n, evac, st),
        cancel(evac, seen, st, cfg) matches CancelView::Read(n) ==> is_on_record(n, evac, st),
        asks_by_the_record(start_next(seen, st, attempt).1, evac, st),
{
}

proof fn early_phases_ask_by_the_record(
    evac: ZFSEvacuation,
    seen: Seen,
    st: StatusView,
    cfg: Config,
    now: Option<Moment>,
    noise: u128,
)
    ensures
        asks_by_the_record(quiescing_next(evac, seen, st, cfg, now).1, evac, st),
        asks_by_the_record(target_selecting_next(evac, seen, st, cfg, noise).1, evac, st),
        asks_by_the_record(adopting_next(seen, st).1, evac, st),
{
}

proof fn transferring_asks_by_the_record(
    evac: ZFSEvacuation,
    seen: Seen,
    st: StatusView,
    cfg: Config,
    now: Option<Moment>,
)
    ensures
        asks_by_the_record(transferring_next(evac, seen, st, cfg, now).1, evac, st),
{
    parts_ask_by_the_record(evac, seen, st, cfg, 1);
    if let Some(t) = st.transfer {
        parts_ask_by_the_record(evac, seen, st, cfg, (t.attempt + 1) as u32);
    }
}

proof fn late_phases_ask_by_the_record(
    evac: ZFSEvacuation,
    seen: Seen,
    st: StatusView,
    cfg: Config,
)
    ensures
        asks_by_the_record(committing_next(evac, seen, st, cfg).1, evac, st),
        asks_by_the_record(swapping_next(evac, seen, st, cfg).1, evac, st),
        asks_by_the_record(cleaning_up_next(evac, seen, st).1, evac, st),
        asks_by_the_record(abort_next(evac, seen, st).1, evac, st),
{
    parts_ask_by_the_record(evac, seen, st, cfg, 1);
}

/// Past Pending, whatever a step asks for is what the status names: the claim,
/// the source volume and its node, the new volume and its node, and the backup,
/// restore and snapshot of the attempt that is on record.
pub proof fn steps_read_what_was_recorded(
    evac: ZFSEvacuation,
    seen: Seen,
    st: StatusView,
    cfg: Config,
    now: Option<Moment>,
    chance: Chance,
)
    requires
        st.phase != Phase::Pending,
    ensures
        asks_by_the_record(reconcile_next(evac, seen, st, cfg, now, chance).1, evac, st),
{
    let marked = withdrawn_by_deletion(st);
    parts_ask_by_the_record(evac, seen, st, cfg, 1);
    late_phases_ask_by_the_record(evac, seen, st, cfg);
    late_phases_ask_by_the_record(evac, seen, marked, cfg);
    match st.phase {
        Phase::Transferring => transferring_asks_by_the_record(evac, seen, st, cfg, now),
        _ => early_phases_ask_by_the_record(evac, seen, st, cfg, now, chance.volume),
    }
}

// ------------------------------------------------------------------ what is done

/// Is an object of this kind and name on record?
pub open spec fn is_named(kind: Kind, name: Seq<char>, evac: ZFSEvacuation, st: StatusView) -> bool {
    match kind {
        Kind::PersistentVolume => name == evac.spec.pv_name@,
        Kind::ZfsVolume => (st.source is Some && name == st.source->0.volume_handle) || (st.target
            is Some && name == st.target->0.new_volume_handle),
        Kind::ZfsSnapshot => st.transfer is Some && name == st.transfer->0.snap_name,
        Kind::ZfsBackup => recorded_backup(evac, st) == Some(name),
        Kind::ZfsRestore => recorded_restore(evac, st) == Some(name),
    }
}

/// Does an effect go by what was recorded?
pub open spec fn goes_by_the_record(e: EffectView, evac: ZFSEvacuation, st: StatusView) -> bool {
    match e {
        EffectView::WriteStatus => true,
        EffectView::DropRelay => true,
        EffectView::HoldEvacuation => true,
        EffectView::ReleaseEvacuation => true,
        EffectView::EditFinalizers(kind, name, _) => is_named(kind, name, evac, st),
        EffectView::Delete(kind, name) => is_named(kind, name, evac, st),
        EffectView::CreateVolume(v) => st.target is Some && v.metadata.name == Some(
            st.target->0.new_volume_handle,
        ) && v.spec.owner_node_id == st.target->0.node_id && v.spec.pool_name
            == st.target->0.pool,
        EffectView::CreateSnapshot(s) => st.transfer is Some && s.metadata.name == Some(
            st.transfer->0.snap_name,
        ),
        EffectView::CreateBackup(b) => st.source is Some && b.volume_name
            == st.source->0.volume_handle,
        EffectView::CreateRestore(r) => st.target is Some && r.volume_name
            == st.target->0.new_volume_handle && r.metadata.name == recorded_restore(evac, st),
        EffectView::CreatePv(manifest) => st.new_pv_manifest == Some(manifest),
        EffectView::SetReclaimPolicy(pv, policy) => pv == evac.spec.pv_name@ && (policy
            == "Retain"@ || st.original_reclaim_policy == Some(policy)),
        EffectView::Lock(key, mode) => st.pvc_ref is Some && key == st.pvc_ref->0.namespace + "/"@
            + st.pvc_ref->0.name && mode == evac.spec.mode,
        EffectView::Unlock(key) => st.pvc_ref is Some && key == st.pvc_ref->0.namespace + "/"@
            + st.pvc_ref->0.name,
        EffectView::MarkPvc(ns, name) => st.pvc_ref is Some && ns == st.pvc_ref->0.namespace
            && name == st.pvc_ref->0.name,
        EffectView::UnmarkPvc(ns, name) => st.pvc_ref is Some && ns == st.pvc_ref->0.namespace
            && name == st.pvc_ref->0.name,
        EffectView::StripTrigger(pv) => pv == evac.spec.pv_name@,
    }
}

/// Do all of these effects?
pub open spec fn all_go_by_the_record(
    effects: Seq<EffectView>,
    evac: ZFSEvacuation,
    st: StatusView,
) -> bool {
    forall|i: int|
        0 <= i < effects.len() ==> goes_by_the_record(#[trigger] effects[i], evac, st)
}

proof fn parts_go_by_the_record(evac: ZFSEvacuation, seen: Seen, st: StatusView)
    ensures
        st.transfer is Some ==> (teardown(
            seen,
            evac.metadata.any_name(),
            st.transfer->0.attempt,
            st,
        ) matches TeardownView::Going(e) ==> all_go_by_the_record(e, evac, st)),
        destruction(seen, st) matches DestructionView::Going(e, _, _) ==> all_go_by_the_record(
            e,
            evac,
            st,
        ),
{
}

proof fn early_phases_go_by_the_record(
    evac: ZFSEvacuation,
    seen: Seen,
    st: StatusView,
    cfg: Config,
    now: Option<Moment>,
    noise: u128,
)
    ensures
        all_go_by_the_record(effects_of(pending_next(evac, seen, st).1), evac, st),
        all_go_by_the_record(effects_of(guarding_next(st).1), evac, st),
        all_go_by_the_record(effects_of(retaining_next(evac, st).1), evac, st),
        all_go_by_the_record(effects_of(locking_next(evac, st, now).1), evac, st),
        all_go_by_the_record(effects_of(quiescing_next(evac, seen, st, cfg, now).1), evac, st),
        all_go_by_the_record(effects_of(adopting_next(seen, st).1), evac, st),
{
}

proof fn moving_phases_go_by_the_record(
    evac: ZFSEvacuation,
    seen: Seen,
    st: StatusView,
    cfg: Config,
    now: Option<Moment>,
    noise: u128,
)
    ensures
        all_go_by_the_record(
            effects_of(target_selecting_next(evac, seen, st, cfg, noise).1),
            evac,
            st,
        ),
        all_go_by_the_record(effects_of(transferring_next(evac, seen, st, cfg, now).1), evac, st),
{
    parts_go_by_the_record(evac, seen, st);
}

proof fn late_phases_go_by_the_record(
    evac: ZFSEvacuation,
    seen: Seen,
    st: StatusView,
    cfg: Config,
)
    ensures
        all_go_by_the_record(effects_of(committing_next(evac, seen, st, cfg).1), evac, st),
        all_go_by_the_record(effects_of(swapping_next(evac, seen, st, cfg).1), evac, st),
        all_go_by_the_record(effects_of(cleaning_up_next(evac, seen, st).1), evac, st),
{
    parts_go_by_the_record(evac, seen, st);
}

proof fn unwinding_goes_by_the_record(evac: ZFSEvacuation, seen: Seen, st: StatusView)
    ensures
        all_go_by_the_record(effects_of(abort_next(evac, seen, st).1), evac, st),
{
    parts_go_by_the_record(evac, seen, st);
}

/// Whatever a step does, it does to what is on record: to the PV that the spec
/// names, the claim, the source volume, the new one, and the backup, restore and
/// snapshot of the attempt; and a reclaim policy that is set is Retain or the one
/// that the PV had.
pub proof fn effects_go_by_what_was_recorded(
    evac: ZFSEvacuation,
    seen: Seen,
    st: StatusView,
    cfg: Config,
    now: Option<Moment>,
    chance: Chance,
)
    ensures
        all_go_by_the_record(
            effects_of(reconcile_next(evac, seen, st, cfg, now, chance).1),
            evac,
            st,
        ),
{
    let marked = withdrawn_by_deletion(st);
    unwinding_goes_by_the_record(evac, seen, st);
    unwinding_goes_by_the_record(evac, seen, marked);
    let e = effects_of(abort_next(evac, seen, marked).1);
    assert forall|i: int| 0 <= i < e.len() implies goes_by_the_record(#[trigger] e[i], evac, st) by {
        assert(goes_by_the_record(e[i], evac, marked));
    }
    early_phases_go_by_the_record(evac, seen, st, cfg, now, chance.volume);
    moving_phases_go_by_the_record(evac, seen, st, cfg, now, chance.volume);
    late_phases_go_by_the_record(evac, seen, st, cfg);
}

// ------------------------------------------------------------------ what follows

/// How a phase is entered: the next one at once and without a message; unwinding
/// after a second, and failure for good, both with a message that says why.
pub open spec fn is_entered_properly(st: StatusView, next: (StatusView, StepView)) -> bool {
    next.0.phase != st.phase ==> next.1 is Run && match next.0.phase {
        Phase::Failed => next.0.message is Some && next.1->Run_0.outcome == Outcome::Done(
            Action::AwaitChange,
        ),
        Phase::Aborting => next.0.message is Some && next.1->Run_0.outcome == Outcome::Done(
            Action::RequeueSecs(1),
        ),
        _ => next.0.message is None && next.1->Run_0.outcome == Outcome::Done(
            Action::RequeueMillis(500),
        ),
    }
}

proof fn phases_are_entered_properly(
    evac: ZFSEvacuation,
    seen: Seen,
    st: StatusView,
    cfg: Config,
    now: Option<Moment>,
    noise: u128,
)
    ensures
        st.phase == Phase::Pending ==> is_entered_properly(st, pending_next(evac, seen, st)),
        st.phase == Phase::Quiescing ==> is_entered_properly(
            st,
            quiescing_next(evac, seen, st, cfg, now),
        ),
        st.phase == Phase::TargetSelecting ==> is_entered_properly(
            st,
            target_selecting_next(evac, seen, st, cfg, noise),
        ),
        st.phase == Phase::Adopting ==> is_entered_properly(st, adopting_next(seen, st)),
{
}

proof fn later_phases_are_entered_properly(
    evac: ZFSEvacuation,
    seen: Seen,
    st: StatusView,
    cfg: Config,
    now: Option<Moment>,
)
    ensures
        st.phase == Phase::Transferring ==> is_entered_properly(
            st,
            transferring_next(evac, seen, st, cfg, now),
        ),
        st.phase == Phase::Committing ==> is_entered_properly(
            st,
            committing_next(evac, seen, st, cfg),
        ),
        st.phase == Phase::Swapping ==> is_entered_properly(
            st,
            swapping_next(evac, seen, st, cfg),
        ),
        st.phase == Phase::CleaningUp ==> is_entered_properly(
            st,
            cleaning_up_next(evac, seen, st),
        ),
        st.phase == Phase::Aborting ==> is_entered_properly(st, abort_next(evac, seen, st)),
{
}

/// Every phase is entered properly, for as long as the evacuation is not deleted.
pub proof fn phases_follow_at_once(
    evac: ZFSEvacuation,
    seen: Seen,
    st: StatusView,
    cfg: Config,
    now: Option<Moment>,
    chance: Chance,
)
    requires
        evac.metadata.deletion_timestamp is None,
    ensures
        is_entered_properly(st, reconcile_next(evac, seen, st, cfg, now, chance)),
{
    phases_are_entered_properly(evac, seen, st, cfg, now, chance.volume);
    later_phases_are_entered_properly(evac, seen, st, cfg, now);
}

// ------------------------------------------------------------------ views

/// What is said of a recorded claim, source, target and attempt is what the
/// record holds, each under its own name.
pub proof fn records_say_what_they_hold(
    claim: PvcRef,
    source: SourceInfo,
    target: TargetInfo,
    transfer: TransferStatus,
)
    ensures
        claim@.namespace == claim.namespace@,
        claim@.name == claim.name@,
        claim@.uid == claim.uid@,
        source@.node == source.node@,
        source@.node_id == source.node_id@,
        source@.pool == source.pool@,
        source@.volume_handle == source.volume_handle@,
        source@.pv_uid == source.pv_uid@,
        source@.capacity_bytes == source.capacity_bytes,
        target@.node == target.node@,
        target@.node_id == target.node_id@,
        target@.pool == target.pool@,
        target@.new_volume_handle == target.new_volume_handle@,
        transfer@.attempt == transfer.attempt,
        transfer@.snap_name == transfer.snap_name@,
        transfer@.ports == transfer.ports@,
        transfer@.bytes_relayed == transfer.bytes_relayed,
        transfer.started_at is Some ==> transfer@.started_at == Some(transfer.started_at->0@),
        transfer.failure_reason is Some ==> transfer@.failure_reason == Some(
            transfer.failure_reason->0@,
        ),
        transfer@.target_snap_delete_issued == transfer.target_snap_delete_issued,
{
}

/// And so is what is said of the status as a whole.
pub proof fn statuses_say_what_they_hold(st: ZFSEvacuationStatus)
    ensures
        st@.phase == st.phase,
        st@.committed == st.committed,
        st@.cancelled == st.cancelled,
        st@.locked_mode == st.locked_mode,
        st@.pvc_ref is Some <==> st.pvc_ref is Some,
        st.pvc_ref is Some ==> st@.pvc_ref->0 == st.pvc_ref->0@,
        st@.source is Some <==> st.source is Some,
        st.source is Some ==> st@.source->0 == st.source->0@,
        st@.target is Some <==> st.target is Some,
        st.target is Some ==> st@.target->0 == st.target->0@,
        st@.transfer is Some <==> st.transfer is Some,
        st.transfer is Some ==> st@.transfer->0 == st.transfer->0@,
        st.message is Some ==> st@.message == Some(st.message->0@),
        st.original_reclaim_policy is Some ==> st@.original_reclaim_policy == Some(
            st.original_reclaim_policy->0@,
        ),
        st.old_pv_manifest is Some ==> st@.old_pv_manifest == Some(st.old_pv_manifest->0@),
        st.new_pv_manifest is Some ==> st@.new_pv_manifest == Some(st.new_pv_manifest->0@),
        st.quiesced_at is Some ==> st@.quiesced_at == Some(st.quiesced_at->0@),
        st.locked_at is Some ==> st@.locked_at == Some(st.locked_at->0@),
{
}

/// What is said of an effect, a read or a relay to be started is what is handed
/// over, in its place.
pub proof fn steps_say_what_they_do(
    one: String,
    other: String,
    kind: Kind,
    edit: FinalizerEdit,
    mode: EvacuationMode,
    backup_peers: Vec<IpNet>,
    restore_peers: Vec<IpNet>,
    attempt: u32,
)
    ensures
        (Effect::EditFinalizers { kind, name: one, edit })@ == EffectView::EditFinalizers(
            kind,
            one@,
            edit,
        ),
        (Effect::Delete { kind, name: one })@ == EffectView::Delete(kind, one@),
        (Effect::SetReclaimPolicy { pv: one, policy: other })@ == EffectView::SetReclaimPolicy(
            one@,
            other@,
        ),
        (Effect::Lock { key: one, mode })@ == EffectView::Lock(one@, mode),
        (Effect::Unlock { key: one })@ == EffectView::Unlock(one@),
        (Effect::MarkPvc { namespace: one, name: other })@ == EffectView::MarkPvc(one@, other@),
        (Effect::UnmarkPvc { namespace: one, name: other })@ == EffectView::UnmarkPvc(
            one@,
            other@,
        ),
        (Effect::CreatePv { manifest: one })@ == EffectView::CreatePv(one@),
        (Effect::StripTrigger { pv: one })@ == EffectView::StripTrigger(one@),
        (Effect::WriteStatus)@ == EffectView::WriteStatus,
        (Effect::DropRelay)@ == EffectView::DropRelay,
        (Effect::HoldEvacuation)@ == EffectView::HoldEvacuation,
        (Effect::ReleaseEvacuation)@ == EffectView::ReleaseEvacuation,
        (Need::Pvc { namespace: one, name: other })@ == NeedView::Pvc(one@, other@),
        (Need::Pods { namespace: one, name: other })@ == NeedView::Pods(one@, other@),
        (Need::SourceVolume(one))@ == NeedView::SourceVolume(one@),
        (Need::TargetVolume(one))@ == NeedView::TargetVolume(one@),
        (Need::SourceNode(one))@ == NeedView::SourceNode(one@),
        (Need::TargetNode(one))@ == NeedView::TargetNode(one@),
        (Need::SourceNodeByName(one))@ == NeedView::SourceNodeByName(one@),
        (Need::Backup(one))@ == NeedView::Backup(one@),
        (Need::Restore(one))@ == NeedView::Restore(one@),
        (Need::TargetSnapshot(one))@ == NeedView::TargetSnapshot(one@),
        (Need::Snapshots(one))@ == NeedView::Snapshots(one@),
        (Step::Spawn { attempt, backup_peers, restore_peers })@ == StepView::Spawn(
            attempt,
            backup_peers@,
            restore_peers@,
        ),
{
}

/// What is said of a volume's spec, a backup and a restore is what they hold.
pub proof fn requests_say_what_they_hold(info: VolumeInfo, b: ZFSBackup, r: ZFSRestore)
    ensures
        info@.owner_node_id == info.owner_node_id@,
        info@.pool_name == info.pool_name@,
        info@.extra == info.extra@,
        info.capacity is Some ==> info@.capacity == Some(info.capacity->0@),
        info.snapname is Some ==> info@.snapname == Some(info.snapname->0@),
        info.snapname is None <==> info@.snapname is None,
        info.fs_type is Some ==> info@.fs_type == Some(info.fs_type->0@),
        info.volume_type is Some ==> info@.volume_type == Some(info.volume_type->0@),
        b@.volume_name == b.spec.volume_name@,
        b@.owner_node_id == b.spec.owner_node_id@,
        b@.backup_dest == b.spec.backup_dest@,
        b.spec.snap_name is Some ==> b@.snap_name == Some(b.spec.snap_name->0@),
        b.spec.prev_snap_name is None <==> b@.prev_snap_name is None,
        b.status is Some ==> b@.status == Some(b.status->0@),
        r@.volume_name == r.spec.volume_name@,
        r@.owner_node_id == r.spec.owner_node_id@,
        r@.restore_src == r.spec.restore_src@,
        r.status is Some ==> r@.status == Some(r.status->0@),
        r.vol_spec is Some ==> r@.vol_spec == Some(r.vol_spec->0@),
{
}

/// What is said of what is observed of an attempt is what was observed.
pub proof fn observations_say_what_was_seen(o: TransferObs)
    ensures
        o@.attempt == o.attempt,
        o@.bkp_status == o.bkp_status@,
        o@.rst_status == o.rst_status@,
        o@.rst_exists == o.rst_exists,
        o@.mem == o.mem,
        o@.elapsed_secs == o.elapsed_secs,
        o@.now_secs == o.now_secs,
        o@.timeout_secs == o.timeout_secs,
        o@.stall_secs == o.stall_secs,
        o.failure_reason is Some ==> o@.failure_reason == Some(o.failure_reason->0@),
        o.failure_reason is None <==> o@.failure_reason is None,
{
}

} // verus!
