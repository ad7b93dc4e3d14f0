//! Which volumes are evacuated, and what calls an evacuation off, in terms of
//! what the cluster's own objects say.
use vstd::prelude::*;

use crate::cluster::{Node, PersistentVolume, PersistentVolumeClaim};
use crate::controller::abort::abort_next;
use crate::controller::clock::Moment;
use crate::controller::colocation::capacity_bytes;
use crate::controller::plan::{Action, EffectView, NeedView, Outcome, Seen, Stage, StepView};
use crate::controller::pv_swap::swapping_next;
use crate::controller::state_machine::{
    cancel, cleaning_up_next, pending_next, reconcile_next, resizing, Chance,
};
use crate::controller::Config;
use crate::crd::openebs::ZFSVolume;
use crate::crd::zfs_evacuation::{EvacuationTrigger, Phase, PvcView, StatusView, ZFSEvacuation};

verus! {

/// Is our finalizer on the evacuation?
pub open spec fn is_held(evac: ZFSEvacuation) -> bool {
    evac.metadata.finalizers is Some && exists|i: int|
        0 <= i < evac.metadata.finalizers->0@.len() && (
        #[trigger] evac.metadata.finalizers->0@[i])@ == "zfsevac.alumino.us/cleanup"@
}

/// A reconcile that has put our finalizer on the evacuation, or found it there.
pub open spec fn may_run(evac: ZFSEvacuation, seen: Seen) -> bool {
    seen.stage == Stage::Held || (seen.stage == Stage::Begin && is_held(evac))
}

/// The finalizers of an evacuation are those of its metadata.
pub proof fn lemma_held(evac: ZFSEvacuation)
    ensures
        is_held(evac) <==> evac.metadata.held_by().contains("zfsevac.alumino.us/cleanup"@),
{
    let h = evac.metadata.held_by();
    let f = "zfsevac.alumino.us/cleanup"@;
    if h.contains(f) {
        let i = choose|i: int| 0 <= i < h.len() && h[i] == f;
        assert(evac.metadata.finalizers->0@[i]@ == f);
    }
    if is_held(evac) {
        let i = choose|i: int|
            0 <= i < evac.metadata.finalizers->0@.len() && (
            #[trigger] evac.metadata.finalizers->0@[i])@ == f;
        assert(h[i] == f);
    }
}

// ------------------------------------------------------------------ Pending

/// A claim that is being resized, or whose file system still has to be, is not
/// evacuated: it never gets past Pending, and once its PV has been read too the
/// evacuation fails with nothing done but saying so.
pub proof fn resizing_claims_are_refused(
    evac: ZFSEvacuation,
    seen: Seen,
    st: StatusView,
    cfg: Config,
    now: Option<Moment>,
    chance: Chance,
    i: int,
)
    requires
        st.phase == Phase::Pending,
        seen.pvc is Found,
        0 <= i < seen.pvc->0.conditions@.len(),
        seen.pvc->0.conditions@[i].type_@ == "Resizing"@
            || seen.pvc->0.conditions@[i].type_@ == "FileSystemResizePending"@,
        seen.pvc->0.conditions@[i].status@ == "True"@,
    ensures
        ({
            let next = reconcile_next(evac, seen, st, cfg, now, chance);
            &&& next.0.phase != Phase::Guarding
            &&& seen.pv !is Unread && may_run(evac, seen)
                && evac.metadata.deletion_timestamp is None ==> next.0.phase == Phase::Failed
                && next.1 is Run && next.1->Run_0.effects =~= seq![EffectView::WriteStatus]
        }),
{
    lemma_held(evac);
    let pvc = seen.pvc->0;
    let c = pvc.conditions@[i];
    assert(resizing(pvc));
    assert(pending_next(evac, seen, st).0.phase != Phase::Guarding);
}

/// A condition that does not hold, or that is about something else, does not
/// keep a claim from being evacuated: claims that differ in such conditions alone
/// are treated alike.
pub proof fn other_conditions_do_not_refuse_a_claim(
    evac: ZFSEvacuation,
    seen: Seen,
    other: Seen,
    st: StatusView,
)
    requires
        seen.pvc is Found,
        other.pvc is Found,
        other == (Seen { pvc: other.pvc, ..seen }),
        other.pvc->0.metadata == seen.pvc->0.metadata,
        other.pvc->0.volume_name == seen.pvc->0.volume_name,
        forall|i: int|
            0 <= i < seen.pvc->0.conditions@.len() ==> !((#[trigger] seen.pvc->0.conditions@[i]).type_@
                == "Resizing"@ || seen.pvc->0.conditions@[i].type_@ == "FileSystemResizePending"@)
                || seen.pvc->0.conditions@[i].status@ != "True"@,
        forall|i: int|
            0 <= i < other.pvc->0.conditions@.len() ==> !((
            #[trigger] other.pvc->0.conditions@[i]).type_@ == "Resizing"@
                || other.pvc->0.conditions@[i].type_@ == "FileSystemResizePending"@)
                || other.pvc->0.conditions@[i].status@ != "True"@,
    ensures
        pending_next(evac, other, st) == pending_next(evac, seen, st),
{
    assert(!resizing(seen.pvc->0));
    assert(!resizing(other.pvc->0));
}

/// What an evacuation that goes on from Pending has found: a PV of the ZFS CSI
/// driver whose handle can be a label's value and whose claim is named; that
/// claim, bound to this PV and not being resized; the volume, neither about to
/// be deleted nor a clone, without snapshots and of a known size; and its node.
/// All of it is recorded, and nothing else changes.
pub proof fn accepted_volumes_can_be_moved(
    evac: ZFSEvacuation,
    seen: Seen,
    st: StatusView,
    cfg: Config,
    now: Option<Moment>,
    chance: Chance,
)
    requires
        st.phase == Phase::Pending,
        reconcile_next(evac, seen, st, cfg, now, chance).0.phase == Phase::Guarding,
    ensures
        seen.pv is Found,
        seen.pvc is Found,
        seen.source_volume is Found,
        seen.source_node is Found,
        seen.has_snapshots == Some(false),
        movable_pv(seen.pv->0),
        bound_claim(seen.pvc->0, evac.spec.pv_name@),
        movable_volume(seen.source_volume->0),
        ({
            let next = reconcile_next(evac, seen, st, cfg, now, chance);
            let claim = seen.pv->0.spec->0.claim_ref->0;
            let zv = seen.source_volume->0;
            &&& next.0.pvc_ref is Some
            &&& next.0.pvc_ref->0.namespace == claim.namespace->0@
            &&& next.0.pvc_ref->0.name == claim.name->0@
            &&& seen.pvc->0.metadata.uid is Some ==> next.0.pvc_ref->0.uid
                == seen.pvc->0.metadata.uid->0@
            &&& next.0.source is Some
            &&& seen.source_node->0.metadata.name is Some ==> next.0.source->0.node
                == seen.source_node->0.metadata.name->0@
            &&& next.0.source->0.node_id == zv.spec.0.owner_node_id@
            &&& next.0.source->0.pool == zv.spec.0.pool_name@
            &&& next.0.source->0.volume_handle == seen.pv->0.spec->0.csi->0.volume_handle@
            &&& seen.pv->0.metadata.uid is Some ==> next.0.source->0.pv_uid
                == seen.pv->0.metadata.uid->0@
            &&& next.0.source->0.capacity_bytes == capacity_bytes(zv.spec.0)
            &&& next.0.source->0.capacity_bytes > 0
            &&& match seen.pv->0.spec->0.persistent_volume_reclaim_policy {
                Some(p) => next.0.original_reclaim_policy == Some(p@),
                None => next.0.original_reclaim_policy is None,
            }
            &&& next.0 == (StatusView {
                phase: Phase::Guarding,
                message: None,
                pvc_ref: next.0.pvc_ref,
                source: next.0.source,
                original_reclaim_policy: next.0.original_reclaim_policy,
                ..st
            })
            &&& next.1 is Run
            &&& next.1->Run_0.effects =~= seq![EffectView::WriteStatus]
        }),
{
    assert(abort_next(evac, seen, crate::controller::state_machine::withdrawn_by_deletion(
        st,
    )).0.phase != Phase::Guarding);
    assert(pending_next(evac, seen, st).0.phase == Phase::Guarding);
    let pvc = seen.pvc->0;
    assert forall|i: int| 0 <= i < pvc.conditions@.len() implies !((
    #[trigger] pvc.conditions@[i]).status@ == "True"@ && (pvc.conditions@[i].type_@ == "Resizing"@
        || pvc.conditions@[i].type_@ == "FileSystemResizePending"@)) by {
        if pvc.conditions@[i].status@ == "True"@ && (pvc.conditions@[i].type_@ == "Resizing"@
            || pvc.conditions@[i].type_@ == "FileSystemResizePending"@) {
            assert(resizing(pvc));
        }
    }
}

/// A PV of the ZFS CSI driver, with a handle that can be a label's value and a
/// claim that is named.
pub open spec fn movable_pv(pv: PersistentVolume) -> bool {
    &&& pv.spec is Some
    &&& pv.spec->0.csi is Some
    &&& pv.spec->0.csi->0.driver@ == "zfs.csi.openebs.io"@
    &&& names_a_label(pv.spec->0.csi->0.volume_handle@)
    &&& pv.spec->0.claim_ref is Some
    &&& pv.spec->0.claim_ref->0.namespace is Some
    &&& pv.spec->0.claim_ref->0.name is Some
}

/// Letters, digits, dashes, underscores and dots, at most 63 and at least one,
/// and neither the first nor the last of them a dash, an underscore or a dot.
pub open spec fn names_a_label(s: Seq<char>) -> bool {
    &&& 0 < s.len() < 64
    &&& forall|i: int|
        0 <= i < s.len() ==> {
            let c = #[trigger] s[i];
            ||| '0' <= c <= '9'
            ||| 'a' <= c <= 'z'
            ||| 'A' <= c <= 'Z'
            ||| (c == '-' || c == '_' || c == '.') && 0 < i < s.len() - 1
        }
}

/// A claim that is bound to a PV and has no resize in progress.
pub open spec fn bound_claim(pvc: PersistentVolumeClaim, pv_name: Seq<char>) -> bool {
    &&& pvc.volume_name is Some
    &&& pvc.volume_name->0@ == pv_name
    &&& forall|i: int|
        0 <= i < pvc.conditions@.len() ==> !((#[trigger] pvc.conditions@[i]).status@ == "True"@ && (
        pvc.conditions@[i].type_@ == "Resizing"@ || pvc.conditions@[i].type_@
            == "FileSystemResizePending"@))
}

/// A volume that nobody is about to delete and that is no clone.
pub open spec fn movable_volume(zv: ZFSVolume) -> bool {
    &&& zv.metadata.annotations is Some ==> !zv.metadata.annotations->0@.contains_key(
        "openebs.io/marked-for-deletion"@,
    )
    &&& zv.spec.0.snapname is Some ==> zv.spec.0.snapname->0@.len() == 0
}

/// Whatever has all of that is accepted.
pub proof fn movable_volumes_are_accepted(
    evac: ZFSEvacuation,
    seen: Seen,
    st: StatusView,
    cfg: Config,
    now: Option<Moment>,
    chance: Chance,
)
    requires
        st.phase == Phase::Pending,
        may_run(evac, seen),
        evac.metadata.deletion_timestamp is None,
        seen.pv is Found,
        seen.pvc is Found,
        seen.source_volume is Found,
        seen.source_node is Found,
        seen.has_snapshots == Some(false),
        movable_pv(seen.pv->0),
        bound_claim(seen.pvc->0, evac.spec.pv_name@),
        movable_volume(seen.source_volume->0),
        capacity_bytes(seen.source_volume->0.spec.0) > 0,
    ensures
        ({
            let next = reconcile_next(evac, seen, st, cfg, now, chance);
            &&& next.0.phase == Phase::Guarding
            &&& next.1 is Run
            &&& next.1->Run_0.outcome == Outcome::Done(Action::RequeueMillis(500))
        }),
{
    lemma_held(evac);
    let s = seen.pv->0.spec->0.csi->0.volume_handle@;
    assert(s[0] == s[0] && s[s.len() - 1] == s[s.len() - 1]);
    assert(!resizing(seen.pvc->0));
}

/// Once everything is read, an evacuation in Pending goes on or fails; and what
/// is read is the claim that the PV names, and the volume that it stands for.
pub proof fn pending_decides(
    evac: ZFSEvacuation,
    seen: Seen,
    st: StatusView,
    cfg: Config,
    now: Option<Moment>,
    chance: Chance,
)
    requires
        st.phase == Phase::Pending,
        may_run(evac, seen),
        evac.metadata.deletion_timestamp is None,
    ensures
        ({
            let next = reconcile_next(evac, seen, st, cfg, now, chance);
            &&& seen.pv !is Unread && seen.pvc !is Unread && seen.source_volume !is Unread
                && seen.has_snapshots is Some && seen.source_node !is Unread ==> next.0.phase
                == Phase::Guarding || next.0.phase == Phase::Failed
            &&& next.0.phase == Phase::Guarding || next.0.phase == Phase::Failed || (next.0 == st
                && next.1 is Read)
            &&& seen.pv is Absent || seen.has_snapshots == Some(true) ==> next.0.phase
                != Phase::Guarding
            &&& next.1 matches StepView::Read(NeedView::Pvc(ns, name)) ==> seen.pv is Found
                && movable_pv(seen.pv->0) && seen.pv->0.spec->0.claim_ref->0.namespace->0@ == ns
                && seen.pv->0.spec->0.claim_ref->0.name->0@ == name
            &&& next.1 matches StepView::Read(NeedView::SourceVolume(handle)) ==> seen.pv is Found
                && movable_pv(seen.pv->0) && seen.pv->0.spec->0.csi->0.volume_handle@ == handle
            &&& next.1 matches StepView::Read(NeedView::Snapshots(handle)) ==> seen.pv is Found
                && movable_pv(seen.pv->0) && seen.pv->0.spec->0.csi->0.volume_handle@ == handle
            &&& next.1 matches StepView::Read(NeedView::SourceNode(id)) ==> seen.source_volume
                is Found && seen.source_volume->0.spec.0.owner_node_id@ == id
        }),
{
    lemma_held(evac);
}

// ------------------------------------------------------------------ withdrawal

/// Was the evacuation's claim deleted, or replaced by another of its name?
pub open spec fn claim_lost(seen: Seen, p: PvcView) -> bool {
    ||| seen.pvc is Absent
    ||| seen.pvc is Found && (seen.pvc->0.metadata.uid is None || seen.pvc->0.metadata.uid->0@
        != p.uid)
}

/// An evacuation that an annotation asked for is called off exactly if the
/// annotation no longer says `true`; it then counts as cancelled. If its PV or
/// its claim is lost it is called off too, and does not.
pub proof fn annotations_withdraw(
    evac: ZFSEvacuation,
    seen: Seen,
    st: StatusView,
    cfg: Config,
    now: Option<Moment>,
    chance: Chance,
)
    requires
        !st.committed,
        st.phase != Phase::Pending && st.phase != Phase::Aborting && st.phase != Phase::Completed
            && st.phase != Phase::Failed,
        may_run(evac, seen),
        evac.metadata.deletion_timestamp is None,
        evac.spec.trigger == EvacuationTrigger::Annotation,
        seen.pv !is Unread,
        seen.pvc !is Unread,
    ensures
        ({
            let next = reconcile_next(evac, seen, st, cfg, now, chance);
            let kept = seen.pv is Found && seen.pv->0.metadata.annotations is Some
                && seen.pv->0.metadata.annotations->0@.contains_key(
                "zfsevac.alumino.us/evacuate"@,
            ) && seen.pv->0.metadata.annotations->0@["zfsevac.alumino.us/evacuate"@] == "true"@;
            let lost = st.pvc_ref is Some && claim_lost(seen, st.pvc_ref->0);
            &&& next.0.phase == Phase::Aborting <==> !kept || lost
            &&& next.0.phase == Phase::Aborting ==> next.0.cancelled == (st.cancelled || (
            seen.pv is Found && !kept))
            &&& next.0.phase != Phase::Aborting ==> next.0 == st && next.1 is Run
                && next.1->Run_0.effects =~= Seq::empty() && next.1->Run_0.outcome
                == Outcome::Again(Stage::Checked)
        }),
{
    lemma_held(evac);
    let c = cancel(evac, seen, st, cfg);
    assert(c !is Read);
}

/// An evacuation that a node's taint asked for is called off exactly if its
/// source node still exists without the taint; it then counts as cancelled. A
/// node that is gone does not call it off.
pub proof fn taints_withdraw(
    evac: ZFSEvacuation,
    seen: Seen,
    st: StatusView,
    cfg: Config,
    now: Option<Moment>,
    chance: Chance,
)
    requires
        !st.committed,
        st.phase != Phase::Pending && st.phase != Phase::Aborting && st.phase != Phase::Completed
            && st.phase != Phase::Failed,
        may_run(evac, seen),
        evac.metadata.deletion_timestamp is None,
        evac.spec.trigger == EvacuationTrigger::NodeTaint,
        seen.pv !is Unread,
        seen.pvc !is Unread,
        seen.source_node_by_name !is Unread,
    ensures
        ({
            let next = reconcile_next(evac, seen, st, cfg, now, chance);
            let untainted = st.source is Some && seen.source_node_by_name is Found
                && !carries_taint(seen.source_node_by_name->0, cfg.taint_key@);
            let lost = st.pvc_ref is Some && claim_lost(seen, st.pvc_ref->0);
            &&& next.0.phase == Phase::Aborting <==> seen.pv is Absent || untainted || lost
            &&& next.0.phase == Phase::Aborting ==> next.0.cancelled == (st.cancelled || (
            seen.pv is Found && untainted))
            &&& next.0.phase != Phase::Aborting ==> next.0 == st && next.1 is Run
                && next.1->Run_0.effects =~= Seq::empty() && next.1->Run_0.outcome
                == Outcome::Again(Stage::Checked)
        }),
{
    lemma_held(evac);
    let c = cancel(evac, seen, st, cfg);
    assert(c !is Read);
    if seen.source_node_by_name is Found {
        crate::controller::nodes::taints_are_found_by_their_key(
            seen.source_node_by_name->0,
            cfg.taint_key@,
        );
    }
}

/// A taint of this key, whatever its value and effect.
pub open spec fn carries_taint(node: Node, key: Seq<char>) -> bool {
    node.spec is Some && node.spec->0.taints is Some && exists|i: int|
        0 <= i < node.spec->0.taints->0@.len() && (#[trigger] node.spec->0.taints->0@[i]).key@
            == key
}

/// A deleted evacuation that is not committed does nothing but unwind.
pub proof fn deletion_withdraws(
    evac: ZFSEvacuation,
    seen: Seen,
    st: StatusView,
    cfg: Config,
    now: Option<Moment>,
    chance: Chance,
)
    requires
        evac.metadata.deletion_timestamp is Some,
        !st.committed,
        st.phase != Phase::Completed && st.phase != Phase::Failed,
    ensures
        ({
            let next = reconcile_next(evac, seen, st, cfg, now, chance);
            ||| (next.1 is Read || next.1 is Fault) && next.0 == st
            ||| next.1 is Run && next.0.phase == Phase::Aborting
        }),
{
    let marked = crate::controller::state_machine::withdrawn_by_deletion(st);
    let next = abort_next(evac, seen, marked);
    assert(next.1 is Read || next.1 is Fault || (next.1 is Run && next.0.phase
        == Phase::Aborting));
}

/// A committed evacuation goes on as if it had not been deleted.
pub proof fn commits_ignore_deletion(
    evac: ZFSEvacuation,
    kept: ZFSEvacuation,
    seen: Seen,
    st: StatusView,
    cfg: Config,
    now: Option<Moment>,
    chance: Chance,
)
    requires
        kept.metadata.deletion_timestamp is None,
        evac.spec == kept.spec,
        evac.metadata.name == kept.metadata.name,
        evac.metadata.generate_name == kept.metadata.generate_name,
        st.committed,
        st.phase == Phase::Swapping || st.phase == Phase::CleaningUp,
        seen.stage != Stage::Begin,
    ensures
        reconcile_next(evac, seen, st, cfg, now, chance) == reconcile_next(
            kept,
            seen,
            st,
            cfg,
            now,
            chance,
        ),
{
    assert(evac.metadata.any_name() == kept.metadata.any_name());
    if st.phase == Phase::Swapping {
        assert(swapping_next(evac, seen, st, cfg) == swapping_next(kept, seen, st, cfg));
    } else {
        assert(cleaning_up_next(evac, seen, st) == cleaning_up_next(kept, seen, st));
    }
}

/// A claim or a volume that is refused is refused for a reason that is given.
pub proof fn refusals_say_why(
    evac: ZFSEvacuation,
    seen: Seen,
    st: StatusView,
    cfg: Config,
    now: Option<Moment>,
    chance: Chance,
)
    requires
        st.phase == Phase::Pending,
        may_run(evac, seen),
        evac.metadata.deletion_timestamp is None,
        seen.pv is Found,
        movable_pv(seen.pv->0),
        seen.pvc is Found,
        seen.source_volume is Found,
        seen.has_snapshots is Some,
        seen.source_node is Found,
    ensures
        ({
            let next = reconcile_next(evac, seen, st, cfg, now, chance).0;
            let pvc = seen.pvc->0;
            let zv = seen.source_volume->0;
            let bound = pvc.volume_name is Some && pvc.volume_name->0@ == evac.spec.pv_name@;
            let marked = zv.metadata.annotations is Some && zv.metadata.annotations->0@.contains_key(
                "openebs.io/marked-for-deletion"@,
            );
            let clone = zv.spec.0.snapname is Some && zv.spec.0.snapname->0@.len() > 0;
            &&& !bound ==> next.message == Some("PVC does not reference this PV"@)
            &&& bound && !bound_claim(pvc, evac.spec.pv_name@) ==> next.message == Some(
                "PVC has a resize in progress"@,
            )
            &&& bound_claim(pvc, evac.spec.pv_name@) && marked ==> next.message == Some(
                "ZFSVolume is marked for deletion"@,
            )
            &&& bound_claim(pvc, evac.spec.pv_name@) && !marked && clone ==> next.message == Some(
                "volume is a clone; clone migration is unsupported"@,
            )
        }),
{
    lemma_held(evac);
    let s = seen.pv->0.spec->0.csi->0.volume_handle@;
    assert(s[0] == s[0] && s[s.len() - 1] == s[s.len() - 1]);
    let pvc = seen.pvc->0;
    if bound_claim(pvc, evac.spec.pv_name@) {
        assert(!resizing(pvc));
    } else if pvc.volume_name is Some && pvc.volume_name->0@ == evac.spec.pv_name@ {
        let i = choose|i: int|
            0 <= i < pvc.conditions@.len() && (#[trigger] pvc.conditions@[i]).status@ == "True"@ && (
            pvc.conditions@[i].type_@ == "Resizing"@ || pvc.conditions@[i].type_@
                == "FileSystemResizePending"@);
        assert(pvc.conditions@[i].status@ == "True"@);
        assert(resizing(pvc));
    }
}

/// And so is a PV: the first of these that holds is the reason.
pub proof fn refused_pvs_are_told_why(
    evac: ZFSEvacuation,
    seen: Seen,
    st: StatusView,
    cfg: Config,
    now: Option<Moment>,
    chance: Chance,
)
    requires
        st.phase == Phase::Pending,
        may_run(evac, seen),
        evac.metadata.deletion_timestamp is None,
        seen.pv !is Unread,
    ensures
        ({
            let next = reconcile_next(evac, seen, st, cfg, now, chance).0;
            let csi = if seen.pv is Found && seen.pv->0.spec is Some {
                seen.pv->0.spec->0.csi
            } else {
                None
            };
            let ours = csi is Some && csi->0.driver@ == "zfs.csi.openebs.io"@;
            let named = ours && names_a_label(csi->0.volume_handle@);
            let claim = if named {
                seen.pv->0.spec->0.claim_ref
            } else {
                None
            };
            &&& seen.pv is Absent ==> next.message == Some(
                "PV "@ + evac.spec.pv_name@ + " not found"@,
            )
            &&& seen.pv is Found && csi is None ==> next.message == Some("PV is not a CSI volume"@)
            &&& csi is Some && !ours ==> next.message == Some(
                "PV driver "@ + csi->0.driver@ + " is not "@ + "zfs.csi.openebs.io"@,
            )
            &&& ours && !named ==> next.message == Some(
                "volumeHandle "@ + csi->0.volume_handle@
                    + " is not a valid label value; its snapshots cannot be found by label"@,
            )
            &&& named && claim is None ==> next.message == Some(
                "PV has no claimRef (unbound PVs need no evacuation)"@,
            )
            &&& claim is Some && (claim->0.namespace is None || claim->0.name is None)
                ==> next.message == Some("PV claimRef missing namespace/name"@)
            &&& seen.pv is Absent || !movable_pv(seen.pv->0) ==> next.phase == Phase::Failed
        }),
{
    lemma_held(evac);
    if seen.pv is Found && seen.pv->0.spec is Some && seen.pv->0.spec->0.csi is Some {
        let s = seen.pv->0.spec->0.csi->0.volume_handle@;
        lemma_label(s);
    }
}

proof fn lemma_label(s: Seq<char>)
    ensures
        names_a_label(s) <==> crate::controller::state_machine::label_value(s),
{
    if names_a_label(s) {
        assert(s[0] == s[0] && s[s.len() - 1] == s[s.len() - 1]);
    }
    if crate::controller::state_machine::label_value(s) {
        assert forall|i: int| 0 <= i < s.len() implies {
            let c = #[trigger] s[i];
            ||| '0' <= c <= '9'
            ||| 'a' <= c <= 'z'
            ||| 'A' <= c <= 'Z'
            ||| (c == '-' || c == '_' || c == '.') && 0 < i < s.len() - 1
        } by {}
    }
}

/// The last reasons to refuse a volume: it has snapshots, its node is gone, or its
/// size is not known.
pub proof fn refused_volumes_are_told_why(
    evac: ZFSEvacuation,
    seen: Seen,
    st: StatusView,
    cfg: Config,
    now: Option<Moment>,
    chance: Chance,
)
    requires
        st.phase == Phase::Pending,
        may_run(evac, seen),
        evac.metadata.deletion_timestamp is None,
        seen.pv is Found,
        movable_pv(seen.pv->0),
        seen.pvc is Found,
        bound_claim(seen.pvc->0, evac.spec.pv_name@),
        seen.source_volume is Found,
        movable_volume(seen.source_volume->0),
        seen.has_snapshots is Some,
        seen.source_node !is Unread,
    ensures
        ({
            let next = reconcile_next(evac, seen, st, cfg, now, chance).0;
            let info = seen.source_volume->0.spec.0;
            &&& seen.has_snapshots == Some(true) ==> next.phase == Phase::Failed && next.message
                == Some(
                "volume has ZFSSnapshots; delete them before evacuating (snapshot migration unsupported)"@,
            )
            &&& seen.has_snapshots == Some(false) && seen.source_node is Absent ==> next.phase
                == Phase::Failed && next.message == Some(
                "source node with nodeid "@ + info.owner_node_id@
                    + " not found; data is unreachable"@,
            )
            &&& seen.has_snapshots == Some(false) && seen.source_node is Found && capacity_bytes(
                info,
            ) == 0 ==> next.phase == Phase::Failed && next.message == Some(
                "could not determine volume capacity"@,
            )
        }),
{
    lemma_held(evac);
    lemma_label(seen.pv->0.spec->0.csi->0.volume_handle@);
    assert(!resizing(seen.pvc->0));
}

/// What calls an evacuation off is said: what it was withdrawn by, or what was
/// lost.
pub proof fn withdrawals_say_why(
    evac: ZFSEvacuation,
    seen: Seen,
    st: StatusView,
    cfg: Config,
    now: Option<Moment>,
    chance: Chance,
)
    requires
        !st.committed,
        st.phase != Phase::Pending && st.phase != Phase::Aborting && st.phase != Phase::Completed
            && st.phase != Phase::Failed,
        may_run(evac, seen),
        evac.metadata.deletion_timestamp is None,
        reconcile_next(evac, seen, st, cfg, now, chance).0.phase == Phase::Aborting,
    ensures
        ({
            let next = reconcile_next(evac, seen, st, cfg, now, chance).0;
            &&& seen.pv is Absent ==> next.message == Some("source PV disappeared before commit"@)
            &&& next.cancelled && !st.cancelled && evac.spec.trigger
                == EvacuationTrigger::Annotation ==> next.message == Some(
                "evacuate annotation removed (cancelled)"@,
            )
            &&& next.cancelled && !st.cancelled && evac.spec.trigger
                == EvacuationTrigger::NodeTaint ==> next.message == Some(
                "source node's evacuate taint removed (cancelled)"@,
            )
            &&& !next.cancelled && seen.pv is Found && seen.pvc is Absent ==> next.message == Some(
                "PVC deleted during evacuation"@,
            )
            &&& !next.cancelled && seen.pv is Found && seen.pvc is Found ==> next.message == Some(
                "PVC replaced (UID changed) during evacuation"@,
            )
        }),
{
    lemma_held(evac);
    let c = cancel(evac, seen, st, cfg);
    assert(c is Because);
}

} // verus!
