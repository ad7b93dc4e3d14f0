//! What each decision rests on: nothing is decided on what was not read.
use vstd::prelude::*;

use crate::cluster::Lookup;
use crate::controller::abort::abort_next;
use crate::controller::admission::carries_taint;
use crate::controller::clock::Moment;
use crate::controller::groups::{busy_sources_are_waited_for, node_is_busy};
use crate::controller::laws::{deletes, effects_of};
use crate::controller::nodes::taints_are_found_by_their_key;
use crate::controller::plan::{EffectView, Kind, Outcome, Seen, Stage, StepView};
use crate::controller::pods::mode_in_force;
use crate::controller::pv_swap::{committing_next, swapping_next};
use crate::controller::state_machine::{
    adopting_next, cancel, cleaning_up_next, reconcile_next, target_selecting_next, Chance,
};
use crate::controller::transfer::{
    destruction, observed, retry_next, teardown, transferring_next, verdict, DestructionView,
    TeardownView, VerdictView,
};
use crate::controller::Config;
use crate::crd::zfs_evacuation::{
    EvacuationMode, EvacuationTrigger, Phase, StatusView, ZFSEvacuation,
};

verus! {

/// An evacuation goes on past the question whether it is still wanted only with
/// its PV and its claim read and found to be there, the claim under its recorded
/// uid; and with the annotation there, or the source node read.
pub proof fn going_on_rests_on_what_was_read(
    evac: ZFSEvacuation,
    seen: Seen,
    st: StatusView,
    cfg: Config,
    now: Option<Moment>,
    chance: Chance,
)
    requires
        st.phase != Phase::Pending && st.phase != Phase::Aborting,
        !st.committed,
        ({
            let step = reconcile_next(evac, seen, st, cfg, now, chance).1;
            step is Run && step->Run_0.outcome == Outcome::Again(Stage::Checked)
        }),
        seen.stage != Stage::Checked,
    ensures
        seen.pv is Found,
        st.pvc_ref is Some ==> seen.pvc is Found && seen.pvc->0.metadata.uid is Some
            && seen.pvc->0.metadata.uid->0@ == st.pvc_ref->0.uid,
        evac.spec.trigger == EvacuationTrigger::Annotation ==> seen.pv->0.metadata.annotations
            is Some && seen.pv->0.metadata.annotations->0@.contains_key(
            "zfsevac.alumino.us/evacuate"@,
        ) && seen.pv->0.metadata.annotations->0@["zfsevac.alumino.us/evacuate"@] == "true"@,
        evac.spec.trigger == EvacuationTrigger::NodeTaint && st.source is Some ==> (
        seen.source_node_by_name is Absent || (seen.source_node_by_name is Found && carries_taint(
            seen.source_node_by_name->0,
            cfg.taint_key@,
        ))),
{
    assert(cancel(evac, seen, st, cfg) is No);
    if let Lookup::Found(n) = seen.source_node_by_name {
        taints_are_found_by_their_key(n, cfg.taint_key@);
    }
}

/// No phase but Pending and unwinding runs before that question was answered,
/// for as long as nothing is committed to.
pub proof fn phases_run_once_they_are_wanted(
    evac: ZFSEvacuation,
    seen: Seen,
    st: StatusView,
    cfg: Config,
    now: Option<Moment>,
    chance: Chance,
)
    requires
        st.phase != Phase::Pending && st.phase != Phase::Aborting && st.phase != Phase::Completed
            && st.phase != Phase::Failed,
        !st.committed,
        seen.stage != Stage::Checked,
        evac.metadata.deletion_timestamp is None,
    ensures
        ({
            let next = reconcile_next(evac, seen, st, cfg, now, chance);
            &&& next.1 is Read || next.1 is Run
            &&& next.0.phase == st.phase || next.0.phase == Phase::Aborting
            &&& next.0.phase == st.phase ==> next.0 == st
            &&& effects_of(next.1) =~= Seq::empty() || effects_of(next.1) =~= seq![
                EffectView::HoldEvacuation,
            ] || effects_of(next.1) =~= seq![EffectView::WriteStatus]
        }),
{
}

/// A target is chosen only with the other evacuations read and none copying from
/// the source node, the PV still there, and, for a claimed volume, its pods read.
pub proof fn choices_rest_on_what_was_read(
    evac: ZFSEvacuation,
    seen: Seen,
    st: StatusView,
    cfg: Config,
    noise: u128,
)
    requires
        st.phase == Phase::TargetSelecting,
        target_selecting_next(evac, seen, st, cfg, noise).0.phase == Phase::Transferring,
    ensures
        st.source is Some,
        seen.evacuations is Some,
        !node_is_busy(seen.evacuations->0@, evac.metadata.any_name(), st.source->0.node_id),
        seen.pv is Found,
        seen.stock is Some,
        seen.stock->0 is Ok,
        mode_in_force(evac, st) == EvacuationMode::WhenClaimed ==> seen.pods is Some,
{
    if st.source is Some && seen.evacuations is Some {
        busy_sources_are_waited_for(evac, seen, st, cfg, noise);
    }
}

/// A copy is adopted only with backup and restore read, both Done.
pub proof fn adoptions_rest_on_what_was_read(
    evac: ZFSEvacuation,
    seen: Seen,
    st: StatusView,
    cfg: Config,
    now: Option<Moment>,
)
    requires
        st.phase == Phase::Transferring,
        transferring_next(evac, seen, st, cfg, now).0.phase == Phase::Adopting,
    ensures
        st.transfer is Some,
        seen.backup is Found,
        seen.backup->0.status is Some,
        seen.backup->0.status->0@ == "Done"@,
        seen.restore is Found,
        seen.restore->0.status is Some,
        seen.restore->0.status->0@ == "Done"@,
{
    reveal_strlit("Done");
    if let Some(t) = st.transfer {
        let o = observed(evac, seen, t, cfg.stall_seconds, now);
        crate::controller::attempts::attempts_complete_when_both_sides_are_done(o);
        if let VerdictView::FailAttempt(reason) = verdict(o) {
            assert(retry_next(evac, seen, st, t, reason).0.phase != Phase::Adopting);
        }
    }
}

/// A new volume is committed to only when it was read and is Ready.
pub proof fn commitments_rest_on_what_was_read(seen: Seen, st: StatusView)
    requires
        st.phase == Phase::Adopting,
        adopting_next(seen, st).0.phase == Phase::Committing,
    ensures
        seen.target_volume is Found,
        seen.target_volume->0.status is Some,
        seen.target_volume->0.status->0.state is Some,
        seen.target_volume->0.status->0.state->0@ == "Ready"@,
{
}

/// The commit itself is made only with claim, pods and PV read, and claim and PV
/// under their recorded uids.
pub proof fn commits_rest_on_what_was_read(
    evac: ZFSEvacuation,
    seen: Seen,
    st: StatusView,
    cfg: Config,
)
    requires
        committing_next(evac, seen, st, cfg).1 is Commit,
    ensures
        st.pvc_ref is Some,
        st.source is Some,
        st.target is Some,
        seen.pvc is Found,
        seen.pvc->0.metadata.uid is Some,
        seen.pvc->0.metadata.uid->0@ == st.pvc_ref->0.uid,
        seen.pods is Some,
        seen.pv is Found,
        seen.pv->0.metadata.uid is Some,
        seen.pv->0.metadata.uid->0@ == st.source->0.pv_uid,
{
}

/// The old PV is deleted only when it was read under its recorded uid and its pods
/// were; a new one is created only when there is none; and the swap is over only
/// when the new one was read.
pub proof fn swaps_rest_on_what_was_read(
    evac: ZFSEvacuation,
    seen: Seen,
    st: StatusView,
    cfg: Config,
    manifest: Seq<char>,
)
    requires
        st.phase == Phase::Swapping,
    ensures
        ({
            let next = swapping_next(evac, seen, st, cfg);
            let e = effects_of(next.1);
            &&& e.contains(EffectView::Delete(Kind::PersistentVolume, evac.spec.pv_name@)) ==> {
                &&& st.source is Some
                &&& seen.pods is Some
                &&& seen.pv is Found
                &&& seen.pv->0.metadata.uid is Some
                &&& seen.pv->0.metadata.uid->0@ == st.source->0.pv_uid
            }
            &&& e.contains(EffectView::CreatePv(manifest)) ==> seen.pv is Absent
                && st.new_pv_manifest == Some(manifest)
            &&& next.0.phase == Phase::CleaningUp ==> seen.pv is Found
            &&& next.0.phase == Phase::CleaningUp || next.0.phase == Phase::Swapping
        }),
{
    let e = effects_of(swapping_next(evac, seen, st, cfg).1);
    let d = EffectView::Delete(Kind::PersistentVolume, evac.spec.pv_name@);
    let c = EffectView::CreatePv(manifest);
    if e.contains(d) {
        let k = choose|k: int| 0 <= k < e.len() && e[k] == d;
        assert(e[k] == d);
    }
    if e.contains(c) {
        let k = choose|k: int| 0 <= k < e.len() && e[k] == c;
        assert(e[k] == c);
    }
}

/// After the swap, nothing of the source is removed before the attempt's backup
/// and restore are known to be gone, and the target's snapshot with them; the
/// claim is unlocked only when the source volume is known to be gone, too; and
/// the evacuation is completed only with its PV read.
pub proof fn cleanups_rest_on_what_was_read(evac: ZFSEvacuation, seen: Seen, st: StatusView)
    requires
        st.phase == Phase::CleaningUp,
        st.transfer is Some,
        st.target is Some,
    ensures
        ({
            let next = cleaning_up_next(evac, seen, st);
            let copied = seen.backup is Absent && seen.restore is Absent && seen.target_snapshot
                is Absent && (st.transfer->0.target_snap_delete_issued || seen.target_volume
                is Absent);
            &&& forall|h: Seq<char>| #[trigger]
                deletes(next.1, Kind::ZfsVolume, h) ==> copied && seen.source_volume is Found
                    && seen.source_node !is Unread
            &&& next.1 is Run && next.1->Run_0.outcome == Outcome::Again(Stage::Unlocked) ==> copied
                && seen.source_volume is Absent
            &&& next.0.phase == Phase::Completed ==> seen.stage == Stage::Unlocked && seen.pv
                !is Unread
        }),
{
    let next = cleaning_up_next(evac, seen, st);
    let e = effects_of(next.1);
    let t = st.transfer->0;
    let td = teardown(seen, evac.metadata.any_name(), t.attempt, st);
    let ds = destruction(seen, st);
    assert forall|h: Seq<char>| #[trigger] deletes(next.1, Kind::ZfsVolume, h) implies seen.backup
        is Absent && seen.restore is Absent && seen.target_snapshot is Absent && (
    t.target_snap_delete_issued || seen.target_volume is Absent) && seen.source_volume is Found
        && seen.source_node !is Unread by {
        let d = EffectView::Delete(Kind::ZfsVolume, h);
        let k = choose|k: int| 0 <= k < e.len() && e[k] == d;
        assert(e[k] == d);
        if let TeardownView::Going(g) = td {
            assert(forall|i: int|
                0 <= i < g.len() ==> (#[trigger] g[i] is Delete ==> g[i]->Delete_0
                    != Kind::ZfsVolume));
        }
        if let DestructionView::Going(g, _, _) = ds {
            assert(forall|i: int|
                0 <= i < g.len() ==> (#[trigger] g[i] is Delete ==> g[i]->Delete_0
                    != Kind::ZfsVolume));
        }
    }
}

/// Unwinding gives the PV and the claim back only once it knows that no relay
/// runs and that nothing is left of the copy, and, if there is a policy to give
/// back, what became of the PV; and it ends only once it knows what became of
/// claim, PV and source node.
pub proof fn unwinding_rests_on_what_was_read(evac: ZFSEvacuation, seen: Seen, st: StatusView)
    requires
        st.phase == Phase::Aborting,
    ensures
        ({
            let next = abort_next(evac, seen, st);
            &&& seen.stage != Stage::Unlocked && next.1 is Run && next.1->Run_0.outcome
                == Outcome::Again(Stage::Unlocked) ==> {
                &&& seen.relay is Some
                &&& seen.relay->0 is None
                &&& st.target is Some && st.transfer is Some ==> seen.target_volume is Absent
                    && seen.backup is Absent && seen.restore is Absent
                &&& st.source is Some && st.original_reclaim_policy is Some ==> seen.pv !is Unread
            }
            &&& next.0.phase == Phase::Failed && st.source is Some ==> {
                &&& seen.stage == Stage::Unlocked
                &&& st.pvc_ref is Some ==> seen.pvc !is Unread
                &&& seen.pv !is Unread
                &&& seen.source_node !is Unread
            }
        }),
{
    reveal_strlit("Done");
}

/// What is missing at each point is what the fault speaks of.
pub proof fn faults_speak_of_what_is_missing(
    evac: ZFSEvacuation,
    seen: Seen,
    st: StatusView,
    cfg: Config,
    attempt: u32,
)
    requires
        st.source is Some,
        st.pvc_ref is Some,
        st.target is Some,
    ensures
        seen.target_volume is Absent && seen.source_volume is Absent ==> adopting_next(seen, st)
            == (st, StepView::Fault("source ZFSVolume disappeared"@)),
        seen.pvc is Absent ==> committing_next(evac, seen, st, cfg) == (
            st,
            StepView::Fault("PVC vanished at commit"@),
        ),
        seen.pv is Absent && st.new_pv_manifest is None ==> swapping_next(evac, seen, st, cfg) == (
            st,
            StepView::Fault("no newPVManifest recorded; cannot complete swap"@),
        ),
        seen.relay == Some(None::<crate::controller::transfer::RelayObs>) && seen.source_node
            is Absent ==> crate::controller::transfer::start_next(seen, st, attempt) == (
            st,
            StepView::Fault("source node "@ + st.source->0.node_id + " gone"@),
        ),
        seen.relay == Some(None::<crate::controller::transfer::RelayObs>) && seen.source_node
            is Found && seen.target_node is Absent ==> crate::controller::transfer::start_next(
            seen,
            st,
            attempt,
        ) == (st, StepView::Fault("target node "@ + st.target->0.node_id + " gone"@)),
{
}

} // verus!
