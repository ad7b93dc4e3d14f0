//! Abort path: unwind everything the evacuation did, in reverse, leaving the
//! source volume exactly as it was. Only reachable before the commit point:
//! after the old PV delete is issued, the machine rolls forward only.
use vstd::prelude::*;

use crate::cluster::{uid_is, Lookup};
use crate::controller::plan::{
    error_text, Action, Effect, EffectView, Error, FinalizerEdit, Kind, Need, NeedView, Outcome,
    Plan, PlanView, Seen, Stage, Step, StepView,
};
use crate::controller::state_machine::{done, key_of, lock_key, no_effects, single, wait, waiting};
use crate::controller::transfer::{
    cleanup_transfer_crs, restore_name, restore_status, rst_name, teardown, Teardown, TeardownView,
};
use crate::controller::{target_volume, target_zfsvolume};
use crate::crd::openebs::BKP_STATUS_DONE;
use crate::crd::zfs_evacuation::{
    Phase, StatusView, TransferView, ZFSEvacuation, ZFSEvacuationStatus,
};
use crate::text::{opt, opt_is};

verus! {

/// What is still in the way of unwinding the source side.
#[verifier::ext_equal]
pub enum TargetSideView {
    Read(NeedView),
    Fault(Seq<char>),
    /// Effects, and what to say.
    Busy(Seq<EffectView>, Seq<char>),
    Clean,
}

/// What is still in the way of unwinding the source side.
pub enum TargetSide {
    Read(Need),
    Fault(Error),
    Busy(Plan, String),
    Clean,
}

impl View for TargetSide {
    type V = TargetSideView;

    open spec fn view(&self) -> TargetSideView {
        match *self {
            TargetSide::Read(n) => TargetSideView::Read(n@),
            TargetSide::Fault(e) => TargetSideView::Fault(e@),
            TargetSide::Busy(p, m) => TargetSideView::Busy(p@.effects, m@),
            TargetSide::Clean => TargetSideView::Clean,
        }
    }
}

/// The attempt's CRs go last: the backup's finalizer drops the source-side
/// transfer snapshot.
pub open spec fn crs_side(
    seen: Seen,
    evac: Seq<char>,
    st: StatusView,
    t: TransferView,
) -> TargetSideView {
    match teardown(seen, evac, t.attempt, st) {
        TeardownView::Read(n) => TargetSideView::Read(n),
        TeardownView::Going(e) => TargetSideView::Busy(e, "abort: cleaning up transfer CRs"@),
        TeardownView::Gone => TargetSideView::Clean,
    }
}

/// The target side: a volume that stands for the received dataset is deleted,
/// so that the agent destroys the dataset; where a dataset landed but no volume
/// stands for it, one is created first. The restore's Done status is the marker
/// that a full dataset landed, so this happens while the transfer CRs still
/// exist.
pub open spec fn target_side(seen: Seen, evac: Seq<char>, st: StatusView) -> TargetSideView {
    match (st.target, st.transfer) {
        (Some(target), Some(t)) => {
            let handle = target.new_volume_handle;
            if seen.restore is Unread {
                TargetSideView::Read(NeedView::Restore(restore_name(evac, t.attempt)))
            } else {
                match seen.target_volume {
                    Lookup::Unread => TargetSideView::Read(NeedView::TargetVolume(handle)),
                    Lookup::Found(zv) => match seen.target_node {
                        Lookup::Unread => TargetSideView::Read(NeedView::TargetNode(target.node_id)),
                        _ => TargetSideView::Busy(
                            (if zv.metadata.deletion_timestamp is Some {
                                Seq::empty()
                            } else {
                                seq![EffectView::Delete(Kind::ZfsVolume, handle)]
                            }) + (if seen.target_node is Absent {
                                seq![
                                    EffectView::EditFinalizers(
                                        Kind::ZfsVolume,
                                        handle,
                                        FinalizerEdit::DropZfs,
                                    ),
                                ]
                            } else {
                                Seq::empty()
                            }),
                            "abort: destroying target dataset"@,
                        ),
                    },
                    Lookup::Absent => if restore_status(seen) != BKP_STATUS_DONE@ {
                        crs_side(seen, evac, st, t)
                    } else if st.source is None {
                        TargetSideView::Fault(error_text(Error::NoSource))
                    } else {
                        match seen.source_volume {
                            Lookup::Unread => TargetSideView::Read(
                                NeedView::SourceVolume(st.source->0.volume_handle),
                            ),
                            Lookup::Absent => crs_side(seen, evac, st, t),
                            Lookup::Found(zv) => TargetSideView::Busy(
                                seq![EffectView::CreateVolume(target_volume(zv.spec.0@, target))],
                                "abort: adopting orphan dataset for destruction"@,
                            ),
                        }
                    },
                }
            }
        },
        _ => TargetSideView::Clean,
    }
}

/// The original reclaim policy goes back on the PV, if it is still the original
/// one.
pub open spec fn policy_effects(
    evac: ZFSEvacuation,
    seen: Seen,
    st: StatusView,
) -> Seq<EffectView> {
    match (st.source, st.original_reclaim_policy, seen.pv) {
        (Some(source), Some(policy), Lookup::Found(pv)) => if opt(pv.metadata.uid) == Some(
            source.pv_uid,
        ) {
            seq![EffectView::SetReclaimPolicy(evac.spec.pv_name@, policy)]
        } else {
            Seq::empty()
        },
        _ => Seq::empty(),
    }
}

/// The PVC is unlocked.
pub open spec fn unlock_effects(st: StatusView) -> Seq<EffectView> {
    match st.pvc_ref {
        Some(p) => seq![EffectView::Unlock(key_of(p)), EffectView::UnmarkPvc(p.namespace, p.name)],
        None => Seq::empty(),
    }
}

/// Would the volume have been reclaimed, and is nothing left to drive that? A
/// deletion the user requested mid-evacuation is honoured.
pub open spec fn orphaned(seen: Seen, st: StatusView) -> bool {
    &&& st.pvc_ref is Some
    &&& seen.pvc is Absent
    &&& seen.pv is Absent
    &&& st.original_reclaim_policy == Some("Delete"@)
}

/// The last part, once the PVC is unlocked: an orphaned source volume is
/// deleted, and the guard is dropped after that, so that whatever deletion
/// machinery applies may now actually destroy the dataset.
pub open spec fn finish_next(
    evac: ZFSEvacuation,
    seen: Seen,
    st: StatusView,
) -> (StatusView, StepView) {
    match st.source {
        None => released(evac, st, Seq::empty()),
        Some(source) => if st.pvc_ref is Some && seen.pvc is Unread {
            (st, StepView::Read(NeedView::Pvc(st.pvc_ref->0.namespace, st.pvc_ref->0.name)))
        } else if seen.pv is Unread {
            (st, StepView::Read(NeedView::Pv))
        } else if orphaned(seen, st) && seen.source_volume is Unread {
            (st, StepView::Read(NeedView::SourceVolume(source.volume_handle)))
        } else if seen.source_node is Unread {
            (st, StepView::Read(NeedView::SourceNode(source.node_id)))
        } else {
            let delete = if orphaned(seen, st) && seen.source_volume is Found
                && seen.source_volume->0.metadata.deletion_timestamp is None {
                seq![EffectView::Delete(Kind::ZfsVolume, source.volume_handle)]
            } else {
                Seq::empty()
            };
            let unguard = seq![
                EffectView::EditFinalizers(
                    Kind::ZfsVolume,
                    source.volume_handle,
                    FinalizerEdit::DropGuard,
                ),
            ];
            let strip = if seen.source_node is Absent {
                seq![
                    EffectView::EditFinalizers(
                        Kind::ZfsVolume,
                        source.volume_handle,
                        FinalizerEdit::DropZfs,
                    ),
                ]
            } else {
                Seq::empty()
            };
            released(evac, st, delete + unguard + strip)
        },
    }
}

/// Everything is unwound: an evacuation that is being deleted is let go of, any
/// other has failed.
pub open spec fn released(
    evac: ZFSEvacuation,
    st: StatusView,
    effects: Seq<EffectView>,
) -> (StatusView, StepView) {
    if evac.metadata.deletion_timestamp is Some {
        (st, done(effects.push(EffectView::ReleaseEvacuation), Action::AwaitChange))
    } else {
        (
            StatusView {
                phase: Phase::Failed,
                message: match st.message {
                    Some(m) => Some(m),
                    None => Some("evacuation aborted"@),
                },
                ..st
            },
            done(effects.push(EffectView::WriteStatus), Action::AwaitChange),
        )
    }
}

/// Is the policy of the original PV to be restored?
pub open spec fn wants_policy(st: StatusView) -> bool {
    st.source is Some && st.original_reclaim_policy is Some
}

/// The abort path: the phase is recorded first; then a relay that is still live is
/// stopped, before anything else is looked at; then the target side and the
/// transfer CRs go; then the PV's policy and the lock are restored; the source's
/// guard comes last.
pub open spec fn abort_next(
    evac: ZFSEvacuation,
    seen: Seen,
    st: StatusView,
) -> (StatusView, StepView) {
    if st.phase != Phase::Aborting {
        (
            StatusView { phase: Phase::Aborting, ..st },
            StepView::Run(
                PlanView {
                    effects: seq![EffectView::WriteStatus],
                    outcome: Outcome::Again(seen.stage),
                },
            ),
        )
    } else if seen.stage == Stage::Unlocked {
        finish_next(evac, seen, st)
    } else if seen.relay is None {
        (st, StepView::Read(NeedView::Relay))
    } else if seen.relay->0 is Some {
        (
            st,
            StepView::Run(
                PlanView {
                    effects: seq![EffectView::DropRelay],
                    outcome: Outcome::Again(seen.stage),
                },
            ),
        )
    } else {
        match target_side(seen, evac.metadata.any_name(), st) {
            TargetSideView::Read(n) => (st, StepView::Read(n)),
            TargetSideView::Fault(e) => (st, StepView::Fault(e)),
            TargetSideView::Busy(e, msg) => waiting(st, e, msg, 5),
            TargetSideView::Clean => if wants_policy(st) && seen.pv is Unread {
                (st, StepView::Read(NeedView::Pv))
            } else {
                (
                    st,
                    StepView::Run(
                        PlanView {
                            effects: policy_effects(evac, seen, st) + unlock_effects(st),
                            outcome: Outcome::Again(Stage::Unlocked),
                        },
                    ),
                )
            },
        }
    }
}

fn clear_crs(seen: &Seen, evac: &str, st: &ZFSEvacuationStatus, attempt: u32) -> (r: TargetSide)
    requires
        st@.transfer is Some,
        st@.transfer->0.attempt == attempt,
    ensures
        r@ == crs_side(*seen, evac@, st@, st@.transfer->0),
{
    match cleanup_transfer_crs(seen, evac, attempt, st) {
        Teardown::Read(n) => TargetSide::Read(n),
        Teardown::Going(p) => TargetSide::Busy(p, "abort: cleaning up transfer CRs".to_owned()),
        Teardown::Gone => TargetSide::Clean,
    }
}

fn clear_target_side(seen: &Seen, evac: &str, st: &ZFSEvacuationStatus) -> (r: TargetSide)
    ensures
        r@ == target_side(*seen, evac@, st@),
{
    let (target, t) = match (&st.target, &st.transfer) {
        (Some(target), Some(t)) => (target, t),
        _ => return TargetSide::Clean,
    };
    let restore_done = match &seen.restore {
        Lookup::Unread => return TargetSide::Read(Need::Restore(rst_name(evac, t.attempt))),
        Lookup::Absent => false,
        Lookup::Found(r) => opt_is(&r.status, BKP_STATUS_DONE),
    };
    proof {
        reveal_strlit("Done");
        assert(BKP_STATUS_DONE@.len() == 4);
        assert(restore_done == (restore_status(*seen) == BKP_STATUS_DONE@));
    }
    match &seen.target_volume {
        Lookup::Unread => TargetSide::Read(Need::TargetVolume(target.new_volume_handle.clone())),
        Lookup::Found(zv) => {
            let node_gone = match &seen.target_node {
                Lookup::Unread => return TargetSide::Read(Need::TargetNode(target.node_id.clone())),
                Lookup::Absent => true,
                Lookup::Found(_) => false,
            };
            let mut plan = no_effects();
            let deleting = zv.metadata.deleting();
            if !deleting {
                plan.push(
                    Effect::Delete {
                        kind: Kind::ZfsVolume,
                        name: target.new_volume_handle.clone(),
                    },
                );
            }
            if node_gone {
                plan.push(
                    Effect::EditFinalizers {
                        kind: Kind::ZfsVolume,
                        name: target.new_volume_handle.clone(),
                        edit: FinalizerEdit::DropZfs,
                    },
                );
            }
            let r = TargetSide::Busy(plan, "abort: destroying target dataset".to_owned());
            assert(r@->Busy_0 =~= target_side(*seen, evac@, st@)->Busy_0);
            r
        },
        Lookup::Absent => {
            if !restore_done {
                return clear_crs(seen, evac, st, t.attempt);
            }
            let source = match &st.source {
                Some(s) => s,
                None => return TargetSide::Fault(Error::NoSource),
            };
            match &seen.source_volume {
                Lookup::Unread => TargetSide::Read(
                    Need::SourceVolume(source.volume_handle.clone()),
                ),
                Lookup::Absent => clear_crs(seen, evac, st, t.attempt),
                Lookup::Found(zv) => {
                    let r = TargetSide::Busy(
                        single(Effect::CreateVolume(target_zfsvolume(zv.spec.0.clone(), target))),
                        "abort: adopting orphan dataset for destruction".to_owned(),
                    );
                    assert(r@->Busy_0 =~= target_side(*seen, evac@, st@)->Busy_0);
                    r
                },
            }
        },
    }
}

fn let_go(evac: &ZFSEvacuation, st: &mut ZFSEvacuationStatus, effects: Plan) -> (r: Step)
    ensures
        (final(st)@, r@) == released(*evac, old(st)@, effects@.effects),
{
    let mut plan = effects;
    plan.outcome = Outcome::Done(Action::AwaitChange);
    if evac.metadata.deleting() {
        plan.push(Effect::ReleaseEvacuation);
        return Step::Run(plan);
    }
    st.phase = Phase::Failed;
    if st.message.is_none() {
        st.message = Some("evacuation aborted".to_owned());
    }
    plan.push(Effect::WriteStatus);
    Step::Run(plan)
}

fn finish(evac: &ZFSEvacuation, seen: &Seen, st: &mut ZFSEvacuationStatus) -> (r: Step)
    ensures
        (final(st)@, r@) == finish_next(*evac, *seen, old(st)@),
{
    let source = match &st.source {
        Some(s) => s.clone(),
        None => return let_go(evac, st, no_effects()),
    };
    let pvc_gone = match &st.pvc_ref {
        Some(p) => match &seen.pvc {
            Lookup::Unread => return Step::Read(
                Need::Pvc { namespace: p.namespace.clone(), name: p.name.clone() },
            ),
            Lookup::Absent => true,
            Lookup::Found(_) => false,
        },
        None => false,
    };
    let pv_gone = match &seen.pv {
        Lookup::Unread => return Step::Read(Need::Pv),
        Lookup::Absent => true,
        Lookup::Found(_) => false,
    };
    let nobody_left = pvc_gone && pv_gone && opt_is(&st.original_reclaim_policy, "Delete");
    assert(nobody_left == orphaned(*seen, st@));
    let mut delete = false;
    if nobody_left {
        match &seen.source_volume {
            Lookup::Unread => return Step::Read(Need::SourceVolume(source.volume_handle)),
            Lookup::Absent => {},
            Lookup::Found(zv) => {
                delete = !zv.metadata.deleting();
            },
        }
    }
    let node_gone = match &seen.source_node {
        Lookup::Unread => return Step::Read(Need::SourceNode(source.node_id)),
        Lookup::Absent => true,
        Lookup::Found(_) => false,
    };
    let mut plan = no_effects();
    if delete {
        plan.push(Effect::Delete { kind: Kind::ZfsVolume, name: source.volume_handle.clone() });
    }
    plan.push(
        Effect::EditFinalizers {
            kind: Kind::ZfsVolume,
            name: source.volume_handle.clone(),
            edit: FinalizerEdit::DropGuard,
        },
    );
    if node_gone {
        plan.push(
            Effect::EditFinalizers {
                kind: Kind::ZfsVolume,
                name: source.volume_handle.clone(),
                edit: FinalizerEdit::DropZfs,
            },
        );
    }
    proof {
        let h = source.volume_handle@;
        let d = if delete {
            seq![EffectView::Delete(Kind::ZfsVolume, h)]
        } else {
            Seq::empty()
        };
        let u = seq![EffectView::EditFinalizers(Kind::ZfsVolume, h, FinalizerEdit::DropGuard)];
        let s = if node_gone {
            seq![EffectView::EditFinalizers(Kind::ZfsVolume, h, FinalizerEdit::DropZfs)]
        } else {
            Seq::empty()
        };
        assert(plan@.effects =~= d + u + s);
    }
    let_go(evac, st, plan)
}

/// The abort path.
pub fn run(evac: &ZFSEvacuation, seen: &Seen, st: &mut ZFSEvacuationStatus) -> (r: Step)
    ensures
        (final(st)@, r@) == abort_next(*evac, *seen, old(st)@),
{
    if st.phase != Phase::Aborting {
        st.phase = Phase::Aborting;
        return Step::Run(Plan::write(Outcome::Again(seen.stage)));
    }
    if seen.stage == Stage::Unlocked {
        return finish(evac, seen, st);
    }
    match &seen.relay {
        None => return Step::Read(Need::Relay),
        Some(Some(_)) => {
            let mut plan = single(Effect::DropRelay);
            plan.outcome = Outcome::Again(seen.stage);
            return Step::Run(plan);
        },
        Some(None) => {},
    }
    let name = evac.metadata.name_any();
    match clear_target_side(seen, name.as_str(), st) {
        TargetSide::Read(n) => return Step::Read(n),
        TargetSide::Fault(e) => return Step::Fault(e),
        TargetSide::Busy(p, msg) => return wait(st, p, msg, 5),
        TargetSide::Clean => {},
    }
    let mut plan = no_effects();
    if let (Some(source), Some(policy)) = (&st.source, &st.original_reclaim_policy) {
        match &seen.pv {
            Lookup::Unread => return Step::Read(Need::Pv),
            Lookup::Absent => {},
            Lookup::Found(pv) => {
                if uid_is(&pv.metadata.uid, source.pv_uid.as_str()) {
                    plan.push(
                        Effect::SetReclaimPolicy {
                            pv: evac.spec.pv_name.clone(),
                            policy: policy.clone(),
                        },
                    );
                }
            },
        }
    }
    assert(plan@.effects =~= policy_effects(*evac, *seen, st@));
    if let Some(p) = &st.pvc_ref {
        plan.push(Effect::Unlock { key: lock_key(p) });
        plan.push(Effect::UnmarkPvc { namespace: p.namespace.clone(), name: p.name.clone() });
    }
    assert(plan@.effects =~= policy_effects(*evac, *seen, st@) + unlock_effects(st@));
    plan.outcome = Outcome::Again(Stage::Unlocked);
    Step::Run(plan)
}

} // verus!
