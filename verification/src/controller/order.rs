//! What is done in which phase, and what is on record before it is done.
//!
//! A crash can only come between two effects, and the next reconcile goes by the
//! status that was written last. So every effect has to belong to the phase that
//! is on record when it is performed, and a phase is left only with a write.
use vstd::prelude::*;

use crate::controller::abort::abort_next;
use crate::controller::clock::Moment;
use crate::controller::laws::effects_of;
use crate::controller::plan::{EffectView, FinalizerEdit, Kind, NeedView, Seen, Stage, StepView};
use crate::controller::pv_swap::{committed_next, committing_next, swapping_next};
use crate::controller::state_machine::{
    adopting_next, age, blocking, cleaning_up_next, guarding_next, key_of, locking_next,
    pending_next, phase_next, quiescing_next, reconcile_next, retaining_next, settle_seconds,
    target_selecting_next, withdrawn_by_deletion, BlockingView, Chance,
};
use crate::controller::transfer::{
    backup_name, begin_next, destruction, judged, observed, teardown, transferring_next, verdict,
    DestructionView, TeardownView,
};
use crate::controller::{Config, LOCK_PROPAGATION_SECONDS};
use crate::crd::zfs_evacuation::{Phase, StatusView, ZFSEvacuation};

verus! {

/// Is one of the phases in which what was made on the way is taken down?
pub open spec fn takes_down(phase: Phase) -> bool {
    phase == Phase::CleaningUp || phase == Phase::Aborting
}

/// Does an effect belong to a phase?
pub open spec fn belongs(e: EffectView, phase: Phase) -> bool {
    match e {
        EffectView::WriteStatus => true,
        EffectView::HoldEvacuation => true,
        EffectView::ReleaseEvacuation => takes_down(phase) || phase == Phase::Completed || phase
            == Phase::Failed,
        EffectView::DropRelay => phase == Phase::Transferring || phase == Phase::Aborting,
        EffectView::EditFinalizers(_, _, edit) => match edit {
            FinalizerEdit::AddGuard => phase == Phase::Guarding,
            FinalizerEdit::DropGuard => takes_down(phase),
            FinalizerEdit::DropZfs => takes_down(phase) || phase == Phase::Transferring,
            FinalizerEdit::DropPvBlockers => phase == Phase::Swapping,
            FinalizerEdit::AddHold => false,
            FinalizerEdit::DropHold => false,
        },
        EffectView::Delete(kind, _) => match kind {
            Kind::PersistentVolume => phase == Phase::Swapping,
            Kind::ZfsVolume => takes_down(phase),
            Kind::ZfsSnapshot => phase == Phase::CleaningUp,
            Kind::ZfsBackup => takes_down(phase) || phase == Phase::Transferring,
            Kind::ZfsRestore => takes_down(phase) || phase == Phase::Transferring,
        },
        EffectView::CreateVolume(_) => phase == Phase::Adopting || phase == Phase::Aborting,
        EffectView::CreateSnapshot(_) => phase == Phase::CleaningUp,
        EffectView::CreateBackup(_) => phase == Phase::Transferring,
        EffectView::CreateRestore(_) => phase == Phase::Transferring,
        EffectView::CreatePv(_) => phase == Phase::Swapping,
        EffectView::SetReclaimPolicy(_, policy) => (phase == Phase::Retaining && policy
            == "Retain"@) || phase == Phase::Swapping || phase == Phase::Aborting,
        EffectView::Lock(_, _) => phase == Phase::Locking,
        EffectView::MarkPvc(_, _) => phase == Phase::Locking,
        EffectView::Unlock(_) => takes_down(phase),
        EffectView::UnmarkPvc(_, _) => takes_down(phase),
        EffectView::StripTrigger(_) => phase == Phase::CleaningUp,
    }
}

/// Do all of these effects belong to a phase?
pub open spec fn all_belong(effects: Seq<EffectView>, phase: Phase) -> bool {
    forall|i: int| 0 <= i < effects.len() ==> belongs(#[trigger] effects[i], phase)
}

proof fn teardown_belongs(
    seen: Seen,
    evac: Seq<char>,
    attempt: u32,
    st: StatusView,
    phase: Phase,
)
    requires
        takes_down(phase) || phase == Phase::Transferring,
    ensures
        teardown(seen, evac, attempt, st) matches TeardownView::Going(e) ==> all_belong(e, phase),
{
}

proof fn destruction_belongs(seen: Seen, st: StatusView)
    ensures
        destruction(seen, st) matches DestructionView::Going(e, m, i) ==> all_belong(
            e,
            Phase::CleaningUp,
        ),
{
}

proof fn early_phases_keep(
    evac: ZFSEvacuation,
    seen: Seen,
    st: StatusView,
    cfg: Config,
    now: Option<Moment>,
)
    ensures
        all_belong(effects_of(pending_next(evac, seen, st).1), Phase::Pending),
        all_belong(effects_of(guarding_next(st).1), Phase::Guarding),
        all_belong(effects_of(retaining_next(evac, st).1), Phase::Retaining),
        all_belong(effects_of(locking_next(evac, st, now).1), Phase::Locking),
        all_belong(effects_of(quiescing_next(evac, seen, st, cfg, now).1), Phase::Quiescing),
{
}

proof fn moving_phases_keep(
    evac: ZFSEvacuation,
    seen: Seen,
    st: StatusView,
    cfg: Config,
    now: Option<Moment>,
    noise: u128,
)
    ensures
        all_belong(
            effects_of(target_selecting_next(evac, seen, st, cfg, noise).1),
            Phase::TargetSelecting,
        ),
        all_belong(
            effects_of(transferring_next(evac, seen, st, cfg, now).1),
            Phase::Transferring,
        ),
        all_belong(effects_of(adopting_next(seen, st).1), Phase::Adopting),
{
    if let Some(t) = st.transfer {
        teardown_belongs(seen, evac.metadata.any_name(), t.attempt, st, Phase::Transferring);
    }
}

proof fn late_phases_keep(evac: ZFSEvacuation, seen: Seen, st: StatusView, cfg: Config)
    ensures
        all_belong(effects_of(committing_next(evac, seen, st, cfg).1), Phase::Committing),
        all_belong(effects_of(swapping_next(evac, seen, st, cfg).1), Phase::Swapping),
        all_belong(effects_of(cleaning_up_next(evac, seen, st).1), Phase::CleaningUp),
{
    if let Some(t) = st.transfer {
        teardown_belongs(seen, evac.metadata.any_name(), t.attempt, st, Phase::CleaningUp);
    }
    destruction_belongs(seen, st);
}

proof fn unwinding_keeps(evac: ZFSEvacuation, seen: Seen, st: StatusView)
    ensures
        all_belong(effects_of(abort_next(evac, seen, st).1), st.phase),
{
    if let Some(t) = st.transfer {
        teardown_belongs(seen, evac.metadata.any_name(), t.attempt, st, Phase::Aborting);
    }
}

/// Whatever a step does belongs to the phase that is on record: nothing is locked,
/// guarded, copied, swapped or taken down before the status says that it is about
/// to be. A relay is asked for only while transferring, and the commit only while
/// committing.
pub proof fn effects_keep_to_their_phase(
    evac: ZFSEvacuation,
    seen: Seen,
    st: StatusView,
    cfg: Config,
    now: Option<Moment>,
    chance: Chance,
)
    ensures
        ({
            let step = reconcile_next(evac, seen, st, cfg, now, chance).1;
            &&& all_belong(effects_of(step), st.phase)
            &&& step is Spawn ==> st.phase == Phase::Transferring
            &&& step is Commit ==> st.phase == Phase::Committing
        }),
{
    early_phases_keep(evac, seen, st, cfg, now);
    moving_phases_keep(evac, seen, st, cfg, now, chance.volume);
    late_phases_keep(evac, seen, st, cfg);
    unwinding_keeps(evac, seen, st);
    unwinding_keeps(evac, seen, withdrawn_by_deletion(st));
}

/// The same holds of the attempt that begins once its relay listens; and it is on
/// record before its backup exists, so that a crash always knows what to clean
/// up.
pub proof fn attempts_are_recorded_first(
    evac: ZFSEvacuation,
    st: StatusView,
    attempt: u32,
    backup_port: u16,
    restore_port: u16,
    noise: u16,
    now: Option<Moment>,
    pod_ip: Seq<char>,
)
    requires
        st.source is Some,
    ensures
        ({
            let next = begin_next(
                evac,
                st,
                attempt,
                backup_port,
                restore_port,
                noise,
                now,
                pod_ip,
            );
            let effects = effects_of(next.1);
            &&& all_belong(effects, Phase::Transferring)
            &&& next.0.transfer matches Some(t) && t.attempt == attempt
            &&& effects.len() == 2
            &&& effects[0] == EffectView::WriteStatus
            &&& effects[1] matches EffectView::CreateBackup(b) && b.metadata.name == Some(
                backup_name(evac.metadata.any_name(), attempt),
            )
        }),
{
}

/// Is the status written?
pub open spec fn writes(step: StepView) -> bool {
    effects_of(step).contains(EffectView::WriteStatus)
}

/// Is a phase that is entered on record, and the commit as it was?
pub open spec fn recorded(st: StatusView, next: (StatusView, StepView)) -> bool {
    &&& next.0.phase != st.phase ==> writes(next.1)
    &&& next.0.committed == st.committed
}

proof fn lemma_last_writes(effects: Seq<EffectView>)
    ensures
        effects.push(EffectView::WriteStatus).contains(EffectView::WriteStatus),
{
    let all = effects.push(EffectView::WriteStatus);
    assert(all[all.len() - 1] == EffectView::WriteStatus);
}

pub proof fn lemma_writes()
    ensures
        forall|e: Seq<EffectView>| #[trigger]
            e.push(EffectView::WriteStatus).contains(EffectView::WriteStatus),
        seq![EffectView::WriteStatus].contains(EffectView::WriteStatus),
{
    assert forall|e: Seq<EffectView>| #[trigger]
        e.push(EffectView::WriteStatus).contains(EffectView::WriteStatus) by {
        lemma_last_writes(e);
    }
    assert(seq![EffectView::WriteStatus][0] == EffectView::WriteStatus);
}

proof fn pending_is_recorded(evac: ZFSEvacuation, seen: Seen, st: StatusView)
    ensures
        recorded(st, pending_next(evac, seen, st)),
{
    lemma_writes();
}

proof fn first_phases_are_recorded(
    evac: ZFSEvacuation,
    seen: Seen,
    st: StatusView,
    cfg: Config,
    now: Option<Moment>,
)
    ensures
        recorded(st, guarding_next(st)),
        recorded(st, retaining_next(evac, st)),
        recorded(st, locking_next(evac, st, now)),
        st.phase == Phase::Quiescing ==> recorded(st, quiescing_next(evac, seen, st, cfg, now)),
{
    lemma_writes();
}

proof fn selecting_is_recorded(
    evac: ZFSEvacuation,
    seen: Seen,
    st: StatusView,
    cfg: Config,
    noise: u128,
)
    ensures
        recorded(st, target_selecting_next(evac, seen, st, cfg, noise)),
{
    lemma_writes();
}

proof fn transferring_is_recorded(
    evac: ZFSEvacuation,
    seen: Seen,
    st: StatusView,
    cfg: Config,
    now: Option<Moment>,
)
    ensures
        recorded(st, transferring_next(evac, seen, st, cfg, now)),
{
    lemma_writes();
}

proof fn late_phases_are_recorded(
    evac: ZFSEvacuation,
    seen: Seen,
    st: StatusView,
    cfg: Config,
)
    ensures
        recorded(st, adopting_next(seen, st)),
        recorded(st, committing_next(evac, seen, st, cfg)),
        recorded(st, swapping_next(evac, seen, st, cfg)),
{
    lemma_writes();
}

proof fn cleaning_up_is_recorded(evac: ZFSEvacuation, seen: Seen, st: StatusView)
    ensures
        recorded(st, cleaning_up_next(evac, seen, st)),
{
    lemma_writes();
    let effects = effects_of(cleaning_up_next(evac, seen, st).1);
    if cleaning_up_next(evac, seen, st).0.phase != st.phase {
        assert(effects[effects.len() - 2] == EffectView::WriteStatus);
    }
}

proof fn unwinding_is_recorded(evac: ZFSEvacuation, seen: Seen, st: StatusView)
    ensures
        recorded(st, abort_next(evac, seen, st)),
{
    lemma_writes();
}

proof fn phase_is_recorded(
    evac: ZFSEvacuation,
    seen: Seen,
    st: StatusView,
    cfg: Config,
    now: Option<Moment>,
    chance: Chance,
)
    ensures
        recorded(st, phase_next(evac, seen, st, cfg, now, chance)),
{
    match st.phase {
        Phase::Pending => pending_is_recorded(evac, seen, st),
        Phase::TargetSelecting => selecting_is_recorded(evac, seen, st, cfg, chance.volume),
        Phase::Transferring => transferring_is_recorded(evac, seen, st, cfg, now),
        Phase::Adopting => late_phases_are_recorded(evac, seen, st, cfg),
        Phase::Committing => late_phases_are_recorded(evac, seen, st, cfg),
        Phase::Swapping => late_phases_are_recorded(evac, seen, st, cfg),
        Phase::CleaningUp => cleaning_up_is_recorded(evac, seen, st),
        Phase::Aborting => unwinding_is_recorded(evac, seen, st),
        _ => first_phases_are_recorded(evac, seen, st, cfg, now),
    }
}

/// A phase is entered only with a write of the status. The commit is made by none
/// of these steps: only the record of it, which is a write too, makes it.
pub proof fn phases_are_recorded(
    evac: ZFSEvacuation,
    seen: Seen,
    st: StatusView,
    cfg: Config,
    now: Option<Moment>,
    chance: Chance,
    old_manifest: Seq<char>,
    new_manifest: Seq<char>,
)
    ensures
        recorded(st, reconcile_next(evac, seen, st, cfg, now, chance)),
        writes(committed_next(st, old_manifest, new_manifest).1),
        committed_next(st, old_manifest, new_manifest).0.committed,
{
    lemma_writes();
    phase_is_recorded(evac, seen, st, cfg, now, chance);
    unwinding_is_recorded(evac, seen, st);
    unwinding_is_recorded(evac, seen, withdrawn_by_deletion(st));
}

/// A relay that may still be live is the first thing to go. While an evacuation is
/// unwound nothing else is read, done or found fault with before it is stopped,
/// but that our finalizer is put on the evacuation; and a failed attempt is not
/// taken down before it is, with the reason of the failure kept.
pub proof fn the_relay_stops_first(
    evac: ZFSEvacuation,
    seen: Seen,
    st: StatusView,
    cfg: Config,
    now: Option<Moment>,
    chance: Chance,
)
    ensures
        ({
            let step = reconcile_next(evac, seen, st, cfg, now, chance).1;
            st.phase == Phase::Aborting && seen.stage != Stage::Unlocked && (seen.relay is None
                || seen.relay->0 is Some) ==> step == StepView::Read(NeedView::Relay) || effects_of(step)
                =~= seq![EffectView::DropRelay] || effects_of(step) =~= seq![
                EffectView::HoldEvacuation,
            ]
        }),
        ({
            let next = transferring_next(evac, seen, st, cfg, now);
            let failed = verdict(
                observed(evac, seen, st.transfer->0, cfg.stall_seconds, now),
            );
            st.transfer is Some && !(seen.backup is Unread) && !(seen.restore is Unread)
                && seen.relay is Some && seen.relay->0 is Some && failed is FailAttempt
                ==> effects_of(next.1) =~= seq![EffectView::DropRelay] && next.0 == judged(
                st,
                failed->FailAttempt_0,
            )
        }),
{
}

/// The precautions come before the copy: Guarding is left only with the guard on
/// the source volume, Retaining only with the PV's policy at Retain, Locking only
/// with the PVC locked, each before the next phase is on record.
pub proof fn precautions_come_first(
    evac: ZFSEvacuation,
    seen: Seen,
    st: StatusView,
    cfg: Config,
    now: Option<Moment>,
    chance: Chance,
)
    ensures
        ({
            let next = reconcile_next(evac, seen, st, cfg, now, chance);
            let effects = effects_of(next.1);
            &&& st.phase == Phase::Guarding && next.0.phase == Phase::Retaining ==> effects
                =~= seq![
                EffectView::EditFinalizers(
                    Kind::ZfsVolume,
                    st.source->0.volume_handle,
                    FinalizerEdit::AddGuard,
                ),
                EffectView::WriteStatus,
            ]
            &&& st.phase == Phase::Retaining && next.0.phase == Phase::Locking ==> effects
                =~= seq![
                EffectView::SetReclaimPolicy(evac.spec.pv_name@, "Retain"@),
                EffectView::WriteStatus,
            ]
            &&& st.phase == Phase::Locking && next.0.phase == Phase::Quiescing ==> effects
                =~= seq![
                EffectView::Lock(key_of(st.pvc_ref->0), evac.spec.mode),
                EffectView::MarkPvc(st.pvc_ref->0.namespace, st.pvc_ref->0.name),
                EffectView::WriteStatus,
            ]
        }),
{
}

/// Quiescing is left for the copy only once the settle period has passed since it
/// was recorded that nothing blocks the volume, with nothing blocking it now, and
/// with the lock given its time to take hold. Whatever blocks the volume takes the
/// record back for good: it changes only with a write of the status.
pub proof fn volumes_settle_first(
    evac: ZFSEvacuation,
    seen: Seen,
    st: StatusView,
    cfg: Config,
    now: Option<Moment>,
    chance: Chance,
)
    requires
        st.phase == Phase::Quiescing,
    ensures
        ({
            let (next, step) = reconcile_next(evac, seen, st, cfg, now, chance);
            &&& next.phase == Phase::TargetSelecting ==> {
                &&& age(st.quiesced_at, now) matches Some(n) && n >= settle_seconds(evac)
                &&& age(st.locked_at, now) matches Some(n) ==> n >= LOCK_PROPAGATION_SECONDS
                &&& seen.pods is Some
                &&& blocking(evac, seen, st, cfg, seen.pods->0@) == BlockingView::Clear
            }
            &&& next.phase == Phase::Quiescing && next.message != st.message
                ==> next.quiesced_at is None
            &&& next.quiesced_at != st.quiesced_at ==> writes(step)
        }),
{
    lemma_writes();
}

} // verus!
