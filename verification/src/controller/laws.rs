//! What holds of the machine as a whole, whatever is read and however often it
//! is run.
use vstd::prelude::*;

use crate::cluster::{Lookup, Pod};
use crate::controller::abort::{abort_next, orphaned};
use crate::controller::clock::Moment;
use crate::controller::colocation::{consumer, group_of};
use crate::controller::plan::{
    adds, drops, edited, Action, EffectView, FinalizerEdit, Kind, NeedView, Outcome, Seen, Stage,
    StepView,
};
use crate::controller::pv_swap::{committed_next, committing_next, swapping_next};
use crate::controller::state_machine::{
    adopting_next, blocking, cancel, choice_next, cleaning_up_next, follows, guarding_next,
    handles_are_label_values, inventory, label_value, locking_next, mode_of, others_bytes,
    pending_next, placed_with,
    phase_next, quiescing_next, reconcile_next, retaining_next, selection, sending,
    target_selecting_next, terminal, BlockingView, CancelView, Chance,
};
use crate::controller::target::{
    bytes, chosen, need, receiving, stands_for, target_is_eligible,
};
use crate::controller::transfer::{
    attempts_allowed, begin_next, destruction, flowing, teardown, transferring_next, verdict,
    DestructionView, ObsView, TeardownView, VerdictView,
};
use crate::controller::{has_taint, is_ready, node_index, repels, scheduled, Config};
use crate::crd::openebs::BKP_STATUS_DONE;
use crate::crd::zfs_evacuation::{EvacuationMode, Phase, StatusView, ZFSEvacuation};
use crate::text::opt;

verus! {

// ------------------------------------------------------------------ the status

/// Phases in which the evacuation's PVC and source are known.
pub open spec fn knows_source(phase: Phase) -> bool {
    phase != Phase::Pending && phase != Phase::Failed && phase != Phase::Aborting
}

/// Phases in which the lock is taken.
pub open spec fn is_locked(phase: Phase) -> bool {
    knows_source(phase) && phase != Phase::Guarding && phase != Phase::Retaining && phase
        != Phase::Locking
}

/// Phases in which the target is chosen.
pub open spec fn knows_target(phase: Phase) -> bool {
    is_locked(phase) && phase != Phase::Quiescing && phase != Phase::TargetSelecting
}

/// Phases that follow a completed transfer.
pub open spec fn transferred(phase: Phase) -> bool {
    knows_target(phase) && phase != Phase::Transferring
}

/// Phases that follow the commit point.
pub open spec fn after_commit(phase: Phase) -> bool {
    phase == Phase::Swapping || phase == Phase::CleaningUp || phase == Phase::Completed
}

/// What every status says: what a phase builds on is recorded, the commit is
/// recorded with both manifests and exactly past the commit point, and both
/// handles can be label values.
pub open spec fn consistent(st: StatusView) -> bool {
    &&& knows_source(st.phase) ==> st.pvc_ref is Some && st.source is Some
    &&& is_locked(st.phase) ==> st.locked_at is Some && st.locked_mode is Some
    &&& knows_target(st.phase) ==> st.target is Some
    &&& transferred(st.phase) ==> st.transfer is Some
    &&& st.committed == after_commit(st.phase)
    &&& st.committed ==> st.old_pv_manifest is Some && st.new_pv_manifest is Some
    &&& st.source matches Some(s) ==> label_value(s.volume_handle) && s.capacity_bytes > 0
    &&& st.target matches Some(t) ==> label_value(t.new_volume_handle)
}

/// An evacuation starts out consistent.
pub proof fn new_status_is_consistent(st: StatusView)
    requires
        st.phase == Phase::Pending,
        st.source is None,
        st.target is None,
        !st.committed,
    ensures
        consistent(st),
{
}

proof fn choice_keeps(
    evac: ZFSEvacuation,
    seen: Seen,
    st: StatusView,
    cfg: Config,
    noise: u128,
    group: Option<crate::controller::colocation::GroupView>,
)
    requires
        consistent(st),
        st.phase == Phase::TargetSelecting,
    ensures
        consistent(choice_next(evac, seen, st, cfg, noise, group).0),
{
    handles_are_label_values(noise);
}

proof fn selecting_keeps(
    evac: ZFSEvacuation,
    seen: Seen,
    st: StatusView,
    cfg: Config,
    noise: u128,
)
    requires
        consistent(st),
        st.phase == Phase::TargetSelecting,
    ensures
        consistent(target_selecting_next(evac, seen, st, cfg, noise).0),
{
    choice_keeps(evac, seen, st, cfg, noise, None);
    if seen.siblings is Some && seen.pods is Some {
        if let Some(pod) = crate::controller::colocation::consumer(seen.pods->0@) {
            let group = crate::controller::colocation::group_of(
                pod,
                evac.spec.pv_name@,
                st.pvc_ref->0.namespace,
                st.source->0.node_id,
                seen.siblings->0@,
            );
            choice_keeps(evac, seen, st, cfg, noise, Some(group));
        }
    }
}

proof fn pending_keeps(evac: ZFSEvacuation, seen: Seen, st: StatusView)
    requires
        consistent(st),
        st.phase == Phase::Pending,
    ensures
        consistent(pending_next(evac, seen, st).0),
{
}

proof fn quiescing_keeps(
    evac: ZFSEvacuation,
    seen: Seen,
    st: StatusView,
    cfg: Config,
    now: Option<Moment>,
)
    requires
        consistent(st),
        st.phase == Phase::Quiescing,
    ensures
        consistent(quiescing_next(evac, seen, st, cfg, now).0),
{
}

proof fn transferring_keeps(
    evac: ZFSEvacuation,
    seen: Seen,
    st: StatusView,
    cfg: Config,
    now: Option<Moment>,
)
    requires
        consistent(st),
        st.phase == Phase::Transferring,
    ensures
        consistent(transferring_next(evac, seen, st, cfg, now).0),
{
}

proof fn committing_keeps(evac: ZFSEvacuation, seen: Seen, st: StatusView, cfg: Config)
    requires
        consistent(st),
        st.phase == Phase::Committing,
    ensures
        consistent(committing_next(evac, seen, st, cfg).0),
{
}

proof fn swapping_keeps(evac: ZFSEvacuation, seen: Seen, st: StatusView, cfg: Config)
    requires
        consistent(st),
        st.phase == Phase::Swapping,
    ensures
        consistent(swapping_next(evac, seen, st, cfg).0),
{
}

proof fn cleaning_up_keeps(evac: ZFSEvacuation, seen: Seen, st: StatusView)
    requires
        consistent(st),
        st.phase == Phase::CleaningUp,
    ensures
        consistent(cleaning_up_next(evac, seen, st).0),
{
}

proof fn abort_keeps(evac: ZFSEvacuation, seen: Seen, st: StatusView)
    requires
        consistent(st),
        !st.committed,
    ensures
        consistent(abort_next(evac, seen, st).0),
{
}

proof fn early_phases_keep(
    evac: ZFSEvacuation,
    seen: Seen,
    st: StatusView,
    now: Option<Moment>,
)
    requires
        consistent(st),
    ensures
        st.phase == Phase::Guarding ==> consistent(guarding_next(st).0),
        st.phase == Phase::Retaining ==> consistent(retaining_next(evac, st).0),
        st.phase == Phase::Locking ==> consistent(locking_next(evac, st, now).0),
        st.phase == Phase::Adopting ==> consistent(adopting_next(seen, st).0),
{
}

proof fn phases_keep(
    evac: ZFSEvacuation,
    seen: Seen,
    st: StatusView,
    cfg: Config,
    now: Option<Moment>,
    chance: Chance,
)
    requires
        consistent(st),
    ensures
        consistent(phase_next(evac, seen, st, cfg, now, chance).0),
{
    early_phases_keep(evac, seen, st, now);
    match st.phase {
        Phase::Pending => pending_keeps(evac, seen, st),
        Phase::Quiescing => quiescing_keeps(evac, seen, st, cfg, now),
        Phase::TargetSelecting => selecting_keeps(evac, seen, st, cfg, chance.volume),
        Phase::Transferring => transferring_keeps(evac, seen, st, cfg, now),
        Phase::Committing => committing_keeps(evac, seen, st, cfg),
        Phase::Swapping => swapping_keeps(evac, seen, st, cfg),
        Phase::CleaningUp => cleaning_up_keeps(evac, seen, st),
        Phase::Aborting => abort_keeps(evac, seen, st),
        _ => {},
    }
}

/// Every step keeps the status consistent.
pub proof fn steps_keep_the_status_consistent(
    evac: ZFSEvacuation,
    seen: Seen,
    st: StatusView,
    cfg: Config,
    now: Option<Moment>,
    chance: Chance,
)
    requires
        consistent(st),
    ensures
        consistent(reconcile_next(evac, seen, st, cfg, now, chance).0),
{
    phases_keep(evac, seen, st, cfg, now, chance);
    if !st.committed {
        abort_keeps(evac, seen, st);
        abort_keeps(evac, seen, crate::controller::state_machine::withdrawn_by_deletion(st));
    }
}

/// Beginning an attempt keeps the status consistent.
pub proof fn attempts_keep_the_status_consistent(
    evac: ZFSEvacuation,
    st: StatusView,
    attempt: u32,
    backup_port: u16,
    restore_port: u16,
    noise: u16,
    now: Option<Moment>,
    pod_ip: Seq<char>,
)
    requires
        consistent(st),
    ensures
        consistent(
            begin_next(evac, st, attempt, backup_port, restore_port, noise, now, pod_ip).0,
        ),
{
}

/// The commit keeps the status consistent: it is recorded together with both
/// manifests, and with the phase that follows.
pub proof fn commits_keep_the_status_consistent(
    st: StatusView,
    old_manifest: Seq<char>,
    new_manifest: Seq<char>,
)
    requires
        consistent(st),
        st.phase == Phase::Committing,
    ensures
        consistent(committed_next(st, old_manifest, new_manifest).0),
{
}

// ------------------------------------------------------------------ the phases

/// May a step lead from one phase to another? Each phase stays or goes to the
/// next; before the commit point it may also turn to unwinding, or fail where
/// nothing has to be unwound.
pub open spec fn leads_to(from: Phase, to: Phase) -> bool {
    ||| to == from
    ||| match from {
        Phase::Pending => to == Phase::Guarding || to == Phase::Failed || to == Phase::Aborting,
        Phase::Guarding => to == Phase::Retaining || to == Phase::Aborting,
        Phase::Retaining => to == Phase::Locking || to == Phase::Aborting,
        Phase::Locking => to == Phase::Quiescing || to == Phase::Aborting,
        Phase::Quiescing => to == Phase::TargetSelecting || to == Phase::Aborting,
        Phase::TargetSelecting => to == Phase::Transferring || to == Phase::Aborting || to
            == Phase::Failed,
        Phase::Transferring => to == Phase::Adopting || to == Phase::Aborting,
        Phase::Adopting => to == Phase::Committing || to == Phase::Aborting,
        Phase::Committing => to == Phase::Swapping || to == Phase::Aborting || to == Phase::Failed,
        Phase::Swapping => to == Phase::CleaningUp,
        Phase::CleaningUp => to == Phase::Completed,
        Phase::Aborting => to == Phase::Failed,
        Phase::Completed => false,
        Phase::Failed => false,
    }
}

/// Steps follow the order of the phases. Those that have ended stay as they
/// are; past the commit point there is no way but forward.
pub proof fn steps_follow_the_phases(
    evac: ZFSEvacuation,
    seen: Seen,
    st: StatusView,
    cfg: Config,
    now: Option<Moment>,
    chance: Chance,
)
    requires
        consistent(st),
    ensures
        leads_to(st.phase, reconcile_next(evac, seen, st, cfg, now, chance).0.phase),
{
    let next = reconcile_next(evac, seen, st, cfg, now, chance);
    match st.phase {
        Phase::Pending => {
            assert(leads_to(st.phase, pending_next(evac, seen, st).0.phase));
        },
        Phase::Quiescing => {
            assert(leads_to(st.phase, quiescing_next(evac, seen, st, cfg, now).0.phase));
        },
        Phase::TargetSelecting => {
            assert(leads_to(
                st.phase,
                target_selecting_next(evac, seen, st, cfg, chance.volume).0.phase,
            ));
        },
        Phase::Transferring => {
            assert(leads_to(st.phase, transferring_next(evac, seen, st, cfg, now).0.phase));
        },
        Phase::Adopting => {
            assert(leads_to(st.phase, adopting_next(seen, st).0.phase));
        },
        Phase::Committing => {
            assert(leads_to(st.phase, committing_next(evac, seen, st, cfg).0.phase));
        },
        Phase::Swapping => {
            assert(leads_to(st.phase, swapping_next(evac, seen, st, cfg).0.phase));
        },
        Phase::CleaningUp => {
            assert(leads_to(st.phase, cleaning_up_next(evac, seen, st).0.phase));
        },
        Phase::Aborting => {
            assert(leads_to(st.phase, abort_next(evac, seen, st).0.phase));
        },
        _ => {},
    }
}

/// Past the commit point an evacuation is neither cancelled nor unwound nor
/// given up, deleted or not: it stays committed, and its manifests stay.
pub proof fn commits_roll_forward(
    evac: ZFSEvacuation,
    seen: Seen,
    st: StatusView,
    cfg: Config,
    now: Option<Moment>,
    chance: Chance,
)
    requires
        consistent(st),
        st.committed,
    ensures
        ({
            let next = reconcile_next(evac, seen, st, cfg, now, chance).0;
            &&& next.committed
            &&& after_commit(next.phase)
            &&& next.old_pv_manifest == st.old_pv_manifest
            &&& next.new_pv_manifest == st.new_pv_manifest
            &&& next.source == st.source
            &&& next.target == st.target
            &&& next.pvc_ref == st.pvc_ref
            &&& next.cancelled == st.cancelled
        }),
{
    match st.phase {
        Phase::Swapping => {
            assert(swapping_next(evac, seen, st, cfg).0.committed);
        },
        Phase::CleaningUp => {
            assert(cleaning_up_next(evac, seen, st).0.committed);
        },
        _ => {},
    }
}

/// An evacuation that has ended stays as it is; deleted, it is let go of.
pub proof fn ends_are_final(
    evac: ZFSEvacuation,
    seen: Seen,
    st: StatusView,
    cfg: Config,
    now: Option<Moment>,
    chance: Chance,
)
    requires
        terminal(st.phase),
    ensures
        reconcile_next(evac, seen, st, cfg, now, chance).0 == st,
        reconcile_next(evac, seen, st, cfg, now, chance).1 matches StepView::Run(p) && p.outcome
            == Outcome::Done(Action::AwaitChange) && p.effects == (
        if evac.metadata.deletion_timestamp is Some {
            seq![EffectView::ReleaseEvacuation]
        } else {
            Seq::empty()
        }),
{
}

/// An evacuation that is deleted before the commit point is unwound, whatever
/// its phase.
pub proof fn deletion_before_commit_unwinds(
    evac: ZFSEvacuation,
    seen: Seen,
    st: StatusView,
    cfg: Config,
    now: Option<Moment>,
    chance: Chance,
)
    requires
        evac.metadata.deletion_timestamp is Some,
        !st.committed,
        !terminal(st.phase),
    ensures
        ({
            let next = reconcile_next(evac, seen, st, cfg, now, chance);
            &&& next.1 is Run ==> next.0.phase == Phase::Aborting
            &&& !(next.1 is Run) ==> next.0 == st
            &&& !(next.1 is Spawn) && !(next.1 is Commit)
        }),
{
}

/// What only reads, or cannot go on, changes nothing.
pub proof fn only_plans_change_the_status(
    evac: ZFSEvacuation,
    seen: Seen,
    st: StatusView,
    cfg: Config,
    now: Option<Moment>,
    chance: Chance,
)
    ensures
        !(reconcile_next(evac, seen, st, cfg, now, chance).1 is Run) ==> reconcile_next(
            evac,
            seen,
            st,
            cfg,
            now,
            chance,
        ).0 == st,
{
    match st.phase {
        Phase::Pending => {
            assert(!(pending_next(evac, seen, st).1 is Run) ==> pending_next(evac, seen, st).0
                == st);
        },
        Phase::TargetSelecting => {
            let n = target_selecting_next(evac, seen, st, cfg, chance.volume);
            assert(!(n.1 is Run) ==> n.0 == st);
        },
        Phase::Transferring => {
            let n = transferring_next(evac, seen, st, cfg, now);
            assert(!(n.1 is Run) ==> n.0 == st);
        },
        Phase::CleaningUp => {
            let n = cleaning_up_next(evac, seen, st);
            assert(!(n.1 is Run) ==> n.0 == st);
        },
        Phase::Committing => {
            let n = committing_next(evac, seen, st, cfg);
            assert(!(n.1 is Run) ==> n.0 == st);
        },
        _ => {},
    }
}

// ------------------------------------------------------------------ what is done

/// The effects of a step.
pub open spec fn effects_of(step: StepView) -> Seq<EffectView> {
    match step {
        StepView::Run(p) => p.effects,
        _ => Seq::empty(),
    }
}

/// Does a step delete this object?
pub open spec fn deletes(step: StepView, kind: Kind, name: Seq<char>) -> bool {
    effects_of(step).contains(EffectView::Delete(kind, name))
}

/// Does a step drop the guard from this volume?
pub open spec fn unguards(step: StepView, name: Seq<char>) -> bool {
    effects_of(step).contains(
        EffectView::EditFinalizers(Kind::ZfsVolume, name, FinalizerEdit::DropGuard),
    )
}

/// Is an effect harmless to a PV, to volumes other than one, and to guards?
pub open spec fn harmless(e: EffectView, but: Option<Seq<char>>) -> bool {
    match e {
        EffectView::Delete(Kind::PersistentVolume, _) => false,
        EffectView::Delete(Kind::ZfsVolume, name) => but == Some(name),
        EffectView::EditFinalizers(_, _, FinalizerEdit::DropGuard) => false,
        _ => true,
    }
}

/// Are all of these effects harmless?
pub open spec fn all_harmless(effects: Seq<EffectView>, but: Option<Seq<char>>) -> bool {
    forall|i: int| 0 <= i < effects.len() ==> harmless(#[trigger] effects[i], but)
}

proof fn lemma_harmless(step: StepView, but: Option<Seq<char>>)
    requires
        all_harmless(effects_of(step), but),
    ensures
        forall|n: Seq<char>| !deletes(step, Kind::PersistentVolume, n),
        forall|n: Seq<char>| #[trigger] deletes(step, Kind::ZfsVolume, n) ==> but == Some(n),
        forall|n: Seq<char>| !unguards(step, n),
{
    let e = effects_of(step);
    assert forall|n: Seq<char>| !deletes(step, Kind::PersistentVolume, n) by {
        if deletes(step, Kind::PersistentVolume, n) {
            let i = choose|i: int|
                0 <= i < e.len() && e[i] == EffectView::Delete(Kind::PersistentVolume, n);
            assert(harmless(e[i], but));
        }
    }
    assert forall|n: Seq<char>| #[trigger] deletes(step, Kind::ZfsVolume, n) implies but == Some(
        n,
    ) by {
        let i = choose|i: int| 0 <= i < e.len() && e[i] == EffectView::Delete(Kind::ZfsVolume, n);
        assert(harmless(e[i], but));
    }
    assert forall|n: Seq<char>| !unguards(step, n) by {
        if unguards(step, n) {
            let g = EffectView::EditFinalizers(Kind::ZfsVolume, n, FinalizerEdit::DropGuard);
            let i = choose|i: int| 0 <= i < e.len() && e[i] == g;
            assert(harmless(e[i], but));
        }
    }
}

proof fn teardown_is_harmless(
    seen: Seen,
    evac: Seq<char>,
    attempt: u32,
    st: StatusView,
    but: Option<Seq<char>>,
)
    ensures
        teardown(seen, evac, attempt, st) matches TeardownView::Going(e) ==> all_harmless(e, but),
{
}

proof fn destruction_is_harmless(seen: Seen, st: StatusView, but: Option<Seq<char>>)
    ensures
        destruction(seen, st) matches DestructionView::Going(e, m, i) ==> all_harmless(e, but),
{
}

proof fn transferring_is_harmless(
    evac: ZFSEvacuation,
    seen: Seen,
    st: StatusView,
    cfg: Config,
    now: Option<Moment>,
)
    ensures
        all_harmless(effects_of(transferring_next(evac, seen, st, cfg, now).1), None),
{
    if let Some(t) = st.transfer {
        teardown_is_harmless(seen, evac.metadata.any_name(), t.attempt, st, None);
    }
}

proof fn pending_is_harmless(evac: ZFSEvacuation, seen: Seen, st: StatusView)
    ensures
        all_harmless(effects_of(pending_next(evac, seen, st).1), None),
{
}

proof fn quiescing_is_harmless(
    evac: ZFSEvacuation,
    seen: Seen,
    st: StatusView,
    cfg: Config,
    now: Option<Moment>,
)
    ensures
        all_harmless(effects_of(quiescing_next(evac, seen, st, cfg, now).1), None),
{
}

proof fn selecting_is_harmless(
    evac: ZFSEvacuation,
    seen: Seen,
    st: StatusView,
    cfg: Config,
    noise: u128,
)
    ensures
        all_harmless(effects_of(target_selecting_next(evac, seen, st, cfg, noise).1), None),
{
}

proof fn committing_is_harmless(evac: ZFSEvacuation, seen: Seen, st: StatusView, cfg: Config)
    ensures
        all_harmless(effects_of(committing_next(evac, seen, st, cfg).1), None),
{
}

proof fn early_phases_are_harmless(
    evac: ZFSEvacuation,
    seen: Seen,
    st: StatusView,
    now: Option<Moment>,
)
    ensures
        all_harmless(effects_of(guarding_next(st).1), None),
        all_harmless(effects_of(retaining_next(evac, st).1), None),
        all_harmless(effects_of(locking_next(evac, st, now).1), None),
        all_harmless(effects_of(adopting_next(seen, st).1), None),
{
}

proof fn other_phases_are_harmless(
    evac: ZFSEvacuation,
    seen: Seen,
    st: StatusView,
    cfg: Config,
    now: Option<Moment>,
    chance: Chance,
)
    requires
        st.phase != Phase::Swapping,
        st.phase != Phase::CleaningUp,
        st.phase != Phase::Aborting,
    ensures
        all_harmless(effects_of(phase_next(evac, seen, st, cfg, now, chance).1), None),
{
    early_phases_are_harmless(evac, seen, st, now);
    match st.phase {
        Phase::Pending => pending_is_harmless(evac, seen, st),
        Phase::Quiescing => quiescing_is_harmless(evac, seen, st, cfg, now),
        Phase::TargetSelecting => selecting_is_harmless(evac, seen, st, cfg, chance.volume),
        Phase::Transferring => transferring_is_harmless(evac, seen, st, cfg, now),
        Phase::Committing => committing_is_harmless(evac, seen, st, cfg),
        _ => {},
    }
}

/// The target's handle, if there is one.
pub open spec fn new_handle(st: StatusView) -> Option<Seq<char>> {
    match st.target {
        Some(t) => Some(t.new_volume_handle),
        None => None,
    }
}

proof fn unwinding_is_harmless(evac: ZFSEvacuation, seen: Seen, st: StatusView)
    requires
        !(st.phase == Phase::Aborting && seen.stage == Stage::Unlocked),
    ensures
        all_harmless(effects_of(abort_next(evac, seen, st).1), new_handle(st)),
{
    if let Some(t) = st.transfer {
        let name = evac.metadata.any_name();
        teardown_is_harmless(seen, name, t.attempt, st, new_handle(st));
    }
}

/// The end of unwinding deletes the source volume only if it is orphaned, and
/// no PV.
proof fn finishing_deletes_orphans_only(evac: ZFSEvacuation, seen: Seen, st: StatusView)
    requires
        st.phase == Phase::Aborting,
        seen.stage == Stage::Unlocked,
    ensures
        forall|n: Seq<char>|
            !deletes(abort_next(evac, seen, st).1, Kind::PersistentVolume, n),
        forall|n: Seq<char>| #[trigger]
            deletes(abort_next(evac, seen, st).1, Kind::ZfsVolume, n) ==> orphaned(seen, st),
{
    let e = effects_of(abort_next(evac, seen, st).1);
    assert(forall|i: int|
        0 <= i < e.len() ==> (#[trigger] e[i] is Delete ==> orphaned(seen, st) && e[i]
            == EffectView::Delete(Kind::ZfsVolume, st.source->0.volume_handle)));
}

/// Nothing but CleaningUp unguards or deletes a volume once the commit is made,
/// and CleaningUp deletes no PV.
proof fn cleaning_up_deletes_the_source_last(evac: ZFSEvacuation, seen: Seen, st: StatusView)
    requires
        st.phase == Phase::CleaningUp,
    ensures
        forall|n: Seq<char>|
            !deletes(cleaning_up_next(evac, seen, st).1, Kind::PersistentVolume, n),
        forall|n: Seq<char>| #[trigger]
            deletes(cleaning_up_next(evac, seen, st).1, Kind::ZfsVolume, n) ==> both_copies_settled(
                evac,
                seen,
                st,
            ),
        forall|n: Seq<char>| #[trigger]
            unguards(cleaning_up_next(evac, seen, st).1, n) ==> both_copies_settled(evac, seen, st),
{
    let step = cleaning_up_next(evac, seen, st).1;
    let name = evac.metadata.any_name();
    if !both_copies_settled(evac, seen, st) {
        if let Some(t) = st.transfer {
            teardown_is_harmless(seen, name, t.attempt, st, None);
        }
        destruction_is_harmless(seen, st, None);
        assert(all_harmless(effects_of(step), None));
        lemma_harmless(step, None);
    } else {
        let e = effects_of(step);
        assert(forall|i: int|
            0 <= i < e.len() ==> (#[trigger] e[i] is Delete ==> e[i]->Delete_0
                == Kind::ZfsVolume));
    }
}

/// The transfer CRs are gone and the target holds no transfer snapshot: the
/// source copy is not needed any more.
pub open spec fn both_copies_settled(evac: ZFSEvacuation, seen: Seen, st: StatusView) -> bool {
    &&& st.transfer matches Some(t) ==> teardown(seen, evac.metadata.any_name(), t.attempt, st)
        == TeardownView::Gone
    &&& destruction(seen, st) == DestructionView::Gone
}

/// A PV is deleted only past the commit point, with both manifests recorded, and
/// only the original one, while nothing blocks it.
pub proof fn the_old_pv_goes_past_the_commit(
    evac: ZFSEvacuation,
    seen: Seen,
    st: StatusView,
    cfg: Config,
    now: Option<Moment>,
    chance: Chance,
    name: Seq<char>,
)
    requires
        consistent(st),
        deletes(
            reconcile_next(evac, seen, st, cfg, now, chance).1,
            Kind::PersistentVolume,
            name,
        ),
    ensures
        st.phase == Phase::Swapping,
        st.committed,
        st.old_pv_manifest is Some,
        st.new_pv_manifest is Some,
        name == evac.spec.pv_name@,
        seen.pv matches Lookup::Found(pv) && opt(pv.metadata.uid) == Some(st.source->0.pv_uid),
        seen.pods is Some,
        blocking(evac, seen, st, cfg, seen.pods->0@) == BlockingView::Clear,
{
    let step = reconcile_next(evac, seen, st, cfg, now, chance).1;
    if st.phase == Phase::Swapping {
        let e = effects_of(swapping_next(evac, seen, st, cfg).1);
        let d = EffectView::Delete(Kind::PersistentVolume, name);
        let i = choose|i: int| 0 <= i < e.len() && e[i] == d;
        assert(e[i] == d);
    } else {
        spared_elsewhere(evac, seen, st, cfg, now, chance);
    }
}

proof fn spared_elsewhere(
    evac: ZFSEvacuation,
    seen: Seen,
    st: StatusView,
    cfg: Config,
    now: Option<Moment>,
    chance: Chance,
)
    requires
        consistent(st),
        st.phase != Phase::Swapping,
    ensures
        forall|n: Seq<char>|
            !deletes(
                reconcile_next(evac, seen, st, cfg, now, chance).1,
                Kind::PersistentVolume,
                n,
            ),
        forall|n: Seq<char>| #[trigger]
            deletes(
                reconcile_next(evac, seen, st, cfg, now, chance).1,
                Kind::ZfsVolume,
                n,
            ) ==> new_handle(st) == Some(n) || (st.committed && both_copies_settled(evac, seen, st))
                || (!st.committed && orphaned(seen, st) && st.phase == Phase::Aborting && seen.stage
                == Stage::Unlocked),
        forall|n: Seq<char>| #[trigger]
            unguards(reconcile_next(evac, seen, st, cfg, now, chance).1, n) ==> (st.committed
                && both_copies_settled(evac, seen, st)) || (st.phase == Phase::Aborting
                && seen.stage == Stage::Unlocked),
{
    let next = reconcile_next(evac, seen, st, cfg, now, chance).1;
    let marked = crate::controller::state_machine::withdrawn_by_deletion(st);
    if st.phase == Phase::CleaningUp {
        cleaning_up_deletes_the_source_last(evac, seen, st);
        if next != cleaning_up_next(evac, seen, st).1 {
            assert(all_harmless(effects_of(next), None));
            lemma_harmless(next, None);
        }
    } else if st.phase == Phase::Aborting && seen.stage == Stage::Unlocked {
        finishing_deletes_orphans_only(evac, seen, st);
        finishing_deletes_orphans_only(evac, seen, marked);
    } else {
        unwinding_is_harmless(evac, seen, st);
        unwinding_is_harmless(evac, seen, marked);
        if st.phase != Phase::Aborting {
            other_phases_are_harmless(evac, seen, st, cfg, now, chance);
        }
        assert(all_harmless(effects_of(next), new_handle(st)));
        lemma_harmless(next, new_handle(st));
    }
}

/// The source volume is deleted only after the swap, with the transfer CRs and
/// the target's transfer snapshot gone; or, while unwinding, if the user
/// deleted PVC and PV and the volume would have been reclaimed. The only other
/// volume that is ever deleted is the new one.
pub proof fn the_source_goes_last(
    evac: ZFSEvacuation,
    seen: Seen,
    st: StatusView,
    cfg: Config,
    now: Option<Moment>,
    chance: Chance,
    name: Seq<char>,
)
    requires
        consistent(st),
        deletes(reconcile_next(evac, seen, st, cfg, now, chance).1, Kind::ZfsVolume, name),
        new_handle(st) != Some(name),
    ensures
        (st.committed && st.phase == Phase::CleaningUp && both_copies_settled(evac, seen, st)) || (
        !st.committed && orphaned(seen, st) && st.phase == Phase::Aborting && seen.stage
            == Stage::Unlocked),
{
    if st.phase == Phase::Swapping {
        let e = effects_of(swapping_next(evac, seen, st, cfg).1);
        assert(forall|i: int|
            0 <= i < e.len() ==> (#[trigger] e[i] is Delete ==> e[i]->Delete_0
                == Kind::PersistentVolume));
    } else {
        spared_elsewhere(evac, seen, st, cfg, now, chance);
        if terminal(st.phase) {
            ends_are_final_effects(evac, seen, st, cfg, now, chance);
        }
    }
}

proof fn ends_are_final_effects(
    evac: ZFSEvacuation,
    seen: Seen,
    st: StatusView,
    cfg: Config,
    now: Option<Moment>,
    chance: Chance,
)
    requires
        terminal(st.phase),
    ensures
        forall|n: Seq<char>, k: Kind|
            !deletes(reconcile_next(evac, seen, st, cfg, now, chance).1, k, n),
{
}

/// The guard on the source volume is dropped only once the evacuation has
/// nothing left to do to it: after the swap, with both copies settled; or at
/// the very end of unwinding, with the lock gone.
pub proof fn the_guard_goes_last(
    evac: ZFSEvacuation,
    seen: Seen,
    st: StatusView,
    cfg: Config,
    now: Option<Moment>,
    chance: Chance,
    name: Seq<char>,
)
    requires
        consistent(st),
        unguards(reconcile_next(evac, seen, st, cfg, now, chance).1, name),
    ensures
        (st.committed && both_copies_settled(evac, seen, st)) || (st.phase == Phase::Aborting
            && seen.stage == Stage::Unlocked),
{
    if st.phase == Phase::Swapping {
        let e = effects_of(swapping_next(evac, seen, st, cfg).1);
        let g = EffectView::EditFinalizers(Kind::ZfsVolume, name, FinalizerEdit::DropGuard);
        let i = choose|i: int| 0 <= i < e.len() && e[i] == g;
        assert(e[i] == g);
    } else {
        spared_elsewhere(evac, seen, st, cfg, now, chance);
    }
}

// ------------------------------------------------------------------ the lock

/// Does a step enter the stage at which the PVC is unlocked?
pub open spec fn enters_unlocked(step: StepView, seen: Seen) -> bool {
    &&& step is Run
    &&& step->Run_0.outcome == Outcome::Again(Stage::Unlocked)
    &&& seen.stage != Stage::Unlocked
}

/// Cleaning up and unwinding end only at the stage at which the PVC is unlocked,
/// and that stage is entered only with its unlocking.
pub proof fn cleanup_and_unwinding_unlock_first(
    evac: ZFSEvacuation,
    seen: Seen,
    st: StatusView,
    cfg: Config,
    now: Option<Moment>,
    chance: Chance,
)
    requires
        consistent(st),
        st.phase == Phase::CleaningUp || st.phase == Phase::Aborting,
    ensures
        ({
            let next = reconcile_next(evac, seen, st, cfg, now, chance);
            &&& terminal(next.0.phase) ==> seen.stage == Stage::Unlocked
            &&& effects_of(next.1).contains(EffectView::ReleaseEvacuation) ==> seen.stage
                == Stage::Unlocked
            &&& enters_unlocked(next.1, seen) && st.pvc_ref is Some ==> effects_of(
                next.1,
            ).contains(
                EffectView::Unlock(crate::controller::state_machine::key_of(st.pvc_ref->0)),
            )
        }),
{
    let next = reconcile_next(evac, seen, st, cfg, now, chance);
    let marked = crate::controller::state_machine::withdrawn_by_deletion(st);
    if st.phase == Phase::CleaningUp {
        cleaning_up_releases_last(evac, seen, st);
    } else {
        unwinding_releases_last(evac, seen, st);
        unwinding_releases_last(evac, seen, marked);
    }
}

/// Where an evacuation can end. Refused in Pending, it ends before anything was
/// touched; completed or unwound, once the PVC is unlocked. There are two more
/// ends, which touch nothing and so leave lock, guard and reclaim policy as they
/// are: a PV that is gone when its target is to be selected, and one that is
/// another by the time of the commit.
pub proof fn only_a_lost_pv_ends_locked(
    evac: ZFSEvacuation,
    seen: Seen,
    st: StatusView,
    cfg: Config,
    now: Option<Moment>,
    chance: Chance,
)
    requires
        consistent(st),
        !terminal(st.phase),
        terminal(reconcile_next(evac, seen, st, cfg, now, chance).0.phase),
    ensures
        ({
            let next = reconcile_next(evac, seen, st, cfg, now, chance);
            let untouched = next.0.phase == Phase::Failed && effects_of(next.1) =~= seq![
                EffectView::WriteStatus,
            ];
            match st.phase {
                Phase::Pending => untouched,
                Phase::TargetSelecting => untouched && seen.pv is Absent,
                Phase::Committing => untouched && (seen.pv matches Lookup::Found(pv) && opt(
                    pv.metadata.uid,
                ) != Some(st.source->0.pv_uid)),
                Phase::CleaningUp => next.0.phase == Phase::Completed && seen.stage
                    == Stage::Unlocked,
                Phase::Aborting => next.0.phase == Phase::Failed && seen.stage == Stage::Unlocked,
                _ => false,
            }
        }),
{
    let marked = crate::controller::state_machine::withdrawn_by_deletion(st);
    match st.phase {
        Phase::Pending => pending_ends_untouched(evac, seen, st),
        Phase::TargetSelecting => selecting_ends_without_its_pv(
            evac,
            seen,
            st,
            cfg,
            chance.volume,
        ),
        Phase::Transferring => transferring_does_not_end(evac, seen, st, cfg, now),
        Phase::Committing => committing_ends_with_another_pv(evac, seen, st, cfg),
        Phase::CleaningUp => cleaning_up_releases_last(evac, seen, st),
        Phase::Aborting => {
            unwinding_releases_last(evac, seen, st);
            unwinding_releases_last(evac, seen, marked);
        },
        _ => {},
    }
}

proof fn pending_ends_untouched(evac: ZFSEvacuation, seen: Seen, st: StatusView)
    requires
        st.phase == Phase::Pending,
    ensures
        ({
            let next = pending_next(evac, seen, st);
            terminal(next.0.phase) ==> next.0.phase == Phase::Failed && effects_of(next.1)
                =~= seq![EffectView::WriteStatus]
        }),
{
}

proof fn selecting_ends_without_its_pv(
    evac: ZFSEvacuation,
    seen: Seen,
    st: StatusView,
    cfg: Config,
    noise: u128,
)
    requires
        st.phase == Phase::TargetSelecting,
    ensures
        ({
            let next = target_selecting_next(evac, seen, st, cfg, noise);
            terminal(next.0.phase) ==> next.0.phase == Phase::Failed && effects_of(next.1)
                =~= seq![EffectView::WriteStatus] && seen.pv is Absent
        }),
{
}

proof fn transferring_does_not_end(
    evac: ZFSEvacuation,
    seen: Seen,
    st: StatusView,
    cfg: Config,
    now: Option<Moment>,
)
    requires
        st.phase == Phase::Transferring,
    ensures
        !terminal(transferring_next(evac, seen, st, cfg, now).0.phase),
{
}

proof fn committing_ends_with_another_pv(
    evac: ZFSEvacuation,
    seen: Seen,
    st: StatusView,
    cfg: Config,
)
    requires
        st.phase == Phase::Committing,
    ensures
        ({
            let next = committing_next(evac, seen, st, cfg);
            terminal(next.0.phase) ==> next.0.phase == Phase::Failed && effects_of(next.1)
                =~= seq![EffectView::WriteStatus] && (seen.pv matches Lookup::Found(pv) && opt(
                pv.metadata.uid,
            ) != Some(st.source->0.pv_uid))
        }),
{
}

/// Is there no effect among these that lets the evacuation go?
pub open spec fn holds_on(effects: Seq<EffectView>) -> bool {
    forall|i: int| 0 <= i < effects.len() ==> !(#[trigger] effects[i] is ReleaseEvacuation)
}

proof fn cleaning_up_releases_last(evac: ZFSEvacuation, seen: Seen, st: StatusView)
    requires
        st.phase == Phase::CleaningUp,
        st.source is Some,
    ensures
        ({
            let next = cleaning_up_next(evac, seen, st);
            &&& terminal(next.0.phase) ==> seen.stage == Stage::Unlocked
            &&& seen.stage != Stage::Unlocked ==> holds_on(effects_of(next.1))
            &&& enters_unlocked(next.1, seen) && st.pvc_ref is Some ==> effects_of(
                next.1,
            ).contains(
                EffectView::Unlock(crate::controller::state_machine::key_of(st.pvc_ref->0)),
            )
        }),
{
    let next = cleaning_up_next(evac, seen, st);
    if seen.stage != Stage::Unlocked && st.pvc_ref is Some {
        let u = crate::controller::abort::unlock_effects(st);
        assert(u[0] == EffectView::Unlock(
            crate::controller::state_machine::key_of(st.pvc_ref->0),
        ));
    }
}

proof fn unwinding_releases_last(evac: ZFSEvacuation, seen: Seen, st: StatusView)
    requires
        st.phase == Phase::Aborting,
    ensures
        ({
            let next = abort_next(evac, seen, st);
            &&& terminal(next.0.phase) ==> seen.stage == Stage::Unlocked
            &&& seen.stage != Stage::Unlocked ==> holds_on(effects_of(next.1))
            &&& enters_unlocked(next.1, seen) && st.pvc_ref is Some ==> effects_of(
                next.1,
            ).contains(
                EffectView::Unlock(crate::controller::state_machine::key_of(st.pvc_ref->0)),
            )
        }),
{
    let next = abort_next(evac, seen, st);
    if seen.stage != Stage::Unlocked && st.pvc_ref is Some {
        let front = crate::controller::abort::policy_effects(evac, seen, st);
        let u = crate::controller::abort::unlock_effects(st);
        let all = front + u;
        assert(all[front.len() as int] == u[0]);
    }
    if let Some(t) = st.transfer {
        if let TeardownView::Going(e) = teardown(seen, evac.metadata.any_name(), t.attempt, st) {
            assert(holds_on(e));
        }
    }
}

// ------------------------------------------------------------------ what blocks

/// A volume is copied, committed and swapped only while nothing blocks it: no
/// pod when it was waited for idle; when it is claimed, no scheduled pod and a
/// source node that repels pods, or is gone.
pub proof fn nothing_moves_while_blocked(
    evac: ZFSEvacuation,
    seen: Seen,
    st: StatusView,
    cfg: Config,
    now: Option<Moment>,
    chance: Chance,
)
    requires
        consistent(st),
        ({
            let next = reconcile_next(evac, seen, st, cfg, now, chance);
            ||| st.phase == Phase::Quiescing && next.0.phase == Phase::TargetSelecting
            ||| next.1 is Commit
        }),
    ensures
        seen.pods is Some,
        mode_of(evac, st) == EvacuationMode::WhenIdle ==> seen.pods->0@.len() == 0,
        mode_of(evac, st) == EvacuationMode::WhenClaimed ==> {
            &&& scheduled(seen.pods->0@).len() == 0
            &&& match seen.source_node {
                Lookup::Unread => false,
                Lookup::Absent => true,
                Lookup::Found(n) => repels(n, cfg.taint_key@),
            }
        },
{
    if st.phase == Phase::Committing {
        let n = committing_next(evac, seen, st, cfg);
        assert(n.1 is Commit);
        assert(blocking(evac, seen, st, cfg, seen.pods->0@) == BlockingView::Clear);
    } else if st.phase == Phase::Quiescing {
        let n = quiescing_next(evac, seen, st, cfg, now);
        assert(n.0.phase == Phase::TargetSelecting);
        assert(blocking(evac, seen, st, cfg, seen.pods->0@) == BlockingView::Clear);
    } else {
        commits_come_from_committing(evac, seen, st, cfg, now, chance);
    }
}

proof fn commits_come_from_committing(
    evac: ZFSEvacuation,
    seen: Seen,
    st: StatusView,
    cfg: Config,
    now: Option<Moment>,
    chance: Chance,
)
    requires
        st.phase != Phase::Committing,
    ensures
        !(reconcile_next(evac, seen, st, cfg, now, chance).1 is Commit),
{
    match st.phase {
        Phase::Pending => {
            assert(!(pending_next(evac, seen, st).1 is Commit));
        },
        Phase::TargetSelecting => {
            assert(!(target_selecting_next(evac, seen, st, cfg, chance.volume).1 is Commit));
        },
        Phase::Transferring => {
            assert(!(transferring_next(evac, seen, st, cfg, now).1 is Commit));
        },
        Phase::CleaningUp => {
            assert(!(cleaning_up_next(evac, seen, st).1 is Commit));
        },
        _ => {},
    }
}

/// Once the lock is taken the mode stays what it was, whatever becomes of the
/// spec.
pub proof fn the_mode_is_read_once(
    evac: ZFSEvacuation,
    other: ZFSEvacuation,
    seen: Seen,
    st: StatusView,
    cfg: Config,
    now: Option<Moment>,
    chance: Chance,
)
    requires
        consistent(st),
        is_locked(st.phase),
    ensures
        mode_of(evac, st) == mode_of(other, st),
        reconcile_next(evac, seen, st, cfg, now, chance).0.locked_mode == st.locked_mode,
{
    match st.phase {
        Phase::TargetSelecting => {
            assert(target_selecting_next(evac, seen, st, cfg, chance.volume).0.locked_mode
                == st.locked_mode);
        },
        Phase::Transferring => {
            assert(transferring_next(evac, seen, st, cfg, now).0.locked_mode == st.locked_mode);
        },
        Phase::CleaningUp => {
            assert(cleaning_up_next(evac, seen, st).0.locked_mode == st.locked_mode);
        },
        Phase::Committing => {
            assert(committing_next(evac, seen, st, cfg).0.locked_mode == st.locked_mode);
        },
        _ => {},
    }
}

// ------------------------------------------------------------------ attempts

/// Attempts are counted from one, each follows the last, and none is made
/// beyond those allowed.
pub proof fn attempts_are_bounded(
    evac: ZFSEvacuation,
    seen: Seen,
    st: StatusView,
    cfg: Config,
    now: Option<Moment>,
    chance: Chance,
)
    requires
        reconcile_next(evac, seen, st, cfg, now, chance).1 is Spawn,
    ensures
        st.phase == Phase::Transferring,
        ({
            let attempt = reconcile_next(evac, seen, st, cfg, now, chance).1->Spawn_0;
            match st.transfer {
                None => attempt == 1,
                Some(t) => attempt == t.attempt + 1 && attempt <= attempts_allowed(evac),
            }
        }),
{
    match st.phase {
        Phase::Pending => {
            assert(!(pending_next(evac, seen, st).1 is Spawn));
        },
        Phase::TargetSelecting => {
            assert(!(target_selecting_next(evac, seen, st, cfg, chance.volume).1 is Spawn));
        },
        Phase::CleaningUp => {
            assert(!(cleaning_up_next(evac, seen, st).1 is Spawn));
        },
        Phase::Transferring => {
            assert(transferring_next(evac, seen, st, cfg, now).1 is Spawn);
        },
        _ => {},
    }
}

/// A transfer whose two sides are both done is complete, whatever else is
/// known of it: a recorded failure, a relay that is gone, a clock that ran out.
pub proof fn done_wins_over_everything(o: ObsView)
    requires
        o.bkp_status == BKP_STATUS_DONE@,
        o.rst_status == BKP_STATUS_DONE@,
    ensures
        verdict(o) is Complete,
{
}

/// A stream that delivers bytes never times out; it can only stall, or be
/// failed by its agents.
pub proof fn flowing_streams_never_time_out(o: ObsView, elapsed: u64)
    requires
        o.mem is Some,
        flowing(o.mem->0),
    ensures
        verdict(o) == verdict(ObsView { elapsed_secs: elapsed, ..o }),
{
}

/// A stream that delivers nothing yet never stalls; only its attempt's timeout
/// bounds it.
pub proof fn waiting_streams_never_stall(o: ObsView, now_secs: u64)
    requires
        o.mem is Some,
        !flowing(o.mem->0),
    ensures
        verdict(o) == verdict(ObsView { now_secs, ..o }),
{
}

/// A relay newer than the recorded attempt is never stopped on account of the
/// clock, of missing CRs, or of its own state.
pub proof fn newer_relays_are_left_alone(o: ObsView)
    requires
        o.mem is Some,
        o.mem->0.attempt > o.attempt,
        o.failure_reason is None,
        o.bkp_status.len() == 0,
        o.rst_status.len() == 0,
    ensures
        verdict(o) == VerdictView::StaleStatus,
{
    reveal_strlit("Done");
    reveal_strlit("Failed");
    reveal_strlit("Invalid");
    assert(BKP_STATUS_DONE@.len() == 4);
    assert(crate::crd::openebs::BKP_STATUS_FAILED@.len() == 6);
    assert(crate::crd::openebs::BKP_STATUS_INVALID@.len() == 7);
}

/// The receive side is created only for a live relay of this very attempt whose
/// source has connected, and only if it does not exist.
pub proof fn the_target_is_dialed_after_the_source(o: ObsView)
    requires
        verdict(o) == VerdictView::CreateRestore,
    ensures
        o.mem matches Some(m) && m.attempt == o.attempt && m.source_connected,
        !o.rst_exists,
{
}

/// The delete of the target's transfer snapshot is never followed by another
/// registration.
pub proof fn a_destroyed_snapshot_is_not_registered_again(seen: Seen, st: StatusView)
    requires
        st.transfer matches Some(t) && t.target_snap_delete_issued,
    ensures
        destruction(seen, st) matches DestructionView::Going(e, m, i) ==> forall|k: int|
            0 <= k < e.len() ==> !(#[trigger] e[k] is CreateSnapshot),
{
}

// ------------------------------------------------------------------ cancelling

/// A withdrawn request is noted as such, and only a withdrawn one: what merely
/// lost its PV or PVC stays visible as failed.
pub proof fn withdrawals_are_noted(
    evac: ZFSEvacuation,
    seen: Seen,
    st: StatusView,
    cfg: Config,
    now: Option<Moment>,
    chance: Chance,
)
    requires
        consistent(st),
        !st.cancelled,
        reconcile_next(evac, seen, st, cfg, now, chance).0.cancelled,
    ensures
        !st.committed,
        reconcile_next(evac, seen, st, cfg, now, chance).0.phase == Phase::Aborting,
        cancel(evac, seen, st, cfg) matches CancelView::Because(_, withdrawn) && withdrawn,
{
    match st.phase {
        Phase::Pending => {
            assert(!pending_next(evac, seen, st).0.cancelled);
        },
        Phase::TargetSelecting => {
            assert(!target_selecting_next(evac, seen, st, cfg, chance.volume).0.cancelled);
        },
        Phase::Transferring => {
            assert(!transferring_next(evac, seen, st, cfg, now).0.cancelled);
        },
        Phase::CleaningUp => {
            assert(!cleaning_up_next(evac, seen, st).0.cancelled);
        },
        Phase::Committing => {
            assert(!committing_next(evac, seen, st, cfg).0.cancelled);
        },
        _ => {},
    }
}

// ------------------------------------------------------------------ reads

/// Is this still to be read?
pub open spec fn is_unread(need: NeedView, seen: Seen) -> bool {
    match need {
        NeedView::Pv => seen.pv is Unread,
        NeedView::Pvc(_, _) => seen.pvc is Unread,
        NeedView::Pods(_, _) => seen.pods is None,
        NeedView::SourceVolume(_) => seen.source_volume is Unread,
        NeedView::TargetVolume(_) => seen.target_volume is Unread,
        NeedView::Snapshots(_) => seen.has_snapshots is None,
        NeedView::SourceNode(_) => seen.source_node is Unread,
        NeedView::TargetNode(_) => seen.target_node is Unread,
        NeedView::SourceNodeByName(_) => seen.source_node_by_name is Unread,
        NeedView::Backup(_) => seen.backup is Unread,
        NeedView::Restore(_) => seen.restore is Unread,
        NeedView::TargetSnapshot(_) => seen.target_snapshot is Unread,
        NeedView::Relay => seen.relay is None,
        NeedView::Evacuations => seen.evacuations is None,
        NeedView::Inventory => seen.stock is None,
        NeedView::Siblings(_, _) => seen.siblings is None,
    }
}

/// Does a step ask only for what was not read yet?
pub open spec fn asks_for_news(step: StepView, seen: Seen) -> bool {
    step matches StepView::Read(n) ==> is_unread(n, seen)
}

proof fn parts_ask_for_news(
    evac: ZFSEvacuation,
    seen: Seen,
    st: StatusView,
    cfg: Config,
    attempt: u32,
)
    ensures
        teardown(seen, evac.metadata.any_name(), attempt, st) matches TeardownView::Read(n)
            ==> is_unread(n, seen),
        destruction(seen, st) matches DestructionView::Read(n) ==> is_unread(n, seen),
        seen.pods is Some ==> (blocking(evac, seen, st, cfg, seen.pods->0@) matches
            BlockingView::Read(n) ==> is_unread(n, seen)),
        cancel(evac, seen, st, cfg) matches CancelView::Read(n) ==> is_unread(n, seen),
        crate::controller::transfer::start_next(seen, st, attempt).1 matches StepView::Read(n)
            ==> is_unread(n, seen),
{
}

proof fn transferring_asks_for_news(
    evac: ZFSEvacuation,
    seen: Seen,
    st: StatusView,
    cfg: Config,
    now: Option<Moment>,
)
    ensures
        asks_for_news(transferring_next(evac, seen, st, cfg, now).1, seen),
{
    if let Some(t) = st.transfer {
        parts_ask_for_news(evac, seen, st, cfg, t.attempt);
        parts_ask_for_news(evac, seen, st, cfg, (t.attempt + 1) as u32);
    }
    parts_ask_for_news(evac, seen, st, cfg, 1);
}

proof fn late_phases_ask_for_news(evac: ZFSEvacuation, seen: Seen, st: StatusView, cfg: Config)
    ensures
        asks_for_news(committing_next(evac, seen, st, cfg).1, seen),
        asks_for_news(swapping_next(evac, seen, st, cfg).1, seen),
        asks_for_news(cleaning_up_next(evac, seen, st).1, seen),
{
    parts_ask_for_news(evac, seen, st, cfg, 1);
    if let Some(t) = st.transfer {
        parts_ask_for_news(evac, seen, st, cfg, t.attempt);
    }
}

proof fn unwinding_asks_for_news(evac: ZFSEvacuation, seen: Seen, st: StatusView, cfg: Config)
    ensures
        asks_for_news(abort_next(evac, seen, st).1, seen),
{
    if let Some(t) = st.transfer {
        parts_ask_for_news(evac, seen, st, cfg, t.attempt);
    }
}

proof fn pending_asks_for_news(evac: ZFSEvacuation, seen: Seen, st: StatusView)
    ensures
        asks_for_news(pending_next(evac, seen, st).1, seen),
{
}

proof fn selecting_asks_for_news(
    evac: ZFSEvacuation,
    seen: Seen,
    st: StatusView,
    cfg: Config,
    noise: u128,
)
    ensures
        asks_for_news(target_selecting_next(evac, seen, st, cfg, noise).1, seen),
{
}

proof fn quiescing_asks_for_news(
    evac: ZFSEvacuation,
    seen: Seen,
    st: StatusView,
    cfg: Config,
    now: Option<Moment>,
)
    ensures
        asks_for_news(quiescing_next(evac, seen, st, cfg, now).1, seen),
        asks_for_news(adopting_next(seen, st).1, seen),
{
    parts_ask_for_news(evac, seen, st, cfg, 1);
}

/// A step never asks twice for the same thing: what it asks for was not read
/// yet, so every reconcile comes to a decision after finitely many reads.
pub proof fn steps_ask_for_news(
    evac: ZFSEvacuation,
    seen: Seen,
    st: StatusView,
    cfg: Config,
    now: Option<Moment>,
    chance: Chance,
)
    ensures
        asks_for_news(reconcile_next(evac, seen, st, cfg, now, chance).1, seen),
{
    let marked = crate::controller::state_machine::withdrawn_by_deletion(st);
    unwinding_asks_for_news(evac, seen, st, cfg);
    unwinding_asks_for_news(evac, seen, marked, cfg);
    parts_ask_for_news(evac, seen, st, cfg, 1);
    match st.phase {
        Phase::Pending => pending_asks_for_news(evac, seen, st),
        Phase::Quiescing => quiescing_asks_for_news(evac, seen, st, cfg, now),
        Phase::Adopting => quiescing_asks_for_news(evac, seen, st, cfg, now),
        Phase::TargetSelecting => selecting_asks_for_news(evac, seen, st, cfg, chance.volume),
        Phase::Transferring => transferring_asks_for_news(evac, seen, st, cfg, now),
        Phase::Committing => late_phases_ask_for_news(evac, seen, st, cfg),
        Phase::Swapping => late_phases_ask_for_news(evac, seen, st, cfg),
        Phase::CleaningUp => late_phases_ask_for_news(evac, seen, st, cfg),
        _ => {},
    }
}

// ------------------------------------------------------------------ finalizers

/// An edit of finalizers that was made changes nothing when it is made again.
pub proof fn finalizer_edits_are_idempotent(edit: FinalizerEdit, current: Seq<Seq<char>>)
    ensures
        edited(edit, edited(edit, current)) == edited(edit, current),
{
    if let Some(f) = adds(edit) {
        if !current.contains(f) {
            assert(current.push(f)[current.len() as int] == f);
        }
    } else {
        let p = |f: Seq<char>| !drops(edit, f);
        current.filter_lemma(p);
        lemma_filter_all(current.filter(p), p);
    }
}

proof fn lemma_filter_all(s: Seq<Seq<char>>, p: spec_fn(Seq<char>) -> bool)
    requires
        forall|i: int| 0 <= i < s.len() ==> p(#[trigger] s[i]),
    ensures
        s.filter(p) == s,
    decreases s.len(),
{
    reveal(Seq::filter);
    if s.len() > 0 {
        assert forall|i: int| 0 <= i < s.drop_last().len() implies p(#[trigger] s.drop_last()[i]) by {
            assert(s[i] == s.drop_last()[i]);
        }
        lemma_filter_all(s.drop_last(), p);
        assert(p(s[s.len() - 1]));
        assert(s.drop_last().push(s.last()) =~= s);
    }
}

/// Dropping the guard undoes adding it, and leaves all other finalizers.
pub proof fn the_guard_leaves_no_trace(current: Seq<Seq<char>>)
    requires
        !current.contains(crate::crd::zfs_evacuation::GUARD_FINALIZER@),
    ensures
        edited(FinalizerEdit::DropGuard, edited(FinalizerEdit::AddGuard, current)) == current,
{
    let g = crate::crd::zfs_evacuation::GUARD_FINALIZER@;
    let p = |f: Seq<char>| !drops(FinalizerEdit::DropGuard, f);
    assert forall|i: int| 0 <= i < current.len() implies p(#[trigger] current[i]) by {
        assert(current.contains(current[i]));
    }
    lemma_filter_all(current, p);
    reveal(Seq::filter);
    assert(current.push(g).drop_last() =~= current);
}

// ------------------------------------------------------------------ nodes

/// A target is chosen only while no other evacuation sends from the source node,
/// and the target is another node, ready, unmarked, and receives no other
/// evacuation.
pub proof fn one_transfer_per_node(
    evac: ZFSEvacuation,
    seen: Seen,
    st: StatusView,
    cfg: Config,
    noise: u128,
)
    requires
        st.phase == Phase::TargetSelecting,
        target_selecting_next(evac, seen, st, cfg, noise).0.phase == Phase::Transferring,
    ensures
        seen.evacuations is Some,
        !sending(seen.evacuations->0@, evac.metadata.any_name(), st.source->0.node_id),
        ({
            let target = target_selecting_next(evac, seen, st, cfg, noise).0.target;
            let stock = seen.stock->0->Ok_0;
            &&& seen.stock matches Some(Ok(_))
            &&& target is Some
            &&& target->0.node_id != st.source->0.node_id
            &&& !receiving(stock.evacs@, evac.metadata.any_name(), target->0.node_id)
            &&& node_index(stock.nodes@, target->0.node_id) matches Some(n) && is_ready(
                stock.nodes@[n],
            ) && !has_taint(stock.nodes@[n], cfg.taint_key@)
        }),
{
    let group = if mode_of(evac, st) == EvacuationMode::WhenClaimed && consumer(
        seen.pods->0@,
    ) is Some {
        Some(
            group_of(
                consumer(seen.pods->0@)->0,
                evac.spec.pv_name@,
                st.pvc_ref->0.namespace,
                st.source->0.node_id,
                seen.siblings->0@,
            ),
        )
    } else {
        None
    };
    let input = selection(evac, st.source->0, group);
    let inv = inventory(seen.stock->0->Ok_0, cfg);
    assert(target_selecting_next(evac, seen, st, cfg, noise) == choice_next(
        evac,
        seen,
        st,
        cfg,
        noise,
        group,
    ));
    target_is_eligible(input, inv);
}

/// The volumes of a waiting pod land together: the target is a node that the pod
/// can be scheduled to; it is the one that the spec asks for, else the one that a
/// sibling has gone to; and where the volume leads its group, the zpool has room
/// for the whole of it.
pub proof fn groups_land_together(
    evac: ZFSEvacuation,
    seen: Seen,
    st: StatusView,
    cfg: Config,
    noise: u128,
    pod: Pod,
)
    requires
        st.phase == Phase::TargetSelecting,
        mode_of(evac, st) == EvacuationMode::WhenClaimed,
        seen.pods is Some,
        consumer(seen.pods->0@) == Some(pod),
        target_selecting_next(evac, seen, st, cfg, noise).0.phase == Phase::Transferring,
    ensures
        ({
            let next = target_selecting_next(evac, seen, st, cfg, noise).0;
            let group = group_of(
                pod,
                evac.spec.pv_name@,
                st.pvc_ref->0.namespace,
                st.source->0.node_id,
                seen.siblings->0@,
            );
            let input = selection(evac, st.source->0, Some(group));
            let inv = inventory(seen.stock->0->Ok_0, cfg);
            let id = next.target->0.node_id;
            &&& next.target is Some
            &&& next.colocation == placed_with(evac, Some(group))
            &&& node_index(inv.nodes, id) matches Some(n) && group.placement.allows(inv.nodes[n])
            &&& evac.spec.target_node matches Some(node) ==> stands_for(inv.nodes, node@, id)
            &&& follows(evac, Some(group)) ==> stands_for(
                inv.nodes,
                group.anchor->0.node,
                id,
            )
            &&& chosen(input, inv) matches Some(c) && c.node_id == id && (!follows(
                evac,
                Some(group),
            ) ==> c.left >= st.source->0.capacity_bytes + others_bytes(
                group.members,
                evac.spec.pv_name@,
            ))
        }),
{
    let group = group_of(
        pod,
        evac.spec.pv_name@,
        st.pvc_ref->0.namespace,
        st.source->0.node_id,
        seen.siblings->0@,
    );
    let input = selection(evac, st.source->0, Some(group));
    let inv = inventory(seen.stock->0->Ok_0, cfg);
    assert(target_selecting_next(evac, seen, st, cfg, noise) == choice_next(
        evac,
        seen,
        st,
        cfg,
        noise,
        Some(group),
    ));
    target_is_eligible(input, inv);
    assert(need(input) >= bytes(input));
}

/// Is an agent's finalizer taken off only where the agent's node is gone?
pub open spec fn spares_agents(e: EffectView, seen: Seen, st: StatusView) -> bool {
    e matches EffectView::EditFinalizers(kind, name, edit) ==> edit == FinalizerEdit::DropZfs
        ==> match kind {
        Kind::ZfsBackup => seen.source_node is Absent,
        Kind::ZfsRestore => seen.target_node is Absent,
        Kind::ZfsSnapshot => seen.target_node is Absent,
        Kind::ZfsVolume => (new_handle(st) == Some(name) && seen.target_node is Absent) || (
        st.source is Some && st.source->0.volume_handle == name && seen.source_node is Absent),
        Kind::PersistentVolume => false,
    }
}

/// Do all of these effects spare the agents' finalizers?
pub open spec fn all_spare(effects: Seq<EffectView>, seen: Seen, st: StatusView) -> bool {
    forall|i: int| 0 <= i < effects.len() ==> spares_agents(#[trigger] effects[i], seen, st)
}

proof fn teardown_spares(seen: Seen, evac: Seq<char>, attempt: u32, st: StatusView)
    ensures
        teardown(seen, evac, attempt, st) matches TeardownView::Going(e) ==> all_spare(
            e,
            seen,
            st,
        ),
{
}

proof fn destruction_spares(seen: Seen, st: StatusView)
    ensures
        destruction(seen, st) matches DestructionView::Going(e, m, i) ==> all_spare(e, seen, st),
{
}

proof fn cleaning_up_spares(evac: ZFSEvacuation, seen: Seen, st: StatusView)
    ensures
        all_spare(effects_of(cleaning_up_next(evac, seen, st).1), seen, st),
{
    if let Some(t) = st.transfer {
        teardown_spares(seen, evac.metadata.any_name(), t.attempt, st);
    }
    destruction_spares(seen, st);
}

proof fn transferring_spares(
    evac: ZFSEvacuation,
    seen: Seen,
    st: StatusView,
    cfg: Config,
    now: Option<Moment>,
)
    ensures
        all_spare(effects_of(transferring_next(evac, seen, st, cfg, now).1), seen, st),
{
    if let Some(t) = st.transfer {
        teardown_spares(seen, evac.metadata.any_name(), t.attempt, st);
    }
}

proof fn unwinding_spares(evac: ZFSEvacuation, seen: Seen, st: StatusView)
    ensures
        all_spare(effects_of(abort_next(evac, seen, st).1), seen, st),
{
    if let Some(t) = st.transfer {
        teardown_spares(seen, evac.metadata.any_name(), t.attempt, st);
    }
}

proof fn selecting_spares(
    evac: ZFSEvacuation,
    seen: Seen,
    st: StatusView,
    cfg: Config,
    noise: u128,
)
    ensures
        all_spare(effects_of(target_selecting_next(evac, seen, st, cfg, noise).1), seen, st),
{
}

proof fn swaps_spare(evac: ZFSEvacuation, seen: Seen, st: StatusView, cfg: Config)
    ensures
        all_spare(effects_of(committing_next(evac, seen, st, cfg).1), seen, st),
        all_spare(effects_of(swapping_next(evac, seen, st, cfg).1), seen, st),
{
}

proof fn early_phases_spare(
    evac: ZFSEvacuation,
    seen: Seen,
    st: StatusView,
    cfg: Config,
    now: Option<Moment>,
)
    ensures
        all_spare(effects_of(pending_next(evac, seen, st).1), seen, st),
        all_spare(effects_of(guarding_next(st).1), seen, st),
        all_spare(effects_of(retaining_next(evac, st).1), seen, st),
        all_spare(effects_of(locking_next(evac, st, now).1), seen, st),
        all_spare(effects_of(quiescing_next(evac, seen, st, cfg, now).1), seen, st),
        all_spare(effects_of(adopting_next(seen, st).1), seen, st),
{
}

/// The finalizer by which a node agent destroys a dataset or a snapshot is taken
/// off only where that node is gone, and the disk with it.
pub proof fn agents_finish_their_work(
    evac: ZFSEvacuation,
    seen: Seen,
    st: StatusView,
    cfg: Config,
    now: Option<Moment>,
    chance: Chance,
)
    ensures
        all_spare(effects_of(reconcile_next(evac, seen, st, cfg, now, chance).1), seen, st),
{
    let marked = crate::controller::state_machine::withdrawn_by_deletion(st);
    unwinding_spares(evac, seen, st);
    unwinding_spares(evac, seen, marked);
    cleaning_up_spares(evac, seen, st);
    transferring_spares(evac, seen, st, cfg, now);
    selecting_spares(evac, seen, st, cfg, chance.volume);
    swaps_spare(evac, seen, st, cfg);
    early_phases_spare(evac, seen, st, cfg, now);
    let e = effects_of(abort_next(evac, seen, marked).1);
    assert forall|i: int| 0 <= i < e.len() implies spares_agents(#[trigger] e[i], seen, st) by {
        assert(spares_agents(e[i], seen, marked));
    }
}

} // verus!
