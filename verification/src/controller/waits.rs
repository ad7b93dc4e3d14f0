//! How long is waited for what, what is written when something changes, and what
//! comes before the phases.
use vstd::prelude::*;

use crate::controller::abort::abort_next;
use crate::controller::admission::{is_held, lemma_held};
use crate::controller::clock::{rfc3339_moment, rfc3339_text, Moment};
use crate::controller::laws::effects_of;
use crate::controller::order::lemma_writes;
use crate::controller::plan::{Action, EffectView, Kind, Outcome, Seen, Stage, StepView};
use crate::controller::pods::{
    at_rest, mode_in_force, nanos, volumes_at_rest_are_not_blocked,
};
use crate::controller::pv_swap::{committing_next, swapping_next};
use crate::controller::state_machine::{
    adopting_next, cleaning_up_next, pending_next, quiescing_next, reconcile_next,
    target_selecting_next, Chance,
};
use crate::controller::transfer::{
    destruction, observed, teardown, transferring_next, verdict, DestructionView, VerdictView,
};
use crate::controller::Config;
use crate::crd::zfs_evacuation::{Phase, StatusView, TransferView, ZFSEvacuation};

verus! {

/// An evacuation is held by our finalizer before anything else is done for it,
/// and this is done only where it is missing.
pub proof fn evacuations_are_held_first(
    evac: ZFSEvacuation,
    seen: Seen,
    st: StatusView,
    cfg: Config,
    now: Option<Moment>,
    chance: Chance,
)
    requires
        st.phase != Phase::Completed && st.phase != Phase::Failed,
        evac.metadata.deletion_timestamp is None,
        seen.stage == Stage::Begin,
    ensures
        ({
            let next = reconcile_next(evac, seen, st, cfg, now, chance);
            !is_held(evac) ==> next.0 == st && effects_of(next.1) =~= seq![
                EffectView::HoldEvacuation,
            ] && next.1->Run_0.outcome == Outcome::Again(Stage::Held)
        }),
{
    lemma_held(evac);
}

/// What is committed to and what is being unwound go on in every reconcile,
/// without being asked whether they are still wanted.
pub proof fn some_phases_go_on_unasked(
    evac: ZFSEvacuation,
    seen: Seen,
    st: StatusView,
    cfg: Config,
    now: Option<Moment>,
    chance: Chance,
)
    requires
        evac.metadata.deletion_timestamp is None,
        seen.stage != Stage::Begin || is_held(evac),
    ensures
        st.phase == Phase::Aborting ==> reconcile_next(evac, seen, st, cfg, now, chance)
            == abort_next(evac, seen, st),
        st.phase == Phase::Pending ==> reconcile_next(evac, seen, st, cfg, now, chance)
            == pending_next(evac, seen, st),
        st.phase == Phase::Swapping && st.committed ==> reconcile_next(
            evac,
            seen,
            st,
            cfg,
            now,
            chance,
        ) == swapping_next(evac, seen, st, cfg),
        st.phase == Phase::CleaningUp && st.committed ==> reconcile_next(
            evac,
            seen,
            st,
            cfg,
            now,
            chance,
        ) == cleaning_up_next(evac, seen, st),
{
    lemma_held(evac);
}

/// What has ended does nothing more, but is let go once it is deleted.
pub proof fn ended_evacuations_are_let_go(
    evac: ZFSEvacuation,
    seen: Seen,
    st: StatusView,
    cfg: Config,
    now: Option<Moment>,
    chance: Chance,
)
    requires
        st.phase == Phase::Completed || st.phase == Phase::Failed,
    ensures
        ({
            let next = reconcile_next(evac, seen, st, cfg, now, chance);
            &&& next.0 == st
            &&& next.1 is Run
            &&& next.1->Run_0.outcome == Outcome::Done(Action::AwaitChange)
            &&& effects_of(next.1) =~= if evac.metadata.deletion_timestamp is Some {
                seq![EffectView::ReleaseEvacuation]
            } else {
                Seq::empty()
            }
        }),
{
}

/// The machine runs the phase that the status is in.
pub proof fn each_phase_runs_its_own(
    evac: ZFSEvacuation,
    seen: Seen,
    st: StatusView,
    cfg: Config,
    now: Option<Moment>,
    chance: Chance,
)
    requires
        evac.metadata.deletion_timestamp is None,
        seen.stage == Stage::Checked,
    ensures
        ({
            let next = reconcile_next(evac, seen, st, cfg, now, chance);
            match st.phase {
                Phase::Pending => next == pending_next(evac, seen, st),
                Phase::Quiescing => next == quiescing_next(evac, seen, st, cfg, now),
                Phase::TargetSelecting => next == target_selecting_next(
                    evac,
                    seen,
                    st,
                    cfg,
                    chance.volume,
                ),
                Phase::Transferring => next == transferring_next(evac, seen, st, cfg, now),
                Phase::Adopting => next == adopting_next(seen, st),
                Phase::Committing => next == committing_next(evac, seen, st, cfg),
                Phase::Swapping => next == swapping_next(evac, seen, st, cfg),
                Phase::CleaningUp => next == cleaning_up_next(evac, seen, st),
                Phase::Aborting => next == abort_next(evac, seen, st),
                Phase::Guarding => next == crate::controller::state_machine::guarding_next(st),
                Phase::Retaining => next == crate::controller::state_machine::retaining_next(
                    evac,
                    st,
                ),
                Phase::Locking => next == crate::controller::state_machine::locking_next(
                    evac,
                    st,
                    now,
                ),
                _ => next.0 == st,
            }
        }),
{
}

// ------------------------------------------------------------------ Quiescing

/// The rest of a volume is recorded when it begins, at the second it is now, and
/// is then waited out; a record that cannot be read, or that is ahead of the
/// clock, is made anew. While the lock takes hold nothing is looked at.
pub proof fn rest_is_recorded_and_waited_out(
    evac: ZFSEvacuation,
    seen: Seen,
    st: StatusView,
    cfg: Config,
    now: Option<Moment>,
)
    requires
        st.phase == Phase::Quiescing,
        st.pvc_ref is Some,
        st.source is Some,
        seen.pods is Some,
        seen.source_node !is Unread,
        now is Some,
        now->0.secs <= 253_402_300_799,
        now->0.nanos < 1_000_000_000,
        st.locked_at is Some,
        rfc3339_moment(st.locked_at->0) is Some,
        rfc3339_moment(st.locked_at->0)->0.nanos < 1_000_000_000,
        nanos(now->0) >= nanos(rfc3339_moment(st.locked_at->0)->0),
    ensures
        ({
            let next = quiescing_next(evac, seen, st, cfg, now);
            let since_lock = nanos(now->0) - nanos(rfc3339_moment(st.locked_at->0)->0);
            let rest = at_rest(
                mode_in_force(evac, st),
                seen.pods->0@,
                seen.source_node,
                cfg.taint_key@,
            );
            let asked = if evac.spec.settle_seconds is Some {
                evac.spec.settle_seconds->0
            } else {
                90
            };
            &&& since_lock < 5_000_000_000 ==> next.0 == st && effects_of(next.1) =~= Seq::empty()
                && next.1->Run_0.outcome == Outcome::Done(
                Action::RequeueSecs((5 - since_lock / 1_000_000_000) as u64),
            )
            &&& since_lock >= 5_000_000_000 && !rest ==> next.1 is Run
                && next.1->Run_0.outcome == Outcome::Done(Action::RequeueSecs(15))
                && next.0.quiesced_at is None
            &&& since_lock >= 5_000_000_000 && rest && (st.quiesced_at is None || rfc3339_moment(
                st.quiesced_at->0,
            ) is None || nanos(rfc3339_moment(st.quiesced_at->0)->0) > nanos(now->0)) ==> next.0 == (
            StatusView { quiesced_at: Some(rfc3339_text(now->0.secs)), ..st }) && effects_of(
                next.1,
            ) =~= seq![EffectView::WriteStatus] && next.1->Run_0.outcome == Outcome::Done(
                Action::RequeueSecs(asked),
            )
        }),
{
    volumes_at_rest_are_not_blocked(evac, seen, st, cfg, seen.pods->0@);
}

/// The time at which the lock was taken is recorded as the second it is now.
pub proof fn locks_are_timed(evac: ZFSEvacuation, st: StatusView, now: Option<Moment>)
    requires
        st.pvc_ref is Some,
        now is Some,
        now->0.secs <= 253_402_300_799,
    ensures
        crate::controller::state_machine::locking_next(evac, st, now).0.locked_at == Some(
            rfc3339_text(now->0.secs),
        ),
{
}

// ------------------------------------------------------------------ waiting

/// While no target is to be had it is looked for every minute.
pub proof fn targets_are_looked_for_every_minute(
    evac: ZFSEvacuation,
    seen: Seen,
    st: StatusView,
    cfg: Config,
    noise: u128,
)
    requires
        st.phase == Phase::TargetSelecting,
    ensures
        ({
            let next = target_selecting_next(evac, seen, st, cfg, noise);
            next.1 is Run && next.0.phase == Phase::TargetSelecting ==> next.1->Run_0.outcome
                == Outcome::Done(Action::RequeueSecs(60)) && next.0.message is Some && next.0 == (
            StatusView { message: next.0.message, ..st }) && effects_of(next.1) =~= (
            if st.message == next.0.message {
                Seq::empty()
            } else {
                seq![EffectView::WriteStatus]
            })
        }),
{
}

/// A transfer under way is looked at again soon: after two seconds while its
/// source is awaited, after ten while it runs, with its bytes written when they
/// changed.
pub proof fn transfers_are_watched(
    evac: ZFSEvacuation,
    seen: Seen,
    st: StatusView,
    cfg: Config,
    now: Option<Moment>,
)
    requires
        st.phase == Phase::Transferring,
        st.transfer is Some,
        seen.backup !is Unread,
        seen.restore !is Unread,
        seen.relay is Some,
    ensures
        ({
            let next = transferring_next(evac, seen, st, cfg, now);
            let v = verdict(observed(evac, seen, st.transfer->0, cfg.stall_seconds, now));
            &&& v is WaitingForSource ==> next.0.transfer == st.transfer && next.0.phase
                == st.phase && next.1->Run_0.outcome == Outcome::Done(Action::RequeueSecs(2))
            &&& v is StaleStatus ==> next.0 == st && effects_of(next.1) =~= Seq::empty()
                && next.1->Run_0.outcome == Outcome::Done(Action::RequeueSecs(2))
            &&& v is StaleRelay ==> next.0 == st && effects_of(next.1) =~= seq![
                EffectView::DropRelay,
            ] && next.1->Run_0.outcome == Outcome::Done(Action::RequeueSecs(1))
            &&& v matches VerdictView::Continue(bytes) ==> {
                &&& next.0.phase == st.phase
                &&& next.0.transfer is Some
                &&& next.0.transfer->0.bytes_relayed == Some(bytes)
                &&& next.0.transfer->0.attempt == st.transfer->0.attempt
                &&& next.0.transfer->0.failure_reason == st.transfer->0.failure_reason
                &&& next.1->Run_0.outcome == Outcome::Done(Action::RequeueSecs(10))
                &&& effects_of(next.1) =~= (if st.transfer->0.bytes_relayed == Some(bytes) {
                    Seq::empty()
                } else {
                    seq![EffectView::WriteStatus]
                })
            }
        }),
{
}

/// Whatever is waited for after the copy is looked at again within fifteen
/// seconds.
pub proof fn late_waits_are_short(
    evac: ZFSEvacuation,
    seen: Seen,
    st: StatusView,
    cfg: Config,
)
    ensures
        st.phase == Phase::Adopting ==> soon(adopting_next(seen, st).1, 5),
        st.phase == Phase::Committing ==> soon(committing_next(evac, seen, st, cfg).1, 15),
        st.phase == Phase::Swapping ==> soon(swapping_next(evac, seen, st, cfg).1, 10),
        st.phase == Phase::CleaningUp ==> soon(cleaning_up_next(evac, seen, st).1, 10),
        st.phase == Phase::Aborting ==> soon(abort_next(evac, seen, st).1, 5),
{
}

/// Is a step that waits to be looked at again within so many seconds?
pub open spec fn soon(step: StepView, secs: u64) -> bool {
    step is Run ==> (step->Run_0.outcome matches Outcome::Done(Action::RequeueSecs(n)) ==> 0 < n
        <= secs)
}

/// That the target's transfer snapshot is being destroyed is recorded with its
/// deletion, and with nothing else.
pub proof fn snapshot_deletions_are_recorded(
    evac: ZFSEvacuation,
    seen: Seen,
    st: StatusView,
)
    requires
        st.phase == Phase::CleaningUp,
        st.source is Some,
        st.transfer is Some,
        st.target is Some,
        seen.stage != Stage::Unlocked,
        teardown(seen, evac.metadata.any_name(), st.transfer->0.attempt, st) is Gone,
    ensures
        ({
            let next = cleaning_up_next(evac, seen, st);
            let d = destruction(seen, st);
            &&& next.0.transfer is Some
            &&& next.0.transfer->0.target_snap_delete_issued <==> (
            st.transfer->0.target_snap_delete_issued || (d matches DestructionView::Going(
                _,
                _,
                true,
            )))
            &&& next.0.transfer->0.attempt == st.transfer->0.attempt
            &&& next.0.transfer->0.snap_name == st.transfer->0.snap_name
            &&& next.0.phase == Phase::CleaningUp
            &&& next.0.transfer != st.transfer ==> effects_of(next.1).contains(
                EffectView::WriteStatus,
            )
            &&& effects_of(next.1).contains(
                EffectView::Delete(Kind::ZfsSnapshot, st.transfer->0.snap_name),
            ) ==> next.0.transfer->0.target_snap_delete_issued
        }),
{
    let next = cleaning_up_next(evac, seen, st);
    let e = effects_of(next.1);
    if let DestructionView::Going(g, _, issued) = destruction(seen, st) {
        if issued {
            assert(e == g.push(EffectView::WriteStatus));
            assert(e[g.len() as int] == EffectView::WriteStatus);
        }
    }
    if !next.0.transfer->0.target_snap_delete_issued {
        assert forall|i: int| 0 <= i < e.len() implies !(#[trigger] e[i]
            == EffectView::Delete(Kind::ZfsSnapshot, st.transfer->0.snap_name)) by {}
    }
}

/// A message that does not change is not written again.
pub proof fn messages_are_written_once(
    st: StatusView,
    effects: Seq<EffectView>,
    message: Seq<char>,
    secs: u64,
)
    ensures
        ({
            let next = crate::controller::state_machine::waiting(st, effects, message, secs);
            &&& next.0 == (StatusView { message: Some(message), ..st })
            &&& next.1->Run_0.outcome == Outcome::Done(Action::RequeueSecs(secs))
            &&& st.message == Some(message) ==> effects_of(next.1) == effects
            &&& st.message != Some(message) ==> effects_of(next.1) == effects.push(
                EffectView::WriteStatus,
            )
        }),
{
}

// ------------------------------------------------------------------ the status

/// Is a change of the status planned and written? The one exception is the reason
/// for which an attempt failed, which is kept at hand while the attempt is taken
/// down, and written with what follows.
pub open spec fn is_written(st: StatusView, next: (StatusView, StepView)) -> bool {
    next.0 != st ==> next.1 is Run && (effects_of(next.1).contains(EffectView::WriteStatus) || (
    st.phase == Phase::Transferring && st.transfer is Some && next.0.transfer is Some && next.0 == (
    StatusView {
        transfer: Some(
            TransferView { failure_reason: next.0.transfer->0.failure_reason, ..st.transfer->0 },
        ),
        ..st
    })))
}

proof fn first_changes_are_written(
    evac: ZFSEvacuation,
    seen: Seen,
    st: StatusView,
    cfg: Config,
    now: Option<Moment>,
    noise: u128,
)
    ensures
        is_written(st, pending_next(evac, seen, st)),
        is_written(st, crate::controller::state_machine::guarding_next(st)),
        is_written(st, crate::controller::state_machine::retaining_next(evac, st)),
        is_written(st, crate::controller::state_machine::locking_next(evac, st, now)),
        is_written(st, quiescing_next(evac, seen, st, cfg, now)),
        is_written(st, target_selecting_next(evac, seen, st, cfg, noise)),
{
    lemma_writes();
}

proof fn transfers_are_written(
    evac: ZFSEvacuation,
    seen: Seen,
    st: StatusView,
    cfg: Config,
    now: Option<Moment>,
)
    requires
        st.phase == Phase::Transferring,
    ensures
        is_written(st, transferring_next(evac, seen, st, cfg, now)),
{
    lemma_writes();
}

proof fn late_changes_are_written(
    evac: ZFSEvacuation,
    seen: Seen,
    st: StatusView,
    cfg: Config,
)
    ensures
        is_written(st, adopting_next(seen, st)),
        is_written(st, committing_next(evac, seen, st, cfg)),
        is_written(st, swapping_next(evac, seen, st, cfg)),
        is_written(st, cleaning_up_next(evac, seen, st)),
        is_written(st, abort_next(evac, seen, st)),
{
    lemma_writes();
    if seen.stage == Stage::Unlocked && st.source is Some && seen.pv !is Unread {
        let e = effects_of(cleaning_up_next(evac, seen, st).1);
        assert(e[e.len() - 2] == EffectView::WriteStatus);
    }
}

/// Whatever changes in the status is written with the step that changes it, for
/// as long as the evacuation is not deleted; reading, failing to go on, starting a
/// relay and committing change nothing.
pub proof fn changes_are_written(
    evac: ZFSEvacuation,
    seen: Seen,
    st: StatusView,
    cfg: Config,
    now: Option<Moment>,
    chance: Chance,
)
    requires
        evac.metadata.deletion_timestamp is None,
    ensures
        is_written(st, reconcile_next(evac, seen, st, cfg, now, chance)),
{
    lemma_writes();
    first_changes_are_written(evac, seen, st, cfg, now, chance.volume);
    if st.phase == Phase::Transferring {
        transfers_are_written(evac, seen, st, cfg, now);
    }
    late_changes_are_written(evac, seen, st, cfg);
}

/// A relay that runs for this attempt, or for a later one, is not started over but
/// waited for.
pub proof fn live_relays_are_waited_for(seen: Seen, st: StatusView, attempt: u32)
    requires
        st.source is Some,
        st.target is Some,
        seen.relay is Some,
        seen.relay->0 is Some,
        (seen.relay->0)->0.attempt >= attempt,
    ensures
        ({
            let next = crate::controller::transfer::start_next(seen, st, attempt);
            &&& next.0 == st
            &&& next.1 is Run
            &&& effects_of(next.1) =~= Seq::empty()
            &&& next.1->Run_0.outcome == Outcome::Done(Action::RequeueSecs(5))
        }),
{
}

/// While a failed attempt is taken down its reason is kept, and the message says
/// which attempt failed and why.
pub proof fn failed_attempts_are_taken_down(
    evac: ZFSEvacuation,
    seen: Seen,
    st: StatusView,
    t: TransferView,
    reason: Seq<char>,
)
    requires
        st.phase == Phase::Transferring,
        st.transfer == Some(t),
        seen.relay == Some(None::<crate::controller::transfer::RelayObs>),
        teardown(seen, evac.metadata.any_name(), t.attempt, st) is Going,
    ensures
        ({
            let next = crate::controller::transfer::retry_next(evac, seen, st, t, reason);
            &&& next.0.phase == Phase::Transferring
            &&& next.0.transfer == Some(TransferView { failure_reason: Some(reason), ..t })
            &&& next.0.message == Some(
                "attempt "@ + crate::text::decimal(t.attempt as nat) + " failed ("@ + reason
                    + "); cleaning up"@,
            )
            &&& next.1 is Run
            &&& next.1->Run_0.outcome == Outcome::Done(Action::RequeueSecs(10))
        }),
{
}

} // verus!
