//! How a volume changes hands: what is taken before anything moves, what the
//! replacement PV says, when it takes the old one's place, and what is left
//! behind when the move is done or called off.
use vstd::prelude::*;

use crate::cluster::{Lookup, MetaView, PersistentVolume, PvSpecView};
use crate::controller::abort::abort_next;
use crate::controller::clock::Moment;
use crate::controller::laws::{consistent, deletes, effects_of, the_source_goes_last};
use crate::controller::plan::{edited, EffectView, FinalizerEdit, Kind, Outcome, Seen, Stage};
use crate::controller::pods::{at_rest, mode_in_force, volumes_at_rest_are_not_blocked};
use crate::controller::pv_swap::{committed_next, committing_next, replacement, swapping_next};
use crate::controller::state_machine::{
    cleaning_up_next, guarding_next, locking_next, reconcile_next, retaining_next, source_removal,
    Chance,
};
use crate::controller::transfer::{destruction, teardown};
use crate::controller::Config;
use crate::crd::zfs_evacuation::{
    EvacuationMode, Phase, PvcRef, PvcView, SourceView, StatusView, TargetInfo, TargetView,
    ZFSEvacuation,
};
use crate::text::views;

verus! {

// ------------------------------------------------------------------ what is taken

/// Before anything else the source volume is guarded: that volume, and with the
/// guard alone.
pub proof fn the_source_is_guarded(st: StatusView)
    requires
        st.phase == Phase::Guarding,
        st.source is Some,
    ensures
        guarding_next(st).0.phase == Phase::Retaining,
        effects_of(guarding_next(st).1) =~= seq![
            EffectView::EditFinalizers(
                Kind::ZfsVolume,
                st.source->0.volume_handle,
                FinalizerEdit::AddGuard,
            ),
            EffectView::WriteStatus,
        ],
{
}

/// The old PV is retained before its claim is locked.
pub proof fn the_old_pv_is_retained(evac: ZFSEvacuation, st: StatusView)
    requires
        st.phase == Phase::Retaining,
    ensures
        retaining_next(evac, st).0.phase == Phase::Locking,
        effects_of(retaining_next(evac, st).1) =~= seq![
            EffectView::SetReclaimPolicy(evac.spec.pv_name@, "Retain"@),
            EffectView::WriteStatus,
        ],
{
}

/// The claim is locked under its namespace and name, in the mode that is asked
/// for, which is recorded.
pub proof fn the_claim_is_locked(evac: ZFSEvacuation, st: StatusView, now: Option<Moment>)
    requires
        st.phase == Phase::Locking,
        st.pvc_ref is Some,
    ensures
        ({
            let next = locking_next(evac, st, now);
            let p = st.pvc_ref->0;
            &&& next.0.phase == Phase::Quiescing
            &&& next.0.locked_mode == Some(evac.spec.mode)
            &&& next.0.locked_at is Some
            &&& next.0.pvc_ref == st.pvc_ref
            &&& next.0.source == st.source
            &&& next.0.original_reclaim_policy == st.original_reclaim_policy
            &&& effects_of(next.1) =~= seq![
                EffectView::Lock(p.namespace + "/"@ + p.name, evac.spec.mode),
                EffectView::MarkPvc(p.namespace, p.name),
                EffectView::WriteStatus,
            ]
        }),
{
}

// ------------------------------------------------------------------ finalizers

/// Adding a finalizer adds that one, once, and takes none off: the guard is
/// `zfsevac.alumino.us/guard`, the hold on an evacuation
/// `zfsevac.alumino.us/cleanup`.
pub proof fn finalizers_are_added_once(current: Seq<Seq<char>>, f: Seq<char>)
    ensures
        edited(FinalizerEdit::AddGuard, current).contains(f) <==> current.contains(f) || f
            == "zfsevac.alumino.us/guard"@,
        edited(FinalizerEdit::AddHold, current).contains(f) <==> current.contains(f) || f
            == "zfsevac.alumino.us/cleanup"@,
        current.contains("zfsevac.alumino.us/guard"@) ==> edited(FinalizerEdit::AddGuard, current)
            == current,
        current.contains("zfsevac.alumino.us/cleanup"@) ==> edited(FinalizerEdit::AddHold, current)
            == current,
        edited(FinalizerEdit::AddGuard, current).len() <= current.len() + 1,
        edited(FinalizerEdit::AddHold, current).len() <= current.len() + 1,
{
    let g = "zfsevac.alumino.us/guard"@;
    let h = "zfsevac.alumino.us/cleanup"@;
    lemma_push_contains(current, g, f);
    lemma_push_contains(current, h, f);
}

proof fn lemma_push_contains(s: Seq<Seq<char>>, x: Seq<char>, f: Seq<char>)
    ensures
        s.push(x).contains(f) <==> s.contains(f) || f == x,
{
    let t = s.push(x);
    if s.contains(f) {
        let i = choose|i: int| 0 <= i < s.len() && s[i] == f;
        assert(t[i] == f);
    }
    if t.contains(f) {
        let i = choose|i: int| 0 <= i < t.len() && t[i] == f;
        if i < s.len() {
            assert(s[i] == f);
        }
    }
    assert(t[s.len() as int] == x);
}

proof fn lemma_filtered(s: Seq<Seq<char>>, p: spec_fn(Seq<char>) -> bool, f: Seq<char>)
    ensures
        s.filter(p).contains(f) <==> s.contains(f) && p(f),
    decreases s.len(),
{
    reveal(Seq::filter);
    if s.len() > 0 {
        let front = s.drop_last();
        lemma_filtered(front, p, f);
        assert(s =~= front.push(s.last()));
        lemma_push_contains(front, s.last(), f);
        lemma_push_contains(front.filter(p), s.last(), f);
    }
}

/// Taking finalizers off takes off those that are meant, and no other: the
/// guard; the agents' own; the two that protect a PV; the hold on an evacuation.
pub proof fn finalizers_are_taken_off_by_name(current: Seq<Seq<char>>, f: Seq<char>)
    ensures
        edited(FinalizerEdit::DropGuard, current).contains(f) <==> current.contains(f) && f
            != "zfsevac.alumino.us/guard"@,
        edited(FinalizerEdit::DropZfs, current).contains(f) <==> current.contains(f) && f
            != "zfs.openebs.io/finalizer"@,
        edited(FinalizerEdit::DropPvBlockers, current).contains(f) <==> current.contains(f) && f
            != "kubernetes.io/pv-protection"@ && f
            != "external-provisioner.volume.kubernetes.io/finalizer"@,
        edited(FinalizerEdit::DropHold, current).contains(f) <==> current.contains(f) && f
            != "zfsevac.alumino.us/cleanup"@,
{
    lemma_filtered(
        current,
        |f: Seq<char>| !crate::controller::plan::drops(FinalizerEdit::DropGuard, f),
        f,
    );
    lemma_filtered(
        current,
        |f: Seq<char>| !crate::controller::plan::drops(FinalizerEdit::DropZfs, f),
        f,
    );
    lemma_filtered(
        current,
        |f: Seq<char>| !crate::controller::plan::drops(FinalizerEdit::DropPvBlockers, f),
        f,
    );
    lemma_filtered(
        current,
        |f: Seq<char>| !crate::controller::plan::drops(FinalizerEdit::DropHold, f),
        f,
    );
}

// ------------------------------------------------------------------ the replacement

/// The replacement's claimRef names exactly the claim it is made for: its
/// namespace is the claim's namespace, its name the claim's name and its uid the
/// claim's uid. Where the old PV was that claim's, both name the same claim.
pub proof fn replacements_name_their_claim(
    old_meta: MetaView,
    old_spec: PvSpecView,
    pvc: PvcView,
    target: TargetView,
)
    ensures
        ({
            let new = replacement(old_meta, old_spec, pvc, target);
            &&& new.spec is Some
            &&& new.spec->0.claim_ref is Some
            &&& ({
                let claim = new.spec->0.claim_ref->0;
                &&& claim.kind == Some("PersistentVolumeClaim"@)
                &&& claim.api_version == Some("v1"@)
                &&& claim.namespace == Some(pvc.namespace)
                &&& claim.name == Some(pvc.name)
                &&& claim.uid == Some(pvc.uid)
                &&& claim.resource_version is None
                &&& claim.field_path is None
                &&& old_spec.claim_ref is Some && old_spec.claim_ref->0.namespace == Some(
                    pvc.namespace,
                ) && old_spec.claim_ref->0.name == Some(pvc.name) ==> claim.namespace
                    == old_spec.claim_ref->0.namespace && claim.name == old_spec.claim_ref->0.name
            })
        }),
{
}

/// The replacement is the old PV on the target: its handle is the new volume's,
/// its pool attribute, if it had one, the target's pool, and it can be used on
/// the target node alone. It is retained, and is a new object; name, labels,
/// class, driver and everything else are the old PV's, and of its annotations
/// only the one that asks for an evacuation is left out.
pub proof fn replacements_are_the_old_pv_on_the_target(
    old_meta: MetaView,
    old_spec: PvSpecView,
    pvc: PvcView,
    target: TargetView,
)
    requires
        old_spec.csi is Some,
    ensures
        ({
            let new = replacement(old_meta, old_spec, pvc, target);
            let csi = new.spec->0.csi->0;
            let was = old_spec.csi->0;
            &&& new.metadata.name == old_meta.name
            &&& new.metadata.labels == old_meta.labels
            &&& new.metadata.generate_name is None
            &&& new.metadata.uid is None
            &&& new.metadata.resource_version is None
            &&& new.metadata.finalizers is None
            &&& new.metadata.deletion_timestamp is None
            &&& new.status is None
            &&& new.spec is Some
            &&& new.spec->0.csi is Some
            &&& csi.driver == was.driver
            &&& csi.extra == was.extra
            &&& csi.volume_handle == target.new_volume_handle
            &&& new.spec->0.persistent_volume_reclaim_policy == Some("Retain"@)
            &&& new.spec->0.storage_class_name == old_spec.storage_class_name
            &&& new.spec->0.extra == old_spec.extra
            &&& new.spec->0.node_affinity is Some
            &&& new.spec->0.node_affinity->0 is Some
            &&& ({
                let terms = (new.spec->0.node_affinity->0)->0;
                &&& terms.len() == 1
                &&& terms[0].fields.len() == 0
                &&& terms[0].expressions.len() == 1
                &&& terms[0].expressions[0].key == "openebs.io/nodeid"@
                &&& terms[0].expressions[0].operator == "In"@
                &&& terms[0].expressions[0].values =~= seq![target.node_id]
            })
        }),
{
}

/// Every annotation and every volume attribute of the old PV is the
/// replacement's too, with the value it had, but for the annotation that asks
/// for an evacuation, which is gone, and the pool, which is the target's.
pub proof fn replacements_keep_annotations_and_attributes(
    old_meta: MetaView,
    old_spec: PvSpecView,
    pvc: PvcView,
    target: TargetView,
    key: Seq<char>,
)
    requires
        old_spec.csi is Some,
    ensures
        ({
            let new = replacement(old_meta, old_spec, pvc, target);
            let a = new.metadata.annotations;
            let v = new.spec->0.csi->0.volume_attributes;
            let was = old_spec.csi->0.volume_attributes;
            &&& a is Some <==> old_meta.annotations is Some
            &&& a is Some ==> {
                &&& a->0.contains_key(key) <==> old_meta.annotations->0.contains_key(key) && key
                    != "zfsevac.alumino.us/evacuate"@
                &&& a->0.contains_key(key) ==> a->0[key] == old_meta.annotations->0[key]
            }
            &&& v is Some <==> was is Some
            &&& v is Some ==> {
                &&& v->0.contains_key(key) <==> was->0.contains_key(key)
                &&& v->0.contains_key(key) ==> v->0[key] == if key == "openebs.io/poolname"@ {
                    target.pool
                } else {
                    was->0[key]
                }
            }
        }),
{
}

// ------------------------------------------------------------------ the commit

/// A move is committed to exactly if claim and old PV are still those that were
/// recorded and the volume is left alone; what is committed to is the
/// replacement of that PV, for that claim, on the chosen target.
pub proof fn moves_are_committed_to_at_rest(
    evac: ZFSEvacuation,
    seen: Seen,
    st: StatusView,
    cfg: Config,
)
    requires
        st.phase == Phase::Committing,
        st.pvc_ref is Some,
        st.source is Some,
        st.target is Some,
        seen.pvc is Found,
        seen.pods is Some,
        seen.source_node !is Unread,
        seen.pv is Found,
        seen.pv->0.spec is Some,
        seen.pv->0.spec->0.csi is Some,
    ensures
        ({
            let next = committing_next(evac, seen, st, cfg);
            let pv = seen.pv->0;
            let same_claim = seen.pvc->0.metadata.uid is Some && seen.pvc->0.metadata.uid->0@
                == st.pvc_ref->0.uid;
            let same_pv = pv.metadata.uid is Some && pv.metadata.uid->0@ == st.source->0.pv_uid;
            let rest = at_rest(
                mode_in_force(evac, st),
                seen.pods->0@,
                seen.source_node,
                cfg.taint_key@,
            );
            &&& next.1 is Commit <==> same_claim && same_pv && rest
            &&& next.1 is Commit ==> next.0 == st && next.1->Commit_0 == replacement(
                pv.metadata@,
                pv.spec->0@,
                st.pvc_ref->0,
                st.target->0,
            )
            &&& !same_claim ==> next.0.phase == Phase::Aborting
            &&& same_claim && rest && !same_pv ==> next.0.phase == Phase::Failed
        }),
{
    volumes_at_rest_are_not_blocked(evac, seen, st, cfg, seen.pods->0@);
    crate::controller::pods::lemma_sorted_out(seen.pods->0@);
}

/// Pods that appear despite the lock call the move off: any, if the volume was
/// to be idle; one with a node, if it was to be claimed.
pub proof fn late_pods_call_the_move_off(
    evac: ZFSEvacuation,
    seen: Seen,
    st: StatusView,
    cfg: Config,
    i: int,
)
    requires
        st.phase == Phase::Committing,
        st.pvc_ref is Some,
        st.source is Some,
        st.target is Some,
        seen.pvc is Found,
        seen.pods is Some,
        0 <= i < seen.pods->0@.len(),
        mode_in_force(evac, st) == EvacuationMode::WhenIdle || crate::controller::pods::has_a_node(
            seen.pods->0@[i],
        ),
    ensures
        committing_next(evac, seen, st, cfg).0.phase == Phase::Aborting,
{
    crate::controller::pods::lemma_sorted_out(seen.pods->0@);
}

/// The commit records both manifests, each as what it is, and goes on to the
/// swap.
pub proof fn commits_record_both_manifests(
    st: StatusView,
    old_manifest: Seq<char>,
    new_manifest: Seq<char>,
)
    ensures
        ({
            let next = committed_next(st, old_manifest, new_manifest);
            &&& next.0.phase == Phase::Swapping
            &&& next.0.committed
            &&& next.0.old_pv_manifest == Some(old_manifest)
            &&& next.0.new_pv_manifest == Some(new_manifest)
            &&& next.0 == (StatusView {
                phase: Phase::Swapping,
                message: None,
                committed: true,
                old_pv_manifest: Some(old_manifest),
                new_pv_manifest: Some(new_manifest),
                ..st
            })
            &&& effects_of(next.1) =~= seq![EffectView::WriteStatus]
        }),
{
}

// ------------------------------------------------------------------ the swap

/// The old PV is deleted while it is there under its recorded uid; what then
/// still holds it is taken off; once it is gone the replacement is created from
/// the manifest that was recorded.
pub proof fn the_old_pv_makes_way(evac: ZFSEvacuation, seen: Seen, st: StatusView, cfg: Config)
    requires
        st.phase == Phase::Swapping,
        st.source is Some,
        st.pvc_ref is Some,
        st.new_pv_manifest is Some,
        seen.pv !is Unread,
        seen.pods is Some,
        seen.source_node !is Unread,
    ensures
        ({
            let next = swapping_next(evac, seen, st, cfg);
            let pv = evac.spec.pv_name@;
            let old_is_there = seen.pv is Found && seen.pv->0.metadata.uid is Some
                && seen.pv->0.metadata.uid->0@ == st.source->0.pv_uid;
            let rest = at_rest(
                mode_in_force(evac, st),
                seen.pods->0@,
                seen.source_node,
                cfg.taint_key@,
            );
            &&& effects_of(next.1).contains(EffectView::CreatePv(st.new_pv_manifest->0))
                <==> seen.pv is Absent
            &&& seen.pv is Absent ==> effects_of(next.1) =~= seq![
                EffectView::CreatePv(st.new_pv_manifest->0),
            ]
            &&& effects_of(next.1).contains(EffectView::Delete(Kind::PersistentVolume, pv))
                <==> old_is_there && seen.pv->0.metadata.deletion_timestamp is None && rest
            &&& effects_of(next.1).contains(
                EffectView::EditFinalizers(
                    Kind::PersistentVolume,
                    pv,
                    FinalizerEdit::DropPvBlockers,
                ),
            ) <==> old_is_there && (seen.pv->0.metadata.deletion_timestamp is Some || rest)
            &&& old_is_there && seen.pv->0.metadata.deletion_timestamp is None && rest ==> effects_of(
                next.1,
            )[0] == EffectView::Delete(Kind::PersistentVolume, pv) && effects_of(next.1).len() == 2
            &&& old_is_there || seen.pv is Absent ==> next.0.phase == Phase::Swapping
        }),
{
    volumes_at_rest_are_not_blocked(evac, seen, st, cfg, seen.pods->0@);
    let e = effects_of(swapping_next(evac, seen, st, cfg).1);
    if e.len() > 0 {
        assert(e.contains(e[0]));
        assert(e.contains(e[e.len() - 1]));
    }
    if e.len() == 1 {
        assert forall|x: EffectView| e.contains(x) implies x == e[0] by {}
    }
    if e.len() == 2 {
        assert forall|x: EffectView| e.contains(x) implies x == e[0] || x == e[1] by {}
    }
}

/// The swap is over exactly if a PV of another uid is there, is Bound and is
/// this claim's, by its uid; the reclaim policy that the old PV had is then
/// given to it.
pub proof fn the_swap_ends_with_a_bound_pv(
    evac: ZFSEvacuation,
    seen: Seen,
    st: StatusView,
    cfg: Config,
)
    requires
        st.phase == Phase::Swapping,
        st.source is Some,
        st.pvc_ref is Some,
        st.pvc_ref->0.uid.len() > 0,
        seen.pv is Found,
    ensures
        ({
            let next = swapping_next(evac, seen, st, cfg);
            let pv = seen.pv->0;
            let another = !(pv.metadata.uid is Some && pv.metadata.uid->0@
                == st.source->0.pv_uid);
            let bound = pv.status is Some && pv.status->0.phase is Some && pv.status->0.phase->0@
                == "Bound"@ && pv.spec is Some && pv.spec->0.claim_ref is Some
                && pv.spec->0.claim_ref->0.uid is Some && pv.spec->0.claim_ref->0.uid->0@
                == st.pvc_ref->0.uid;
            &&& next.0.phase == Phase::CleaningUp <==> another && bound
            &&& another && bound ==> effects_of(next.1) =~= (
            if st.original_reclaim_policy is Some {
                seq![
                    EffectView::SetReclaimPolicy(
                        evac.spec.pv_name@,
                        st.original_reclaim_policy->0,
                    ),
                    EffectView::WriteStatus,
                ]
            } else {
                seq![EffectView::WriteStatus]
            })
            &&& another && !bound ==> next.0 == st && effects_of(next.1) =~= Seq::empty()
        }),
{
}

// ------------------------------------------------------------------ cleaning up

/// With the attempt torn down and the target's snapshot gone, the source volume
/// is deleted, its guard taken off, and, if its node is gone, its agent's
/// finalizer too.
pub proof fn the_source_is_removed(source: SourceView, deleting: bool, node_gone: bool)
    ensures
        ({
            let e = source_removal(source, deleting, node_gone);
            let h = source.volume_handle;
            &&& e.contains(EffectView::Delete(Kind::ZfsVolume, h)) <==> !deleting
            &&& e.contains(
                EffectView::EditFinalizers(Kind::ZfsVolume, h, FinalizerEdit::DropGuard),
            )
            &&& e.contains(EffectView::EditFinalizers(Kind::ZfsVolume, h, FinalizerEdit::DropZfs))
                <==> node_gone
            &&& !deleting ==> e[0] == EffectView::Delete(Kind::ZfsVolume, h)
            &&& node_gone ==> e.last() == EffectView::EditFinalizers(
                Kind::ZfsVolume,
                h,
                FinalizerEdit::DropZfs,
            )
            &&& e.len() <= 3
        }),
{
    let e = source_removal(source, deleting, node_gone);
    let h = source.volume_handle;
    let g = EffectView::EditFinalizers(Kind::ZfsVolume, h, FinalizerEdit::DropGuard);
    let z = EffectView::EditFinalizers(Kind::ZfsVolume, h, FinalizerEdit::DropZfs);
    assert(e[if deleting { 0 } else { 1 }] == g);
    if node_gone {
        assert(e[e.len() - 1] == z);
    }
    if !deleting {
        assert(e[0] == EffectView::Delete(Kind::ZfsVolume, h));
    }
}

/// Cleaning up unlocks the claim exactly when the source volume is gone, by the
/// key it was locked under, and takes its mark off.
pub proof fn cleaning_up_unlocks_when_the_source_is_gone(
    evac: ZFSEvacuation,
    seen: Seen,
    st: StatusView,
)
    requires
        st.phase == Phase::CleaningUp,
        st.source is Some,
        st.pvc_ref is Some,
        st.transfer is Some,
        seen.stage != Stage::Unlocked,
        teardown(seen, evac.metadata.any_name(), st.transfer->0.attempt, st) is Gone,
        destruction(seen, st) is Gone,
        seen.source_node !is Unread,
        seen.source_volume !is Unread,
    ensures
        ({
            let next = cleaning_up_next(evac, seen, st);
            let p = st.pvc_ref->0;
            &&& next.0.phase == Phase::CleaningUp
            &&& seen.source_volume is Absent ==> effects_of(next.1) =~= seq![
                EffectView::Unlock(p.namespace + "/"@ + p.name),
                EffectView::UnmarkPvc(p.namespace, p.name),
            ] && next.1->Run_0.outcome == Outcome::Again(Stage::Unlocked)
            &&& seen.source_volume matches Lookup::Found(zv) ==> {
                &&& deletes(next.1, Kind::ZfsVolume, st.source->0.volume_handle)
                    <==> zv.metadata.deletion_timestamp is None
                &&& !effects_of(next.1).contains(EffectView::Unlock(p.namespace + "/"@ + p.name))
                &&& effects_of(next.1).contains(
                    EffectView::EditFinalizers(
                        Kind::ZfsVolume,
                        st.source->0.volume_handle,
                        FinalizerEdit::DropZfs,
                    ),
                ) <==> seen.source_node is Absent
            }
        }),
{
    if let Lookup::Found(zv) = seen.source_volume {
        let source = st.source->0;
        let deleting = zv.metadata.deletion_timestamp is Some;
        let node_gone = seen.source_node is Absent;
        let e = source_removal(source, deleting, node_gone);
        the_source_is_removed(source, deleting, node_gone);
        let all = effects_of(cleaning_up_next(evac, seen, st).1);
        assert(all == e || all == e.push(EffectView::WriteStatus));
        assert forall|x: EffectView| x != EffectView::WriteStatus implies all.contains(x)
            == e.contains(x) by {
            if e.contains(x) {
                let k = choose|k: int| 0 <= k < e.len() && e[k] == x;
                assert(all[k] == x);
            }
            if all.contains(x) {
                let k = choose|k: int| 0 <= k < all.len() && all[k] == x;
                assert(e[k] == x);
            }
        }
        assert(forall|k: int| 0 <= k < e.len() ==> !(#[trigger] e[k] is Unlock));
    }
}

/// The evacuation is completed with the annotation that asked for it taken off
/// the PV, if it is still there, and is then let go.
pub proof fn completion_strips_the_trigger(evac: ZFSEvacuation, seen: Seen, st: StatusView)
    requires
        st.phase == Phase::CleaningUp,
        st.source is Some,
        seen.stage == Stage::Unlocked,
        seen.pv !is Unread,
    ensures
        ({
            let next = cleaning_up_next(evac, seen, st);
            let marked = seen.pv is Found && seen.pv->0.metadata.annotations is Some
                && seen.pv->0.metadata.annotations->0@.contains_key(
                "zfsevac.alumino.us/evacuate"@,
            );
            &&& next.0.phase == Phase::Completed
            &&& next.0.message is None
            &&& effects_of(next.1) =~= if marked {
                seq![
                    EffectView::StripTrigger(evac.spec.pv_name@),
                    EffectView::WriteStatus,
                    EffectView::ReleaseEvacuation,
                ]
            } else {
                seq![EffectView::WriteStatus, EffectView::ReleaseEvacuation]
            }
        }),
{
}

// ------------------------------------------------------------------ unwinding

/// Unwinding deletes the source volume only if the reclaim policy that was
/// recorded is Delete and claim and PV are both gone: whatever else the policy
/// is, no effect of any step of an uncommitted evacuation deletes it.
pub proof fn only_reclaimed_sources_are_deleted(
    evac: ZFSEvacuation,
    seen: Seen,
    st: StatusView,
    cfg: Config,
    now: Option<Moment>,
    chance: Chance,
)
    requires
        consistent(st),
        !st.committed,
        st.source is Some,
        st.target is Some ==> st.target->0.new_volume_handle != st.source->0.volume_handle,
        deletes(
            reconcile_next(evac, seen, st, cfg, now, chance).1,
            Kind::ZfsVolume,
            st.source->0.volume_handle,
        ),
    ensures
        st.original_reclaim_policy == Some("Delete"@),
        seen.pvc is Absent,
        seen.pv is Absent,
        st.pvc_ref is Some,
        st.phase == Phase::Aborting,
        seen.stage == Stage::Unlocked,
{
    let name = st.source->0.volume_handle;
    the_source_goes_last(evac, seen, st, cfg, now, chance, name);
}

/// The last step of unwinding: the source volume is deleted exactly if it would
/// have been reclaimed, its claim and PV being gone; its guard is taken off; and
/// its agent's finalizer too, if its node is gone.
pub proof fn unwinding_ends_with_the_source(evac: ZFSEvacuation, seen: Seen, st: StatusView)
    requires
        st.phase == Phase::Aborting,
        seen.stage == Stage::Unlocked,
        st.source is Some,
        st.pvc_ref is Some,
        seen.pvc !is Unread,
        seen.pv !is Unread,
        seen.source_volume !is Unread,
        seen.source_node !is Unread,
    ensures
        ({
            let next = abort_next(evac, seen, st);
            let h = st.source->0.volume_handle;
            let e = effects_of(next.1);
            &&& e.contains(EffectView::Delete(Kind::ZfsVolume, h)) <==> seen.pvc is Absent
                && seen.pv is Absent && st.original_reclaim_policy == Some("Delete"@)
                && seen.source_volume is Found
                && seen.source_volume->0.metadata.deletion_timestamp is None
            &&& e.contains(
                EffectView::EditFinalizers(Kind::ZfsVolume, h, FinalizerEdit::DropGuard),
            )
            &&& e.contains(EffectView::EditFinalizers(Kind::ZfsVolume, h, FinalizerEdit::DropZfs))
                <==> seen.source_node is Absent
            &&& e.contains(EffectView::Delete(Kind::ZfsVolume, h)) ==> e[0] == EffectView::Delete(
                Kind::ZfsVolume,
                h,
            )
            &&& seen.source_node is Absent ==> e[e.len() - 2] == EffectView::EditFinalizers(
                Kind::ZfsVolume,
                h,
                FinalizerEdit::DropZfs,
            )
            &&& e.len() <= 4
            &&& if evac.metadata.deletion_timestamp is Some {
                &&& next.0 == st
                &&& e.last() == EffectView::ReleaseEvacuation
            } else {
                &&& next.0.phase == Phase::Failed
                &&& e.last() == EffectView::WriteStatus
                &&& st.message is Some ==> next.0.message == st.message
                &&& st.message is None ==> next.0.message == Some("evacuation aborted"@)
                &&& next.0.cancelled == st.cancelled
            }
        }),
{
    let h = st.source->0.volume_handle;
    let e = effects_of(abort_next(evac, seen, st).1);
    let d = EffectView::Delete(Kind::ZfsVolume, h);
    let g = EffectView::EditFinalizers(Kind::ZfsVolume, h, FinalizerEdit::DropGuard);
    let z = EffectView::EditFinalizers(Kind::ZfsVolume, h, FinalizerEdit::DropZfs);
    let removes = seen.pvc is Absent && seen.pv is Absent && st.original_reclaim_policy == Some(
        "Delete"@,
    ) && seen.source_volume is Found
        && seen.source_volume->0.metadata.deletion_timestamp is None;
    assert(e[if removes { 1 } else { 0 }] == g);
    if removes {
        assert(e[0] == d);
    }
    if seen.source_node is Absent {
        assert(e[if removes { 2 } else { 1 }] == z);
    }
}

/// With the target side clean, unwinding gives the PV back the reclaim policy it
/// had, if it is still the same PV, and unlocks its claim by the key it was
/// locked under.
pub proof fn unwinding_gives_back_what_was_taken(
    evac: ZFSEvacuation,
    seen: Seen,
    st: StatusView,
)
    requires
        st.phase == Phase::Aborting,
        seen.stage != Stage::Unlocked,
        seen.relay == Some(None::<crate::controller::transfer::RelayObs>),
        st.target is None || st.transfer is None,
        st.source is Some,
        st.pvc_ref is Some,
        seen.pv !is Unread,
    ensures
        ({
            let next = abort_next(evac, seen, st);
            let p = st.pvc_ref->0;
            let e = effects_of(next.1);
            let same = seen.pv is Found && seen.pv->0.metadata.uid is Some
                && seen.pv->0.metadata.uid->0@ == st.source->0.pv_uid;
            let unlock = seq![
                EffectView::Unlock(p.namespace + "/"@ + p.name),
                EffectView::UnmarkPvc(p.namespace, p.name),
            ];
            &&& next.0 == st
            &&& next.1->Run_0.outcome == Outcome::Again(Stage::Unlocked)
            &&& e =~= (if same && st.original_reclaim_policy is Some {
                seq![
                    EffectView::SetReclaimPolicy(
                        evac.spec.pv_name@,
                        st.original_reclaim_policy->0,
                    ),
                ] + unlock
            } else {
                unlock
            })
        }),
{
}

/// While the new volume is there unwinding destroys it: it is deleted, and its
/// agent's finalizer is taken off if its node is gone.
pub proof fn unwinding_destroys_the_new_volume(evac: ZFSEvacuation, seen: Seen, st: StatusView)
    requires
        st.phase == Phase::Aborting,
        seen.stage != Stage::Unlocked,
        seen.relay == Some(None::<crate::controller::transfer::RelayObs>),
        st.target is Some,
        st.transfer is Some,
        seen.restore !is Unread,
        seen.target_volume is Found,
        seen.target_node !is Unread,
    ensures
        ({
            let next = abort_next(evac, seen, st);
            let h = st.target->0.new_volume_handle;
            let e = effects_of(next.1);
            &&& next.0.phase == Phase::Aborting
            &&& e.contains(EffectView::Delete(Kind::ZfsVolume, h))
                <==> seen.target_volume->0.metadata.deletion_timestamp is None
            &&& e.contains(EffectView::EditFinalizers(Kind::ZfsVolume, h, FinalizerEdit::DropZfs))
                <==> seen.target_node is Absent
            &&& seen.target_volume->0.metadata.deletion_timestamp is None ==> e[0]
                == EffectView::Delete(Kind::ZfsVolume, h)
        }),
{
    let h = st.target->0.new_volume_handle;
    let e = effects_of(abort_next(evac, seen, st).1);
    let d = EffectView::Delete(Kind::ZfsVolume, h);
    let z = EffectView::EditFinalizers(Kind::ZfsVolume, h, FinalizerEdit::DropZfs);
    if seen.target_volume->0.metadata.deletion_timestamp is None {
        assert(e[0] == d);
        if seen.target_node is Absent {
            assert(e[1] == z);
        }
    } else if seen.target_node is Absent {
        assert(e[0] == z);
    }
}

/// Unwinding stops a relay that still runs before it does anything else.
pub proof fn unwinding_stops_the_relay(evac: ZFSEvacuation, seen: Seen, st: StatusView)
    requires
        st.phase == Phase::Aborting,
        seen.stage != Stage::Unlocked,
        seen.relay is Some,
        seen.relay->0 is Some,
    ensures
        abort_next(evac, seen, st).0 == st,
        effects_of(abort_next(evac, seen, st).1) =~= seq![EffectView::DropRelay],
{
}

/// A dataset that was received completely but never adopted is adopted, so that
/// its agent can destroy it, for as long as the source volume is there to be
/// copied from; one that was not needs no adopting.
pub proof fn unwinding_adopts_what_was_received(
    evac: ZFSEvacuation,
    seen: Seen,
    st: StatusView,
)
    requires
        st.phase == Phase::Aborting,
        seen.stage != Stage::Unlocked,
        seen.relay == Some(None::<crate::controller::transfer::RelayObs>),
        st.target is Some,
        st.transfer is Some,
        st.source is Some,
        seen.restore is Found,
        seen.target_volume is Absent,
        seen.source_volume is Found,
        seen.backup !is Unread,
        seen.source_node !is Unread,
        seen.target_node !is Unread,
    ensures
        ({
            let next = abort_next(evac, seen, st);
            let received = seen.restore->0.status is Some && seen.restore->0.status->0@ == "Done"@;
            effects_of(next.1).contains(
                EffectView::CreateVolume(
                    crate::controller::target_volume(
                        seen.source_volume->0.spec.0@,
                        st.target->0,
                    ),
                ),
            ) <==> received
        }),
{
    reveal_strlit("Done");
    let v = EffectView::CreateVolume(
        crate::controller::target_volume(seen.source_volume->0.spec.0@, st.target->0),
    );
    let next = abort_next(evac, seen, st);
    let e = effects_of(next.1);
    if seen.restore->0.status is Some && seen.restore->0.status->0@ == "Done"@ {
        assert(e[0] == v);
    } else {
        let t = teardown(seen, evac.metadata.any_name(), st.transfer->0.attempt, st);
        assert(t is Going);
        let g = t->Going_0;
        assert(forall|i: int| 0 <= i < g.len() ==> !(#[trigger] g[i] is CreateVolume));
        assert(e == g || e == g.push(EffectView::WriteStatus));
    }
}

/// Unwinding goes on to unlock exactly once nothing is left of the copy: the new
/// volume is gone, and so are the attempt's backup and restore; or no attempt was
/// ever made.
pub proof fn unwinding_unlocks_when_the_copy_is_gone(
    evac: ZFSEvacuation,
    seen: Seen,
    st: StatusView,
)
    requires
        st.phase == Phase::Aborting,
        seen.stage != Stage::Unlocked,
        seen.relay == Some(None::<crate::controller::transfer::RelayObs>),
        seen.pv !is Unread,
    ensures
        ({
            let next = abort_next(evac, seen, st);
            next.1 is Run && next.1->Run_0.outcome == Outcome::Again(Stage::Unlocked) <==> st.target
                is None || st.transfer is None || (seen.target_volume is Absent && seen.backup
                is Absent && seen.restore is Absent)
        }),
{
    reveal_strlit("Done");
}

/// An evacuation that never got to know its source has nothing to give back.
pub proof fn unwinding_nothing_does_nothing(evac: ZFSEvacuation, seen: Seen, st: StatusView)
    requires
        st.phase == Phase::Aborting,
        seen.stage == Stage::Unlocked,
        st.source is None,
    ensures
        effects_of(abort_next(evac, seen, st).1) =~= if evac.metadata.deletion_timestamp is Some {
            seq![EffectView::ReleaseEvacuation]
        } else {
            seq![EffectView::WriteStatus]
        },
        evac.metadata.deletion_timestamp is None ==> abort_next(evac, seen, st).0.phase
            == Phase::Failed,
{
}

/// What is missing at the commit is a fault, which changes nothing and is tried
/// again.
pub proof fn missing_objects_at_the_commit_are_faults(
    evac: ZFSEvacuation,
    seen: Seen,
    st: StatusView,
    cfg: Config,
)
    requires
        st.phase == Phase::Committing,
        st.pvc_ref is Some,
        st.source is Some,
        st.target is Some,
    ensures
        seen.pvc is Absent ==> committing_next(evac, seen, st, cfg).1 is Fault,
        committing_next(evac, seen, st, cfg).1 is Fault ==> committing_next(evac, seen, st, cfg).0
            == st && (seen.pvc is Absent || seen.pv is Absent || (seen.pv is Found && (
        seen.pv->0.spec is None || seen.pv->0.spec->0.csi is None))),
{
}

/// The same of the PV itself: whatever PV has what a replacement is to have names
/// the claim's namespace, name and uid, carries the new handle and the old PV's
/// name, and can be used on the target node alone.
pub proof fn rendered_pvs_name_their_claim(
    old_pv: PersistentVolume,
    new_pv: PersistentVolume,
    pvc_ref: PvcRef,
    target: TargetInfo,
)
    requires
        old_pv.spec is Some,
        old_pv.spec->0.csi is Some,
        new_pv@ == replacement(old_pv.metadata@, old_pv.spec->0@, pvc_ref@, target@),
    ensures
        new_pv.spec is Some,
        new_pv.spec->0.claim_ref is Some,
        new_pv.spec->0.csi is Some,
        ({
            let claim = new_pv.spec->0.claim_ref->0;
            let csi = new_pv.spec->0.csi->0;
            &&& claim.namespace is Some && claim.namespace->0@ == pvc_ref.namespace@
            &&& claim.name is Some && claim.name->0@ == pvc_ref.name@
            &&& claim.uid is Some && claim.uid->0@ == pvc_ref.uid@
            &&& claim.kind is Some && claim.kind->0@ == "PersistentVolumeClaim"@
            &&& csi.volume_handle@ == target.new_volume_handle@
            &&& csi.driver@ == old_pv.spec->0.csi->0.driver@
            &&& old_pv.metadata.name is Some ==> new_pv.metadata.name is Some
                && new_pv.metadata.name->0@ == old_pv.metadata.name->0@
            &&& new_pv.metadata.uid is None
            &&& new_pv.metadata.finalizers is None
            &&& new_pv.spec->0.persistent_volume_reclaim_policy is Some
                && new_pv.spec->0.persistent_volume_reclaim_policy->0@ == "Retain"@
            &&& old_pv.spec->0.storage_class_name is Some
                ==> new_pv.spec->0.storage_class_name is Some
                && new_pv.spec->0.storage_class_name->0@
                == old_pv.spec->0.storage_class_name->0@
            &&& new_pv.spec->0.node_affinity is Some
            &&& new_pv.spec->0.node_affinity->0.required is Some
            &&& ({
                let t = new_pv.spec->0.node_affinity->0.required->0.node_selector_terms@;
                &&& t.len() == 1
                &&& t[0].match_expressions is Some
                &&& t[0].match_expressions->0@.len() == 1
                &&& t[0].match_expressions->0@[0].key@ == "openebs.io/nodeid"@
                &&& t[0].match_expressions->0@[0].operator@ == "In"@
                &&& t[0].match_expressions->0@[0].values is Some
                &&& views(t[0].match_expressions->0@[0].values->0@) =~= seq![target.node_id@]
            })
        }),
{
    let s = new_pv.spec->0@;
    let v = new_pv@;
    let claim = new_pv.spec->0.claim_ref->0;
    assert(v.spec->0 == s);
    assert(s.claim_ref == Some(claim@));
    let terms_ = (s.node_affinity->0)->0;
    let t = new_pv.spec->0.node_affinity->0.required->0.node_selector_terms@;
    assert(terms_ == crate::cluster::terms(t));
    assert(terms_.len() == 1);
    assert(terms_[0] == t[0]@);
    let e = t[0]@.expressions;
    assert(e.len() == 1);
    assert(e[0].key == "openebs.io/nodeid"@);
    assert(e[0] == t[0].match_expressions->0@[0]@);
    assert(e[0].values.len() == 1);
}

} // verus!
