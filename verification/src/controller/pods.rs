//! Who holds a volume, and how long it has to be left alone, in terms of the
//! pods themselves.
use vstd::prelude::*;

use crate::cluster::{Lookup, Node, Pod, Volume};
use crate::controller::clock::{rfc3339_moment, Moment};
use crate::controller::colocation::consumer;
use crate::controller::laws::{consistent, effects_of, nothing_moves_while_blocked};
use crate::controller::nodes::closed_nodes_are_cordoned_or_tainted_hard;
use crate::controller::plan::{Action, EffectView, Kind, Outcome, Seen, Stage};
use crate::controller::pv_swap::swapping_next;
use crate::controller::state_machine::{
    blocking, cordon_text, quiescing_next, reconcile_next, Chance,
};
use crate::controller::{
    claim_of, claims_of, references, scheduled, sorted_by_name, sorting_orders_by_name, unscheduled,
    Config,
};
use crate::crd::zfs_evacuation::{EvacuationMode, Phase, StatusView, ZFSEvacuation};
use crate::text::precedes;

verus! {

// ------------------------------------------------------------------ pods

/// A pod that has been given a node.
pub open spec fn has_a_node(pod: Pod) -> bool {
    &&& pod.spec is Some
    &&& pod.spec->0.node_name is Some
    &&& pod.spec->0.node_name->0@.len() > 0
}

/// A volume of a pod that is a claim: one that it names, or, for an ephemeral
/// volume, the one that is named after pod and volume.
pub open spec fn mounts(pod_name: Seq<char>, volume: Volume, pvc: Seq<char>) -> bool {
    match volume.persistent_volume_claim {
        Some(c) => c.claim_name@ == pvc,
        None => volume.ephemeral && pvc == pod_name + "-"@ + volume.name@,
    }
}

proof fn lemma_claims(pod_name: Seq<char>, volumes: Seq<Volume>, pvc: Seq<char>)
    ensures
        claims_of(pod_name, volumes).contains(pvc) <==> exists|i: int|
            0 <= i < volumes.len() && mounts(pod_name, #[trigger] volumes[i], pvc),
        claims_of(pod_name, volumes).len() <= volumes.len(),
    decreases volumes.len(),
{
    if volumes.len() > 0 {
        let front = volumes.drop_last();
        let last = volumes.last();
        lemma_claims(pod_name, front, pvc);
        let some = claims_of(pod_name, front);
        let all = claims_of(pod_name, volumes);
        assert(volumes[volumes.len() - 1] == last);
        match claim_of(pod_name, last) {
            Some(c) => {
                assert(all == some.push(c));
                if all.contains(pvc) {
                    let i = choose|i: int| 0 <= i < all.len() && all[i] == pvc;
                    if i < some.len() {
                        assert(some[i] == pvc);
                    }
                }
                if some.contains(pvc) {
                    let i = choose|i: int| 0 <= i < some.len() && some[i] == pvc;
                    assert(all[i] == pvc);
                }
                if c == pvc {
                    assert(all[some.len() as int] == pvc);
                }
            },
            None => {},
        }
        if exists|i: int| 0 <= i < front.len() && mounts(pod_name, #[trigger] front[i], pvc) {
            let i = choose|i: int|
                0 <= i < front.len() && mounts(pod_name, #[trigger] front[i], pvc);
            assert(mounts(pod_name, volumes[i], pvc));
        }
        if exists|i: int| 0 <= i < volumes.len() && mounts(pod_name, #[trigger] volumes[i], pvc) {
            let i = choose|i: int|
                0 <= i < volumes.len() && mounts(pod_name, #[trigger] volumes[i], pvc);
            if i < front.len() {
                assert(mounts(pod_name, front[i], pvc));
            }
        }
    }
}

/// A pod refers to a claim exactly if one of its volumes is that claim, or is an
/// ephemeral volume whose claim is the pod's name, a dash and the volume's.
pub proof fn pods_refer_to_what_they_mount(pod: Pod, pvc: Seq<char>)
    requires
        pod.metadata.name is Some,
    ensures
        references(pod, pvc) <==> pod.spec is Some && pod.spec->0.volumes is Some && exists|i: int|
            0 <= i < pod.spec->0.volumes->0@.len() && mounts(
                pod.metadata.name->0@,
                #[trigger] pod.spec->0.volumes->0@[i],
                pvc,
            ),
{
    lemma_claims(pod.metadata.any_name(), pod.volumes(), pvc);
}

pub proof fn lemma_sorted_out(pods: Seq<Pod>)
    ensures
        scheduled(pods).len() + unscheduled(pods).len() == pods.len(),
        scheduled(pods).len() == 0 <==> forall|i: int|
            0 <= i < pods.len() ==> !has_a_node(#[trigger] pods[i]),
        unscheduled(pods).len() == 0 <==> forall|i: int|
            0 <= i < pods.len() ==> has_a_node(#[trigger] pods[i]),
        forall|i: int|
            0 <= i < scheduled(pods).len() ==> has_a_node(#[trigger] scheduled(pods)[i])
                && pods.contains(scheduled(pods)[i]),
        forall|i: int|
            0 <= i < unscheduled(pods).len() ==> !has_a_node(#[trigger] unscheduled(pods)[i])
                && pods.contains(unscheduled(pods)[i]),
        forall|i: int|
            0 <= i < pods.len() ==> if has_a_node(#[trigger] pods[i]) {
                scheduled(pods).contains(pods[i])
            } else {
                unscheduled(pods).contains(pods[i])
            },
    decreases pods.len(),
{
    reveal(Seq::filter);
    if pods.len() > 0 {
        let front = pods.drop_last();
        let last = pods.last();
        lemma_sorted_out(front);
        assert(pods[pods.len() - 1] == last);
        assert forall|i: int| 0 <= i < front.len() implies #[trigger] pods[i] == front[i] by {}
        if forall|i: int| 0 <= i < pods.len() ==> !has_a_node(#[trigger] pods[i]) {
            assert forall|i: int| 0 <= i < front.len() implies !has_a_node(
                #[trigger] front[i],
            ) by {
                assert(front[i] == pods[i]);
            }
        }
        if forall|i: int| 0 <= i < pods.len() ==> has_a_node(#[trigger] pods[i]) {
            assert forall|i: int| 0 <= i < front.len() implies has_a_node(#[trigger] front[i]) by {
                assert(front[i] == pods[i]);
            }
        }
        let sf = scheduled(front);
        let uf = unscheduled(front);
        let s = scheduled(pods);
        let u = unscheduled(pods);
        assert(last.scheduled() == has_a_node(last));
        assert(s == if has_a_node(last) { sf.push(last) } else { sf });
        assert(u == if has_a_node(last) { uf } else { uf.push(last) });
        assert forall|i: int| 0 <= i < s.len() implies has_a_node(#[trigger] s[i])
            && pods.contains(s[i]) by {
            if i < sf.len() {
                assert(s[i] == sf[i]);
                let k = choose|k: int| 0 <= k < front.len() && front[k] == sf[i];
                assert(pods[k] == s[i]);
            }
        }
        assert forall|i: int| 0 <= i < u.len() implies !has_a_node(#[trigger] u[i])
            && pods.contains(u[i]) by {
            if i < uf.len() {
                assert(u[i] == uf[i]);
                let k = choose|k: int| 0 <= k < front.len() && front[k] == uf[i];
                assert(pods[k] == u[i]);
            }
        }
        assert forall|i: int| 0 <= i < pods.len() implies if has_a_node(#[trigger] pods[i]) {
            s.contains(pods[i])
        } else {
            u.contains(pods[i])
        } by {
            if i < front.len() {
                assert(front[i] == pods[i]);
                if has_a_node(pods[i]) {
                    let k = choose|k: int| 0 <= k < sf.len() && sf[k] == pods[i];
                    assert(s[k] == pods[i]);
                } else {
                    let k = choose|k: int| 0 <= k < uf.len() && uf[k] == pods[i];
                    assert(u[k] == pods[i]);
                }
            } else if has_a_node(last) {
                assert(s[s.len() - 1] == last);
            } else {
                assert(u[u.len() - 1] == last);
            }
        }
    }
}

/// Every pod is either scheduled or not: it is scheduled exactly if it has been
/// given a node.
pub proof fn pods_with_a_node_are_scheduled(pods: Seq<Pod>, i: int)
    requires
        0 <= i < pods.len(),
    ensures
        scheduled(pods).len() + unscheduled(pods).len() == pods.len(),
        has_a_node(pods[i]) ==> scheduled(pods).contains(pods[i]) && !unscheduled(pods).contains(
            pods[i],
        ),
        !has_a_node(pods[i]) ==> unscheduled(pods).contains(pods[i]) && !scheduled(pods).contains(
            pods[i],
        ),
{
    lemma_sorted_out(pods);
}

/// The pod whose volumes are moved together is one that waits for a node; there
/// is one if any pod does, and no other that waits comes before it by name.
pub proof fn consumers_wait_for_a_node(pods: Seq<Pod>)
    ensures
        consumer(pods) is None <==> forall|i: int|
            0 <= i < pods.len() ==> has_a_node(#[trigger] pods[i]),
        consumer(pods) matches Some(pod) ==> {
            &&& pods.contains(pod)
            &&& !has_a_node(pod)
            &&& forall|i: int|
                0 <= i < pods.len() && !has_a_node(#[trigger] pods[i]) ==> !precedes(
                    pods[i].metadata.any_name(),
                    pod.metadata.any_name(),
                )
        },
{
    broadcast use vstd::seq_lib::group_to_multiset_ensures;

    lemma_sorted_out(pods);
    let waiting = unscheduled(pods);
    let sorted = sorted_by_name(waiting);
    sorting_orders_by_name(waiting);
    if sorted.len() > 0 {
        let pod = sorted[0];
        assert(sorted.contains(pod));
        assert(waiting.to_multiset().contains(pod));
        assert(waiting.contains(pod));
        assert forall|i: int| 0 <= i < pods.len() && !has_a_node(#[trigger] pods[i]) implies !precedes(
            pods[i].metadata.any_name(),
            pod.metadata.any_name(),
        ) by {
            assert(waiting.contains(pods[i]));
            assert(waiting.to_multiset().contains(pods[i]));
            assert(sorted.contains(pods[i]));
            let k = choose|k: int| 0 <= k < sorted.len() && sorted[k] == pods[i];
            if k == 0 {
                crate::text::lemma_precedes_asymmetric(
                    pod.metadata.any_name(),
                    pod.metadata.any_name(),
                );
            }
        }
    }
}

// ------------------------------------------------------------------ rest

/// Is a volume left alone? Waited for idle: no pod refers to it. Claimed: none
/// that refers to it has a node, and the source node takes no new pods or is
/// gone.
pub open spec fn at_rest(
    mode: EvacuationMode,
    pods: Seq<Pod>,
    source_node: Lookup<Node>,
    taint_key: Seq<char>,
) -> bool {
    match mode {
        EvacuationMode::WhenIdle => pods.len() == 0,
        EvacuationMode::WhenClaimed => {
            &&& forall|i: int| 0 <= i < pods.len() ==> !has_a_node(#[trigger] pods[i])
            &&& match source_node {
                Lookup::Unread => false,
                Lookup::Absent => true,
                Lookup::Found(n) => takes_no_pods(n, taint_key),
            }
        },
    }
}

/// Marked unschedulable, or tainted so that pods are kept off.
pub open spec fn takes_no_pods(node: Node, taint_key: Seq<char>) -> bool {
    node.spec is Some && ((node.spec->0.unschedulable is Some && node.spec->0.unschedulable->0) || (
    node.spec->0.taints is Some && exists|i: int|
        0 <= i < node.spec->0.taints->0@.len() && (#[trigger] node.spec->0.taints->0@[i]).key@
            == taint_key && (node.spec->0.taints->0@[i].effect@ == "NoSchedule"@
            || node.spec->0.taints->0@[i].effect@ == "NoExecute"@)))
}

/// The mode that counts: the one the lock was taken in, or, before that, the one
/// that is asked for.
pub open spec fn mode_in_force(evac: ZFSEvacuation, st: StatusView) -> EvacuationMode {
    if st.locked_mode is Some {
        st.locked_mode->0
    } else {
        evac.spec.mode
    }
}

/// Nothing blocks a volume exactly if it is left alone.
pub proof fn volumes_at_rest_are_not_blocked(
    evac: ZFSEvacuation,
    seen: Seen,
    st: StatusView,
    cfg: Config,
    pods: Seq<Pod>,
)
    requires
        st.source is Some,
    ensures
        blocking(evac, seen, st, cfg, pods) is Clear <==> at_rest(
            mode_in_force(evac, st),
            pods,
            seen.source_node,
            cfg.taint_key@,
        ),
        seen.source_node !is Unread ==> !(blocking(evac, seen, st, cfg, pods) is Read),
{
    lemma_sorted_out(pods);
    if let Lookup::Found(n) = seen.source_node {
        closed_nodes_are_cordoned_or_tainted_hard(n, cfg.taint_key@);
    }
}

/// A volume is copied, its move committed and its old PV deleted only while it
/// is left alone.
pub proof fn volumes_move_at_rest(
    evac: ZFSEvacuation,
    seen: Seen,
    st: StatusView,
    cfg: Config,
    now: Option<Moment>,
    chance: Chance,
)
    requires
        consistent(st),
        ({
            let next = reconcile_next(evac, seen, st, cfg, now, chance);
            ||| st.phase == Phase::Quiescing && next.0.phase == Phase::TargetSelecting
            ||| next.1 is Commit
            ||| st.phase == Phase::Swapping && effects_of(next.1).contains(
                EffectView::Delete(Kind::PersistentVolume, evac.spec.pv_name@),
            )
        }),
    ensures
        seen.pods is Some,
        at_rest(mode_in_force(evac, st), seen.pods->0@, seen.source_node, cfg.taint_key@),
{
    let next = reconcile_next(evac, seen, st, cfg, now, chance);
    if st.phase == Phase::Swapping {
        let e = effects_of(next.1);
        assert(e.contains(EffectView::Delete(Kind::PersistentVolume, evac.spec.pv_name@)));
        let s = swapping_next(evac, seen, st, cfg);
        assert(next == s || e.len() == 0 || e == seq![EffectView::HoldEvacuation]);
        assert(e == effects_of(s.1)) by {
            if e == seq![EffectView::HoldEvacuation] {
                assert(e[0] == EffectView::HoldEvacuation);
                assert(!e.contains(
                    EffectView::Delete(Kind::PersistentVolume, evac.spec.pv_name@),
                ));
            }
        }
        assert(blocking(evac, seen, st, cfg, seen.pods->0@) is Clear);
    } else {
        nothing_moves_while_blocked(evac, seen, st, cfg, now, chance);
        assert(seen.pods is Some);
        lemma_sorted_out(seen.pods->0@);
        if let Lookup::Found(n) = seen.source_node {
            closed_nodes_are_cordoned_or_tainted_hard(n, cfg.taint_key@);
        }
    }
    volumes_at_rest_are_not_blocked(evac, seen, st, cfg, seen.pods->0@);
}

/// Nanoseconds since the epoch.
pub open spec fn nanos(m: Moment) -> int {
    m.secs * 1_000_000_000 + m.nanos
}

/// A volume is copied only once it has been left alone for as many seconds as
/// the evacuation asks for, ninety if it does not say, and five seconds after
/// the lock was taken at the earliest.
pub proof fn volumes_settle_before_they_move(
    evac: ZFSEvacuation,
    seen: Seen,
    st: StatusView,
    cfg: Config,
    now: Option<Moment>,
    chance: Chance,
)
    requires
        consistent(st),
        st.phase == Phase::Quiescing,
        reconcile_next(evac, seen, st, cfg, now, chance).0.phase == Phase::TargetSelecting,
    ensures
        now is Some,
        st.quiesced_at is Some,
        rfc3339_moment(st.quiesced_at->0) is Some,
        nanos(now->0) - nanos(rfc3339_moment(st.quiesced_at->0)->0) >= 1_000_000_000 * (
        if evac.spec.settle_seconds is Some {
            evac.spec.settle_seconds->0 as int
        } else {
            90
        }),
        st.locked_at is Some && rfc3339_moment(st.locked_at->0) is Some && nanos(
            rfc3339_moment(st.locked_at->0)->0,
        ) <= nanos(now->0) ==> nanos(now->0) - nanos(rfc3339_moment(st.locked_at->0)->0)
            >= 5_000_000_000,
{
    let n = quiescing_next(evac, seen, st, cfg, now);
    assert(n.0.phase == Phase::TargetSelecting);
}

/// A volume that has been left alone for long enough is copied next; one that
/// has not is waited for, with nothing changed.
pub proof fn settled_volumes_move(
    evac: ZFSEvacuation,
    seen: Seen,
    st: StatusView,
    cfg: Config,
    now: Option<Moment>,
    chance: Chance,
)
    requires
        consistent(st),
        st.phase == Phase::Quiescing,
        seen.stage == Stage::Checked,
        evac.metadata.deletion_timestamp is None,
        st.source is Some,
        seen.pods is Some,
        at_rest(mode_in_force(evac, st), seen.pods->0@, seen.source_node, cfg.taint_key@),
        now is Some,
        st.locked_at is Some,
        rfc3339_moment(st.locked_at->0) is Some,
        nanos(now->0) - nanos(rfc3339_moment(st.locked_at->0)->0) >= 5_000_000_000,
        st.quiesced_at is Some,
        rfc3339_moment(st.quiesced_at->0) is Some,
        nanos(now->0) >= nanos(rfc3339_moment(st.quiesced_at->0)->0),
    ensures
        ({
            let next = reconcile_next(evac, seen, st, cfg, now, chance);
            let asked = if evac.spec.settle_seconds is Some {
                evac.spec.settle_seconds->0 as int
            } else {
                90
            };
            let rested = nanos(now->0) - nanos(rfc3339_moment(st.quiesced_at->0)->0);
            if rested >= asked * 1_000_000_000 {
                &&& next.0.phase == Phase::TargetSelecting
                &&& next.0.quiesced_at == st.quiesced_at
            } else {
                &&& next.0 == st
                &&& effects_of(next.1) =~= Seq::empty()
                &&& next.1 is Run
                &&& next.1->Run_0.outcome == Outcome::Done(
                    Action::RequeueSecs((asked - rested / 1_000_000_000) as u64),
                )
            }
        }),
{
    volumes_at_rest_are_not_blocked(evac, seen, st, cfg, seen.pods->0@);
    let n = quiescing_next(evac, seen, st, cfg, now);
}

/// A volume that is not left alone is waited for: it does not move, and what was
/// recorded of its rest is forgotten.
pub proof fn disturbed_volumes_wait(
    evac: ZFSEvacuation,
    seen: Seen,
    st: StatusView,
    cfg: Config,
    now: Option<Moment>,
    chance: Chance,
)
    requires
        consistent(st),
        st.phase == Phase::Quiescing,
        seen.stage == Stage::Checked,
        evac.metadata.deletion_timestamp is None,
        st.source is Some,
        seen.pods is Some,
        seen.source_node !is Unread,
        now is Some,
        st.locked_at is Some,
        rfc3339_moment(st.locked_at->0) is Some,
        nanos(now->0) - nanos(rfc3339_moment(st.locked_at->0)->0) >= 5_000_000_000,
        !at_rest(mode_in_force(evac, st), seen.pods->0@, seen.source_node, cfg.taint_key@),
    ensures
        ({
            let next = reconcile_next(evac, seen, st, cfg, now, chance);
            &&& next.0.phase == Phase::Quiescing
            &&& next.0.quiesced_at is None
        }),
{
    volumes_at_rest_are_not_blocked(evac, seen, st, cfg, seen.pods->0@);
}

/// What an open source node is waited for says which node it is, and which taint
/// would close it.
pub proof fn open_nodes_are_named(node: Seq<char>, taint_key: Seq<char>)
    ensures
        crate::controller::holds_text(cordon_text(node, taint_key), node),
        crate::controller::holds_text(cordon_text(node, taint_key), taint_key),
{
    let first = "source node "@;
    let mid = " can still receive pods; cordon it (kubectl cordon "@;
    let after = ") or give it the "@;
    let last = " taint with effect NoSchedule or NoExecute"@;
    let text = cordon_text(node, taint_key);
    crate::controller::lemma_holds_between(first, node, mid + node + after + taint_key + last);
    assert(first + node + (mid + node + after + taint_key + last) =~= text);
    crate::controller::lemma_holds_between(first + node + mid + node + after, taint_key, last);
}

} // verus!
