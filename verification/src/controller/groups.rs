//! Which volumes go together and where the first of them has led, in terms of
//! the siblings themselves; and what is recorded of a target once it is chosen.
use vstd::arithmetic::power::pow;
use vstd::prelude::*;

use crate::cluster::Pod;
use crate::controller::colocation::{
    anchors_of, capacity_bytes, consumer, group_of, lemma_preferred, majority, members_of,
    next_need, part_of, preferred, unbeaten, votes, AnchorView, GroupView, Part, Sibling,
    SiblingNeedView,
};
use crate::controller::laws::effects_of;
use crate::controller::nodes::the_first_is_found;
use crate::controller::plan::{EffectView, NeedView, Seen, StepView};
use crate::controller::pods::{has_a_node, mode_in_force};
use crate::controller::state_machine::{
    choice_next, follows, handle_text, inventory, others_bytes, placed_with, selection, sending,
    target_selecting_next,
};
use crate::controller::target::{chosen, computable, destination};
use crate::controller::{pvc_names, Config};
use crate::crd::openebs::VolumeInfo;
use crate::crd::zfs_evacuation::{
    ColocationRole, EvacuationMode, MemberView, Phase, SourceView, StatusView, ZFSEvacuation,
};
use crate::text::{hex, is_number, lemma_precedes_asymmetric, precedes};

verus! {

// ------------------------------------------------------------------ siblings

/// A volume of ours behind a claim of the pod: the claim is bound, its PV is the
/// ZFS CSI driver's, and the volume was found.
pub open spec fn is_ours(s: Sibling) -> bool {
    &&& s.pvc is Found
    &&& s.pvc->0.volume_name is Some
    &&& s.pv is Found
    &&& s.pv->0.spec is Some
    &&& s.pv->0.spec->0.csi is Some
    &&& s.pv->0.spec->0.csi->0.driver@ == "zfs.csi.openebs.io"@
    &&& s.volume is Found
}

/// An evacuation of its own that has neither ended nor is being unwound.
pub open spec fn is_under_way(s: Sibling) -> bool {
    &&& s.evac is Found
    &&& s.evac->0.status is Some ==> s.evac->0.status->0.phase != Phase::Completed
        && s.evac->0.status->0.phase != Phase::Failed && s.evac->0.status->0.phase
        != Phase::Aborting
}

/// Claims that are not bound, or not to a volume of ours, play no part.
pub proof fn foreign_claims_play_no_part(
    s: Sibling,
    pv_name: Seq<char>,
    source_node_id: Seq<char>,
)
    ensures
        part_of(s, pv_name, source_node_id) is Neither <==> !is_ours(s),
{
}

/// The evacuation's own volume is a member, and so is every other volume of ours
/// that is still on the source node and has nowhere else to go: each by its PV's
/// name and its size.
pub proof fn members_are_still_on_the_source(
    s: Sibling,
    pv_name: Seq<char>,
    source_node_id: Seq<char>,
)
    ensures
        part_of(s, pv_name, source_node_id) is Member <==> is_ours(s) && (
        s.pvc->0.volume_name->0@ == pv_name || (s.volume->0.spec.0.owner_node_id@ == source_node_id
            && !(is_under_way(s) && (s.evac->0.spec.target_node is Some || (
        s.evac->0.status is Some && s.evac->0.status->0.target is Some))))),
        part_of(s, pv_name, source_node_id) matches Part::Member(m) ==> m.pv_name
            == s.pvc->0.volume_name->0@ && m.capacity_bytes == capacity_bytes(s.volume->0.spec.0),
{
}

/// Where another volume of ours has gone, or is going: to the node its
/// evacuation asks for; else to the target that has been chosen for it; else to
/// where it is, if that is not the source node.
pub proof fn anchors_have_gone_before(
    s: Sibling,
    pv_name: Seq<char>,
    source_node_id: Seq<char>,
)
    requires
        is_ours(s),
        s.pvc->0.volume_name->0@ != pv_name,
    ensures
        ({
            let p = part_of(s, pv_name, source_node_id);
            let asked = is_under_way(s) && s.evac->0.spec.target_node is Some;
            let chose = is_under_way(s) && s.evac->0.status is Some
                && s.evac->0.status->0.target is Some;
            let owner = s.volume->0.spec.0.owner_node_id@;
            &&& p matches Part::Anchor(a) ==> a.pv_name == s.pvc->0.volume_name->0@
            &&& asked ==> p is Anchor && p->Anchor_0.node == s.evac->0.spec.target_node->0@
            &&& !asked && chose ==> p is Anchor && p->Anchor_0.node
                == s.evac->0.status->0.target->0.node_id@
            &&& !asked && !chose && owner != source_node_id ==> p is Anchor && p->Anchor_0.node
                == owner
            &&& !asked && !chose && owner == source_node_id ==> p is Member
        }),
{
}

/// Members and anchors are those of the siblings, one each, in their order.
pub proof fn siblings_are_taken_in_order(
    siblings: Seq<Sibling>,
    s: Sibling,
    pv_name: Seq<char>,
    source_node_id: Seq<char>,
)
    ensures
        members_of(Seq::empty(), pv_name, source_node_id).len() == 0,
        anchors_of(Seq::empty(), pv_name, source_node_id).len() == 0,
        members_of(siblings.push(s), pv_name, source_node_id) == match part_of(
            s,
            pv_name,
            source_node_id,
        ) {
            Part::Member(m) => members_of(siblings, pv_name, source_node_id).push(m),
            _ => members_of(siblings, pv_name, source_node_id),
        },
        anchors_of(siblings.push(s), pv_name, source_node_id) == match part_of(
            s,
            pv_name,
            source_node_id,
        ) {
            Part::Anchor(a) => anchors_of(siblings, pv_name, source_node_id).push(a),
            _ => anchors_of(siblings, pv_name, source_node_id),
        },
{
    assert(siblings.push(s).drop_last() =~= siblings);
    assert(siblings.push(s).last() == s);
}

/// Every anchor is a vote for its node.
pub proof fn every_anchor_votes(anchors: Seq<AnchorView>, a: AnchorView, node: Seq<char>)
    ensures
        votes(Seq::empty(), node) == 0,
        votes(anchors.push(a), node) == votes(anchors, node) + if a.node == node {
            1nat
        } else {
            0nat
        },
{
    assert(anchors.push(a).drop_last() =~= anchors);
    assert(anchors.push(a).last() == a);
}

/// Of some first anchors there is one whose node none of the others' is
/// preferred to.
proof fn lemma_someone_is_unbeaten(anchors: Seq<AnchorView>, n: nat) -> (k: int)
    requires
        0 < n <= anchors.len(),
    ensures
        0 <= k < n,
        forall|j: int|
            0 <= j < n ==> !preferred(anchors, (#[trigger] anchors[j]).node, anchors[k].node),
    decreases n,
{
    let last = n - 1;
    let it = anchors[last].node;
    lemma_precedes_asymmetric(it, it);
    if n == 1 {
        last
    } else {
        let k = lemma_someone_is_unbeaten(anchors, last as nat);
        let best = anchors[k].node;
        if preferred(anchors, it, best) {
            assert forall|j: int| 0 <= j < n implies !preferred(
                anchors,
                (#[trigger] anchors[j]).node,
                it,
            ) by {
                if j < last {
                    lemma_preferred(anchors, anchors[j].node, it, best);
                }
            }
            last
        } else {
            k
        }
    }
}

/// There is an anchor to follow exactly if there is any; it is the first for a
/// node that has at least as many votes as any other, and before which no other
/// with as many comes by name.
pub proof fn the_most_common_node_is_followed(anchors: Seq<AnchorView>)
    ensures
        majority(anchors) is None <==> anchors.len() == 0,
        majority(anchors) matches Some(k) ==> {
            &&& 0 <= k < anchors.len()
            &&& forall|i: int|
                0 <= i < anchors.len() ==> votes(anchors, (#[trigger] anchors[i]).node) < votes(
                    anchors,
                    anchors[k].node,
                ) || (votes(anchors, anchors[i].node) == votes(anchors, anchors[k].node)
                    && !precedes(anchors[i].node, anchors[k].node))
            &&& forall|i: int| 0 <= i < k ==> (#[trigger] anchors[i]).node != anchors[k].node
        },
{
    let p = |a: AnchorView| unbeaten(anchors, a.node);
    the_first_is_found(anchors, p);
    if anchors.len() > 0 {
        let k = lemma_someone_is_unbeaten(anchors, anchors.len());
        assert(unbeaten(anchors, anchors[k].node));
        assert(p(anchors[k]));
    }
    if let Some(k) = majority(anchors) {
        assert forall|i: int| 0 <= i < anchors.len() implies votes(
            anchors,
            (#[trigger] anchors[i]).node,
        ) < votes(anchors, anchors[k].node) || (votes(anchors, anchors[i].node) == votes(
            anchors,
            anchors[k].node,
        ) && !precedes(anchors[i].node, anchors[k].node)) by {
            assert(!preferred(
                anchors,
                anchors[i].node,
                anchors[k].node,
            ));
        }
    }
}

/// A group is the waiting pod's, by namespace and name: its placement, its
/// members and the anchor it follows.
pub proof fn groups_are_the_waiting_pods(
    pod: Pod,
    pv_name: Seq<char>,
    namespace: Seq<char>,
    source_node_id: Seq<char>,
    siblings: Seq<Sibling>,
)
    requires
        pod.metadata.name is Some,
    ensures
        ({
            let g = group_of(pod, pv_name, namespace, source_node_id, siblings);
            let anchors = anchors_of(siblings, pv_name, source_node_id);
            &&& g.pod == namespace + "/"@ + pod.metadata.name->0@
            &&& g.placement == crate::controller::placement::placement_of(pod)
            &&& g.members == members_of(siblings, pv_name, source_node_id)
            &&& g.anchor is Some <==> majority(anchors) is Some
            &&& g.anchor is Some ==> g.anchor->0 == anchors[majority(anchors)->0]
        }),
{
}

/// A volume's size in bytes, where its volume states it plainly.
pub proof fn plain_capacities_are_sizes(info: VolumeInfo)
    requires
        info.capacity is Some,
        is_number(info.capacity->0@),
        crate::text::digits_value(info.capacity->0@) <= u64::MAX,
    ensures
        capacity_bytes(info) == crate::text::digits_value(info.capacity->0@),
{
    crate::controller::quantity::plain_numbers_are_bytes(info.capacity->0@);
}

// ------------------------------------------------------------------ the choice

/// Is another evacuation copying from this node, or adopting what it copied?
pub open spec fn node_is_busy(
    evacs: Seq<ZFSEvacuation>,
    name: Seq<char>,
    node_id: Seq<char>,
) -> bool {
    exists|i: int|
        0 <= i < evacs.len() && (#[trigger] evacs[i]).metadata.any_name() != name
            && evacs[i].status is Some && (evacs[i].status->0.phase == Phase::Transferring
            || evacs[i].status->0.phase == Phase::Adopting) && evacs[i].status->0.source is Some
            && evacs[i].status->0.source->0.node_id@ == node_id
}

/// No target is chosen while another evacuation copies from the source node.
pub proof fn busy_sources_are_waited_for(
    evac: ZFSEvacuation,
    seen: Seen,
    st: StatusView,
    cfg: Config,
    noise: u128,
)
    requires
        st.phase == Phase::TargetSelecting,
        st.source is Some,
        seen.evacuations is Some,
    ensures
        sending(seen.evacuations->0@, evac.metadata.any_name(), st.source->0.node_id)
            <==> node_is_busy(
            seen.evacuations->0@,
            evac.metadata.any_name(),
            st.source->0.node_id,
        ),
        node_is_busy(seen.evacuations->0@, evac.metadata.any_name(), st.source->0.node_id)
            ==> target_selecting_next(evac, seen, st, cfg, noise).0.phase == Phase::TargetSelecting
            && target_selecting_next(evac, seen, st, cfg, noise).0.target == st.target,
{
    let evacs = seen.evacuations->0@;
    let name = evac.metadata.any_name();
    let id = st.source->0.node_id;
    if node_is_busy(evacs, name, id) {
        let i = choose|i: int|
            0 <= i < evacs.len() && (#[trigger] evacs[i]).metadata.any_name() != name
                && evacs[i].status is Some && (evacs[i].status->0.phase == Phase::Transferring
                || evacs[i].status->0.phase == Phase::Adopting) && evacs[i].status->0.source is Some
                && evacs[i].status->0.source->0.node_id@ == id;
        assert(crate::controller::state_machine::sends(evacs[i], name, id));
    }
    if sending(evacs, name, id) {
        let i = choose|i: int|
            0 <= i < evacs.len() && crate::controller::state_machine::sends(
                #[trigger] evacs[i],
                name,
                id,
            );
        assert(evacs[i].metadata.any_name() != name);
    }
}

/// The sizes of the other members, added up.
pub proof fn other_members_add_up(members: Seq<MemberView>, m: MemberView, pv_name: Seq<char>)
    ensures
        others_bytes(Seq::empty(), pv_name) == 0,
        others_bytes(members.push(m), pv_name) == others_bytes(members, pv_name) + if m.pv_name
            == pv_name {
            0
        } else {
            m.capacity_bytes as nat
        },
{
    assert(members.push(m).drop_last() =~= members);
    assert(members.push(m).last() == m);
}

/// What is asked of a target: room for the source volume, and for the rest of
/// its group if it is the first of it; on the node and pool that the spec names,
/// else on the node that the group has gone to.
pub proof fn selections_ask_for_the_group(
    evac: ZFSEvacuation,
    source: SourceView,
    group: Option<GroupView>,
)
    requires
        evac.metadata.name is Some,
    ensures
        ({
            let s = selection(evac, source, group);
            let follower = group is Some && group->0.anchor is Some && evac.spec.target_node
                is None;
            &&& s.evac_name == evac.metadata.name->0@
            &&& s.capacity_bytes == source.capacity_bytes
            &&& s.source_node_id == source.node_id
            &&& s.source_pool == source.pool
            &&& s.headroom_percent == evac.spec.headroom_percent
            &&& evac.spec.target_node is Some ==> s.target_node == Some(
                evac.spec.target_node->0@,
            )
            &&& evac.spec.target_node is None ==> s.target_node is None
            &&& evac.spec.target_pool is Some ==> s.target_pool == Some(
                evac.spec.target_pool->0@,
            )
            &&& evac.spec.target_pool is None ==> s.target_pool is None
            &&& group is None ==> s.group_extra_bytes == 0 && s.anchor is None && s.placement
                is None
            &&& group is Some ==> s.placement == Some(group->0.placement)
            &&& follower ==> s.group_extra_bytes == 0 && s.anchor == Some(group->0.anchor->0.node)
            &&& group is Some && !follower ==> s.group_extra_bytes == others_bytes(
                group->0.members,
                evac.spec.pv_name@,
            )
            &&& group is Some && group->0.anchor is None ==> s.anchor is None
        }),
{
}

/// What is recorded of a group: pod and members; and whether the volume leads
/// it, or follows another, which is named.
pub proof fn roles_are_recorded(evac: ZFSEvacuation, group: Option<GroupView>)
    ensures
        ({
            let c = placed_with(evac, group);
            let follower = group is Some && group->0.anchor is Some && evac.spec.target_node
                is None;
            &&& c is Some <==> group is Some
            &&& c is Some ==> {
                &&& c->0.pod == group->0.pod
                &&& c->0.members == group->0.members
                &&& c->0.role == ColocationRole::Follower <==> follower
                &&& c->0.followed is Some <==> follower
                &&& follower ==> c->0.followed == Some(group->0.anchor->0.pv_name)
            }
        }),
{
}

/// A target that was chosen is recorded as it was chosen, with the pool that the
/// volume goes to and a new handle; nothing else of the status changes but what
/// is recorded of the group.
pub proof fn choices_are_recorded(
    evac: ZFSEvacuation,
    seen: Seen,
    st: StatusView,
    cfg: Config,
    noise: u128,
    group: Option<GroupView>,
)
    requires
        st.phase == Phase::TargetSelecting,
        st.source is Some,
        seen.stock is Some,
        seen.stock->0 is Ok,
    ensures
        ({
            let next = choice_next(evac, seen, st, cfg, noise, group);
            let stock = seen.stock->0->Ok_0;
            let input = selection(evac, st.source->0, group);
            let inv = inventory(stock, cfg);
            let c = chosen(input, inv);
            &&& inv.zfsnodes == stock.zfsnodes@
            &&& inv.nodes == stock.nodes@
            &&& inv.evacs == stock.evacs@
            &&& inv.taint_key == cfg.taint_key@
            &&& inv.storage_class is Some <==> stock.class is Some
            &&& stock.class is Some ==> (inv.storage_class->0).1 == stock.class->0 && (
            inv.storage_class->0).0 == stock.class_name@
            &&& next.0.phase == Phase::Transferring <==> computable(input) && c is Some
            &&& next.0.phase == Phase::Transferring ==> {
                &&& next.0.target is Some
                &&& next.0.target->0.node == c->0.node
                &&& next.0.target->0.node_id == c->0.node_id
                &&& next.0.target->0.pool == destination(input, inv)
                &&& next.0.target->0.new_volume_handle == handle_text(noise)
                &&& next.0.colocation == placed_with(evac, group)
                &&& next.0 == (StatusView {
                    phase: Phase::Transferring,
                    message: None,
                    target: next.0.target,
                    colocation: next.0.colocation,
                    ..st
                })
                &&& effects_of(next.1) =~= seq![EffectView::WriteStatus]
            }
            &&& next.0.phase != Phase::Transferring ==> next.0.phase == Phase::TargetSelecting
                && next.0.target == st.target && next.0.colocation == st.colocation
            &&& computable(input) && c is None ==> next.0.message == Some(
                "no target yet: "@ + crate::controller::target::refusal(input, inv),
            )
            &&& !computable(input) ==> next.0 == st && next.1 is Fault
        }),
{
}

/// Only a claimed volume that a pod waits for is moved with its siblings; any
/// other is moved alone.
pub proof fn only_claimed_volumes_have_siblings(
    evac: ZFSEvacuation,
    seen: Seen,
    st: StatusView,
    cfg: Config,
    noise: u128,
)
    requires
        st.phase == Phase::TargetSelecting,
        st.source is Some,
        st.pvc_ref is Some,
        seen.evacuations is Some,
        !node_is_busy(seen.evacuations->0@, evac.metadata.any_name(), st.source->0.node_id),
        seen.pv is Found,
        seen.pods is Some,
        seen.siblings is Some,
    ensures
        ({
            let next = target_selecting_next(evac, seen, st, cfg, noise);
            let waits = exists|i: int|
                0 <= i < seen.pods->0@.len() && !has_a_node(#[trigger] seen.pods->0@[i]);
            &&& mode_in_force(evac, st) == EvacuationMode::WhenIdle || !waits ==> next
                == choice_next(evac, seen, st, cfg, noise, None)
            &&& mode_in_force(evac, st) == EvacuationMode::WhenClaimed && waits ==> next
                == choice_next(
                evac,
                seen,
                st,
                cfg,
                noise,
                Some(
                    group_of(
                        consumer(seen.pods->0@)->0,
                        evac.spec.pv_name@,
                        st.pvc_ref->0.namespace,
                        st.source->0.node_id,
                        seen.siblings->0@,
                    ),
                ),
            )
        }),
{
    busy_sources_are_waited_for(evac, seen, st, cfg, noise);
    crate::controller::pods::consumers_wait_for_a_node(seen.pods->0@);
}

/// The siblings that are read are those of the waiting pod's claims.
pub proof fn siblings_are_the_pods_claims(
    evac: ZFSEvacuation,
    seen: Seen,
    st: StatusView,
    cfg: Config,
    noise: u128,
)
    ensures
        target_selecting_next(evac, seen, st, cfg, noise).1 matches StepView::Read(
            NeedView::Siblings(ns, names),
        ) ==> st.pvc_ref is Some && ns == st.pvc_ref->0.namespace && seen.pods is Some && consumer(
            seen.pods->0@,
        ) is Some && names == pvc_names(consumer(seen.pods->0@)->0),
{
}

// ------------------------------------------------------------------ handles

proof fn lemma_hex_tells_apart(a: nat, b: nat, width: nat)
    requires
        hex(a, width) == hex(b, width),
    ensures
        a % pow(16, width) as nat == b % pow(
            16,
            width,
        ) as nat,
        hex(a, width).len() == width,
    decreases width,
{
    broadcast use vstd::arithmetic::power::lemma_pow_positive;

    vstd::arithmetic::power::lemma_pow_positive(16, width);
    if width == 0 {
        vstd::arithmetic::power::lemma_pow0(16);
    } else {
        let w = (width - 1) as nat;
        let x = hex(a, width);
        let y = hex(b, width);
        assert(x.last() == y.last());
        assert(x.drop_last() =~= hex(a / 16, w));
        assert(y.drop_last() =~= hex(b / 16, w));
        lemma_hex_tells_apart(a / 16, b / 16, w);
        assert(a % 16 == b % 16);
        let p = pow(16, w) as int;
        vstd::arithmetic::power::lemma_pow_positive(16, w);
        vstd::arithmetic::power::lemma_pow_adds(16, 1, w);
        vstd::arithmetic::power::lemma_pow1(16);
        vstd::arithmetic::div_mod::lemma_mod_breakdown(a as int, 16, p);
        vstd::arithmetic::div_mod::lemma_mod_breakdown(b as int, 16, p);
    }
}

/// Handles of different numbers differ, and each is `zevac-` and 32 characters.
pub proof fn handles_tell_volumes_apart(a: u128, b: u128)
    ensures
        handle_text(a) == handle_text(b) ==> a == b,
        handle_text(a).len() == 38,
        "zevac-"@.is_prefix_of(handle_text(a)),
{
    reveal_strlit("zevac-");
    let x = handle_text(a);
    lemma_hex_tells_apart(a as nat, a as nat, 32);
    if handle_text(a) == handle_text(b) {
        assert(hex(a as nat, 32) =~= handle_text(a).skip(6));
        assert(hex(b as nat, 32) =~= handle_text(b).skip(6));
        lemma_hex_tells_apart(a as nat, b as nat, 32);
        lemma_sixteen_to_the_32();
        vstd::arithmetic::div_mod::lemma_small_mod(a as nat, 0x1_0000_0000_0000_0000_0000_0000_0000_0000nat);
        vstd::arithmetic::div_mod::lemma_small_mod(b as nat, 0x1_0000_0000_0000_0000_0000_0000_0000_0000nat);
    }
}

proof fn lemma_sixteen_to_the_32()
    ensures
        pow(16, 32) == 0x1_0000_0000_0000_0000_0000_0000_0000_0000int,
{
    vstd::arithmetic::power::lemma_pow1(16);
    vstd::arithmetic::power::lemma_pow_adds(16, 1, 1);
    assert(pow(16, 2) == 0x100) by (nonlinear_arith)
        requires
            pow(16, 2) == pow(16, 1) * pow(16, 1),
            pow(16, 1) == 16,
    ;
    vstd::arithmetic::power::lemma_pow_adds(16, 2, 2);
    assert(pow(16, 4) == 0x1_0000) by (nonlinear_arith)
        requires
            pow(16, 4) == pow(16, 2) * pow(16, 2),
            pow(16, 2) == 0x100,
    ;
    vstd::arithmetic::power::lemma_pow_adds(16, 4, 4);
    assert(pow(16, 8) == 0x1_0000_0000) by (nonlinear_arith)
        requires
            pow(16, 8) == pow(16, 4) * pow(16, 4),
            pow(16, 4) == 0x1_0000,
    ;
    vstd::arithmetic::power::lemma_pow_adds(16, 8, 8);
    assert(pow(16, 16) == 0x1_0000_0000_0000_0000) by (nonlinear_arith)
        requires
            pow(16, 16) == pow(16, 8) * pow(16, 8),
            pow(16, 8) == 0x1_0000_0000,
    ;
    vstd::arithmetic::power::lemma_pow_adds(16, 16, 16);
    assert(pow(16, 32) == 0x1_0000_0000_0000_0000_0000_0000_0000_0000int) by (nonlinear_arith)
        requires
            pow(16, 32) == pow(16, 16) * pow(16, 16),
            pow(16, 16) == 0x1_0000_0000_0000_0000,
    ;
}

/// Of a sibling its claim is read first; then, if it is bound, its PV; then, if
/// that is ours, its volume; and then its evacuation, unless it is the one that
/// is asked about.
pub proof fn siblings_are_read_as_far_as_they_matter(s: Sibling, pv_name: Seq<char>)
    ensures
        ({
            let n = next_need(s, pv_name);
            let bound = s.pvc is Found && s.pvc->0.volume_name is Some;
            let ours = bound && s.pv is Found && s.pv->0.spec is Some && s.pv->0.spec->0.csi is Some
                && s.pv->0.spec->0.csi->0.driver@ == "zfs.csi.openebs.io"@;
            &&& n is Pvc <==> s.pvc is Unread
            &&& n is Pv <==> bound && s.pv is Unread
            &&& n matches SiblingNeedView::Pv(pv) ==> pv == s.pvc->0.volume_name->0@
            &&& n is Volume <==> ours && s.volume is Unread
            &&& n matches SiblingNeedView::Volume(h) ==> h
                == s.pv->0.spec->0.csi->0.volume_handle@
            &&& n is Evacuation <==> ours && s.volume is Found && s.pvc->0.volume_name->0@
                != pv_name && s.evac is Unread
            &&& n matches SiblingNeedView::Evacuation(pv) ==> pv == s.pvc->0.volume_name->0@
        }),
{
}

/// A size that does not fit is taken for what is left of it.
pub proof fn capacities_wrap(info: VolumeInfo)
    ensures
        info.capacity is None ==> capacity_bytes(info) == 0,
        info.capacity matches Some(q) ==> match crate::controller::quantity::bytes_or_suffixed(q@) {
            Some(n) => (n - capacity_bytes(info)) % 0x1_0000_0000_0000_0000 == 0,
            None => capacity_bytes(info) == 0,
        },
{
}

/// A PV that is gone when its target is to be chosen ends the evacuation.
pub proof fn lost_pvs_end_the_choice(
    evac: ZFSEvacuation,
    seen: Seen,
    st: StatusView,
    cfg: Config,
    noise: u128,
)
    requires
        st.phase == Phase::TargetSelecting,
        st.source is Some,
        seen.evacuations is Some,
        !node_is_busy(seen.evacuations->0@, evac.metadata.any_name(), st.source->0.node_id),
        seen.pv is Absent,
    ensures
        target_selecting_next(evac, seen, st, cfg, noise).0.phase == Phase::Failed,
{
    busy_sources_are_waited_for(evac, seen, st, cfg, noise);
}

} // verus!
