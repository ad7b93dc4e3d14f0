//! Where a volume goes, in terms of what nodes, classes, pools and the other
//! evacuations themselves say.
use vstd::prelude::*;

use crate::cluster::{lookup, Node, Pod, RequirementView, StorageClass, Taint, TermView, Toleration};
use crate::controller::admission::carries_taint;
use crate::controller::nodes::{
    identities_find_the_first, readiness_is_the_ready_condition, says_ready,
    taints_are_found_by_their_key, the_first_is_found,
};
use crate::controller::placement::{
    covered, covers, meets, placement_of, term_admits, PlacementView,
};
use crate::controller::target::{
    asked, best, bytes, chosen, class_of, computable, constrained, destination, eligible,
    excludes_all, expressions, group_bytes, left, listed, lists_node, lists_some, names_nodes,
    need, obstacle, pool_rejections, receiving, refusal, rejections, reserved, share, stands_for,
    target_is_eligible, topologies, zpool, CandidateView, InventoryView, SelectionView,
};
use crate::controller::{holds_text, lemma_holds_between, node_id, node_index};
use crate::crd::openebs::{ZFSNode, ZfsPool};
use crate::crd::zfs_evacuation::{ColocationMember, Phase, ZFSEvacuation};
use crate::text::{decimal, joined, lemma_run, signed_value, views};

verus! {

// ------------------------------------------------------------------ placement

/// What a label has to be for a requirement to hold. `In` wants one of the
/// values; `NotIn` is its opposite, and so holds of a missing label; `Exists`
/// and `DoesNotExist` are opposites too; `Gt` and `Lt` compare whole numbers and
/// hold of nothing else.
pub proof fn requirements_mean_what_they_say(
    values: Seq<Seq<char>>,
    key: Seq<char>,
    value: Option<Seq<char>>,
)
    ensures
        meets(RequirementView { key, operator: "In"@, values }, value) <==> value is Some && exists|
            i: int,
        | 0 <= i < values.len() && #[trigger] values[i] == value->0,
        meets(RequirementView { key, operator: "NotIn"@, values }, value) <==> !meets(
            RequirementView { key, operator: "In"@, values },
            value,
        ),
        meets(RequirementView { key, operator: "Exists"@, values }, value) <==> value is Some,
        meets(RequirementView { key, operator: "DoesNotExist"@, values }, value) <==> value is None,
        meets(RequirementView { key, operator: "Gt"@, values }, value) <==> value is Some
            && values.len() > 0 && signed_value(value->0) is Some && signed_value(values[0]) is Some
            && signed_value(value->0)->0 > signed_value(values[0])->0,
        meets(RequirementView { key, operator: "Lt"@, values }, value) <==> value is Some
            && values.len() > 0 && signed_value(value->0) is Some && signed_value(values[0]) is Some
            && signed_value(value->0)->0 < signed_value(values[0])->0,
{
    reveal_strlit("In");
    reveal_strlit("NotIn");
    reveal_strlit("Exists");
    reveal_strlit("DoesNotExist");
    reveal_strlit("Gt");
    reveal_strlit("Lt");
    assert("In"@.len() == 2 && "In"@[0] == 'I');
    assert("Gt"@.len() == 2 && "Gt"@[0] == 'G');
    assert("Lt"@.len() == 2 && "Lt"@[0] == 'L');
    assert("NotIn"@.len() == 5);
    assert("Exists"@.len() == 6);
    assert("DoesNotExist"@.len() == 12);
}

/// A toleration covers a taint exactly if it names the taint's key, or no key
/// with operator `Exists`; the taint's effect, or none; and the taint's value,
/// unless its operator is `Exists`.
pub proof fn tolerations_cover_taints(tol: Toleration, taint: Taint)
    ensures
        covers(tol, taint) <==> {
            let any_value = tol.operator is Some && tol.operator->0@ == "Exists"@;
            let keyless = tol.key is None || tol.key->0@.len() == 0;
            let value = if tol.value is Some {
                tol.value->0@
            } else {
                Seq::empty()
            };
            let taint_value = if taint.value is Some {
                taint.value->0@
            } else {
                Seq::empty()
            };
            &&& if keyless {
                any_value
            } else {
                tol.key->0@ == taint.key@
            }
            &&& tol.effect is None || tol.effect->0@.len() == 0 || tol.effect->0@ == taint.effect@
            &&& any_value || value == taint_value
        },
{
}

/// A node is open to a pod exactly if it has every label of the pod's node
/// selector, with its value; meets some term of the pod's required affinity, if
/// there is one; and has no taint of effect NoSchedule or NoExecute that the pod
/// does not tolerate.
pub proof fn pods_are_placed_where_they_may_run(p: PlacementView, node: Node)
    ensures
        p.allows(node) <==> {
            &&& forall|k: Seq<char>| #[trigger]
                p.node_selector.contains_key(k) ==> node.metadata.labels is Some
                    && node.metadata.labels->0@.contains_key(k) && node.metadata.labels->0@[k]
                    == p.node_selector[k]
            &&& p.terms.len() > 0 ==> exists|i: int|
                0 <= i < p.terms.len() && term_admits(#[trigger] p.terms[i], node)
            &&& node.spec is Some && node.spec->0.taints is Some ==> forall|i: int|
                0 <= i < node.spec->0.taints->0@.len() && ((
                #[trigger] node.spec->0.taints->0@[i]).effect@ == "NoSchedule"@
                    || node.spec->0.taints->0@[i].effect@ == "NoExecute"@) ==> exists|j: int|
                    0 <= j < p.tolerations.len() && covers(
                        #[trigger] p.tolerations[j],
                        node.spec->0.taints->0@[i],
                    )
        },
{
    let labels = crate::cluster::map_or_empty(node.metadata.labels);
    if p.allows(node) {
        assert forall|k: Seq<char>| #[trigger] p.node_selector.contains_key(
            k,
        ) implies node.metadata.labels is Some && node.metadata.labels->0@.contains_key(k)
            && node.metadata.labels->0@[k] == p.node_selector[k] by {
            assert(p.node_selector.dom().contains(k));
            assert(labels.dom().contains(k));
        }
        if node.spec is Some && node.spec->0.taints is Some {
            let t = node.taints();
            assert forall|i: int|
                0 <= i < node.spec->0.taints->0@.len() && ((
                #[trigger] node.spec->0.taints->0@[i]).effect@ == "NoSchedule"@
                    || node.spec->0.taints->0@[i].effect@ == "NoExecute"@) implies exists|j: int|
                0 <= j < p.tolerations.len() && covers(
                    #[trigger] p.tolerations[j],
                    node.spec->0.taints->0@[i],
                ) by {
                assert(t[i] == node.spec->0.taints->0@[i]);
                assert(covered(p.tolerations, t[i]));
            }
        }
    }
    if !p.allows(node) {
        if !p.node_selector.submap_of(labels) {
            assert(exists|k: Seq<char>| #[trigger]
                p.node_selector.contains_key(k) && !(labels.contains_key(k) && labels[k]
                    == p.node_selector[k])) by {
                if forall|k: Seq<char>| #[trigger]
                    p.node_selector.contains_key(k) ==> labels.contains_key(k) && labels[k]
                        == p.node_selector[k] {
                    assert forall|k: Seq<char>| #[trigger] p.node_selector.dom().contains(
                        k,
                    ) implies labels.dom().contains(k) && p.node_selector[k] == labels[k] by {
                        assert(p.node_selector.contains_key(k));
                    }
                    assert(p.node_selector.submap_of(labels));
                }
            }
        } else if p.terms.len() == 0 || exists|i: int|
            0 <= i < p.terms.len() && term_admits(#[trigger] p.terms[i], node) {
            let t = node.taints();
            let i = choose|i: int|
                0 <= i < t.len() && crate::controller::is_hard((#[trigger] t[i]).effect@)
                    && !covered(p.tolerations, t[i]);
            assert(node.spec is Some && node.spec->0.taints is Some);
            assert(node.spec->0.taints->0@[i] == t[i]);
        }
    }
}

/// A term holds of a node exactly if it asks for something, and all that it asks
/// of labels holds of the node's labels, and all that it asks of fields of the
/// only field there is, the node's name.
pub proof fn terms_hold_as_a_whole(term: TermView, node: Node)
    requires
        node.metadata.name is Some,
    ensures
        term_admits(term, node) <==> {
            &&& term.expressions.len() + term.fields.len() > 0
            &&& forall|i: int|
                0 <= i < term.expressions.len() ==> meets(
                    #[trigger] term.expressions[i],
                    lookup(node.metadata.labels, term.expressions[i].key),
                )
            &&& forall|i: int|
                0 <= i < term.fields.len() ==> meets(
                    #[trigger] term.fields[i],
                    if term.fields[i].key == "metadata.name"@ {
                        Some(node.metadata.name->0@)
                    } else {
                        None
                    },
                )
        },
{
    let asked = |r: RequirementView|
        meets(
            r,
            if r.key == "metadata.name"@ {
                Some(node.metadata.name->0@)
            } else {
                None
            },
        );
    if term_admits(term, node) {
        assert forall|i: int| 0 <= i < term.fields.len() implies meets(
            #[trigger] term.fields[i],
            if term.fields[i].key == "metadata.name"@ {
                Some(node.metadata.name->0@)
            } else {
                None
            },
        ) by {
            assert(crate::controller::placement::field_meets(term.fields[i], node));
        }
        assert forall|i: int| 0 <= i < term.expressions.len() implies meets(
            #[trigger] term.expressions[i],
            lookup(node.metadata.labels, term.expressions[i].key),
        ) by {
            assert(crate::controller::placement::label_meets(term.expressions[i], node));
        }
    }
}

/// What counts for a pod's placement is its node selector, the terms of its
/// required node affinity and its tolerations.
pub proof fn placements_are_read_from_the_pod(pod: Pod)
    requires
        pod.spec is Some,
    ensures
        ({
            let p = placement_of(pod);
            let s = pod.spec->0;
            &&& s.node_selector is Some ==> p.node_selector == s.node_selector->0@
            &&& s.node_selector is None ==> p.node_selector == Map::<Seq<char>, Seq<char>>::empty()
            &&& s.tolerations is Some ==> p.tolerations == s.tolerations->0@
            &&& s.tolerations is None ==> p.tolerations.len() == 0
            &&& s.affinity is Some && s.affinity->0.node_affinity is Some && (
            s.affinity->0.node_affinity->0).required_during_scheduling_ignored_during_execution
                is Some ==> {
                let t = ((
                s.affinity->0.node_affinity->0).required_during_scheduling_ignored_during_execution->0).node_selector_terms@;
                &&& p.terms.len() == t.len()
                &&& forall|i: int| 0 <= i < t.len() ==> #[trigger] p.terms[i] == t[i]@
            }
            &&& s.affinity is None || s.affinity->0.node_affinity is None || (
            s.affinity->0.node_affinity->0).required_during_scheduling_ignored_during_execution
                is None ==> p.terms.len() == 0
        }),
{
}

// ------------------------------------------------------------------ pools

/// The zpool of a pool name is what stands before its first slash, or all of it.
pub proof fn zpools_end_at_the_first_slash(poolname: Seq<char>)
    ensures
        zpool(poolname).is_prefix_of(poolname),
        !zpool(poolname).contains('/'),
        zpool(poolname).len() < poolname.len() ==> poolname[zpool(poolname).len() as int] == '/',
{
    let p = |c: char| c != '/';
    lemma_run(poolname, p);
    let z = zpool(poolname);
    assert forall|i: int| 0 <= i < z.len() implies z[i] != '/' by {
        assert(z[i] == poolname[i]);
        assert(p(poolname[i]));
    }
    if z.len() < poolname.len() {
        assert(!p(poolname[z.len() as int]));
    }
}

/// A volume goes to the pool that is asked for; else to the one that its class
/// names; else to one of the name it had.
pub proof fn destinations_are_asked_for_then_classed_then_kept(
    input: SelectionView,
    inv: InventoryView,
)
    ensures
        ({
            let named = inv.storage_class is Some && (inv.storage_class->0).1.parameters is Some
                && (inv.storage_class->0).1.parameters->0@.contains_key("poolname"@);
            &&& input.target_pool is Some ==> destination(input, inv) == input.target_pool->0
            &&& input.target_pool is None && named ==> destination(input, inv) == (
            inv.storage_class->0).1.parameters->0@["poolname"@]
            &&& input.target_pool is None && !named ==> destination(input, inv)
                == input.source_pool
        }),
{
}

/// What is needed is the volume's size and its group's, and as many per cent of
/// that as are asked for, ten if it is not said, without what is left of the
/// last byte.
pub proof fn room_is_needed_with_headroom(input: SelectionView)
    ensures
        ({
            let size = input.capacity_bytes + input.group_extra_bytes;
            let percent = if input.headroom_percent is Some {
                input.headroom_percent->0 as nat
            } else {
                10nat
            };
            let extra = need(input) - size;
            &&& extra * 100 <= size * percent
            &&& size * percent < extra * 100 + 100
        }),
{
}

// ------------------------------------------------------------------ the class

/// A class with allowed topologies admits exactly the nodes that some term of
/// them lists by identity; one without, or whose terms speak of other keys only,
/// admits all.
pub proof fn classes_admit_the_nodes_they_list(class: StorageClass, id: Seq<char>)
    ensures
        constrained(Some(class)) <==> exists|i: int, j: int|
            #![trigger class.allowed_topologies->0@[i].match_label_expressions->0@[j]]
            class.allowed_topologies is Some && 0 <= i < class.allowed_topologies->0@.len()
                && class.allowed_topologies->0@[i].match_label_expressions is Some && 0 <= j
                < class.allowed_topologies->0@[i].match_label_expressions->0@.len()
                && class.allowed_topologies->0@[i].match_label_expressions->0@[j].key@
                == "openebs.io/nodeid"@,
        listed(Some(class), id) <==> exists|i: int, j: int|
            #![trigger class.allowed_topologies->0@[i].match_label_expressions->0@[j]]
            class.allowed_topologies is Some && 0 <= i < class.allowed_topologies->0@.len()
                && class.allowed_topologies->0@[i].match_label_expressions is Some && 0 <= j
                < class.allowed_topologies->0@[i].match_label_expressions->0@.len()
                && class.allowed_topologies->0@[i].match_label_expressions->0@[j].key@
                == "openebs.io/nodeid"@ && views(
                class.allowed_topologies->0@[i].match_label_expressions->0@[j].values@,
            ).contains(id),
        listed(Some(class), id) ==> constrained(Some(class)) && !excludes_all(Some(class)),
        !constrained(None),
        !excludes_all(None),
{
    let c = Some(class);
    let ts = topologies(c);
    if class.allowed_topologies is Some {
        let raw = class.allowed_topologies->0@;
        assert(ts == raw);
        if constrained(c) {
            let i = choose|i: int|
                0 <= i < ts.len() && names_nodes(expressions(#[trigger] ts[i]));
            let es = expressions(ts[i]);
            let j = choose|j: int|
                0 <= j < es.len() && (#[trigger] es[j]).key@ == "openebs.io/nodeid"@;
            assert(raw[i].match_label_expressions->0@[j] == es[j]);
        }
        if listed(c, id) {
            let i = choose|i: int|
                0 <= i < ts.len() && lists_node(expressions(#[trigger] ts[i]), id);
            let es = expressions(ts[i]);
            let j = choose|j: int|
                0 <= j < es.len() && (#[trigger] es[j]).key@ == "openebs.io/nodeid"@ && views(
                    es[j].values@,
                ).contains(id);
            assert(raw[i].match_label_expressions->0@[j] == es[j]);
            assert(names_nodes(es));
            assert(views(es[j].values@).len() > 0);
            assert(es[j].values@.len() > 0);
            assert(lists_some(es));
        }
        assert forall|i: int, j: int|
            #![trigger raw[i].match_label_expressions->0@[j]]
            0 <= i < raw.len() && raw[i].match_label_expressions is Some && 0 <= j
                < raw[i].match_label_expressions->0@.len()
                && raw[i].match_label_expressions->0@[j].key@ == "openebs.io/nodeid"@ implies {
            &&& constrained(c)
            &&& views(raw[i].match_label_expressions->0@[j].values@).contains(id) ==> listed(c, id)
        } by {
            let es = expressions(ts[i]);
            assert(es[j] == raw[i].match_label_expressions->0@[j]);
            assert(names_nodes(es));
            if views(es[j].values@).contains(id) {
                assert(lists_node(es, id));
            }
        }
    }
}

// ------------------------------------------------------------------ the ledger

/// Another evacuation that has chosen a target and has not failed.
pub open spec fn has_a_claim(e: ZFSEvacuation, chooser: Seq<char>) -> bool {
    &&& e.metadata.any_name() != chooser
    &&& e.status is Some
    &&& e.status->0.phase != Phase::Failed
    &&& e.status->0.target is Some
}

/// A node is receiving exactly if another evacuation that is neither completed
/// nor failed has chosen it.
pub proof fn nodes_receive_one_at_a_time(
    evacs: Seq<ZFSEvacuation>,
    chooser: Seq<char>,
    id: Seq<char>,
)
    ensures
        receiving(evacs, chooser, id) <==> exists|i: int|
            0 <= i < evacs.len() && has_a_claim(#[trigger] evacs[i], chooser)
                && evacs[i].status->0.phase != Phase::Completed
                && evacs[i].status->0.target->0.node_id@ == id,
{
    if receiving(evacs, chooser, id) {
        let i = choose|i: int|
            0 <= i < evacs.len() && crate::controller::target::holds_target(
                #[trigger] evacs[i],
                chooser,
            ) && evacs[i].status->0.phase != Phase::Completed
                && evacs[i].status->0.target->0.node_id@ == id;
        assert(has_a_claim(evacs[i], chooser));
    }
    assert forall|i: int|
        0 <= i < evacs.len() && has_a_claim(#[trigger] evacs[i], chooser)
            && evacs[i].status->0.phase != Phase::Completed
            && evacs[i].status->0.target->0.node_id@ == id implies receiving(
        evacs,
        chooser,
        id,
    ) by {
        assert(crate::controller::target::holds_target(evacs[i], chooser));
    }
}

/// Each evacuation that has a claim on a zpool of a node adds its share to what
/// is reserved there, and no other adds anything: not the one that chooses, not
/// one that failed, none on another node or another zpool.
pub proof fn claims_add_up(
    evacs: Seq<ZFSEvacuation>,
    n: nat,
    chooser: Seq<char>,
    id: Seq<char>,
    pool: Seq<char>,
)
    requires
        n < evacs.len(),
    ensures
        reserved(evacs, 0, chooser, id, pool) == 0,
        ({
            let e = evacs[n as int];
            let there = has_a_claim(e, chooser) && e.status->0.target->0.node_id@ == id && zpool(
                e.status->0.target->0.pool@,
            ) == pool;
            reserved(evacs, n + 1, chooser, id, pool) == reserved(evacs, n, chooser, id, pool) + if there {
                share(e, chooser, evacs)
            } else {
                0
            }
        }),
{
}

/// What is reserved never falls short of what one claim reserves.
pub proof fn every_claim_counts(
    evacs: Seq<ZFSEvacuation>,
    n: nat,
    i: int,
    chooser: Seq<char>,
    id: Seq<char>,
    pool: Seq<char>,
)
    requires
        n <= evacs.len(),
        0 <= i < n,
        has_a_claim(evacs[i], chooser),
        evacs[i].status->0.target->0.node_id@ == id,
        zpool(evacs[i].status->0.target->0.pool@) == pool,
    ensures
        reserved(evacs, n, chooser, id, pool) >= share(evacs[i], chooser, evacs),
    decreases n,
{
    claims_add_up(evacs, (n - 1) as nat, chooser, id, pool);
    if i < n - 1 {
        every_claim_counts(evacs, (n - 1) as nat, i, chooser, id, pool);
    }
}

/// An evacuation that is under way reserves its volume's size; one that is
/// completed does not, for its volume is there. Either also reserves the sizes of
/// those it leads that have not chosen yet.
pub proof fn shares_are_sizes(e: ZFSEvacuation, chooser: Seq<char>, evacs: Seq<ZFSEvacuation>)
    requires
        e.status is Some,
        e.status->0.source is Some,
    ensures
        e.status->0.phase != Phase::Completed ==> share(e, chooser, evacs)
            >= e.status->0.source->0.capacity_bytes,
        e.status->0.colocation is None ==> share(e, chooser, evacs) == if e.status->0.phase
            == Phase::Completed {
            0
        } else {
            e.status->0.source->0.capacity_bytes as nat
        },
        e.status->0.colocation is Some ==> share(e, chooser, evacs) == (if e.status->0.phase
            == Phase::Completed {
            0
        } else {
            e.status->0.source->0.capacity_bytes as nat
        }) + group_bytes(
            e.status->0.colocation->0.members@,
            e.metadata.any_name(),
            chooser,
            evacs,
        ),
{
}

/// Does some evacuation of this PV have a target already?
pub open spec fn has_chosen(evacs: Seq<ZFSEvacuation>, pv: Seq<char>) -> bool {
    exists|i: int|
        0 <= i < evacs.len() && (#[trigger] evacs[i]).metadata.any_name() == pv
            && evacs[i].status is Some && evacs[i].status->0.target is Some
}

/// A member of a group counts with its size exactly if it is neither the leader
/// nor the one that chooses and has no target yet.
pub proof fn members_count_until_they_choose(
    members: Seq<ColocationMember>,
    m: ColocationMember,
    leader: Seq<char>,
    chooser: Seq<char>,
    evacs: Seq<ZFSEvacuation>,
)
    ensures
        group_bytes(Seq::empty(), leader, chooser, evacs) == 0,
        group_bytes(members.push(m), leader, chooser, evacs) == group_bytes(
            members,
            leader,
            chooser,
            evacs,
        ) + if m.pv_name@ != leader && m.pv_name@ != chooser && !has_chosen(evacs, m.pv_name@) {
            m.capacity_bytes as nat
        } else {
            0
        },
{
    assert(members.push(m).drop_last() =~= members);
    assert(members.push(m).last() == m);
    let pv = m.pv_name@;
    if has_chosen(evacs, pv) {
        let i = choose|i: int|
            0 <= i < evacs.len() && (#[trigger] evacs[i]).metadata.any_name() == pv
                && evacs[i].status is Some && evacs[i].status->0.target is Some;
        assert(crate::controller::target::placed(evacs, pv));
    }
}

// ------------------------------------------------------------------ the target

/// The first of the candidates with the most room left is taken.
pub proof fn the_roomiest_is_taken(cs: Seq<CandidateView>)
    ensures
        best(cs) is None <==> cs.len() == 0,
        best(cs) matches Some(k) ==> {
            &&& 0 <= k < cs.len()
            &&& forall|i: int| 0 <= i < cs.len() ==> (#[trigger] cs[i]).left <= cs[k].left
            &&& forall|i: int| 0 <= i < k ==> (#[trigger] cs[i]).left < cs[k].left
        },
    decreases cs.len(),
{
    if cs.len() > 0 {
        let front = cs.drop_last();
        the_roomiest_is_taken(front);
        assert forall|i: int| 0 <= i < front.len() implies #[trigger] cs[i] == front[i] by {}
    }
}

/// A target that is asked for, or that the group goes to, is given by identity
/// or by the name of a node: the first node of that name stands for its
/// identity.
pub proof fn targets_are_given_by_identity_or_name(
    nodes: Seq<Node>,
    asked: Seq<char>,
    id: Seq<char>,
)
    ensures
        stands_for(nodes, asked, id) <==> asked == id || exists|i: int|
            0 <= i < nodes.len() && (#[trigger] nodes[i]).metadata.any_name() == asked && node_id(
                nodes[i],
            ) == id && forall|j: int|
                0 <= j < i ==> (#[trigger] nodes[j]).metadata.any_name() != asked,
{
    the_first_is_found(nodes, |n: Node| n.metadata.any_name() == asked);
}

/// A node that may take a volume: it is not the one the volume is on; is the one
/// that is asked for, if one is; is listed by the class, if that lists any; is
/// there, Ready, not cordoned and not to be evacuated itself; receives nothing
/// else; and is open to the pod that waits for the volume.
pub open spec fn fit(input: SelectionView, inv: InventoryView, id: Seq<char>, n: int) -> bool {
    &&& id != input.source_node_id
    &&& match (input.target_node, input.anchor) {
        (Some(a), _) => stands_for(inv.nodes, a, id),
        (None, Some(a)) => stands_for(inv.nodes, a, id),
        (None, None) => true,
    }
    &&& inv.storage_class is Some && constrained(Some((inv.storage_class->0).1)) ==> listed(
        Some((inv.storage_class->0).1),
        id,
    )
    &&& 0 <= n < inv.nodes.len()
    &&& node_id(inv.nodes[n]) == id
    &&& forall|m: int| 0 <= m < n ==> node_id(#[trigger] inv.nodes[m]) != id
    &&& says_ready(inv.nodes[n])
    &&& !(inv.nodes[n].spec is Some && inv.nodes[n].spec->0.unschedulable is Some
        && inv.nodes[n].spec->0.unschedulable->0)
    &&& !carries_taint(inv.nodes[n], inv.taint_key)
    &&& !exists|i: int|
        0 <= i < inv.evacs.len() && has_a_claim(#[trigger] inv.evacs[i], input.evac_name)
            && inv.evacs[i].status->0.phase != Phase::Completed
            && inv.evacs[i].status->0.target->0.node_id@ == id
    &&& input.placement is Some ==> input.placement->0.allows(inv.nodes[n])
}

/// A zpool with room: the one that is wanted, with what is needed still free
/// once the claims on it are taken off.
pub open spec fn roomy(
    input: SelectionView,
    inv: InventoryView,
    id: Seq<char>,
    pool: ZfsPool,
) -> bool {
    &&& pool.name@ == zpool(destination(input, inv))
    &&& crate::controller::target::free_bytes(pool) >= need(input) + reserved(
        inv.evacs,
        inv.evacs.len(),
        input.evac_name,
        id,
        zpool(destination(input, inv)),
    )
}

proof fn lemma_fit(input: SelectionView, inv: InventoryView, zn: ZFSNode, pool: ZfsPool)
    requires
        need(input) > 0,
    ensures
        eligible(input, inv, zn, pool) <==> node_index(inv.nodes, zn.metadata.any_name()) is Some
            && fit(
            input,
            inv,
            zn.metadata.any_name(),
            node_index(inv.nodes, zn.metadata.any_name())->0,
        ) && roomy(input, inv, zn.metadata.any_name(), pool),
{
    let id = zn.metadata.any_name();
    identities_find_the_first(inv.nodes, id);
    nodes_receive_one_at_a_time(inv.evacs, input.evac_name, id);
    if let Some(n) = node_index(inv.nodes, id) {
        readiness_is_the_ready_condition(inv.nodes[n]);
        taints_are_found_by_their_key(inv.nodes[n], inv.taint_key);
    }
}

/// A volume goes only to a node that may take it and to a zpool of it with room,
/// and to none with less room than another such.
pub proof fn targets_are_fit_and_roomy(input: SelectionView, inv: InventoryView)
    requires
        need(input) > 0,
        chosen(input, inv) is Some,
    ensures
        ({
            let c = chosen(input, inv)->0;
            exists|i: int, j: int, n: int|
                #![trigger inv.zfsnodes[i].pools@[j], inv.nodes[n]]
                0 <= i < inv.zfsnodes.len() && 0 <= j < inv.zfsnodes[i].pools@.len()
                    && inv.zfsnodes[i].metadata.any_name() == c.node_id && fit(
                    input,
                    inv,
                    c.node_id,
                    n,
                ) && c.node == inv.nodes[n].metadata.any_name() && roomy(
                    input,
                    inv,
                    c.node_id,
                    inv.zfsnodes[i].pools@[j],
                )
        }),
        forall|i: int, j: int, n: int|
            #![trigger inv.zfsnodes[i].pools@[j], inv.nodes[n]]
            0 <= i < inv.zfsnodes.len() && 0 <= j < inv.zfsnodes[i].pools@.len() && fit(
                input,
                inv,
                inv.zfsnodes[i].metadata.any_name(),
                n,
            ) && roomy(
                input,
                inv,
                inv.zfsnodes[i].metadata.any_name(),
                inv.zfsnodes[i].pools@[j],
            ) ==> crate::controller::target::free_bytes(inv.zfsnodes[i].pools@[j]) - reserved(
                inv.evacs,
                inv.evacs.len(),
                input.evac_name,
                inv.zfsnodes[i].metadata.any_name(),
                zpool(destination(input, inv)),
            ) <= chosen(input, inv)->0.left,
{
    let c = chosen(input, inv)->0;
    target_is_eligible(input, inv);
    let zns = inv.zfsnodes;
    let (i, j) = choose|i: int, j: int|
        0 <= i < zns.len() && 0 <= j < zns[i].pools@.len() && eligible(
            input,
            inv,
            zns[i],
            #[trigger] zns[i].pools@[j],
        ) && c == crate::controller::target::as_candidate(input, inv, zns[i], zns[i].pools@[j]);
    lemma_fit(input, inv, zns[i], zns[i].pools@[j]);
    let n = node_index(inv.nodes, c.node_id)->0;
    assert(inv.nodes[n] == inv.nodes[n] && zns[i].pools@[j] == zns[i].pools@[j]);
    assert forall|i: int, j: int, n: int|
        #![trigger inv.zfsnodes[i].pools@[j], inv.nodes[n]]
        0 <= i < inv.zfsnodes.len() && 0 <= j < inv.zfsnodes[i].pools@.len() && fit(
            input,
            inv,
            inv.zfsnodes[i].metadata.any_name(),
            n,
        ) && roomy(
            input,
            inv,
            inv.zfsnodes[i].metadata.any_name(),
            inv.zfsnodes[i].pools@[j],
        ) implies crate::controller::target::free_bytes(inv.zfsnodes[i].pools@[j]) - reserved(
        inv.evacs,
        inv.evacs.len(),
        input.evac_name,
        inv.zfsnodes[i].metadata.any_name(),
        zpool(destination(input, inv)),
    ) <= c.left by {
        let id = zns[i].metadata.any_name();
        identities_find_the_first(inv.nodes, id);
        assert(node_index(inv.nodes, id) == Some(n));
        lemma_fit(input, inv, zns[i], zns[i].pools@[j]);
        assert(eligible(input, inv, zns[i], zns[i].pools@[j]));
    }
}

/// If any node may take the volume and has a zpool with room, one is chosen.
pub proof fn a_fit_target_is_found(
    input: SelectionView,
    inv: InventoryView,
    i: int,
    j: int,
    n: int,
)
    requires
        need(input) > 0,
        0 <= i < inv.zfsnodes.len(),
        0 <= j < inv.zfsnodes[i].pools@.len(),
        fit(input, inv, inv.zfsnodes[i].metadata.any_name(), n),
        roomy(input, inv, inv.zfsnodes[i].metadata.any_name(), inv.zfsnodes[i].pools@[j]),
    ensures
        chosen(input, inv) is Some,
{
    let id = inv.zfsnodes[i].metadata.any_name();
    if inv.storage_class is Some {
        classes_admit_the_nodes_they_list((inv.storage_class->0).1, id);
    } else {
        assert(class_of(inv) is None);
        assert(topologies(class_of(inv)).len() == 0);
    }
    assert(!excludes_all(class_of(inv)));
    identities_find_the_first(inv.nodes, id);
    assert(node_index(inv.nodes, id) == Some(n));
    lemma_fit(input, inv, inv.zfsnodes[i], inv.zfsnodes[i].pools@[j]);
    target_is_eligible(input, inv);
}

/// What a pool has free is what it says, if it says it in plain bytes.
pub proof fn pools_have_what_they_say_free(pool: ZfsPool)
    requires
        pool.free is Some,
        crate::text::is_number(pool.free->0@),
        crate::text::digits_value(pool.free->0@) <= u128::MAX,
    ensures
        crate::controller::target::free_bytes(pool) == crate::text::digits_value(pool.free->0@),
{
    crate::controller::quantity::plain_numbers_are_bytes(pool.free->0@);
}

/// Any size that a volume and its group can have, with any headroom that can be
/// asked for, can be added up.
pub proof fn ordinary_sizes_add_up(input: SelectionView)
    requires
        input.capacity_bytes + input.group_extra_bytes
            <= 0x7fff_ffff_ffff_ffff_ffff_ffff,
    ensures
        computable(input),
{
    let size = bytes(input);
    let percent = crate::controller::target::headroom(input);
    assert(size * percent <= 0x7fff_ffff_ffff_ffff_ffff_ffff * 0xffff_ffff) by (nonlinear_arith)
        requires
            size <= 0x7fff_ffff_ffff_ffff_ffff_ffff,
            percent <= 0xffff_ffff,
    ;
}

/// The reason that is given for a node that may not take a volume is the first
/// of these that holds: the class does not list it, there is no such node, it is
/// not ready, it is to be evacuated itself, it receives another, it is closed to
/// the pod.
pub proof fn reasons_are_given_in_order(input: SelectionView, inv: InventoryView, id: Seq<char>)
    ensures
        ({
            let class = if inv.storage_class is Some {
                Some((inv.storage_class->0).1)
            } else {
                None
            };
            let unlisted = constrained(class) && !listed(class, id);
            let known = node_index(inv.nodes, id) is Some;
            let node = inv.nodes[node_index(inv.nodes, id)->0];
            let ready = says_ready(node) && !(node.spec is Some && node.spec->0.unschedulable
                is Some && node.spec->0.unschedulable->0);
            let marked = carries_taint(node, inv.taint_key);
            let taken = receiving(inv.evacs, input.evac_name, id);
            let closed = input.placement is Some && !input.placement->0.allows(node);
            let why = obstacle(input, inv, id);
            &&& unlisted ==> why == Some("outside the StorageClass allowedTopologies"@)
            &&& !unlisted && !known ==> why == Some("no Node with this openebs.io/nodeid"@)
            &&& !unlisted && known && !ready ==> why == Some("not Ready or unschedulable"@)
            &&& !unlisted && known && ready && marked ==> why == Some(
                "carries the evacuate taint"@,
            )
            &&& !unlisted && known && ready && !marked && taken ==> why == Some(
                "already receiving another evacuation"@,
            )
            &&& !unlisted && known && ready && !marked && !taken && closed ==> why == Some(
                "excluded by the consumer pod's nodeSelector/affinity/tolerations"@,
            )
            &&& !unlisted && known && ready && !marked && !taken && !closed ==> why is None
        }),
{
    if let Some(n) = node_index(inv.nodes, id) {
        readiness_is_the_ready_condition(inv.nodes[n]);
        taints_are_found_by_their_key(inv.nodes[n], inv.taint_key);
    }
}

/// Of every node in question that may not take the volume the refusal says why,
/// and so it does of every zpool without room, and of every node without the
/// zpool.
pub proof fn every_rejection_is_given(
    input: SelectionView,
    inv: InventoryView,
    zns: Seq<ZFSNode>,
    zn: ZFSNode,
)
    ensures
        ({
            let id = zn.metadata.any_name();
            let front = rejections(input, inv, zns);
            let all = rejections(input, inv, zns.push(zn));
            let asked = match (input.target_node, input.anchor) {
                (Some(a), _) => stands_for(inv.nodes, a, id),
                (None, Some(a)) => stands_for(inv.nodes, a, id),
                (None, None) => true,
            };
            let why = obstacle(input, inv, id);
            &&& rejections(input, inv, Seq::empty()).len() == 0
            &&& id == input.source_node_id || !asked ==> all == front
            &&& id != input.source_node_id && asked && why is Some ==> all == front.push(
                id + ": "@ + why->0,
            )
            &&& id != input.source_node_id && asked && why is None ==> {
                let there = exists|i: int|
                    0 <= i < zn.pools@.len() && (#[trigger] zn.pools@[i]).name@ == zpool(
                        destination(input, inv),
                    );
                let full = pool_rejections(input, inv, id, zn.pools@);
                &&& there ==> all =~= front + full
                &&& !there ==> all =~= (front + full).push(
                    id + ": "@ + "no zpool "@ + zpool(destination(input, inv)),
                )
            }
        }),
{
    assert(zns.push(zn).drop_last() =~= zns);
    assert(zns.push(zn).last() == zn);
}

/// An operator that is not known rules no node out.
pub proof fn unknown_operators_admit(req: RequirementView, value: Option<Seq<char>>)
    requires
        req.operator != "In"@ && req.operator != "NotIn"@ && req.operator != "Exists"@
            && req.operator != "DoesNotExist"@ && req.operator != "Gt"@ && req.operator != "Lt"@,
    ensures
        meets(req, value),
{
}

/// A pool that does not say what it has free, or not so that it can be read, has
/// nothing.
pub proof fn silent_pools_have_nothing_free(pool: ZfsPool)
    ensures
        pool.free is None ==> crate::controller::target::free_bytes(pool) == 0,
        pool.free is Some ==> crate::controller::target::free_bytes(pool) == match
            crate::controller::quantity::bytes_or_suffixed(pool.free->0@) {
            Some(n) => n,
            None => 0,
        },
{
}

/// A refusal says how much room is needed, and in which zpool.
pub proof fn refusals_say_what_is_needed(input: SelectionView, inv: InventoryView)
    requires
        !excludes_all(class_of(inv)),
    ensures
        holds_text(refusal(input, inv), decimal(need(input))),
        holds_text(refusal(input, inv), zpool(destination(input, inv))),
{
    let why = rejections(input, inv, inv.zfsnodes);
    let reasons = if why.len() == 0 {
        Seq::empty()
    } else {
        "; "@ + joined(why, ", "@)
    };
    let n = decimal(need(input));
    let z = zpool(destination(input, inv));
    let text = refusal(input, inv);
    match asked(input) {
        Some(a) => {
            let first = "target "@ + a + " ineligible (need "@;
            let mid = " bytes in zpool "@;
            lemma_holds_between(first, n, mid + z + ")"@ + reasons);
            assert(first + n + (mid + z + ")"@ + reasons) =~= text);
            lemma_holds_between(first + n + mid, z, ")"@ + reasons);
            assert(first + n + mid + z + (")"@ + reasons) =~= text);
        },
        None => {
            let first = "no eligible target: need "@;
            let mid = " bytes in zpool "@;
            let rest = " (for destination "@ + destination(input, inv)
                + ") on a ready node (excluding source "@ + input.source_node_id + ")"@ + reasons;
            lemma_holds_between(first, n, mid + z + rest);
            assert(first + n + (mid + z + rest) =~= text);
            lemma_holds_between(first + n + mid, z, rest);
            assert(first + n + mid + z + rest =~= text);
        },
    }
}

/// A zpool that is wanted but has less room than is needed is rejected, with both
/// numbers; any other is not.
pub proof fn full_zpools_are_rejected(
    input: SelectionView,
    inv: InventoryView,
    id: Seq<char>,
    pools: Seq<ZfsPool>,
    pool: ZfsPool,
)
    requires
        need(input) > 0,
    ensures
        ({
            let z = zpool(destination(input, inv));
            let taken = reserved(inv.evacs, inv.evacs.len(), input.evac_name, id, z);
            let free = crate::controller::target::free_bytes(pool);
            let room = if free > taken {
                (free - taken) as nat
            } else {
                0nat
            };
            let front = pool_rejections(input, inv, id, pools);
            let all = pool_rejections(input, inv, id, pools.push(pool));
            &&& pool_rejections(input, inv, id, Seq::empty()).len() == 0
            &&& pool.name@ != z || room >= need(input) ==> all == front
            &&& pool.name@ == z && room < need(input) ==> all == front.push(
                id + ": "@ + "zpool "@ + z + " has "@ + decimal(room)
                    + " bytes free after reservations, need "@ + decimal(need(input)),
            )
        }),
{
    assert(pools.push(pool).drop_last() =~= pools);
    assert(pools.push(pool).last() == pool);
}

} // verus!
