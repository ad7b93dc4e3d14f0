//! What makes a node ready, marked, closed to new pods, and known by an
//! identity, in terms of the node object itself.
use vstd::prelude::*;

use crate::cluster::{Node, NodeCondition};
use crate::controller::admission::carries_taint;
use crate::controller::target::{obstacle, InventoryView, SelectionView};
use crate::controller::{
    first_index, has_taint, is_ready, node_id, node_index, repels, reports_ready,
};

verus! {

/// Some condition of the node is of type Ready and has status True.
pub open spec fn says_ready(node: Node) -> bool {
    node.status is Some && node.status->0.conditions is Some && exists|i: int|
        0 <= i < node.status->0.conditions->0@.len() && (
        #[trigger] node.status->0.conditions->0@[i]).type_@ == "Ready"@
            && node.status->0.conditions->0@[i].status@ == "True"@
}

/// A node is ready exactly if some condition of it is of type Ready with status
/// True and it is not marked unschedulable.
pub proof fn readiness_is_the_ready_condition(node: Node)
    ensures
        is_ready(node) <==> says_ready(node) && !(node.spec is Some
            && node.spec->0.unschedulable is Some && node.spec->0.unschedulable->0),
{
    let c = node.conditions();
    if says_ready(node) {
        let i = choose|i: int|
            0 <= i < node.status->0.conditions->0@.len() && (
            #[trigger] node.status->0.conditions->0@[i]).type_@ == "Ready"@
                && node.status->0.conditions->0@[i].status@ == "True"@;
        assert(c[i].type_@ == "Ready"@);
    }
    if reports_ready(c) {
        let i = choose|i: int|
            0 <= i < c.len() && (#[trigger] c[i]).type_@ == "Ready"@ && c[i].status@ == "True"@;
        assert(node.status->0.conditions->0@[i].type_@ == "Ready"@);
    }
}

/// Conditions of any other type, whatever their status and wherever they stand,
/// change nothing: two lists with the same Ready conditions report the same.
pub proof fn other_conditions_do_not_make_ready(
    some: Seq<NodeCondition>,
    other: Seq<NodeCondition>,
)
    requires
        forall|i: int|
            0 <= i < some.len() && (#[trigger] some[i]).type_@ == "Ready"@ ==> exists|j: int|
                0 <= j < other.len() && #[trigger] other[j] == some[i],
        forall|i: int|
            0 <= i < other.len() && (#[trigger] other[i]).type_@ == "Ready"@ ==> exists|j: int|
                0 <= j < some.len() && #[trigger] some[j] == other[i],
    ensures
        reports_ready(some) == reports_ready(other),
{
    if reports_ready(some) {
        let i = choose|i: int|
            0 <= i < some.len() && (#[trigger] some[i]).type_@ == "Ready"@ && some[i].status@
                == "True"@;
        let j = choose|j: int| 0 <= j < other.len() && #[trigger] other[j] == some[i];
        assert(other[j].type_@ == "Ready"@);
    }
    if reports_ready(other) {
        let i = choose|i: int|
            0 <= i < other.len() && (#[trigger] other[i]).type_@ == "Ready"@ && other[i].status@
                == "True"@;
        let j = choose|j: int| 0 <= j < some.len() && #[trigger] some[j] == other[i];
        assert(some[j].type_@ == "Ready"@);
    }
}

/// Putting a condition of another type into a node's list, at any place, changes
/// neither whether the node is ready nor what else stands in the way of it as a
/// target.
pub proof fn readiness_ignores_other_conditions(
    input: SelectionView,
    inv: InventoryView,
    node: Node,
    changed: Node,
    at: int,
    condition: NodeCondition,
)
    requires
        node.status is Some,
        node.status->0.conditions is Some,
        changed.status is Some,
        changed.status->0.conditions is Some,
        0 <= at <= node.status->0.conditions->0@.len(),
        condition.type_@ != "Ready"@,
        changed.status->0.conditions->0@ == node.status->0.conditions->0@.insert(at, condition),
        changed.spec == node.spec,
        changed.metadata == node.metadata,
        inv.nodes == seq![node],
    ensures
        is_ready(changed) == is_ready(node),
        forall|id: Seq<char>| #[trigger]
            obstacle(input, InventoryView { nodes: seq![changed], ..inv }, id) is None <==> obstacle(
                input,
                inv,
                id,
            ) is None,
{
    let a = node.status->0.conditions->0@;
    let b = changed.status->0.conditions->0@;
    assert forall|i: int| 0 <= i < a.len() && (#[trigger] a[i]).type_@ == "Ready"@ implies exists|
        j: int,
    | 0 <= j < b.len() && #[trigger] b[j] == a[i] by {
        assert(b[if i < at { i } else { i + 1 }] == a[i]);
    }
    assert forall|i: int| 0 <= i < b.len() && (#[trigger] b[i]).type_@ == "Ready"@ implies exists|
        j: int,
    | 0 <= j < a.len() && #[trigger] a[j] == b[i] by {
        assert(i != at);
        assert(a[if i < at { i } else { i - 1 }] == b[i]);
    }
    other_conditions_do_not_make_ready(a, b);
    let inv2 = InventoryView { nodes: seq![changed], ..inv };
    assert forall|id: Seq<char>| #[trigger] obstacle(input, inv2, id) is None <==> obstacle(
        input,
        inv,
        id,
    ) is None by {
        identities_find_the_first(inv.nodes, id);
        identities_find_the_first(inv2.nodes, id);
        assert(node_id(node) == node_id(changed));
        assert(node.taints() == changed.taints());
        assert(has_taint(node, inv.taint_key) == has_taint(changed, inv.taint_key));
        if input.placement is Some {
            assert(input.placement->0.allows(node) == input.placement->0.allows(changed)) by {
                crate::controller::placement::placement_reads_labels_and_taints(
                    input.placement->0,
                    node,
                    changed,
                );
            }
        }
    }
}

/// A node carries the evacuation's taint exactly if one of its taints has that
/// key, whatever its value and effect.
pub proof fn taints_are_found_by_their_key(node: Node, key: Seq<char>)
    ensures
        has_taint(node, key) <==> carries_taint(node, key),
{
    let t = node.taints();
    if carries_taint(node, key) {
        let i = choose|i: int|
            0 <= i < node.spec->0.taints->0@.len() && (
            #[trigger] node.spec->0.taints->0@[i]).key@ == key;
        assert(t[i].key@ == key);
    }
    if has_taint(node, key) {
        let i = choose|i: int| 0 <= i < t.len() && (#[trigger] t[i]).key@ == key;
        assert(node.spec->0.taints->0@[i].key@ == key);
    }
}

/// A node takes no new pods exactly if it is marked unschedulable, or carries
/// the evacuation's taint with effect NoSchedule or NoExecute; PreferNoSchedule
/// does not count.
pub proof fn closed_nodes_are_cordoned_or_tainted_hard(node: Node, key: Seq<char>)
    ensures
        repels(node, key) <==> node.spec is Some && ((node.spec->0.unschedulable is Some
            && node.spec->0.unschedulable->0) || (node.spec->0.taints is Some && exists|i: int|
            0 <= i < node.spec->0.taints->0@.len() && (
            #[trigger] node.spec->0.taints->0@[i]).key@ == key && (
            node.spec->0.taints->0@[i].effect@ == "NoSchedule"@
                || node.spec->0.taints->0@[i].effect@ == "NoExecute"@))),
{
    let t = node.taints();
    if node.spec is Some && node.spec->0.taints is Some {
        assert(t == node.spec->0.taints->0@);
    }
}

/// A node's identity is the value of its `openebs.io/nodeid` label; without one
/// it is its name.
pub proof fn identities_are_labels_or_names(node: Node)
    ensures
        node.metadata.labels is Some && node.metadata.labels->0@.contains_key(
            "openebs.io/nodeid"@,
        ) ==> node_id(node) == node.metadata.labels->0@["openebs.io/nodeid"@],
        !(node.metadata.labels is Some && node.metadata.labels->0@.contains_key(
            "openebs.io/nodeid"@,
        )) && node.metadata.name is Some ==> node_id(node) == node.metadata.name->0@,
{
}

/// The first index at which a condition holds: it holds there and nowhere
/// before; and there is one if it holds anywhere.
pub proof fn the_first_is_found<T>(s: Seq<T>, p: spec_fn(T) -> bool)
    ensures
        match first_index(s, p) {
            Some(i) => 0 <= i < s.len() && p(s[i]) && forall|j: int|
                0 <= j < i ==> !p(#[trigger] s[j]),
            None => forall|j: int| 0 <= j < s.len() ==> !p(#[trigger] s[j]),
        },
    decreases s.len(),
{
    if s.len() > 0 {
        let front = s.drop_last();
        the_first_is_found(front, p);
        assert forall|j: int| 0 <= j < front.len() implies front[j] == #[trigger] s[j] by {}
    }
}

/// The node that an identity stands for is the first that has it.
pub proof fn identities_find_the_first(nodes: Seq<Node>, id: Seq<char>)
    ensures
        match node_index(nodes, id) {
            Some(i) => 0 <= i < nodes.len() && node_id(nodes[i]) == id && forall|j: int|
                0 <= j < i ==> node_id(#[trigger] nodes[j]) != id,
            None => forall|j: int| 0 <= j < nodes.len() ==> node_id(#[trigger] nodes[j]) != id,
        },
{
    the_first_is_found(nodes, |n: Node| node_id(n) == id);
}

} // verus!
