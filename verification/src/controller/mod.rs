//! What the phases of an evacuation share: the identity and state of nodes,
//! the PVCs pods refer to, and the target-side resources.
use vstd::prelude::*;

pub mod abort;
pub mod admission;
pub mod attempts;
pub mod choice;
pub mod clock;
pub mod colocation;
pub mod grounds;
pub mod groups;
pub mod handover;
pub mod laws;
pub mod nodes;
pub mod order;
pub mod placement;
pub mod plan;
pub mod pods;
pub mod pv_swap;
pub mod quantity;
pub mod records;
pub mod state_machine;
pub mod target;
pub mod transfer;
pub mod trigger;
pub mod waits;

pub use crate::controller::clock::{now_rfc3339, secs_since};
pub use crate::controller::quantity::{parse_quantity, parse_quantity_or_bytes};
pub use crate::controller::transfer::node_ips;

use crate::cluster::{fresh, lookup, Node, NodeCondition, Pod, Volume};
use crate::crd::openebs::{
    named, state_of, InfoView, VolumeInfo, VolumeView, ZFSVolume, ZFSVolumeSpec, ZFSVolumeStatus,
    NODE_ID_TOPOLOGY_KEY, NODE_NAME_LABEL, ZFS_STATUS_PENDING,
};
use crate::crd::zfs_evacuation::{TargetInfo, TargetView};
use crate::string_map::StringMap;
use crate::text::{
    before, cat3, join, joined, lemma_precedes_asymmetric, lemma_precedes_total,
    lemma_precedes_transitive, precedes, same, views,
};

verus! {

/// Settings of the controller.
#[derive(Debug)]
pub struct Config {
    /// Namespace the zfs-localpv CRs live in.
    pub openebs_ns: String,
    /// Our pod IP, advertised to the node agents as the relay address.
    pub pod_ip: String,
    /// Namespace we run in (the leader-election Lease lives here).
    pub pod_namespace: String,
    /// Seconds without relay progress before an attempt is declared stalled.
    pub stall_seconds: u64,
    /// Taint key that marks a node for evacuation. A node carrying this taint
    /// (any effect) has all its zfs-localpv volumes evacuated, and is excluded
    /// as a target.
    pub taint_key: String,
}

pub const DEFAULT_SETTLE_SECONDS: u64 = 90;

pub const DEFAULT_TRANSFER_TIMEOUT: u64 = 3600;

pub const DEFAULT_MAX_ATTEMPTS: u32 = 3;

pub const DEFAULT_HEADROOM_PERCENT: u32 = 10;

/// Grace after updating the param object before trusting the lock.
pub const LOCK_PROPAGATION_SECONDS: u64 = 5;

// ------------------------------------------------------------------ target-side resources

/// A volume spec addressed to the target: its node, its pool, no clone origin,
/// all else as it was.
pub open spec fn adapted(info: InfoView, target: TargetView) -> InfoView {
    InfoView { owner_node_id: target.node_id, pool_name: target.pool, snapname: None, ..info }
}

/// zfs-localpv addresses a CR to a node through three things at once: the
/// spec's ownerNodeID/poolName (with no clone origin), the node label its
/// informers select on, and a non-Ready status that makes the agent run its
/// (idempotent) create. Every target-side CR must agree on the spec part; this
/// is the single place that knowledge lives.
pub fn adapt_to_target(info: VolumeInfo, target: &TargetInfo) -> (r: VolumeInfo)
    ensures
        r@ == adapted(info@, target@),
{
    let mut info = info;
    info.owner_node_id = target.node_id.clone();
    info.pool_name = target.pool.clone();
    info.snapname = None;
    info
}

/// The status that makes an agent process a resource.
pub fn pending_status() -> (r: Option<ZFSVolumeStatus>)
    ensures
        state_of(r) == Some(ZFS_STATUS_PENDING@),
{
    Some(ZFSVolumeStatus { state: Some(ZFS_STATUS_PENDING.to_owned()) })
}

/// The volume that stands for the received dataset on the target.
pub open spec fn target_volume(info: InfoView, target: TargetView) -> VolumeView {
    VolumeView {
        metadata: fresh(
            Some(target.new_volume_handle),
            Some(Map::empty().insert(NODE_NAME_LABEL@, target.node_id)),
        ),
        spec: adapted(info, target),
        state: Some(ZFS_STATUS_PENDING@),
    }
}

/// The ZFSVolume CR for the received dataset on the target (used both to adopt
/// it and, on abort, to route its destruction through the agent).
pub fn target_zfsvolume(info: VolumeInfo, target: &TargetInfo) -> (r: ZFSVolume)
    ensures
        r@ == target_volume(info@, target@),
{
    let mut labels = StringMap::new();
    labels.insert(NODE_NAME_LABEL.to_owned(), target.node_id.clone());
    let mut metadata = named(target.new_volume_handle.as_str());
    metadata.labels = Some(labels);
    ZFSVolume {
        metadata,
        spec: ZFSVolumeSpec(adapt_to_target(info, target)),
        status: pending_status(),
    }
}

// ------------------------------------------------------------------ nodes

/// Does the node carry a taint with this key, whatever its effect?
pub open spec fn has_taint(node: Node, key: Seq<char>) -> bool {
    exists|i: int| 0 <= i < node.taints().len() && (#[trigger] node.taints()[i]).key@ == key
}

/// Does the node carry the evacuate taint (any effect)?
pub fn node_has_evacuate_taint(node: &Node, taint_key: &str) -> (r: bool)
    ensures
        r == has_taint(*node, taint_key@),
{
    let taints = match &node.spec {
        Some(s) => match &s.taints {
            Some(t) => t,
            None => return false,
        },
        None => return false,
    };
    for i in 0..taints.len()
        invariant
            taints@ == node.taints(),
            forall|j: int| 0 <= j < i ==> (#[trigger] taints@[j]).key@ != taint_key@,
    {
        if same(taints[i].key.as_str(), taint_key) {
            assert(node.taints()[i as int].key@ == taint_key@);
            return true;
        }
    }
    false
}

/// Node identity as zfs-localpv sees it: the `openebs.io/nodeid` label if
/// present, else the node name.
pub open spec fn node_id(node: Node) -> Seq<char> {
    match lookup(node.metadata.labels, NODE_ID_TOPOLOGY_KEY@) {
        Some(id) => id,
        None => node.metadata.any_name(),
    }
}

/// Node identity as zfs-localpv sees it: the `openebs.io/nodeid` label if
/// present, else the node name.
pub fn node_id_of(node: &Node) -> (r: String)
    ensures
        r@ == node_id(*node),
{
    match node.metadata.label(NODE_ID_TOPOLOGY_KEY) {
        Some(id) => id.clone(),
        None => node.metadata.name_any(),
    }
}

/// The index of the first item of a list that satisfies `p`, if one does.
pub open spec fn first_index<T>(s: Seq<T>, p: spec_fn(T) -> bool) -> Option<int>
    decreases s.len(),
{
    if s.len() == 0 {
        None
    } else {
        match first_index(s.drop_last(), p) {
            Some(i) => Some(i),
            None => if p(s.last()) {
                Some(s.len() - 1)
            } else {
                None
            },
        }
    }
}

/// What [`first_index`] finds: the item satisfies `p` and none before it does.
pub proof fn lemma_first_index<T>(s: Seq<T>, p: spec_fn(T) -> bool, i: int)
    requires
        0 <= i <= s.len(),
        forall|j: int| 0 <= j < i ==> !p(#[trigger] s[j]),
        i < s.len() ==> p(s[i]),
    ensures
        first_index(s, p) == if i < s.len() {
            Some(i)
        } else {
            None::<int>
        },
    decreases s.len(),
{
    if s.len() > 0 {
        let t = s.drop_last();
        if i < t.len() {
            assert(t[i] == s[i]);
            lemma_first_index(t, p, i);
        } else {
            assert forall|j: int| 0 <= j < t.len() implies !p(#[trigger] t[j]) by {
                assert(t[j] == s[j]);
            }
            lemma_first_index(t, p, t.len() as int);
        }
    }
}

/// The index of the first node of a list with this identity.
pub open spec fn node_index(nodes: Seq<Node>, id: Seq<char>) -> Option<int> {
    first_index(nodes, |n: Node| node_id(n) == id)
}

/// Finds the first node of a list with this identity.
pub fn find_node(nodes: &Vec<Node>, id: &str) -> (r: Option<usize>)
    ensures
        r matches Some(i) ==> node_index(nodes@, id@) == Some(i as int) && i < nodes@.len()
            && node_id(nodes@[i as int]) == id@,
        r is None ==> node_index(nodes@, id@) is None,
{
    let ghost p = |n: Node| node_id(n) == id@;
    for i in 0..nodes.len()
        invariant
            p == (|n: Node| node_id(n) == id@),
            forall|j: int| 0 <= j < i ==> !p(#[trigger] nodes@[j]),
    {
        if same(node_id_of(&nodes[i]).as_str(), id) {
            proof {
                lemma_first_index(nodes@, p, i as int);
            }
            return Some(i);
        }
    }
    proof {
        lemma_first_index(nodes@, p, nodes@.len() as int);
    }
    None
}

/// How far the search for a node has come.
#[derive(Clone, Copy, Debug, PartialEq, Eq, Structural)]
pub enum NodeSearch {
    /// The node that is named like the identity has it too.
    Named,
    /// It does not: all nodes have to be listed.
    List,
    /// The listed node with this index has the identity.
    Listed(usize),
    /// No node has it.
    Absent,
}

/// Finds the node whose zfs-localpv identity is `id`, from the node of that
/// name, if there is one, and, once they are listed, all nodes. A node named
/// like the identity but overridden by a label is not a match.
pub fn node_by_id(named_node: Option<&Node>, listed: Option<&Vec<Node>>, id: &str) -> (r:
    NodeSearch)
    ensures
        r == NodeSearch::Named <==> (named_node is Some && node_id(*named_node->0) == id@),
        r == NodeSearch::List <==> (listed is None && !(named_node is Some && node_id(
            *named_node->0,
        ) == id@)),
        r matches NodeSearch::Listed(i) ==> listed is Some && node_index(listed->0@, id@) == Some(
            i as int,
        ) && i < listed->0@.len(),
        r == NodeSearch::Absent ==> listed is Some && node_index(listed->0@, id@) is None,
{
    if let Some(n) = named_node {
        if same(node_id_of(n).as_str(), id) {
            return NodeSearch::Named;
        }
    }
    match listed {
        None => NodeSearch::List,
        Some(all) => match find_node(all, id) {
            Some(i) => NodeSearch::Listed(i),
            None => NodeSearch::Absent,
        },
    }
}

/// Is there a condition "Ready" that holds?
pub open spec fn reports_ready(conditions: Seq<NodeCondition>) -> bool {
    exists|i: int|
        0 <= i < conditions.len() && (#[trigger] conditions[i]).type_@ == "Ready"@
            && conditions[i].status@ == "True"@
}

/// Is the node Ready and not cordoned?
pub open spec fn is_ready(node: Node) -> bool {
    reports_ready(node.conditions()) && !node.cordoned()
}

fn node_cordoned(node: &Node) -> (r: bool)
    ensures
        r == node.cordoned(),
{
    match &node.spec {
        Some(s) => match s.unschedulable {
            Some(b) => b,
            None => false,
        },
        None => false,
    }
}

/// Is the node Ready and not cordoned?
pub fn node_is_ready(node: &Node) -> (r: bool)
    ensures
        r == is_ready(*node),
{
    let conditions = match &node.status {
        Some(s) => match &s.conditions {
            Some(c) => c,
            None => return false,
        },
        None => return false,
    };
    for i in 0..conditions.len()
        invariant
            conditions@ == node.conditions(),
            forall|j: int|
                0 <= j < i ==> !((#[trigger] conditions@[j]).type_@ == "Ready"@
                    && conditions@[j].status@ == "True"@),
    {
        if same(conditions[i].type_.as_str(), "Ready") && same(
            conditions[i].status.as_str(),
            "True",
        ) {
            assert(node.conditions()[i as int].type_@ == "Ready"@);
            return !node_cordoned(node);
        }
    }
    false
}

/// Does this effect keep ordinary pods off a node?
pub open spec fn is_hard(effect: Seq<char>) -> bool {
    effect == "NoSchedule"@ || effect == "NoExecute"@
}

/// Does this effect keep ordinary pods off a node?
pub fn hard_effect(effect: &str) -> (r: bool)
    ensures
        r == is_hard(effect@),
{
    same(effect, "NoSchedule") || same(effect, "NoExecute")
}

/// Does the scheduler keep ordinary pods off this node: is it cordoned, or
/// does it carry the evacuate taint with a hard effect?
pub open spec fn repels(node: Node, key: Seq<char>) -> bool {
    node.cordoned() || exists|i: int|
        0 <= i < node.taints().len() && (#[trigger] node.taints()[i]).key@ == key && is_hard(
            node.taints()[i].effect@,
        )
}

/// Will the scheduler keep ordinary pods off this node? True when it is
/// cordoned or carries the evacuate taint with a hard effect. This is what
/// stands in for the attach lock under WhenClaimed: the consumer's replacement
/// pod exists, and only the node's own state keeps it from landing back on the
/// source mid-copy.
pub fn node_repels_pods(node: &Node, taint_key: &str) -> (r: bool)
    ensures
        r == repels(*node, taint_key@),
{
    if node_cordoned(node) {
        return true;
    }
    let taints = match &node.spec {
        Some(s) => match &s.taints {
            Some(t) => t,
            None => return false,
        },
        None => return false,
    };
    for i in 0..taints.len()
        invariant
            taints@ == node.taints(),
            forall|j: int|
                0 <= j < i ==> !((#[trigger] taints@[j]).key@ == taint_key@ && is_hard(
                    taints@[j].effect@,
                )),
    {
        if same(taints[i].key.as_str(), taint_key) && hard_effect(taints[i].effect.as_str()) {
            assert(node.taints()[i as int].key@ == taint_key@);
            return true;
        }
    }
    false
}

// ------------------------------------------------------------------ pods

/// The PVC a pod's volume refers to: a plain claim by its name, a generic
/// ephemeral volume under its derived name `<pod>-<volume>`.
pub open spec fn claim_of(pod: Seq<char>, volume: Volume) -> Option<Seq<char>> {
    match volume.persistent_volume_claim {
        Some(c) => Some(c.claim_name@),
        None => if volume.ephemeral {
            Some(pod + "-"@ + volume.name@)
        } else {
            None
        },
    }
}

/// The PVCs that some of a pod's volumes refer to, in their order.
pub open spec fn claims_of(pod: Seq<char>, volumes: Seq<Volume>) -> Seq<Seq<char>>
    decreases volumes.len(),
{
    if volumes.len() == 0 {
        Seq::empty()
    } else {
        let front = claims_of(pod, volumes.drop_last());
        match claim_of(pod, volumes.last()) {
            Some(c) => front.push(c),
            None => front,
        }
    }
}

/// The PVCs a pod refers to.
pub open spec fn pvc_names(pod: Pod) -> Seq<Seq<char>> {
    claims_of(pod.metadata.any_name(), pod.volumes())
}

/// PVC names a pod references: plain claims, and generic ephemeral volumes
/// under their derived name `<pod>-<volume>`.
pub fn pod_pvc_names(pod: &Pod) -> (r: Vec<String>)
    ensures
        views(r@) == pvc_names(*pod),
{
    let pod_name = pod.metadata.name_any();
    let mut names: Vec<String> = Vec::new();
    let volumes = match &pod.spec {
        Some(s) => match &s.volumes {
            Some(v) => v,
            None => {
                assert(views(names@) =~= pvc_names(*pod));
                return names;
            },
        },
        None => {
            assert(views(names@) =~= pvc_names(*pod));
            return names;
        },
    };
    for i in 0..volumes.len()
        invariant
            pod_name@ == pod.metadata.any_name(),
            volumes@ == pod.volumes(),
            views(names@) == claims_of(pod_name@, volumes@.take(i as int)),
    {
        let v = &volumes[i];
        assert(volumes@.take(i + 1).drop_last() == volumes@.take(i as int));
        let ghost n0 = names@;
        if let Some(c) = &v.persistent_volume_claim {
            names.push(c.claim_name.clone());
            assert(views(names@) == views(n0).push(c.claim_name@));
        } else if v.ephemeral {
            names.push(cat3(pod_name.as_str(), "-", v.name.as_str()));
            assert(views(names@) == views(n0).push(pod_name@ + "-"@ + v.name@));
        }
    }
    assert(volumes@.take(volumes@.len() as int) == volumes@);
    names
}

/// Does the pod refer to this PVC?
pub open spec fn references(pod: Pod, pvc: Seq<char>) -> bool {
    pvc_names(pod).contains(pvc)
}

/// Does this pod reference the PVC, directly or via a generic ephemeral volume
/// (derived PVC name `<pod>-<volume>`)?
pub fn pod_references_pvc(pod: &Pod, pvc_name: &str) -> (r: bool)
    ensures
        r == references(*pod, pvc_name@),
{
    crate::text::is_among(&pod_pvc_names(pod), pvc_name)
}

/// The pods of a list that reference the PVC. Terminating and completed pods
/// count: a pod object's existence is our only unmount signal.
pub fn pods_referencing_pvc(pods: Vec<Pod>, pvc_name: &str) -> (r: Vec<Pod>)
    ensures
        r@ == pods@.filter(|p: Pod| references(p, pvc_name@)),
{
    let mut r: Vec<Pod> = Vec::new();
    let ghost all = pods@;
    let ghost pred = |p: Pod| references(p, pvc_name@);
    assert(all.take(0).filter(pred) == Seq::<Pod>::empty()) by {
        reveal(Seq::filter);
    }
    for p in it: pods
        invariant
            it.seq() == all,
            pred == (|p: Pod| references(p, pvc_name@)),
            r@ == all.take(it.index()).filter(pred),
    {
        proof {
            reveal(Seq::filter);
            assert(all.take(it.index() + 1).drop_last() == all.take(it.index()));
            assert(all.take(it.index() + 1).last() == p);
        }
        if pod_references_pvc(&p, pvc_name) {
            r.push(p);
        }
    }
    assert(all.take(all.len() as int) == all);
    r
}

/// Has the scheduler bound this pod to a node? A never-scheduled pod holds no
/// attachment. Under WhenIdle it still blocks Quiescing; under WhenClaimed it
/// is the consumer waiting for the volume to arrive.
pub fn pod_is_scheduled(pod: &Pod) -> (r: bool)
    ensures
        r == pod.scheduled(),
{
    match &pod.spec {
        Some(s) => match &s.node_name {
            Some(n) => !n.as_str().is_empty(),
            None => false,
        },
        None => false,
    }
}

/// The names of pods.
pub open spec fn names_of(pods: Seq<Pod>) -> Seq<Seq<char>> {
    pods.map_values(|p: Pod| p.metadata.any_name())
}

/// The names of pods.
pub fn pod_names(pods: &[Pod]) -> (r: Vec<String>)
    ensures
        views(r@) == names_of(pods@),
{
    let mut r: Vec<String> = Vec::new();
    for i in 0..pods.len()
        invariant
            r@.len() == i,
            forall|j: int|
                0 <= j < i ==> (#[trigger] r@[j])@ == pods@[j].metadata.any_name(),
    {
        r.push(pods[i].metadata.name_any());
    }
    assert(views(r@) =~= names_of(pods@));
    r
}

/// A list of pods with one more, after all whose name is not greater.
pub open spec fn placed_by_name(pods: Seq<Pod>, pod: Pod) -> Seq<Pod>
    decreases pods.len(),
{
    if pods.len() == 0 {
        seq![pod]
    } else if precedes(pod.metadata.any_name(), pods.last().metadata.any_name()) {
        placed_by_name(pods.drop_last(), pod).push(pods.last())
    } else {
        pods.push(pod)
    }
}

/// Pods sorted by name; pods of one name keep their order.
pub open spec fn sorted_by_name(pods: Seq<Pod>) -> Seq<Pod>
    decreases pods.len(),
{
    if pods.len() == 0 {
        Seq::empty()
    } else {
        placed_by_name(sorted_by_name(pods.drop_last()), pods.last())
    }
}

/// The pods that no node has been chosen for.
pub open spec fn unscheduled(pods: Seq<Pod>) -> Seq<Pod> {
    pods.filter(|p: Pod| !p.scheduled())
}

/// The pods that are bound to a node.
pub open spec fn scheduled(pods: Seq<Pod>) -> Seq<Pod> {
    pods.filter(|p: Pod| p.scheduled())
}

/// A pod splits a list that has no greater name before it and no other name
/// after it.
proof fn lemma_placed_by_name(pods: Seq<Pod>, pod: Pod, i: int)
    requires
        0 <= i <= pods.len(),
        forall|j: int|
            i <= j < pods.len() ==> precedes(
                pod.metadata.any_name(),
                (#[trigger] pods[j]).metadata.any_name(),
            ),
        i > 0 ==> !precedes(pod.metadata.any_name(), pods[i - 1].metadata.any_name()),
    ensures
        placed_by_name(pods, pod) == pods.insert(i, pod),
    decreases pods.len(),
{
    if pods.len() == 0 {
        assert(pods.insert(i, pod) =~= seq![pod]);
    } else if i == pods.len() {
        assert(pods.insert(i, pod) =~= pods.push(pod));
    } else {
        let front = pods.drop_last();
        assert forall|j: int| i <= j < front.len() implies precedes(
            pod.metadata.any_name(),
            (#[trigger] front[j]).metadata.any_name(),
        ) by {
            assert(front[j] == pods[j]);
        }
        assert(pods[pods.len() - 1] == pods.last());
        lemma_placed_by_name(front, pod, i);
        assert(pods.insert(i, pod) =~= front.insert(i, pod).push(pods.last()));
    }
}

/// Never-scheduled pods, name-sorted so every reconcile picks the same
/// consumer when several exist.
pub fn unscheduled_pods(pods: &[Pod]) -> (r: Vec<&Pod>)
    ensures
        r@.unref() == sorted_by_name(unscheduled(pods@)),
{
    let mut r: Vec<&Pod> = Vec::new();
    let ghost pred = |p: Pod| !p.scheduled();
    assert(unscheduled(pods@.take(0)) =~= Seq::<Pod>::empty()) by {
        reveal(Seq::filter);
    }
    assert(r@.unref() =~= Seq::<Pod>::empty());
    for k in 0..pods.len()
        invariant
            pred == (|p: Pod| !p.scheduled()),
            r@.unref() == sorted_by_name(pods@.take(k as int).filter(pred)),
    {
        let ghost seen = pods@.take(k as int).filter(pred);
        proof {
            reveal(Seq::filter);
            assert(pods@.take(k + 1).drop_last() == pods@.take(k as int));
        }
        if !pod_is_scheduled(&pods[k]) {
            let name = pods[k].metadata.name_any();
            let mut i: usize = r.len();
            while i > 0 && before(name.as_str(), r[i - 1].metadata.name_any().as_str())
                invariant
                    i <= r@.len(),
                    name@ == pods@[k as int].metadata.any_name(),
                    forall|j: int|
                        i <= j < r@.len() ==> precedes(
                            name@,
                            (#[trigger] r@.unref()[j]).metadata.any_name(),
                        ),
                decreases i,
            {
                i -= 1;
                assert(r@.unref()[i as int] == *r@[i as int]);
            }
            let ghost r0 = r@.unref();
            proof {
                if i > 0 {
                    assert(r0[i - 1] == *r@[i - 1]);
                }
                lemma_placed_by_name(r0, pods@[k as int], i as int);
                assert(seen.push(pods@[k as int]).drop_last() == seen);
            }
            r.insert(i, &pods[k]);
            assert(r@.unref() =~= r0.insert(i as int, pods@[k as int]));
        }
    }
    assert(pods@.take(pods@.len() as int) == pods@);
    r
}

/// The sentences of a status text on pods that block a PVC.
pub open spec fn blocking_parts(pods: Seq<Pod>) -> Seq<Seq<char>> {
    let running = scheduled(pods);
    let waiting = unscheduled(pods);
    (if running.len() == 0 {
        Seq::empty()
    } else {
        seq!["waiting for pods to release PVC: "@ + joined(names_of(running), ", "@)]
    }) + (if waiting.len() == 0 {
        Seq::empty()
    } else {
        seq![
            "never-scheduled pods predate the lock and hold it open: "@ + joined(
                names_of(waiting),
                ", "@,
            ) + " (delete them; the attach-lock denies recreation until the volume has moved)"@,
        ]
    })
}

/// The status text on pods that block a PVC.
pub open spec fn blocking_text(pods: Seq<Pod>) -> Seq<char> {
    joined(blocking_parts(pods), "; "@)
}

/// The names of the pods of a list that are, or are not, scheduled.
fn names_where(pods: &[Pod], wanted: bool) -> (r: Vec<String>)
    ensures
        views(r@) == names_of(pods@.filter(|p: Pod| p.scheduled() == wanted)),
{
    let mut r: Vec<String> = Vec::new();
    let ghost pred = |p: Pod| p.scheduled() == wanted;
    assert(pods@.take(0).filter(pred) =~= Seq::<Pod>::empty()) by {
        reveal(Seq::filter);
    }
    for i in 0..pods.len()
        invariant
            pred == (|p: Pod| p.scheduled() == wanted),
            views(r@) == names_of(pods@.take(i as int).filter(pred)),
    {
        let ghost r0 = r@;
        proof {
            reveal(Seq::filter);
            assert(pods@.take(i + 1).drop_last() == pods@.take(i as int));
        }
        if pod_is_scheduled(&pods[i]) == wanted {
            r.push(pods[i].metadata.name_any());
            assert(views(r@) == views(r0).push(pods@[i as int].metadata.any_name()));
            assert(names_of(pods@.take(i + 1).filter(pred)) =~= names_of(
                pods@.take(i as int).filter(pred),
            ).push(pods@[i as int].metadata.any_name()));
        }
    }
    assert(pods@.take(pods@.len() as int) == pods@);
    r
}

/// The names of the pods of a list that are bound to a node.
pub fn scheduled_names(pods: &[Pod]) -> (r: Vec<String>)
    ensures
        views(r@) == names_of(scheduled(pods@)),
{
    assert((|p: Pod| p.scheduled() == true) =~= (|p: Pod| p.scheduled()));
    names_where(pods, true)
}

/// Status text for pods blocking a locked PVC. Never-scheduled pods are called
/// out separately: they predate the lock (it only sees creation), and deleting
/// them is the fix, since the armed lock denies their recreation.
pub fn blocking_pods_message(pods: &[Pod]) -> (r: String)
    ensures
        r@ == blocking_text(pods@),
{
    let running = names_where(pods, true);
    let waiting = names_where(pods, false);
    proof {
        assert((|p: Pod| p.scheduled() == true) =~= (|p: Pod| p.scheduled()));
        assert((|p: Pod| p.scheduled() == false) =~= (|p: Pod| !p.scheduled()));
        assert(views(running@).len() == running@.len());
        assert(views(waiting@).len() == waiting@.len());
    }
    let mut parts: Vec<String> = Vec::new();
    if running.len() > 0 {
        parts.push(
            crate::text::cat("waiting for pods to release PVC: ", join(&running, ", ").as_str()),
        );
    }
    if waiting.len() > 0 {
        parts.push(
            cat3(
                "never-scheduled pods predate the lock and hold it open: ",
                join(&waiting, ", ").as_str(),
                " (delete them; the attach-lock denies recreation until the volume has moved)",
            ),
        );
    }
    assert(views(parts@) =~= blocking_parts(pods@));
    join(&parts, "; ")
}

/// Status text for the scheduled ones among pods, if there are any.
pub fn scheduled_blocking_message(pods: &[Pod]) -> (r: Option<String>)
    ensures
        match r {
            Some(m) => scheduled(pods@).len() > 0 && m@ == blocking_text(scheduled(pods@)),
            None => scheduled(pods@).len() == 0,
        },
{
    let names = scheduled_names(pods);
    assert(views(names@).len() == names@.len());
    if names.len() == 0 {
        return None;
    }
    proof {
        lemma_scheduled_twice(pods@);
        let parts = blocking_parts(scheduled(pods@));
        let only = "waiting for pods to release PVC: "@ + joined(names_of(scheduled(pods@)), ", "@);
        assert(parts =~= seq![only]);
    }
    Some(crate::text::cat("waiting for pods to release PVC: ", join(&names, ", ").as_str()))
}

/// Those that are scheduled are all scheduled.
proof fn lemma_scheduled_twice(pods: Seq<Pod>)
    ensures
        scheduled(scheduled(pods)) == scheduled(pods),
        unscheduled(scheduled(pods)).len() == 0,
    decreases pods.len(),
{
    reveal(Seq::filter);
    if pods.len() > 0 {
        let front = scheduled(pods.drop_last());
        lemma_scheduled_twice(pods.drop_last());
        if pods.last().scheduled() {
            assert(front.push(pods.last()).drop_last() =~= front);
        }
    }
}

// ------------------------------------------------------------------ what holds of the order

/// Are pods in the order of their names?
pub open spec fn in_name_order(pods: Seq<Pod>) -> bool {
    forall|i: int, j: int|
        0 <= i < j < pods.len() ==> !precedes(
            (#[trigger] pods[j]).metadata.any_name(),
            (#[trigger] pods[i]).metadata.any_name(),
        )
}

proof fn lemma_placed_keeps_order(pods: Seq<Pod>, pod: Pod)
    requires
        in_name_order(pods),
    ensures
        in_name_order(placed_by_name(pods, pod)),
        placed_by_name(pods, pod).to_multiset() == pods.to_multiset().insert(pod),
        placed_by_name(pods, pod).len() == pods.len() + 1,
        forall|i: int|
            0 <= i < pods.len() + 1 ==> (#[trigger] placed_by_name(pods, pod)[i] == pod
                || pods.contains(placed_by_name(pods, pod)[i])),
    decreases pods.len(),
{
    broadcast use vstd::seq_lib::group_to_multiset_ensures;

    let r = placed_by_name(pods, pod);
    let name = pod.metadata.any_name();
    if pods.len() == 0 {
        assert(r =~= pods.push(pod));
        lemma_precedes_asymmetric(name, name);
    } else if precedes(name, pods.last().metadata.any_name()) {
        let front = pods.drop_last();
        let last = pods.last();
        assert forall|i: int, j: int| 0 <= i < j < front.len() implies !precedes(
            (#[trigger] front[j]).metadata.any_name(),
            (#[trigger] front[i]).metadata.any_name(),
        ) by {
            assert(front[i] == pods[i] && front[j] == pods[j]);
        }
        lemma_placed_keeps_order(front, pod);
        let f = placed_by_name(front, pod);
        assert(pods =~= front.push(last));
        assert(r =~= f.push(last));
        assert(r.to_multiset() =~= pods.to_multiset().insert(pod));
        assert forall|i: int, j: int| 0 <= i < j < r.len() implies !precedes(
            (#[trigger] r[j]).metadata.any_name(),
            (#[trigger] r[i]).metadata.any_name(),
        ) by {
            if j < f.len() {
                assert(r[i] == f[i] && r[j] == f[j]);
            } else {
                assert(r[i] == f[i]);
                assert(f[i] == pod || front.contains(f[i]));
                lemma_precedes_asymmetric(name, last.metadata.any_name());
                if f[i] != pod {
                    let k = choose|k: int| 0 <= k < front.len() && front[k] == f[i];
                    assert(pods[k] == f[i] && pods[pods.len() - 1] == last);
                }
            }
        }
        assert forall|i: int| 0 <= i < r.len() implies (#[trigger] r[i] == pod || pods.contains(
            r[i],
        )) by {
            if i < f.len() {
                assert(r[i] == f[i]);
                if f[i] != pod {
                    let k = choose|k: int| 0 <= k < front.len() && front[k] == f[i];
                    assert(pods[k] == f[i]);
                }
            } else {
                assert(pods[pods.len() - 1] == r[i]);
            }
        }
    } else {
        assert(r =~= pods.push(pod));
        assert forall|i: int, j: int| 0 <= i < j < r.len() implies !precedes(
            (#[trigger] r[j]).metadata.any_name(),
            (#[trigger] r[i]).metadata.any_name(),
        ) by {
            if j < pods.len() {
                assert(r[i] == pods[i] && r[j] == pods[j]);
            } else {
                let top = pods.last().metadata.any_name();
                let here = pods[i].metadata.any_name();
                assert(r[i] == pods[i] && pods[pods.len() - 1] == pods.last());
                assert(!precedes(name, top));
                if precedes(name, here) {
                    if i < pods.len() - 1 {
                        assert(!precedes(
                            pods[pods.len() - 1].metadata.any_name(),
                            pods[i].metadata.any_name(),
                        ));
                        lemma_precedes_total(here, top);
                        if here != top {
                            lemma_precedes_transitive(name, here, top);
                        }
                    }
                }
            }
        }
        assert forall|i: int| 0 <= i < r.len() implies (#[trigger] r[i] == pod || pods.contains(
            r[i],
        )) by {
            if i < pods.len() {
                assert(r[i] == pods[i]);
            }
        }
    }
}

/// Sorting orders pods by name, and neither loses nor adds one.
pub proof fn sorting_orders_by_name(pods: Seq<Pod>)
    ensures
        in_name_order(sorted_by_name(pods)),
        sorted_by_name(pods).to_multiset() == pods.to_multiset(),
        sorted_by_name(pods).len() == pods.len(),
    decreases pods.len(),
{
    broadcast use vstd::seq_lib::group_to_multiset_ensures;

    if pods.len() > 0 {
        sorting_orders_by_name(pods.drop_last());
        lemma_placed_keeps_order(sorted_by_name(pods.drop_last()), pods.last());
        assert(pods =~= pods.drop_last().push(pods.last()));
    } else {
        assert(sorted_by_name(pods) =~= pods);
    }
}

// ------------------------------------------------------------------ what holds of messages

/// Does a text hold another?
pub open spec fn holds_text(text: Seq<char>, part: Seq<char>) -> bool {
    exists|at: int|
        0 <= at && at + part.len() <= text.len() && #[trigger] text.subrange(at, at + part.len())
            == part
}

/// A text holds each of its parts.
pub proof fn lemma_holds_between(before: Seq<char>, part: Seq<char>, after: Seq<char>)
    ensures
        holds_text(before + part + after, part),
        holds_text(before + part, part),
{
    let n = before.len() as int;
    assert((before + part + after).subrange(n, n + part.len()) =~= part);
    assert((before + part).subrange(n, n + part.len()) =~= part);
}

proof fn lemma_holds_within(text: Seq<char>, part: Seq<char>, inner: Seq<char>)
    requires
        holds_text(text, part),
        holds_text(part, inner),
    ensures
        holds_text(text, inner),
{
    let a = choose|at: int|
        0 <= at && at + part.len() <= text.len() && #[trigger] text.subrange(at, at + part.len())
            == part;
    let b = choose|at: int|
        0 <= at && at + inner.len() <= part.len() && #[trigger] part.subrange(
            at,
            at + inner.len(),
        ) == inner;
    assert(text.subrange(a + b, a + b + inner.len()) =~= text.subrange(
        a,
        a + part.len(),
    ).subrange(b, b + inner.len()));
}

proof fn lemma_joined_holds(parts: Seq<Seq<char>>, sep: Seq<char>, k: int)
    requires
        0 <= k < parts.len(),
    ensures
        holds_text(joined(parts, sep), parts[k]),
    decreases parts.len(),
{
    let none = Seq::<char>::empty();
    if parts.len() == 1 {
        lemma_holds_between(none, parts[k], none);
        assert(none + parts[k] + none =~= joined(parts, sep));
    } else {
        let front = joined(parts.drop_last(), sep);
        if k == parts.len() - 1 {
            lemma_holds_between(front + sep, parts[k], none);
        } else {
            lemma_joined_holds(parts.drop_last(), sep, k);
            lemma_holds_between(none, front, sep + parts.last());
            assert(none + front + (sep + parts.last()) =~= joined(parts, sep));
            lemma_holds_within(joined(parts, sep), front, parts[k]);
        }
    }
}

proof fn lemma_names_hold(pods: Seq<Pod>, pod: Pod)
    requires
        pods.contains(pod),
    ensures
        holds_text(joined(names_of(pods), ", "@), pod.metadata.any_name()),
{
    let k = choose|k: int| 0 <= k < pods.len() && pods[k] == pod;
    assert(names_of(pods)[k] == pod.metadata.any_name());
    lemma_joined_holds(names_of(pods), ", "@, k);
}

/// Whoever blocks a volume is named in the message: every pod that has a node, and
/// every pod that never got one.
pub proof fn blocking_pods_are_named(pods: Seq<Pod>, i: int)
    requires
        0 <= i < pods.len(),
    ensures
        holds_text(blocking_text(pods), pods[i].metadata.any_name()),
{
    crate::controller::pods::pods_with_a_node_are_scheduled(pods, i);
    let parts = blocking_parts(pods);
    let name = pods[i].metadata.any_name();
    if pods[i].scheduled() {
        let inner = joined(names_of(scheduled(pods)), ", "@);
        let first = "waiting for pods to release PVC: "@;
        lemma_names_hold(scheduled(pods), pods[i]);
        lemma_holds_between(first, inner, Seq::empty());
        assert(parts[0] == first + inner);
        lemma_holds_within(parts[0], inner, name);
        lemma_joined_holds(parts, "; "@, 0);
        lemma_holds_within(blocking_text(pods), parts[0], name);
    } else {
        let inner = joined(names_of(unscheduled(pods)), ", "@);
        let first = "never-scheduled pods predate the lock and hold it open: "@;
        let after =
            " (delete them; the attach-lock denies recreation until the volume has moved)"@;
        lemma_names_hold(unscheduled(pods), pods[i]);
        lemma_holds_between(first, inner, after);
        let last = parts.len() - 1;
        assert(parts[last] == first + inner + after);
        lemma_holds_within(parts[last], inner, name);
        lemma_joined_holds(parts, "; "@, last);
        lemma_holds_within(blocking_text(pods), parts[last], name);
    }
}

} // verus!
