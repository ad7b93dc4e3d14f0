//! Leases, triggers, locks, finalizers, groups, placement and targets.
use std::collections::BTreeMap;

use serde_json::Value;
use zfs_evacuation_controller::cluster::{
    CsiVolumeSource, Lookup, Node, NodeCondition, NodeSelectorRequirement, NodeSelectorTerm,
    NodeSpec, NodeStatus, ObjectMeta, PersistentVolume, PersistentVolumeClaim,
    PersistentVolumeClaimVolumeSource, PersistentVolumeSpec, Pod, PodSpec, StorageClass, Taint,
    Toleration, TopologySelectorLabelRequirement, TopologySelectorTerm, Volume,
};
use zfs_evacuation_controller::controller::colocation::{resolve, Sibling, SiblingNeed};
use zfs_evacuation_controller::controller::placement::{tolerates, Placement};
use zfs_evacuation_controller::controller::plan::{
    edit_finalizers, FinalizerEdit, PROVISIONER_FINALIZER, PV_PROTECTION,
};
use zfs_evacuation_controller::controller::target::{
    select_target, storage_class_name, Inventory, SelectionInput,
};
use zfs_evacuation_controller::controller::trigger::{
    annotated_pvs, annotation_condition_fresh, any_marked, clear_for_creation, new_evacuation,
    taint_condition_fresh, tainted_volumes, wants_evacuation, Clearance, TaintCheck,
};
use zfs_evacuation_controller::controller::{
    find_node, node_by_id, node_id_of, node_is_ready, pods_referencing_pvc, NodeSearch,
};
use zfs_evacuation_controller::crd::openebs::{
    VolumeInfo, ZFSNode, ZFSVolume, ZFSVolumeSpec, ZfsPool, ZFS_FINALIZER,
};
use zfs_evacuation_controller::crd::zfs_evacuation::{
    update_params, ColocationMember, ColocationRole, ColocationStatus, EvacuationMode,
    EvacuationParamsSpec, EvacuationTrigger, LockChange, ParamsWrite, Phase, PvcRef, SourceInfo,
    TargetInfo, ZFSEvacuation, ZFSEvacuationSpec, ZFSEvacuationStatus, EVACUATION_FINALIZER,
    GUARD_FINALIZER,
};
use zfs_evacuation_controller::leader::{
    after_write, standing, try_acquire, Bid, LeaseRecord, Standing,
};
use zfs_evacuation_controller::string_map::StringMap;

const TAINT: &str = "zfsevac.alumino.us/evacuate";
const GIB: u64 = 1 << 30;

fn text(s: &str) -> Option<String> {
    Some(s.to_string())
}

fn texts(list: &[&str]) -> Vec<String> {
    list.iter().map(|s| s.to_string()).collect()
}

fn map(pairs: &[(&str, &str)]) -> StringMap {
    let mut m = StringMap::new();
    for (k, v) in pairs {
        m.insert(k.to_string(), v.to_string());
    }
    m
}

fn named(name: &str) -> ObjectMeta {
    ObjectMeta { name: text(name), ..ObjectMeta::default() }
}

fn ready_node(name: &str) -> Node {
    Node {
        metadata: named(name),
        spec: Some(NodeSpec::default()),
        status: Some(NodeStatus {
            conditions: Some(vec![NodeCondition {
                type_: "Ready".to_string(),
                status: "True".to_string(),
            }]),
            addresses: None,
        }),
    }
}

fn with_taint(mut node: Node, key: &str, effect: &str) -> Node {
    let mut spec = node.spec.take().unwrap();
    let mut taints = spec.taints.take().unwrap_or_default();
    taints.push(Taint { key: key.to_string(), value: None, effect: effect.to_string() });
    spec.taints = Some(taints);
    node.spec = Some(spec);
    node
}

fn with_id(mut node: Node, id: &str) -> Node {
    node.metadata.labels = Some(map(&[("openebs.io/nodeid", id)]));
    node
}

fn zfs_pv(name: &str, handle: &str) -> PersistentVolume {
    PersistentVolume {
        metadata: named(name),
        spec: Some(PersistentVolumeSpec {
            csi: Some(CsiVolumeSource {
                driver: "zfs.csi.openebs.io".to_string(),
                volume_handle: handle.to_string(),
                volume_attributes: None,
                extra: BTreeMap::new(),
            }),
            storage_class_name: text("zfs"),
            ..PersistentVolumeSpec::default()
        }),
        status: None,
    }
}

fn annotated(mut pv: PersistentVolume, value: &str) -> PersistentVolume {
    pv.metadata.annotations = Some(map(&[("zfsevac.alumino.us/evacuate", value)]));
    pv
}

fn volume(handle: &str, owner: &str, capacity: &str) -> ZFSVolume {
    ZFSVolume {
        metadata: named(handle),
        spec: ZFSVolumeSpec(VolumeInfo {
            owner_node_id: owner.to_string(),
            pool_name: "zroot/csi".to_string(),
            capacity: text(capacity),
            extra: BTreeMap::from([("compression".to_string(), Value::String("on".to_string()))]),
            ..VolumeInfo::default()
        }),
        status: None,
    }
}

fn zfs_node(name: &str, pools: &[(&str, &str)]) -> ZFSNode {
    ZFSNode {
        metadata: named(name),
        pools: pools
            .iter()
            .map(|(n, free)| ZfsPool { name: n.to_string(), uuid: None, free: text(free) })
            .collect(),
    }
}

fn spec(pv_name: &str) -> ZFSEvacuationSpec {
    new_evacuation(pv_name, EvacuationTrigger::NodeTaint).spec
}

fn evacuation(name: &str, status: Option<ZFSEvacuationStatus>) -> ZFSEvacuation {
    ZFSEvacuation { metadata: named(name), spec: spec(name), status }
}

fn source(node_id: &str, bytes: u64) -> SourceInfo {
    SourceInfo {
        node: node_id.to_string(),
        node_id: node_id.to_string(),
        pool: "zroot/csi".to_string(),
        volume_handle: "h".to_string(),
        pv_uid: "u".to_string(),
        capacity_bytes: bytes,
    }
}

fn target(node_id: &str) -> TargetInfo {
    TargetInfo {
        node: node_id.to_string(),
        node_id: node_id.to_string(),
        pool: "zroot/other".to_string(),
        new_volume_handle: "zevac-x".to_string(),
    }
}

fn under_way(phase: Phase, node_id: &str, bytes: u64) -> ZFSEvacuationStatus {
    ZFSEvacuationStatus {
        phase,
        source: Some(source("src", bytes)),
        target: Some(target(node_id)),
        ..ZFSEvacuationStatus::default()
    }
}

// ------------------------------------------------------------------ leases

fn lease(holder: &str, at: Option<i64>, duration: Option<i32>) -> LeaseRecord {
    LeaseRecord {
        holder_identity: text(holder),
        lease_duration_seconds: duration,
        renewed_at: at,
        lease_transitions: Some(4),
    }
}

#[test]
fn a_lease_is_created_renewed_left_or_taken_over() {
    match try_acquire(None, "me", 100) {
        Bid::Create(u) => {
            assert_eq!(u.holder_identity, "me");
            assert_eq!(u.lease_duration_seconds, 30);
            assert_eq!(u.lease_transitions, Some(0));
            assert!(u.acquired);
        }
        other => panic!("{other:?}"),
    }
    match try_acquire(Some(&lease("me", Some(100), Some(30))), "me", 110) {
        Bid::Replace { update, ours } => {
            assert!(ours && !update.acquired);
            assert_eq!(update.lease_transitions, None);
        }
        other => panic!("{other:?}"),
    }
    assert!(matches!(try_acquire(Some(&lease("you", Some(100), Some(30))), "me", 130), Bid::Leave));
    match try_acquire(Some(&lease("you", Some(100), Some(30))), "me", 131) {
        Bid::Replace { update, ours } => {
            assert!(!ours && update.acquired);
            assert_eq!(update.lease_transitions, Some(5));
        }
        other => panic!("{other:?}"),
    }
    // A lease that was never renewed has run out; the duration defaults to ours.
    assert!(matches!(try_acquire(Some(&lease("you", None, None)), "me", 0), Bid::Replace { .. }));
    assert!(matches!(try_acquire(Some(&lease("you", Some(100), None)), "me", 130), Bid::Leave));
    assert!(matches!(try_acquire(Some(&lease("you", Some(100), None)), "me", 131), Bid::Replace { .. }));
}

#[test]
fn of_two_controllers_one_leads() {
    // Both look at a lease that is running: one of them holds it.
    let running = lease("me", Some(100), Some(30));
    assert!(matches!(try_acquire(Some(&running), "me", 125), Bid::Replace { ours: true, .. }));
    assert!(matches!(try_acquire(Some(&running), "you", 125), Bid::Leave));
    // The leader gives up in the second from which the other may take over.
    assert_eq!(standing(None, 30), Standing::Holding);
    assert!(matches!(try_acquire(Some(&running), "you", 130), Bid::Leave));
    assert_eq!(standing(None, 31), Standing::Fenced);
    assert!(matches!(try_acquire(Some(&running), "you", 131), Bid::Replace { ours: false, .. }));
}

#[test]
fn conflicts_and_renewals() {
    assert_eq!(after_write(false, true), Ok(true));
    assert_eq!(after_write(false, false), Ok(true));
    assert_eq!(after_write(true, false), Ok(false));
    assert_eq!(after_write(true, true), Err("conflict renewing own lease"));
    assert_eq!(standing(Some(true), 99), Standing::Renewed);
    assert_eq!(standing(Some(false), 0), Standing::Lost);
    assert_eq!(standing(None, 30), Standing::Holding);
    assert_eq!(standing(None, 31), Standing::Fenced);
}

// ------------------------------------------------------------------ triggers

#[test]
fn annotated_volumes_of_ours_are_wanted() {
    let pv = annotated(zfs_pv("pv-1", "h-1"), "true");
    assert!(wants_evacuation(&pv));
    assert!(!wants_evacuation(&annotated(zfs_pv("pv-1", "h-1"), "false")));
    assert!(!wants_evacuation(&zfs_pv("pv-1", "h-1")));
    let mut foreign = annotated(zfs_pv("pv-2", "h-2"), "true");
    if let Some(spec) = foreign.spec.as_mut() {
        spec.csi.as_mut().unwrap().driver = "other".to_string();
    }
    assert!(!wants_evacuation(&foreign));
    let mut going = annotated(zfs_pv("pv-3", "h-3"), "true");
    going.metadata.deletion_timestamp = text("2024-01-01T00:00:00Z");
    assert!(!wants_evacuation(&going));
    assert_eq!(annotated_pvs(&vec![zfs_pv("pv-0", "h"), pv.clone(), foreign, going]), vec!["pv-1"]);
    assert!(annotation_condition_fresh(Some(&pv)));
    assert!(!annotation_condition_fresh(None));
}

#[test]
fn all_volumes_of_a_marked_node_are_due() {
    let nodes = vec![
        with_id(with_taint(ready_node("worker-1"), TAINT, "NoSchedule"), "id-1"),
        ready_node("worker-2"),
    ];
    assert!(any_marked(&nodes, TAINT) && !any_marked(&nodes, "other"));
    let volumes = vec![
        volume("h-1", "id-1", "1Gi"),
        volume("h-2", "worker-2", "1Gi"),
        volume("h-3", "id-1", "1Gi"),
        volume("no-pv", "id-1", "1Gi"),
        volume("h-4", "worker-1", "1Gi"),
    ];
    // Handles and PV names diverge after an evacuation; the last PV wins.
    let pvs = vec![
        zfs_pv("pv-old", "h-1"),
        zfs_pv("pv-2", "h-2"),
        zfs_pv("pv-3", "h-3"),
        zfs_pv("pv-4", "h-4"),
        zfs_pv("pv-1", "h-1"),
    ];
    let due = tainted_volumes(&volumes, &pvs, &nodes, TAINT);
    let got: Vec<(&str, &str)> =
        due.iter().map(|d| (d.pv_name.as_str(), d.handle.as_str())).collect();
    assert_eq!(got, vec![("pv-1", "h-1"), ("pv-3", "h-3")]);
}

#[test]
fn the_taint_condition_is_checked_afresh() {
    let pv = || Lookup::Found(zfs_pv("pv", "h"));
    let zv = || Lookup::Found(volume("h", "id-1", "1Gi"));
    let node = with_taint(ready_node("n"), TAINT, "PreferNoSchedule");
    let check = |pv: Lookup<PersistentVolume>, zv: Lookup<ZFSVolume>, node: Lookup<Node>| {
        taint_condition_fresh(&pv, &zv, &node, "h", TAINT)
    };
    assert!(matches!(check(Lookup::Unread, Lookup::Unread, Lookup::Unread), TaintCheck::ReadPv));
    assert!(matches!(check(Lookup::Absent, Lookup::Unread, Lookup::Unread), TaintCheck::Fails));
    assert!(matches!(
        check(Lookup::Found(zfs_pv("pv", "moved")), zv(), Lookup::Found(node.clone())),
        TaintCheck::Fails
    ));
    assert!(matches!(check(pv(), Lookup::Unread, Lookup::Unread), TaintCheck::ReadVolume));
    assert!(matches!(check(pv(), Lookup::Absent, Lookup::Unread), TaintCheck::Fails));
    match check(pv(), zv(), Lookup::Unread) {
        TaintCheck::ReadNode(id) => assert_eq!(id, "id-1"),
        other => panic!("{other:?}"),
    }
    assert!(matches!(check(pv(), zv(), Lookup::Absent), TaintCheck::Fails));
    assert!(matches!(check(pv(), zv(), Lookup::Found(ready_node("n"))), TaintCheck::Fails));
    assert!(matches!(check(pv(), zv(), Lookup::Found(node)), TaintCheck::Holds));
}

#[test]
fn ended_evacuations_make_room() {
    let in_phase = |phase: Phase, cancelled: bool| {
        evacuation("pv", Some(ZFSEvacuationStatus { phase, cancelled, ..ZFSEvacuationStatus::default() }))
    };
    assert_eq!(clear_for_creation(None), Clearance::Clear);
    assert_eq!(clear_for_creation(Some(&evacuation("pv", None))), Clearance::Occupied);
    assert_eq!(clear_for_creation(Some(&in_phase(Phase::Completed, false))), Clearance::Replace);
    assert_eq!(clear_for_creation(Some(&in_phase(Phase::Failed, true))), Clearance::Replace);
    assert_eq!(clear_for_creation(Some(&in_phase(Phase::Failed, false))), Clearance::Occupied);
    assert_eq!(clear_for_creation(Some(&in_phase(Phase::Aborting, true))), Clearance::Occupied);
}

#[test]
fn triggers_decide_the_mode() {
    let a = new_evacuation("pv-1", EvacuationTrigger::Annotation);
    assert_eq!(a.metadata.name_any(), "pv-1");
    assert_eq!(a.spec.pv_name, "pv-1");
    assert_eq!(a.spec.mode, EvacuationMode::WhenIdle);
    assert!(a.status.is_none() && a.spec.target_node.is_none());
    let t = new_evacuation("pv-1", EvacuationTrigger::NodeTaint);
    assert_eq!(t.spec.mode, EvacuationMode::WhenClaimed);
    assert_eq!(t.spec.trigger, EvacuationTrigger::NodeTaint);
}

// ------------------------------------------------------------------ locks

#[test]
fn lock_changes_are_written_only_if_they_change_something() {
    let lock = LockChange::Lock { key: "ns/a".to_string(), mode: EvacuationMode::WhenIdle };
    let unlock = LockChange::Unlock { key: "ns/a".to_string() };
    let empty = || EvacuationParamsSpec::default();
    match update_params(None, &lock) {
        ParamsWrite::Create(p) => assert_eq!(p.pvc_keys, vec!["ns/a"]),
        other => panic!("{other:?}"),
    }
    assert!(matches!(update_params(None, &unlock), ParamsWrite::Nothing));
    assert!(matches!(update_params(Some(empty()), &unlock), ParamsWrite::Nothing));
    let held = || EvacuationParamsSpec {
        pvc_keys: texts(&["ns/a", "ns/b"]),
        claimable_pvc_keys: vec![],
    };
    assert!(matches!(update_params(Some(held()), &lock), ParamsWrite::Nothing));
    match update_params(Some(held()), &unlock) {
        ParamsWrite::Replace(p) => assert_eq!(p.pvc_keys, vec!["ns/b"]),
        other => panic!("{other:?}"),
    }
    // Unlocking undoes locking.
    let mut p = held();
    p.lock("ns/c", &EvacuationMode::WhenClaimed);
    p.unlock("ns/c");
    assert_eq!(p.pvc_keys, held().pvc_keys);
    assert!(p.claimable_pvc_keys.is_empty());
}

#[test]
fn finalizers_are_edited_only_if_that_changes_them() {
    let edit = |e: FinalizerEdit, list: &[&str]| edit_finalizers(e, &texts(list));
    assert_eq!(edit(FinalizerEdit::AddGuard, &["x"]), Some(texts(&["x", GUARD_FINALIZER])));
    assert_eq!(edit(FinalizerEdit::AddGuard, &[GUARD_FINALIZER]), None);
    assert_eq!(edit(FinalizerEdit::DropGuard, &["x", GUARD_FINALIZER]), Some(texts(&["x"])));
    assert_eq!(edit(FinalizerEdit::DropGuard, &["x"]), None);
    assert_eq!(edit(FinalizerEdit::DropZfs, &[ZFS_FINALIZER, "x"]), Some(texts(&["x"])));
    assert_eq!(
        edit(FinalizerEdit::DropPvBlockers, &[PV_PROTECTION, "x", PROVISIONER_FINALIZER]),
        Some(texts(&["x"]))
    );
    assert_eq!(edit(FinalizerEdit::AddHold, &[]), Some(texts(&[EVACUATION_FINALIZER])));
    assert_eq!(edit(FinalizerEdit::DropHold, &[EVACUATION_FINALIZER]), Some(vec![]));
    // Putting the guard on and taking it off leaves no trace.
    let guarded = edit(FinalizerEdit::AddGuard, &["x", "y"]).unwrap();
    assert_eq!(edit_finalizers(FinalizerEdit::DropGuard, &guarded), Some(texts(&["x", "y"])));
}

// ------------------------------------------------------------------ nodes and pods

#[test]
fn nodes_are_found_by_identity() {
    let nodes = vec![ready_node("a"), with_id(ready_node("b"), "a-id"), with_id(ready_node("c"), "b")];
    assert_eq!(node_id_of(&nodes[0]), "a");
    assert_eq!(node_id_of(&nodes[1]), "a-id");
    assert_eq!(find_node(&nodes, "b"), Some(2));
    assert_eq!(find_node(&nodes, "c"), None);
    // A node named like the identity but overridden by a label is no match.
    assert_eq!(node_by_id(Some(&nodes[0]), None, "a"), NodeSearch::Named);
    assert_eq!(node_by_id(Some(&nodes[1]), None, "b"), NodeSearch::List);
    assert_eq!(node_by_id(None, None, "b"), NodeSearch::List);
    assert_eq!(node_by_id(Some(&nodes[1]), Some(&nodes), "b"), NodeSearch::Listed(2));
    assert_eq!(node_by_id(None, Some(&nodes), "zzz"), NodeSearch::Absent);
}

#[test]
fn ready_nodes() {
    assert!(node_is_ready(&ready_node("n")));
    assert!(!node_is_ready(&Node::default()));
    let mut cordoned = ready_node("n");
    cordoned.spec = Some(NodeSpec { unschedulable: Some(true), ..NodeSpec::default() });
    assert!(!node_is_ready(&cordoned));
    let mut unready = ready_node("n");
    unready.status = Some(NodeStatus {
        conditions: Some(vec![NodeCondition {
            type_: "Ready".to_string(),
            status: "Unknown".to_string(),
        }]),
        addresses: None,
    });
    assert!(!node_is_ready(&unready));
}

fn consumer(name: &str, claims: &[&str]) -> Pod {
    Pod {
        metadata: named(name),
        spec: Some(PodSpec {
            volumes: Some(
                claims
                    .iter()
                    .map(|c| Volume {
                        name: c.to_string(),
                        persistent_volume_claim: Some(PersistentVolumeClaimVolumeSource {
                            claim_name: c.to_string(),
                        }),
                        ephemeral: false,
                    })
                    .collect(),
            ),
            ..PodSpec::default()
        }),
    }
}

#[test]
fn pods_that_reference_a_pvc_are_kept() {
    let pods = vec![consumer("a", &["x"]), consumer("b", &["y"]), consumer("c", &["z", "x"])];
    let names: Vec<String> =
        pods_referencing_pvc(pods, "x").iter().map(|p| p.metadata.name_any()).collect();
    assert_eq!(names, vec!["a", "c"]);
}

#[test]
fn tolerations_as_the_scheduler_reads_them() {
    let taint = |value: Option<&str>| Taint {
        key: "k".to_string(),
        value: value.map(|v| v.to_string()),
        effect: "NoSchedule".to_string(),
    };
    let toleration = |key: &str, operator: &str, value: &str, effect: &str| {
        let some = |s: &str| if s == "-" { None } else { text(s) };
        Toleration {
            key: some(key),
            operator: some(operator),
            value: some(value),
            effect: some(effect),
        }
    };
    assert!(tolerates(&toleration("k", "-", "-", "-"), &taint(None)));
    assert!(tolerates(&toleration("k", "Equal", "", ""), &taint(None)));
    assert!(!tolerates(&toleration("k", "Equal", "-", "-"), &taint(Some("v"))));
    assert!(tolerates(&toleration("k", "Exists", "-", "-"), &taint(Some("v"))));
    assert!(tolerates(&toleration("", "Exists", "-", "-"), &taint(Some("v"))));
    assert!(!tolerates(&toleration("-", "Equal", "v", "-"), &taint(Some("v"))));
    assert!(!tolerates(&toleration("other", "Exists", "-", "-"), &taint(None)));
    assert!(!tolerates(&toleration("k", "Exists", "-", "NoExecute"), &taint(None)));
}

#[test]
fn selector_operators() {
    let mut node = ready_node("n1");
    node.metadata.labels = Some(map(&[("zone", "a"), ("cores", "32"), ("text", "x")]));
    let admits = |key: &str, operator: &str, values: &[&str]| {
        Placement {
            node_selector: StringMap::new(),
            terms: vec![NodeSelectorTerm {
                match_expressions: Some(vec![NodeSelectorRequirement {
                    key: key.to_string(),
                    operator: operator.to_string(),
                    values: Some(texts(values)),
                }]),
                match_fields: None,
            }],
            tolerations: vec![],
        }
        .admits(&node)
    };
    assert!(admits("zone", "In", &["b", "a"]) && !admits("zone", "In", &[]));
    assert!(admits("zone", "NotIn", &["b"]) && !admits("zone", "NotIn", &["a"]));
    assert!(admits("missing", "NotIn", &["a"]) && !admits("missing", "In", &["a"]));
    assert!(admits("zone", "Exists", &[]) && !admits("missing", "Exists", &[]));
    assert!(admits("missing", "DoesNotExist", &[]) && !admits("zone", "DoesNotExist", &[]));
    assert!(admits("cores", "Gt", &["31"]) && !admits("cores", "Gt", &["32"]));
    assert!(admits("cores", "Lt", &["33"]) && !admits("cores", "Lt", &["32"]));
    assert!(!admits("text", "Gt", &["1"]) && !admits("cores", "Gt", &["x"]) && !admits("cores", "Lt", &[]));
    assert!(admits("zone", "Resembles", &["a"]));
    // An empty term matches nothing, and no terms match everything.
    let empty = Placement { terms: vec![NodeSelectorTerm::default()], ..Placement::default() };
    assert!(!empty.admits(&node) && Placement::default().admits(&node));
    // The name is the only field there is.
    let by_field = |key: &str| {
        Placement {
            terms: vec![NodeSelectorTerm {
                match_expressions: None,
                match_fields: Some(vec![NodeSelectorRequirement {
                    key: key.to_string(),
                    operator: "In".to_string(),
                    values: Some(texts(&["n1"])),
                }]),
            }],
            ..Placement::default()
        }
        .admits(&node)
    };
    assert!(by_field("metadata.name") && !by_field("metadata.uid"));
}

// ------------------------------------------------------------------ groups

fn sibling(pv: &str, zv: ZFSVolume, evac: Option<ZFSEvacuation>) -> Sibling {
    let handle = zv.metadata.name_any();
    Sibling {
        pvc: Lookup::Found(PersistentVolumeClaim {
            metadata: named(pv),
            volume_name: text(pv),
            conditions: vec![],
        }),
        pv: Lookup::Found(zfs_pv(pv, &handle)),
        volume: Lookup::Found(zv),
        evac: match evac {
            Some(e) => Lookup::Found(e),
            None => Lookup::Absent,
        },
    }
}

#[test]
fn siblings_are_read_as_far_as_they_matter() {
    let mut s = Sibling::unknown();
    assert!(matches!(s.next_read("pv-1"), SiblingNeed::Pvc));
    s.pvc = Lookup::Absent;
    assert!(matches!(s.next_read("pv-1"), SiblingNeed::Nothing));
    s.pvc = Lookup::Found(PersistentVolumeClaim { volume_name: text("pv-2"), ..Default::default() });
    assert!(matches!(s.next_read("pv-1"), SiblingNeed::Pv(n) if n == "pv-2"));
    s.pv = Lookup::Found(zfs_pv("pv-2", "h-2"));
    assert!(matches!(s.next_read("pv-1"), SiblingNeed::Volume(n) if n == "h-2"));
    s.volume = Lookup::Found(volume("h-2", "src", "1Gi"));
    assert!(matches!(s.next_read("pv-1"), SiblingNeed::Evacuation(n) if n == "pv-2"));
    assert!(matches!(s.next_read("pv-2"), SiblingNeed::Nothing));
    s.evac = Lookup::Absent;
    assert!(matches!(s.next_read("pv-1"), SiblingNeed::Nothing));
    s.pv = Lookup::Found(PersistentVolume::default());
    assert!(matches!(s.next_read("pv-1"), SiblingNeed::Nothing));
}

#[test]
fn the_consumer_defines_the_group() {
    let pvc = PvcRef { namespace: "ns".to_string(), name: "a".to_string(), uid: "u".to_string() };
    let pods = vec![consumer("z", &["a"]), consumer("b", &["a", "c", "d", "e"])];
    let mut elsewhere = spec("pv-d");
    elsewhere.target_node = text("n3");
    let siblings = vec![
        sibling("pv-a", volume("h-a", "src", "1Gi"), None),
        sibling("pv-c", volume("h-c", "src", "2Gi"), None),
        sibling(
            "pv-d",
            volume("h-d", "src", "4Gi"),
            Some(ZFSEvacuation { metadata: named("pv-d"), spec: elsewhere, status: None }),
        ),
        Sibling::unknown(),
    ];
    let group = resolve("pv-a", &pvc, "src", &pods, &siblings).unwrap();
    assert_eq!(group.pod, "ns/b");
    let members: Vec<(&str, u64)> =
        group.members.iter().map(|m| (m.pv_name.as_str(), m.capacity_bytes)).collect();
    assert_eq!(members, vec![("pv-a", GIB), ("pv-c", 2 * GIB)]);
    let anchor = group.anchor.unwrap();
    assert_eq!((anchor.node.as_str(), anchor.how), ("n3", "spec.targetNode"));

    // A chosen target anchors; an ended evacuation says nothing, its volume does.
    let chosen = evacuation("pv-c", Some(under_way(Phase::Transferring, "n4", GIB)));
    let ended = evacuation("pv-d", Some(under_way(Phase::Completed, "n9", GIB)));
    let siblings = vec![
        sibling("pv-a", volume("h-a", "src", "1Gi"), None),
        sibling("pv-c", volume("h-c", "src", "2Gi"), Some(chosen)),
        sibling("pv-d", volume("h-d", "n4", "4Gi"), Some(ended)),
    ];
    let anchor = resolve("pv-a", &pvc, "src", &pods, &siblings).unwrap().anchor.unwrap();
    assert_eq!((anchor.node.as_str(), anchor.pv_name.as_str(), anchor.how), ("n4", "pv-c", "status.target"));
    let siblings = vec![sibling("pv-d", volume("h-d", "n5", "4Gi"), None)];
    let anchor = resolve("pv-a", &pvc, "src", &pods, &siblings).unwrap().anchor.unwrap();
    assert_eq!((anchor.node.as_str(), anchor.how), ("n5", "ZFSVolume owner"));

    // Without a never-scheduled pod there is nothing to co-locate with.
    let mut running = consumer("r", &["a"]);
    running.spec.as_mut().unwrap().node_name = text("src");
    assert!(resolve("pv-a", &pvc, "src", &[running], &siblings).is_none());
}

// ------------------------------------------------------------------ targets

struct World {
    zfsnodes: Vec<ZFSNode>,
    nodes: Vec<Node>,
    evacs: Vec<ZFSEvacuation>,
    class: StorageClass,
}

fn world() -> World {
    World {
        zfsnodes: vec![
            zfs_node("src", &[("zroot", "900Gi")]),
            zfs_node("n1", &[("zroot", "50Gi")]),
            zfs_node("n2", &[("tank", "500Gi"), ("zroot", "80Gi")]),
            zfs_node("n3", &[("zroot", "80Gi")]),
        ],
        nodes: vec![ready_node("src"), ready_node("n1"), ready_node("n2"), ready_node("n3")],
        evacs: vec![],
        class: StorageClass {
            parameters: Some(map(&[("poolname", "zroot/csi")])),
            allowed_topologies: None,
        },
    }
}

fn input(spec: &ZFSEvacuationSpec) -> SelectionInput<'_> {
    SelectionInput {
        evac_name: "pv-a",
        spec,
        source_node_id: "src",
        source_pool: "zroot/old",
        capacity_bytes: 10 * GIB as u128,
        group_extra_bytes: 0,
        anchor: None,
        placement: None,
    }
}

fn choose_in(w: &World, input: &SelectionInput<'_>) -> Result<TargetInfo, String> {
    let inv = Inventory {
        zfsnodes: &w.zfsnodes,
        nodes: &w.nodes,
        evacs: &w.evacs,
        storage_class: Some(("zfs", &w.class)),
        taint_key: TAINT,
    };
    select_target(input, &inv)
}

#[test]
fn the_first_node_with_the_most_space_left_is_chosen() {
    let s = spec("pv-a");
    let t = choose_in(&world(), &input(&s)).unwrap();
    assert_eq!((t.node.as_str(), t.node_id.as_str(), t.pool.as_str()), ("n2", "n2", "zroot/csi"));
    assert_eq!(t.new_volume_handle, "");
    // Reservations count, whatever the dataset within the zpool.
    let mut w = world();
    w.evacs = vec![evacuation("pv-x", Some(under_way(Phase::Completed, "n2", 5 * GIB)))];
    assert_eq!(choose_in(&w, &input(&s)).unwrap().node, "n2");
    if let Some(st) = w.evacs[0].status.as_mut() {
        st.colocation = Some(ColocationStatus {
            pod: "ns/p".to_string(),
            members: vec![
                ColocationMember { pv_name: "pv-x".to_string(), capacity_bytes: 5 * GIB },
                ColocationMember { pv_name: "pv-y".to_string(), capacity_bytes: GIB },
            ],
            role: ColocationRole::Leader,
            followed: None,
        });
    }
    // A completed leader still holds its group's unplaced members.
    assert_eq!(choose_in(&w, &input(&s)).unwrap().node, "n3");
    // They never count against the member that is choosing, nor once it has.
    let mut own = input(&s);
    own.evac_name = "pv-y";
    assert_eq!(choose_in(&w, &own).unwrap().node, "n2");
    w.evacs.push(evacuation("pv-y", Some(under_way(Phase::Failed, "n1", GIB))));
    assert_eq!(choose_in(&w, &input(&s)).unwrap().node, "n2");
}

#[test]
fn ineligible_nodes_are_named_with_the_reason() {
    let s = spec("pv-a");
    let mut w = world();
    w.zfsnodes.push(zfs_node("n4", &[("tank", "1Ti")]));
    w.zfsnodes.push(zfs_node("n5", &[("zroot", "1Ti")]));
    w.nodes.push(ready_node("n4"));
    w.nodes[1] = with_taint(ready_node("n1"), TAINT, "PreferNoSchedule");
    w.nodes[2].spec = Some(NodeSpec { unschedulable: Some(true), ..NodeSpec::default() });
    w.evacs = vec![evacuation("pv-x", Some(under_way(Phase::Transferring, "n3", GIB)))];
    let why = choose_in(&w, &input(&s)).unwrap_err();
    assert_eq!(
        why,
        "no eligible target: need 11811160064 bytes in zpool zroot (for destination zroot/csi) on a \
         ready node (excluding source src); n1: carries the evacuate taint, n2: not Ready or \
         unschedulable, n3: already receiving another evacuation, n4: no zpool zroot, n5: no Node \
         with this openebs.io/nodeid"
    );
}

#[test]
fn an_explicit_target_is_the_only_one() {
    let mut s = spec("pv-a");
    s.target_node = text("worker-3");
    let mut w = world();
    w.nodes[3] = with_id(ready_node("worker-3"), "n3");
    assert_eq!(choose_in(&w, &input(&s)).unwrap().node_id, "n3");
    s.target_node = text("n3");
    assert_eq!(choose_in(&w, &input(&s)).unwrap().node, "worker-3");
    // It wins over an anchor, and headroom is demanded of it too.
    let mut i = input(&s);
    i.anchor = Some("n1");
    i.capacity_bytes = 70 * GIB as u128;
    assert_eq!(choose_in(&w, &i).unwrap().node_id, "n3");
    i.group_extra_bytes = 10 * GIB as u128;
    assert_eq!(
        choose_in(&w, &i).unwrap_err(),
        "target n3 ineligible (need 94489280512 bytes in zpool zroot); n3: zpool zroot has \
         85899345920 bytes free after reservations, need 94489280512"
    );
    let free = spec("pv-a");
    let mut i = input(&free);
    i.anchor = Some("n1");
    assert_eq!(choose_in(&w, &i).unwrap().node_id, "n1");
    i.anchor = Some("src");
    assert_eq!(
        choose_in(&w, &i).unwrap_err(),
        "target src ineligible (need 11811160064 bytes in zpool zroot)"
    );
}

#[test]
fn consumers_and_storage_classes_constrain_the_target() {
    let s = spec("pv-a");
    let mut w = world();
    w.nodes[1].metadata.labels = Some(map(&[("tier", "gpu")]));
    let placement = Placement { node_selector: map(&[("tier", "gpu")]), ..Placement::default() };
    let mut i = input(&s);
    i.placement = Some(&placement);
    assert_eq!(choose_in(&w, &i).unwrap().node, "n1");
    w.nodes[1].metadata.labels = None;
    assert!(choose_in(&w, &i)
        .unwrap_err()
        .ends_with("n3: excluded by the consumer pod's nodeSelector/affinity/tolerations"));

    let topology = |key: &str, values: &[&str]| TopologySelectorTerm {
        match_label_expressions: Some(vec![TopologySelectorLabelRequirement {
            key: key.to_string(),
            values: texts(values),
        }]),
    };
    let mut w = world();
    w.class.allowed_topologies =
        Some(vec![topology("openebs.io/nodeid", &["n9"]), topology("openebs.io/nodeid", &["n1"])]);
    assert_eq!(choose_in(&w, &input(&s)).unwrap().node, "n1");
    w.class.allowed_topologies = Some(vec![topology("zone", &[])]);
    assert_eq!(choose_in(&w, &input(&s)).unwrap().node, "n2");
    w.class.allowed_topologies = Some(vec![topology("openebs.io/nodeid", &[])]);
    assert_eq!(
        choose_in(&w, &input(&s)).unwrap_err(),
        "StorageClass zfs allowedTopologies excludes every node"
    );
    w.class.allowed_topologies = Some(vec![topology("openebs.io/nodeid", &["n9"])]);
    assert!(choose_in(&w, &input(&s))
        .unwrap_err()
        .contains("n1: outside the StorageClass allowedTopologies"));
}

#[test]
fn the_destination_pool_decides_the_zpool() {
    let mut s = spec("pv-a");
    s.target_pool = text("tank/x/y");
    let t = choose_in(&world(), &input(&s)).unwrap();
    assert_eq!((t.node.as_str(), t.pool.as_str()), ("n2", "tank/x/y"));
    let s = spec("pv-a");
    let mut w = world();
    w.class.parameters = None;
    assert_eq!(choose_in(&w, &input(&s)).unwrap().pool, "zroot/old");
    assert_eq!(storage_class_name(&zfs_pv("pv", "h")), text("zfs"));
    assert_eq!(storage_class_name(&PersistentVolume::default()), None);
    // Headroom is ten percent unless the spec says otherwise.
    let mut s = spec("pv-a");
    s.headroom_percent = Some(0);
    let mut i = input(&s);
    i.capacity_bytes = 80 * GIB as u128;
    assert_eq!(choose_in(&world(), &i).unwrap().node, "n2");
    s.headroom_percent = Some(1);
    let mut i = input(&s);
    i.capacity_bytes = 80 * GIB as u128;
    assert!(choose_in(&world(), &i).is_err());
}
