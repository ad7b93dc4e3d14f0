//! What the controller's building blocks do on concrete objects.
use std::collections::{BTreeMap, HashSet};

use serde_json::Value;
use zfs_evacuation_controller::cluster::{
    Affinity, CsiVolumeSource, Node, NodeAffinity, NodeSelector, NodeSelectorRequirement,
    NodeSelectorTerm, NodeSpec, ObjectMeta, ObjectReference, PersistentVolume,
    PersistentVolumeClaimVolumeSource, PersistentVolumeSpec, PersistentVolumeStatus, Pod, PodSpec,
    PreferredSchedulingTerm, Taint, Toleration, Volume, VolumeNodeAffinity,
};
use zfs_evacuation_controller::controller::colocation::{pick_anchor, Anchor};
use zfs_evacuation_controller::controller::placement::Placement;
use zfs_evacuation_controller::controller::pv_swap::render_new_pv;
use zfs_evacuation_controller::controller::state_machine::{
    new_destination_handle, source_handle_fits_snapshot_label,
};
use zfs_evacuation_controller::controller::target::{pool_component, resolve_dest_poolname};
use zfs_evacuation_controller::controller::transfer::{
    target_snapshot_cr, transfer_verdict, RelayObs, TransferObs, TransferVerdict,
};
use zfs_evacuation_controller::controller::{
    blocking_pods_message, node_has_evacuate_taint, node_repels_pods, parse_quantity_or_bytes,
    pod_is_scheduled, pod_pvc_names, pod_references_pvc, target_zfsvolume, unscheduled_pods,
};
use zfs_evacuation_controller::crd::openebs::{VolumeInfo, ZFS_VOL_LABEL};
use zfs_evacuation_controller::crd::zfs_evacuation::{
    EvacuationMode, EvacuationParamsSpec, PvcRef, TargetInfo,
};
use zfs_evacuation_controller::string_map::StringMap;
use zfs_evacuation_controller::transfer::relay::{IpAddr, IpNet};

fn text(s: &str) -> Option<String> {
    Some(s.to_string())
}

fn texts(list: &[&str]) -> Vec<String> {
    list.iter().map(|s| s.to_string()).collect()
}

fn map(pairs: &[(&str, &str)]) -> StringMap {
    let mut m = StringMap::new();
    for (k, v) in pairs {
        m.insert(k.to_string(), v.to_string());
    }
    m
}

fn named(name: &str) -> ObjectMeta {
    ObjectMeta { name: text(name), ..ObjectMeta::default() }
}

fn pod_with(name: &str, spec: PodSpec) -> Pod {
    Pod { metadata: named(name), spec: Some(spec) }
}

fn claim_volume(name: &str, claim: &str) -> Volume {
    Volume {
        name: name.to_string(),
        persistent_volume_claim: Some(PersistentVolumeClaimVolumeSource {
            claim_name: claim.to_string(),
        }),
        ephemeral: false,
    }
}

fn ephemeral_volume(name: &str) -> Volume {
    Volume { name: name.to_string(), persistent_volume_claim: None, ephemeral: true }
}

fn taint(key: &str, value: Option<&str>, effect: &str) -> Taint {
    Taint { key: key.to_string(), value: value.map(|v| v.to_string()), effect: effect.to_string() }
}

fn node_with(name: &str, spec: NodeSpec) -> Node {
    Node { metadata: named(name), spec: Some(spec), status: None }
}

fn ip(s: &str) -> IpAddr {
    IpAddr::parse(s).unwrap()
}

#[test]
fn quantity_parsing() {
    assert_eq!(parse_quantity_or_bytes("1073741824"), Some(1 << 30));
    assert_eq!(parse_quantity_or_bytes("1Gi"), Some(1 << 30));
    assert_eq!(parse_quantity_or_bytes("500Mi"), Some(500 << 20));
    assert_eq!(parse_quantity_or_bytes("2G"), Some(2_000_000_000));
    assert_eq!(parse_quantity_or_bytes("1.5Gi"), Some(3 << 29));
    assert_eq!(parse_quantity_or_bytes("garbage"), None);
    assert_eq!(parse_quantity_or_bytes("-5Gi"), None);
}

#[test]
fn pod_pvc_references() {
    let direct = pod_with(
        "app-0",
        PodSpec { volumes: Some(vec![claim_volume("data", "data-app-0")]), ..PodSpec::default() },
    );
    assert!(pod_references_pvc(&direct, "data-app-0"));
    assert!(!pod_references_pvc(&direct, "other"));

    // Generic ephemeral volume: PVC name is derived as <pod>-<volume>.
    let ephemeral = pod_with(
        "worker",
        PodSpec { volumes: Some(vec![ephemeral_volume("scratch")]), ..PodSpec::default() },
    );
    assert!(pod_references_pvc(&ephemeral, "worker-scratch"));
    assert!(!pod_references_pvc(&ephemeral, "scratch"));

    let none = pod_with("plain", PodSpec::default());
    assert!(!pod_references_pvc(&none, "data-app-0"));
}

fn old_pv() -> PersistentVolume {
    let mut storage = serde_json::Map::new();
    storage.insert("storage".to_string(), Value::String("8Gi".to_string()));
    PersistentVolume {
        metadata: ObjectMeta {
            name: text("pvc-1234"),
            uid: text("old-uid"),
            resource_version: text("42"),
            annotations: Some(map(&[("pv.kubernetes.io/provisioned-by", "zfs.csi.openebs.io")])),
            finalizers: Some(texts(&["kubernetes.io/pv-protection"])),
            ..ObjectMeta::default()
        },
        spec: Some(PersistentVolumeSpec {
            claim_ref: Some(ObjectReference {
                namespace: text("default"),
                name: text("data"),
                uid: text("pvc-uid-1"),
                ..ObjectReference::default()
            }),
            csi: Some(CsiVolumeSource {
                driver: "zfs.csi.openebs.io".to_string(),
                volume_handle: "pvc-1234".to_string(),
                volume_attributes: Some(map(&[
                    ("openebs.io/poolname", "tank"),
                    ("openebs.io/cas-type", "localpv-zfs"),
                ])),
                extra: BTreeMap::from([("fsType".to_string(), Value::String("zfs".to_string()))]),
            }),
            node_affinity: Some(VolumeNodeAffinity {
                required: Some(NodeSelector {
                    node_selector_terms: vec![NodeSelectorTerm {
                        match_expressions: Some(vec![NodeSelectorRequirement {
                            key: "openebs.io/nodeid".to_string(),
                            operator: "In".to_string(),
                            values: Some(texts(&["node-a"])),
                        }]),
                        match_fields: None,
                    }],
                }),
            }),
            persistent_volume_reclaim_policy: text("Delete"),
            storage_class_name: text("zfs"),
            extra: BTreeMap::from([
                ("capacity".to_string(), Value::Object(storage)),
                (
                    "accessModes".to_string(),
                    Value::Array(vec![Value::String("ReadWriteOnce".to_string())]),
                ),
            ]),
        }),
        status: Some(PersistentVolumeStatus { phase: text("Bound") }),
    }
}

#[test]
fn new_pv_rendering() {
    let pvc_ref = PvcRef {
        namespace: "default".into(),
        name: "data".into(),
        uid: "pvc-uid-1".into(),
    };
    let target = TargetInfo {
        node: "node-b".into(),
        node_id: "node-b-id".into(),
        pool: "tank2".into(),
        new_volume_handle: "pvc-1234-e00abc".into(),
    };
    let new_pv = render_new_pv(&old_pv(), &pvc_ref, &target).unwrap();

    // Same PV name: this is what keeps the PVC binding intact.
    assert_eq!(new_pv.metadata.name.as_deref(), Some("pvc-1234"));
    // Server-populated metadata must not be carried over.
    assert!(new_pv.metadata.uid.is_none());
    assert!(new_pv.metadata.resource_version.is_none());
    assert!(new_pv.metadata.finalizers.is_none());
    assert!(new_pv.status.is_none());
    // provisioned-by survives so the provisioner reclaims the PV at end-of-life.
    assert_eq!(
        new_pv.metadata.annotation("pv.kubernetes.io/provisioned-by").unwrap(),
        "zfs.csi.openebs.io"
    );

    let spec = new_pv.spec.as_ref().unwrap();
    // Pre-bound claimRef with the PVC's UID drives automatic rebinding.
    let claim = spec.claim_ref.as_ref().unwrap();
    assert_eq!(claim.uid.as_deref(), Some("pvc-uid-1"));
    // Comes up as Retain regardless of the original policy.
    assert_eq!(spec.persistent_volume_reclaim_policy.as_deref(), Some("Retain"));
    // Rewritten CSI source.
    let csi = spec.csi.as_ref().unwrap();
    assert_eq!(csi.volume_handle, "pvc-1234-e00abc");
    assert_eq!(
        csi.volume_attributes.as_ref().unwrap().get("openebs.io/poolname").unwrap(),
        "tank2"
    );
    // Node affinity points at the target's node id.
    let terms = &spec.node_affinity.as_ref().unwrap().required.as_ref().unwrap().node_selector_terms;
    let expressions = terms[0].match_expressions.as_ref().unwrap();
    assert_eq!(expressions[0].values.as_ref().unwrap()[0], "node-b-id");
    // What is not about the volume's place rides along.
    assert_eq!(
        csi.volume_attributes.as_ref().unwrap().get("openebs.io/cas-type").unwrap(),
        "localpv-zfs"
    );
    assert_eq!(csi.extra["fsType"], "zfs");
    assert_eq!(spec.extra["capacity"]["storage"], "8Gi");
    assert_eq!(spec.extra["accessModes"][0], "ReadWriteOnce");
}

#[test]
fn ipnet_matching() {
    let node = IpNet::host(ip("100.71.177.44"));
    assert!(node.contains(ip("100.71.177.44")));
    assert!(!node.contains(ip("100.71.177.45")));

    let pod_cidr = IpNet::parse_cidr("10.42.1.0/24").unwrap();
    // The flannel gateway address that bit us in production testing.
    assert!(pod_cidr.contains(ip("10.42.1.1")));
    assert!(pod_cidr.contains(ip("10.42.1.254")));
    assert!(!pod_cidr.contains(ip("10.42.2.1")));

    assert!(IpNet::parse_cidr("10.42.1.0/33").is_none());
    assert!(IpNet::parse_cidr("garbage").is_none());
}

#[test]
fn taint_matching() {
    let key = "zfsevac.alumino.us/evacuate";
    let tainted = node_with(
        "n1",
        NodeSpec { taints: Some(vec![taint(key, None, "PreferNoSchedule")]), ..NodeSpec::default() },
    );
    assert!(node_has_evacuate_taint(&tainted, key));
    // Any effect counts; other keys don't.
    let other = node_with(
        "n2",
        NodeSpec {
            taints: Some(vec![taint("node.kubernetes.io/unschedulable", None, "NoSchedule")]),
            ..NodeSpec::default()
        },
    );
    assert!(!node_has_evacuate_taint(&other, key));
    let bare = node_with("n3", NodeSpec::default());
    assert!(!node_has_evacuate_taint(&bare, key));
}

#[test]
fn pool_component_matching() {
    // ZFSNode inventories bare zpools; a dataset-path poolname must be
    // eligible via its zpool component.
    assert_eq!(pool_component("zroot"), "zroot");
    assert_eq!(pool_component("zroot/csi"), "zroot");
    assert_eq!(pool_component("zroot/csi/deep"), "zroot");
    assert_eq!(pool_component(""), "");
}

#[test]
fn destination_poolname_resolution() {
    // An explicit targetPool wins verbatim.
    let (d, r) = resolve_dest_poolname(Some("tank/override"), Some("zroot/csi"), "zroot/csi");
    assert_eq!((d.as_str(), r), ("tank/override", "spec.targetPool"));
    // Next the StorageClass poolname: what provisioning on the target would use.
    let (d, r) = resolve_dest_poolname(None, Some("zroot/csi"), "zroot/old");
    assert_eq!((d.as_str(), r), ("zroot/csi", "StorageClass poolname"));
    // StorageClass gone: carry the source poolName over unchanged.
    let (d, r) = resolve_dest_poolname(None, None, "zroot/legacy");
    assert_eq!(d.as_str(), "zroot/legacy");
    assert!(r.contains("source poolName"));
}

#[test]
fn target_snapshot_cr_addresses_received_snapshot() {
    // The agent on the target builds `<poolName>/<ZFS_VOL_LABEL>@<name>` and
    // only acts on CRs whose ownerNodeID is its own: every one of those must
    // point at the received dataset, not the source.
    let target = TargetInfo {
        node: "node2".into(),
        node_id: "node2-id".into(),
        pool: "zroot/csi".into(),
        new_volume_handle: "pvc-1-abcdef0".into(),
    };
    let src_info = VolumeInfo {
        owner_node_id: "node1-id".to_string(),
        pool_name: "zroot".to_string(),
        capacity: text("10737418240"),
        snapname: text("clone-origin"),
        fs_type: text("zfs"),
        volume_type: text("DATASET"),
        extra: BTreeMap::from([("recordsize".to_string(), Value::String("128k".to_string()))]),
    };
    let snap = target_snapshot_cr(&target, "zevac-a1-beef", src_info);
    assert_eq!(snap.metadata.name_any(), "zevac-a1-beef");
    assert_eq!(snap.metadata.label(ZFS_VOL_LABEL).unwrap(), "pvc-1-abcdef0");
    assert_eq!(snap.metadata.label("kubernetes.io/nodename").unwrap(), "node2-id");
    assert_eq!(snap.spec.0.owner_node_id, "node2-id");
    assert_eq!(snap.spec.0.pool_name, "zroot/csi");
    assert_eq!(snap.spec.0.snapname, None);
    // The CRD rejects a create without status.
    assert_eq!(snap.status.as_ref().and_then(|s| s.state.as_deref()), Some("Pending"));
    // CRD-required fields and unmodeled properties ride along.
    assert_eq!(snap.spec.0.capacity.as_deref(), Some("10737418240"));
    assert_eq!(snap.spec.0.volume_type.as_deref(), Some("DATASET"));
    assert_eq!(snap.spec.0.fs_type.as_deref(), Some("zfs"));
    assert_eq!(snap.spec.0.extra["recordsize"], "128k");
}

#[test]
fn destination_handles_stay_valid_across_repeated_evacuations() {
    // A 40-byte provisioned handle reached 64 bytes after three old-style
    // eight-byte suffixes. Each new destination becomes the next source.
    let mut source = format!("pvc-{}", "a".repeat(36));
    assert_eq!(format!("{source}-e000001-e000002-e000003").len(), 64);
    let mut seen = HashSet::from([source.clone()]);
    for _ in 0..128 {
        assert!(source_handle_fits_snapshot_label(&source));
        let handle = new_destination_handle();
        assert!(handle.len() <= 63, "{handle}");
        assert!(handle
            .bytes()
            .all(|b| b.is_ascii_lowercase() || b.is_ascii_digit() || b == b'-'));
        assert!(handle.starts_with('z') && handle.ends_with(|c: char| c.is_ascii_alphanumeric()));
        assert!(seen.insert(handle.clone()), "duplicate destination handle");

        let target = TargetInfo {
            node: "node-b".into(),
            node_id: "node-b-id".into(),
            pool: "tank/csi".into(),
            new_volume_handle: handle.clone(),
        };
        let recovered = target.clone();
        assert_eq!(recovered.new_volume_handle, handle);
        let zv = target_zfsvolume(VolumeInfo::default(), &target);
        assert_eq!(zv.metadata.name_any(), handle);
        let snap = target_snapshot_cr(&target, "zevac-a1-beef", VolumeInfo::default());
        assert_eq!(snap.metadata.label(ZFS_VOL_LABEL).unwrap(), &handle);
        assert_eq!(
            format!(
                "{}/{}@{}",
                target.pool,
                snap.metadata.label(ZFS_VOL_LABEL).unwrap(),
                snap.metadata.name_any()
            ),
            format!("tank/csi/{handle}@zevac-a1-beef")
        );
        source = handle;
    }
    assert_eq!(source.len(), 38);
}

#[test]
fn source_handle_must_fit_snapshot_label_without_truncation() {
    assert!(source_handle_fits_snapshot_label(&format!("pvc-{}", "a".repeat(59))));
    assert!(!source_handle_fits_snapshot_label(&format!("pvc-{}", "a".repeat(60))));
    assert!(!source_handle_fits_snapshot_label("bad/handle"));
}

fn obs() -> TransferObs {
    TransferObs {
        attempt: 1,
        failure_reason: None,
        bkp_status: String::new(),
        rst_status: String::new(),
        rst_exists: false,
        mem: Some(RelayObs {
            attempt: 1,
            bytes: 0,
            last_activity: 1000,
            task_finished: false,
            source_connected: false,
        }),
        elapsed_secs: 10,
        now_secs: 1000,
        timeout_secs: 3600,
        stall_secs: 120,
    }
}

fn fail_reason(v: TransferVerdict) -> String {
    match v {
        TransferVerdict::FailAttempt(r) => r,
        other => panic!("expected FailAttempt, got {other:?}"),
    }
}

// Done/Done outranks a recorded failure_reason: a teardown that lost the race
// to the agents must salvage, not destroy.
#[test]
fn done_wins_over_failure_reason() {
    let mut o = obs();
    o.failure_reason = Some("controller restarted mid-transfer".into());
    o.bkp_status = "Done".into();
    o.rst_status = "Done".into();
    o.mem = None;
    assert_eq!(transfer_verdict(&o), TransferVerdict::Complete { bytes: None });
}

// An attempt stuck waiting for the source must hit the attempt timeout, not
// wait forever.
#[test]
fn waiting_for_source_times_out() {
    let mut o = obs();
    assert_eq!(transfer_verdict(&o), TransferVerdict::WaitingForSource);
    o.elapsed_secs = o.timeout_secs + 1;
    assert_eq!(fail_reason(transfer_verdict(&o)), "transfer timed out");
}

// A source that EOF'd into the buffer while the target is still dialing must
// NOT trip the stall detector; the timeout bounds it.
#[test]
fn slow_target_is_timeout_not_stall() {
    let mut o = obs();
    o.rst_exists = true;
    let m = o.mem.as_mut().unwrap();
    m.source_connected = true;
    m.bytes = 0; // nothing delivered to the target yet
    m.last_activity = 100; // frozen long ago (source EOF)
    o.now_secs = 100 + 500; // way past stall_secs
    assert!(matches!(transfer_verdict(&o), TransferVerdict::Continue { .. }));
    o.elapsed_secs = o.timeout_secs + 1;
    assert_eq!(fail_reason(transfer_verdict(&o)), "transfer timed out");
}

// A flowing stream that stops moving is a stall; a flowing stream never times
// out.
#[test]
fn flowing_stream_stalls_but_never_times_out() {
    let mut o = obs();
    o.rst_exists = true;
    let m = o.mem.as_mut().unwrap();
    m.source_connected = true;
    m.bytes = 1 << 20;
    m.last_activity = 990;
    o.elapsed_secs = o.timeout_secs + 500; // long transfer, still moving
    assert!(matches!(transfer_verdict(&o), TransferVerdict::Continue { .. }));
    o.now_secs = 990 + 121;
    assert_eq!(fail_reason(transfer_verdict(&o)), "transfer stalled (no bytes)");
}

#[test]
fn restart_and_staleness() {
    let mut o = obs();
    o.mem = None;
    assert_eq!(fail_reason(transfer_verdict(&o)), "controller restarted mid-transfer");
    let mut o = obs();
    o.mem.as_mut().unwrap().attempt = 2;
    assert_eq!(transfer_verdict(&o), TransferVerdict::StaleStatus);
    let mut o = obs();
    o.attempt = 3;
    assert_eq!(transfer_verdict(&o), TransferVerdict::StaleRelay);
}

#[test]
fn agent_failure_and_restore_creation() {
    let mut o = obs();
    o.rst_status = "Failed".into();
    o.rst_exists = true;
    assert_eq!(fail_reason(transfer_verdict(&o)), "restore reported status Failed");
    let mut o = obs();
    o.mem.as_mut().unwrap().source_connected = true;
    assert_eq!(transfer_verdict(&o), TransferVerdict::CreateRestore);
}

#[test]
fn pod_scheduling_predicate() {
    let scheduled =
        pod_with("app-0", PodSpec { node_name: text("worker-1"), ..PodSpec::default() });
    assert!(pod_is_scheduled(&scheduled));

    let pending = pod_with("app-1", PodSpec::default());
    assert!(!pod_is_scheduled(&pending));

    let empty = pod_with("app-2", PodSpec { node_name: text(""), ..PodSpec::default() });
    assert!(!pod_is_scheduled(&empty));
}

#[test]
fn blocking_pods_message_separates_remedies() {
    let running = pod_with(
        "running-consumer",
        PodSpec { node_name: text("worker-1"), ..PodSpec::default() },
    );
    let stranded = pod_with("stranded-replacement", PodSpec::default());

    let msg = blocking_pods_message(std::slice::from_ref(&running));
    assert_eq!(msg, "waiting for pods to release PVC: running-consumer");

    // A never-scheduled pod predates the lock; the only remedy is deletion,
    // and the message must say so rather than imply it will drain away.
    let msg = blocking_pods_message(std::slice::from_ref(&stranded));
    assert!(msg.starts_with("never-scheduled pods predate the lock"), "{msg}");
    assert!(msg.contains("stranded-replacement") && msg.contains("delete them"), "{msg}");

    let msg = blocking_pods_message(&[running, stranded]);
    assert!(msg.contains("running-consumer") && msg.contains("stranded-replacement"), "{msg}");
}

#[test]
fn params_lock_lists_follow_mode() {
    let mut p = EvacuationParamsSpec::default();
    assert!(p.lock("ns/a", &EvacuationMode::WhenIdle));
    assert!(!p.lock("ns/a", &EvacuationMode::WhenIdle), "idempotent");
    assert_eq!(p.pvc_keys, vec!["ns/a"]);
    assert!(p.claimable_pvc_keys.is_empty());

    // Re-locking under the other mode moves the key, never duplicates it.
    assert!(p.lock("ns/a", &EvacuationMode::WhenClaimed));
    assert!(p.pvc_keys.is_empty());
    assert_eq!(p.claimable_pvc_keys, vec!["ns/a"]);

    assert!(p.lock("ns/b", &EvacuationMode::WhenIdle));
    assert!(p.unlock("ns/a"));
    assert!(!p.unlock("ns/a"));
    assert_eq!(p.pvc_keys, vec!["ns/b"]);
    assert!(p.claimable_pvc_keys.is_empty());
}

#[test]
fn node_repels_pods_cases() {
    let key = "zfsevac.alumino.us/evacuate";
    let tainted = |key: &str, effect: &str| -> Node {
        node_with(
            "n",
            NodeSpec { taints: Some(vec![taint(key, None, effect)]), ..NodeSpec::default() },
        )
    };
    assert!(!node_repels_pods(&node_with("n", NodeSpec::default()), key));
    assert!(node_repels_pods(
        &node_with("n", NodeSpec { unschedulable: Some(true), ..NodeSpec::default() }),
        key
    ));
    // The soft effect the trigger uses contributes nothing; the cordon does.
    assert!(!node_repels_pods(&tainted(key, "PreferNoSchedule"), key));
    assert!(node_repels_pods(&tainted(key, "NoSchedule"), key));
    // Someone else's hard taint may be tolerated by the consumer; not ours to judge.
    assert!(!node_repels_pods(&tainted("other", "NoSchedule"), key));
}

#[test]
fn placement_honours_pod_constraints() {
    let node = |name: &str, labels: &[(&str, &str)], taints: Vec<Taint>| -> Node {
        Node {
            metadata: ObjectMeta { labels: Some(map(labels)), ..named(name) },
            spec: Some(NodeSpec { taints: Some(taints), ..NodeSpec::default() }),
            status: None,
        }
    };
    let gpu = node("gpu-1", &[("tier", "gpu"), ("zone", "a"), ("cores", "32")], vec![]);
    let plain = node("plain-1", &[("tier", "plain"), ("zone", "b"), ("cores", "8")], vec![]);
    let tainted = node(
        "dedicated-1",
        &[("tier", "gpu")],
        vec![taint("dedicated", Some("ml"), "NoSchedule")],
    );
    let soft =
        node("soft-1", &[("tier", "gpu")], vec![taint("dedicated", None, "PreferNoSchedule")]);

    let requirement = |key: &str, operator: &str, values: &[&str]| NodeSelectorRequirement {
        key: key.to_string(),
        operator: operator.to_string(),
        values: Some(texts(values)),
    };
    let pod = |spec: PodSpec| -> Pod { pod_with("p", spec) };

    // No constraints: everything without a hard taint is fine.
    let any = Placement::from_pod(&pod(PodSpec::default()));
    assert!(any.admits(&gpu) && any.admits(&plain) && any.admits(&soft));
    assert!(!any.admits(&tainted));

    let sel = Placement::from_pod(&pod(PodSpec {
        node_selector: Some(map(&[("tier", "gpu")])),
        ..PodSpec::default()
    }));
    assert!(sel.admits(&gpu) && !sel.admits(&plain));

    let affinity = Placement::from_pod(&pod(PodSpec {
        affinity: Some(Affinity {
            node_affinity: Some(NodeAffinity {
                required_during_scheduling_ignored_during_execution: Some(NodeSelector {
                    node_selector_terms: vec![
                        NodeSelectorTerm {
                            match_expressions: Some(vec![
                                requirement("zone", "NotIn", &["b"]),
                                requirement("cores", "Gt", &["16"]),
                            ]),
                            match_fields: None,
                        },
                        NodeSelectorTerm {
                            match_expressions: None,
                            match_fields: Some(vec![requirement(
                                "metadata.name",
                                "In",
                                &["plain-1"],
                            )]),
                        },
                    ],
                }),
                preferred_during_scheduling_ignored_during_execution: None,
            }),
        }),
        ..PodSpec::default()
    }));
    assert!(affinity.admits(&gpu), "first term");
    assert!(affinity.admits(&plain), "second term (by name)");
    assert!(!affinity.admits(&soft), "neither term: no zone/cores labels, wrong name");

    // Preferred affinity is not a constraint.
    let preferred = Placement::from_pod(&pod(PodSpec {
        affinity: Some(Affinity {
            node_affinity: Some(NodeAffinity {
                required_during_scheduling_ignored_during_execution: None,
                preferred_during_scheduling_ignored_during_execution: Some(vec![
                    PreferredSchedulingTerm {
                        weight: 1,
                        preference: NodeSelectorTerm {
                            match_expressions: Some(vec![requirement("zone", "In", &["z"])]),
                            match_fields: None,
                        },
                    },
                ]),
            }),
        }),
        ..PodSpec::default()
    }));
    assert!(preferred.admits(&plain));

    let tolerating = |toleration: Toleration| {
        Placement::from_pod(&pod(PodSpec {
            tolerations: Some(vec![toleration]),
            ..PodSpec::default()
        }))
    };
    let tolerant = tolerating(Toleration {
        key: text("dedicated"),
        operator: text("Equal"),
        value: text("ml"),
        effect: text("NoSchedule"),
    });
    assert!(tolerant.admits(&tainted));
    let wrong_value = tolerating(Toleration {
        key: text("dedicated"),
        operator: text("Equal"),
        value: text("batch"),
        effect: text("NoSchedule"),
    });
    assert!(!wrong_value.admits(&tainted));
    let exists_all = tolerating(Toleration { operator: text("Exists"), ..Toleration::default() });
    assert!(exists_all.admits(&tainted));
    let no_execute_only = tolerating(Toleration {
        operator: text("Exists"),
        effect: text("NoExecute"),
        ..Toleration::default()
    });
    assert!(!no_execute_only.admits(&tainted));
}

#[test]
fn anchor_majority_then_name() {
    let a = |node: &str, pv: &str| Anchor { node: node.into(), pv_name: pv.into(), how: "test" };

    assert_eq!(pick_anchor(vec![]), None);
    assert_eq!(pick_anchor(vec![a("n2", "pv-1")]).unwrap().node, "n2");
    // Majority wins: fewest volumes have to move again.
    let split = pick_anchor(vec![a("n2", "pv-1"), a("n3", "pv-2"), a("n2", "pv-3")]).unwrap();
    assert_eq!((split.node.as_str(), split.pv_name.as_str()), ("n2", "pv-1"));
    // Ties are broken by node string so every reconcile agrees.
    assert_eq!(pick_anchor(vec![a("n3", "x"), a("n2", "y")]).unwrap().node, "n2");
}

#[test]
fn pod_pvc_names_and_consumer_order() {
    let pod = pod_with(
        "worker",
        PodSpec {
            volumes: Some(vec![
                claim_volume("data", "data-0"),
                ephemeral_volume("scratch"),
                Volume {
                    name: "cfg".to_string(),
                    persistent_volume_claim: None,
                    ephemeral: false,
                },
            ]),
            ..PodSpec::default()
        },
    );
    assert_eq!(pod_pvc_names(&pod), vec!["data-0", "worker-scratch"]);

    let mk = |name: &str, node: Option<&str>| -> Pod {
        pod_with(name, PodSpec { node_name: node.map(|n| n.to_string()), ..PodSpec::default() })
    };
    let pods = vec![mk("z-pending", None), mk("a-running", Some("n1")), mk("b-pending", None)];
    let names: Vec<String> =
        unscheduled_pods(&pods).iter().map(|p| p.metadata.name_any()).collect();
    assert_eq!(names, vec!["b-pending", "z-pending"]);
}
