//! The evacuation machine, driven against a cluster held in memory.
use std::collections::BTreeMap;

use zfs_evacuation_controller::cluster::{
    CsiVolumeSource, Lookup, Node, NodeAddress, NodeCondition, NodeSpec, NodeStatus, ObjectMeta,
    ObjectReference, PersistentVolume, PersistentVolumeClaim, PersistentVolumeClaimCondition,
    PersistentVolumeClaimVolumeSource, PersistentVolumeSpec, PersistentVolumeStatus, Pod, PodSpec,
    StorageClass, Taint, Volume,
};
use zfs_evacuation_controller::controller::clock::Moment;
use zfs_evacuation_controller::controller::colocation::{Sibling, SiblingNeed};
use zfs_evacuation_controller::controller::plan::{
    edit_finalizers, Action, Effect, Error, FinalizerEdit, Kind, Need, Outcome, Seen, Stage, Step,
    Stock,
};
use zfs_evacuation_controller::controller::pv_swap::{commit, committing, render_new_pv};
use zfs_evacuation_controller::controller::state_machine::{error_policy, reconcile, Chance};
use zfs_evacuation_controller::controller::transfer::{begin_attempt, RelayObs};
use zfs_evacuation_controller::controller::trigger::new_evacuation;
use zfs_evacuation_controller::controller::{pods_referencing_pvc, Config};
use zfs_evacuation_controller::crd::openebs::{
    VolumeInfo, ZFSBackup, ZFSNode, ZFSRestore, ZFSSnapshot, ZFSSnapshotSpec, ZFSVolume,
    ZFSVolumeSpec, ZFSVolumeStatus, ZfsPool, ZFS_FINALIZER,
};
use zfs_evacuation_controller::crd::zfs_evacuation::{
    update_params, ColocationRole, EvacuationMode, EvacuationParamsSpec, EvacuationTrigger,
    LockChange, ParamsWrite, Phase, ZFSEvacuation, ZFSEvacuationStatus, EVACUATION_FINALIZER,
    GUARD_FINALIZER,
};
use zfs_evacuation_controller::string_map::StringMap;

const TAINT: &str = "zfsevac.alumino.us/evacuate";
const ANNOTATION: &str = "zfsevac.alumino.us/evacuate";
const HANDLE: &str = "pvc-old";

fn text(s: &str) -> Option<String> {
    Some(s.to_string())
}

fn named(name: &str) -> ObjectMeta {
    ObjectMeta { name: text(name), ..ObjectMeta::default() }
}

fn node(name: &str) -> Node {
    Node {
        metadata: named(name),
        spec: Some(NodeSpec::default()),
        status: Some(NodeStatus {
            conditions: Some(vec![NodeCondition {
                type_: "Ready".to_string(),
                status: "True".to_string(),
            }]),
            addresses: Some(vec![NodeAddress {
                type_: "InternalIP".to_string(),
                address: "10.0.0.1".to_string(),
            }]),
        }),
    }
}

fn taint_node(n: &mut Node, effect: &str) {
    n.spec.as_mut().unwrap().taints = Some(vec![Taint {
        key: TAINT.to_string(),
        value: None,
        effect: effect.to_string(),
    }]);
}

fn pod(name: &str, on: Option<&str>, claims: &[&str]) -> Pod {
    Pod {
        metadata: named(name),
        spec: Some(PodSpec {
            node_name: on.map(|n| n.to_string()),
            volumes: Some(
                claims
                    .iter()
                    .map(|c| Volume {
                        name: c.to_string(),
                        persistent_volume_claim: Some(PersistentVolumeClaimVolumeSource {
                            claim_name: c.to_string(),
                        }),
                        ephemeral: false,
                    })
                    .collect(),
            ),
            ..PodSpec::default()
        }),
    }
}

fn finish_volume(zv: &mut ZFSVolume) {
    zv.status = Some(ZFSVolumeStatus { state: text("Ready") });
    zv.metadata.finalizers = Some(vec![ZFS_FINALIZER.to_string()]);
}

/// A cluster: what the controller reads, and what its effects change.
struct World {
    evac: ZFSEvacuation,
    gone: bool,
    pvs: BTreeMap<String, PersistentVolume>,
    pvcs: BTreeMap<String, PersistentVolumeClaim>,
    pods: Vec<Pod>,
    nodes: Vec<Node>,
    zfsnodes: Vec<ZFSNode>,
    others: Vec<ZFSEvacuation>,
    volumes: BTreeMap<String, ZFSVolume>,
    snapshots: BTreeMap<String, ZFSSnapshot>,
    backups: BTreeMap<String, ZFSBackup>,
    restores: BTreeMap<String, ZFSRestore>,
    params: Option<EvacuationParamsSpec>,
    relay: Option<RelayObs>,
    class: Option<StorageClass>,
    /// Why the nodes and pools cannot be listed, if they cannot.
    outage: Option<String>,
    now: u64,
    cfg: Config,
    log: Vec<String>,
}

fn world(trigger: EvacuationTrigger) -> World {
    let mut annotations = StringMap::new();
    annotations.insert("pv.kubernetes.io/provisioned-by".to_string(), "zfs.csi.openebs.io".to_string());
    annotations.insert(ANNOTATION.to_string(), "true".to_string());
    let mut w = World {
        evac: new_evacuation("pv-1", trigger),
        gone: false,
        pvs: BTreeMap::new(),
        pvcs: BTreeMap::new(),
        pods: vec![],
        nodes: vec![node("src"), node("n1"), node("n2")],
        zfsnodes: ["src", "n1", "n2"]
            .iter()
            .map(|n| ZFSNode {
                metadata: named(n),
                pools: vec![ZfsPool { name: "zroot".to_string(), uuid: None, free: text("100Gi") }],
            })
            .collect(),
        others: vec![],
        volumes: BTreeMap::new(),
        snapshots: BTreeMap::new(),
        backups: BTreeMap::new(),
        restores: BTreeMap::new(),
        params: None,
        relay: None,
        class: None,
        outage: None,
        now: 1_700_000_000,
        cfg: Config {
            openebs_ns: "openebs".to_string(),
            pod_ip: "10.1.1.1".to_string(),
            pod_namespace: "zfs-evacuation-system".to_string(),
            stall_seconds: 120,
            taint_key: TAINT.to_string(),
        },
        log: vec![],
    };
    w.add_volume("pv-1", "data", HANDLE);
    w.pvs.get_mut("pv-1").unwrap().metadata.annotations = Some(annotations);
    w
}

impl World {
    fn add_volume(&mut self, pv: &str, claim: &str, handle: &str) {
        self.pvs.insert(
            pv.to_string(),
            PersistentVolume {
                metadata: ObjectMeta {
                    uid: text(&format!("{pv}-uid")),
                    finalizers: Some(vec!["kubernetes.io/pv-protection".to_string()]),
                    ..named(pv)
                },
                spec: Some(PersistentVolumeSpec {
                    claim_ref: Some(ObjectReference {
                        namespace: text("ns"),
                        name: text(claim),
                        uid: text(&format!("{claim}-uid")),
                        ..ObjectReference::default()
                    }),
                    csi: Some(CsiVolumeSource {
                        driver: "zfs.csi.openebs.io".to_string(),
                        volume_handle: handle.to_string(),
                        ..CsiVolumeSource::default()
                    }),
                    persistent_volume_reclaim_policy: text("Delete"),
                    storage_class_name: text("zfs"),
                    ..PersistentVolumeSpec::default()
                }),
                status: Some(PersistentVolumeStatus { phase: text("Bound") }),
            },
        );
        self.pvcs.insert(
            claim.to_string(),
            PersistentVolumeClaim {
                metadata: ObjectMeta { uid: text(&format!("{claim}-uid")), ..named(claim) },
                volume_name: text(pv),
                conditions: vec![],
            },
        );
        let mut zv = ZFSVolume {
            metadata: named(handle),
            spec: ZFSVolumeSpec(VolumeInfo {
                owner_node_id: "src".to_string(),
                pool_name: "zroot/csi".to_string(),
                capacity: text("10Gi"),
                ..VolumeInfo::default()
            }),
            status: None,
        };
        finish_volume(&mut zv);
        self.volumes.insert(handle.to_string(), zv);
    }

    fn status(&self) -> ZFSEvacuationStatus {
        self.evac.status.clone().unwrap_or_default()
    }

    fn phase(&self) -> Phase {
        self.status().phase
    }

    fn message(&self) -> String {
        self.status().message.unwrap_or_default()
    }

    fn set_status(&mut self, edit: impl Fn(&mut ZFSEvacuationStatus)) {
        let mut st = self.status();
        edit(&mut st);
        self.evac.status = Some(st);
    }

    fn node_by_id(&self, id: &str) -> Lookup<Node> {
        match self.nodes.iter().find(|n| n.metadata.name_any() == id) {
            Some(n) => Lookup::Found(n.clone()),
            None => Lookup::Absent,
        }
    }

    fn copy(e: &ZFSEvacuation) -> ZFSEvacuation {
        let mut c = new_evacuation(&e.metadata.name_any(), e.spec.trigger);
        c.spec.target_node = e.spec.target_node.clone();
        c.status = e.status.clone();
        c
    }

    fn evacuations(&self) -> Vec<ZFSEvacuation> {
        let mut all: Vec<ZFSEvacuation> = self.others.iter().map(World::copy).collect();
        all.push(World::copy(&self.evac));
        all
    }

    fn sibling(&self, claim: &str) -> Sibling {
        let mut s = Sibling::unknown();
        loop {
            match s.next_read(&self.evac.spec.pv_name) {
                SiblingNeed::Pvc => s.pvc = found(self.pvcs.get(claim).cloned()),
                SiblingNeed::Pv(n) => s.pv = found(self.pvs.get(&n).cloned()),
                SiblingNeed::Volume(n) => s.volume = found(self.volumes.get(&n).cloned()),
                SiblingNeed::Evacuation(n) => {
                    s.evac = found(
                        self.others.iter().find(|e| e.metadata.name_any() == n).map(World::copy),
                    )
                }
                SiblingNeed::Nothing => return s,
            }
        }
    }

    fn read(&self, need: Need, seen: &mut Seen) {
        match need {
            Need::Pv => seen.pv = found(self.pvs.get("pv-1").cloned()),
            Need::Pvc { namespace, name } => {
                assert_eq!(namespace, "ns");
                seen.pvc = found(self.pvcs.get(&name).cloned());
            }
            Need::Pods { namespace, name } => {
                assert_eq!(namespace, "ns");
                seen.pods = Some(pods_referencing_pvc(self.pods.clone(), &name));
            }
            Need::SourceVolume(h) => seen.source_volume = found(self.volumes.get(&h).cloned()),
            Need::TargetVolume(h) => seen.target_volume = found(self.volumes.get(&h).cloned()),
            Need::Snapshots(h) => {
                let label = "openebs.io/persistent-volume";
                seen.has_snapshots = Some(
                    self.snapshots.values().any(|s| s.metadata.label(label) == Some(&h)),
                );
            }
            Need::SourceNode(id) => seen.source_node = self.node_by_id(&id),
            Need::TargetNode(id) => seen.target_node = self.node_by_id(&id),
            Need::SourceNodeByName(n) => seen.source_node_by_name = self.node_by_id(&n),
            Need::Backup(n) => seen.backup = found(self.backups.get(&n).cloned()),
            Need::Restore(n) => seen.restore = found(self.restores.get(&n).cloned()),
            Need::TargetSnapshot(n) => seen.target_snapshot = found(self.snapshots.get(&n).cloned()),
            Need::Relay => seen.relay = Some(self.relay),
            Need::Evacuations => seen.evacuations = Some(self.evacuations()),
            Need::Inventory => {
                seen.stock = Some(match &self.outage {
                    Some(why) => Err(why.clone()),
                    None => Ok(Stock {
                        zfsnodes: self.zfsnodes.clone(),
                        nodes: self.nodes.clone(),
                        evacs: self.evacuations(),
                        class_name: "zfs".to_string(),
                        class: self.class.clone(),
                    }),
                })
            }
            Need::Siblings { namespace, names } => {
                assert_eq!(namespace, "ns");
                seen.siblings = Some(names.iter().map(|n| self.sibling(n)).collect());
            }
        }
    }

    fn meta(&mut self, kind: Kind, name: &str) -> Option<&mut ObjectMeta> {
        match kind {
            Kind::PersistentVolume => self.pvs.get_mut(name).map(|x| &mut x.metadata),
            Kind::ZfsVolume => self.volumes.get_mut(name).map(|x| &mut x.metadata),
            Kind::ZfsSnapshot => self.snapshots.get_mut(name).map(|x| &mut x.metadata),
            Kind::ZfsBackup => self.backups.get_mut(name).map(|x| &mut x.metadata),
            Kind::ZfsRestore => self.restores.get_mut(name).map(|x| &mut x.metadata),
        }
    }

    /// Objects that are being deleted and that nothing holds go.
    fn collect(&mut self) {
        let stays = |m: &ObjectMeta| !m.deleting() || m.finalizers.iter().flatten().count() > 0;
        self.pvs.retain(|_, x| stays(&x.metadata));
        self.volumes.retain(|_, x| stays(&x.metadata));
        self.snapshots.retain(|_, x| stays(&x.metadata));
        self.backups.retain(|_, x| stays(&x.metadata));
        self.restores.retain(|_, x| stays(&x.metadata));
        self.gone = self.gone || !stays(&self.evac.metadata);
    }

    fn change_lock(&mut self, change: LockChange) {
        match update_params(self.params.take(), &change) {
            ParamsWrite::Nothing => {}
            ParamsWrite::Create(p) | ParamsWrite::Replace(p) => self.params = Some(p),
        }
    }

    fn perform(&mut self, effect: Effect, st: &ZFSEvacuationStatus) {
        match effect {
            Effect::WriteStatus => {
                self.log.push(format!("status {:?}", st.phase));
                self.evac.status = Some(st.clone());
            }
            Effect::DropRelay => self.relay = None,
            Effect::EditFinalizers { kind, name, edit } => {
                self.log.push(format!("{edit:?} {name}"));
                if let Some(m) = self.meta(kind, &name) {
                    let current = m.finalizers.clone().unwrap_or_default();
                    if let Some(next) = edit_finalizers(edit, &current) {
                        m.finalizers = Some(next);
                    }
                }
                self.collect();
            }
            Effect::Delete { kind, name } => {
                self.log.push(format!("delete {name}"));
                if let Some(m) = self.meta(kind, &name) {
                    m.deletion_timestamp = text("2024-01-01T00:00:00Z");
                }
                self.collect();
            }
            Effect::CreateVolume(zv) => {
                self.log.push("create volume".to_string());
                self.volumes.entry(zv.metadata.name_any()).or_insert(zv);
            }
            Effect::CreateSnapshot(s) => {
                self.log.push("create snapshot".to_string());
                self.snapshots.entry(s.metadata.name_any()).or_insert(s);
            }
            Effect::CreateBackup(b) => {
                self.log.push(format!("create {}", b.metadata.name_any()));
                self.backups.entry(b.metadata.name_any()).or_insert(b);
            }
            Effect::CreateRestore(r) => {
                self.log.push(format!("create {}", r.metadata.name_any()));
                self.restores.entry(r.metadata.name_any()).or_insert(r);
            }
            Effect::CreatePv { manifest } => {
                self.log.push("create pv".to_string());
                assert_eq!(manifest, "new manifest");
                let mut pv = self.replacement(st);
                pv.metadata.uid = text("pv-1-new-uid");
                self.pvs.insert("pv-1".to_string(), pv);
            }
            Effect::SetReclaimPolicy { pv, policy } => {
                self.log.push(format!("policy {policy}"));
                let pv = self.pvs.get_mut(&pv).unwrap();
                pv.spec.as_mut().unwrap().persistent_volume_reclaim_policy = Some(policy);
            }
            Effect::Lock { key, mode } => {
                self.log.push(format!("lock {key}"));
                self.change_lock(LockChange::Lock { key, mode });
            }
            Effect::Unlock { key } => {
                self.log.push(format!("unlock {key}"));
                self.change_lock(LockChange::Unlock { key });
            }
            Effect::MarkPvc { .. } | Effect::UnmarkPvc { .. } => {}
            Effect::StripTrigger { pv } => {
                self.log.push("strip trigger".to_string());
                let pv = self.pvs.get_mut(&pv).unwrap();
                if let Some(a) = pv.metadata.annotations.as_mut() {
                    a.remove(ANNOTATION);
                }
            }
            Effect::HoldEvacuation => {
                let current = self.evac.metadata.finalizers.clone().unwrap_or_default();
                self.evac.metadata.finalizers =
                    edit_finalizers(FinalizerEdit::AddHold, &current);
            }
            Effect::ReleaseEvacuation => {
                self.log.push("release".to_string());
                let current = self.evac.metadata.finalizers.clone().unwrap_or_default();
                if let Some(next) = edit_finalizers(FinalizerEdit::DropHold, &current) {
                    self.evac.metadata.finalizers = Some(next);
                }
                self.collect();
            }
        }
    }

    /// What a stored manifest stands for: the replacement with the new handle.
    fn replacement(&self, st: &ZFSEvacuationStatus) -> PersistentVolume {
        let target = st.target.as_ref().unwrap();
        let mut pv = PersistentVolume { metadata: named("pv-1"), ..PersistentVolume::default() };
        pv.spec = Some(PersistentVolumeSpec {
            claim_ref: Some(ObjectReference { uid: text("data-uid"), ..ObjectReference::default() }),
            csi: Some(CsiVolumeSource {
                driver: "zfs.csi.openebs.io".to_string(),
                volume_handle: target.new_volume_handle.clone(),
                ..CsiVolumeSource::default()
            }),
            persistent_volume_reclaim_policy: text("Retain"),
            ..PersistentVolumeSpec::default()
        });
        pv
    }

    /// One reconcile, to its action or its error.
    fn tick(&mut self) -> Result<Action, Error> {
        let now = Some(Moment { secs: self.now, nanos: 0 });
        let chance = Chance { volume: 0xabc, snapshot: 0xbeef };
        let mut seen = Seen::nothing();
        let mut st = self.status();
        for _ in 0..100 {
            let step = reconcile(&self.evac, &seen, &mut st, &self.cfg, now, chance);
            let plan = match step {
                Step::Read(need) => {
                    self.read(need, &mut seen);
                    continue;
                }
                Step::Run(plan) => plan,
                Step::Spawn { attempt, backup_peers, restore_peers } => {
                    assert!(!backup_peers.is_empty() && !restore_peers.is_empty());
                    self.relay = Some(RelayObs {
                        attempt,
                        bytes: 0,
                        last_activity: self.now,
                        task_finished: false,
                        source_connected: false,
                    });
                    match begin_attempt(&self.evac, &mut st, attempt, 4001, 4002, 0xbeef, now, "10.1.1.1") {
                        Step::Run(plan) => plan,
                        other => panic!("{other:?}"),
                    }
                }
                Step::Commit(pv) => {
                    assert_eq!(pv.metadata.name_any(), "pv-1");
                    assert!(pv.metadata.annotation(ANNOTATION).is_none());
                    match commit(&mut st, "old manifest".to_string(), "new manifest".to_string()) {
                        Step::Run(plan) => plan,
                        other => panic!("{other:?}"),
                    }
                }
                Step::Fault(e) => return Err(e),
            };
            for effect in plan.effects {
                self.perform(effect, &st);
            }
            match plan.outcome {
                Outcome::Done(action) => return Ok(action),
                Outcome::Again(stage) => seen.enter(stage),
            }
        }
        panic!("no end: {:?} {:?}", st, self.log);
    }

    fn run(&mut self) -> Action {
        match self.tick() {
            Ok(action) => action,
            Err(e) => panic!("{}", e.message()),
        }
    }

    /// Reconciles until the phase is reached.
    fn run_to(&mut self, phase: Phase) {
        for _ in 0..40 {
            if self.phase() == phase {
                return;
            }
            self.now += 100;
            self.run();
        }
        panic!("stuck in {:?}: {}", self.phase(), self.message());
    }

    /// Both agents have done their part of the transfer.
    fn transfer(&mut self) {
        self.run();
        let relay = self.relay.as_mut().unwrap();
        relay.source_connected = true;
        self.run();
        for b in self.backups.values_mut() {
            b.status = text("Done");
            b.metadata.finalizers = Some(vec![ZFS_FINALIZER.to_string()]);
        }
        for r in self.restores.values_mut() {
            r.status = text("Done");
            r.metadata.finalizers = Some(vec![ZFS_FINALIZER.to_string()]);
        }
        let relay = self.relay.as_mut().unwrap();
        relay.bytes = 4096;
        relay.task_finished = true;
        self.run();
    }

    /// The agents let go of everything that is being deleted, unless our guard
    /// is on it.
    fn agents(&mut self) {
        let keys: Vec<(Kind, String)> = self
            .volumes
            .keys()
            .map(|k| (Kind::ZfsVolume, k.clone()))
            .chain(self.snapshots.keys().map(|k| (Kind::ZfsSnapshot, k.clone())))
            .chain(self.backups.keys().map(|k| (Kind::ZfsBackup, k.clone())))
            .chain(self.restores.keys().map(|k| (Kind::ZfsRestore, k.clone())))
            .collect();
        for (kind, name) in keys {
            let m = self.meta(kind, &name).unwrap();
            if m.deleting() && !m.has_finalizer(GUARD_FINALIZER) {
                m.finalizers = None;
            }
        }
        for s in self.snapshots.values_mut() {
            if !s.metadata.deleting() {
                s.metadata.finalizers = Some(vec![ZFS_FINALIZER.to_string()]);
            }
        }
        self.collect();
    }

    fn adopt(&mut self) {
        self.run();
        for zv in self.volumes.values_mut() {
            finish_volume(zv);
        }
        self.run();
    }

    fn locked(&self) -> Vec<String> {
        match &self.params {
            Some(p) => p.pvc_keys.iter().chain(&p.claimable_pvc_keys).cloned().collect(),
            None => vec![],
        }
    }
}

fn found<T>(x: Option<T>) -> Lookup<T> {
    match x {
        Some(x) => Lookup::Found(x),
        None => Lookup::Absent,
    }
}

fn new_handle() -> String {
    format!("zevac-{}abc", "0".repeat(29))
}

// ------------------------------------------------------------------ the whole way

#[test]
fn a_volume_moves_to_another_node() {
    let mut w = world(EvacuationTrigger::Annotation);
    assert_eq!(w.run(), Action::RequeueMillis(500));
    assert_eq!(w.phase(), Phase::Guarding);
    assert!(w.evac.metadata.has_finalizer(EVACUATION_FINALIZER));
    let st = w.status();
    let source = st.source.unwrap();
    assert_eq!((source.node.as_str(), source.pool.as_str()), ("src", "zroot/csi"));
    assert_eq!(source.capacity_bytes, 10 << 30);
    assert_eq!(st.pvc_ref.unwrap().uid, "data-uid");
    assert_eq!(st.original_reclaim_policy, text("Delete"));

    w.run();
    assert!(w.volumes[HANDLE].metadata.has_finalizer(GUARD_FINALIZER));
    w.run();
    assert_eq!(w.phase(), Phase::Locking);
    w.run();
    assert_eq!(w.locked(), vec!["ns/data"]);
    assert_eq!(w.status().locked_mode, Some(EvacuationMode::WhenIdle));
    assert_eq!(w.status().locked_at, text("2023-11-14T22:13:20Z"));

    // The lock gets time to take hold, and the volume time to settle.
    assert_eq!(w.run(), Action::RequeueSecs(5));
    w.now += 5;
    assert_eq!(w.run(), Action::RequeueSecs(90));
    w.now += 30;
    assert_eq!(w.run(), Action::RequeueSecs(60));
    w.now += 60;
    w.run();
    assert_eq!(w.phase(), Phase::TargetSelecting);

    w.run();
    let target = w.status().target.unwrap();
    assert_eq!((target.node.as_str(), target.pool.as_str()), ("n1", "zroot/csi"));
    assert_eq!(target.new_volume_handle, new_handle());

    w.transfer();
    assert_eq!(w.phase(), Phase::Adopting);
    assert_eq!(w.status().transfer.unwrap().bytes_relayed, Some(4096));
    let backup = &w.backups["pv-1-evac-a1"];
    assert_eq!(backup.spec.backup_dest, "10.1.1.1:4001");
    assert_eq!(backup.spec.snap_name, text("zevac-a1-beef"));
    let restore = &w.restores["pv-1-evacr-a1"];
    assert_eq!(restore.spec.restore_src, "10.1.1.1:4002");
    assert_eq!(restore.spec.volume_name, new_handle());
    assert_eq!(restore.vol_spec.as_ref().unwrap().owner_node_id, "n1");
    assert_eq!(restore.api_version, "zfs.openebs.io/v1");

    w.adopt();
    assert_eq!(w.phase(), Phase::Committing);
    assert_eq!(w.volumes[&new_handle()].metadata.label("kubernetes.io/nodename"), Some(&"n1".to_string()));

    w.run();
    assert_eq!(w.phase(), Phase::Swapping);
    assert!(w.status().committed);
    assert_eq!(w.run(), Action::RequeueSecs(2));
    assert!(!w.pvs.contains_key("pv-1"));
    w.run();
    assert_eq!(w.run(), Action::RequeueSecs(3));
    w.pvs.get_mut("pv-1").unwrap().status = Some(PersistentVolumeStatus { phase: text("Bound") });
    w.run();
    assert_eq!(w.phase(), Phase::CleaningUp);
    let spec = w.pvs["pv-1"].spec.as_ref().unwrap();
    assert_eq!(spec.persistent_volume_reclaim_policy, text("Delete"));

    for _ in 0..6 {
        w.run();
        assert!(w.phase() == Phase::Completed || !w.locked().is_empty());
        w.agents();
    }
    w.run();
    assert_eq!(w.phase(), Phase::Completed);
    assert!(!w.volumes.contains_key(HANDLE) && w.volumes.contains_key(&new_handle()));
    assert!(w.backups.is_empty() && w.restores.is_empty() && w.snapshots.is_empty());
    assert!(w.locked().is_empty());
    assert!(!w.evac.metadata.has_finalizer(EVACUATION_FINALIZER));
    assert_eq!(w.status().message, None);
    assert_eq!(w.run(), Action::AwaitChange);
    // The target's transfer snapshot went before the source volume did.
    let at = |what: &str| w.log.iter().position(|l| l == what).unwrap();
    assert!(at("delete pv-1") < at("create pv"));
    assert!(at("create snapshot") < at("delete pvc-old"));
    assert!(at("delete zevac-a1-beef") < at("delete pvc-old"));
    assert!(at("delete pvc-old") < at("unlock ns/data"));
}

// ------------------------------------------------------------------ refusals

#[test]
fn what_cannot_be_moved_is_refused_up_front() {
    let refused = |spoil: &dyn Fn(&mut World)| -> String {
        let mut w = world(EvacuationTrigger::Annotation);
        spoil(&mut w);
        assert_eq!(w.run(), Action::AwaitChange);
        assert_eq!(w.phase(), Phase::Failed);
        assert!(w.locked().is_empty());
        assert!(!w.status().cancelled);
        w.message()
    };
    let pv = |w: &mut World, edit: &dyn Fn(&mut PersistentVolumeSpec)| {
        edit(w.pvs.get_mut("pv-1").unwrap().spec.as_mut().unwrap())
    };
    assert_eq!(refused(&|w| w.pvs.clear()), "PV pv-1 not found");
    assert_eq!(refused(&|w| pv(w, &|s| s.csi = None)), "PV is not a CSI volume");
    assert_eq!(refused(&|w| w.pvs.get_mut("pv-1").unwrap().spec = None), "PV is not a CSI volume");
    assert_eq!(
        refused(&|w| pv(w, &|s| s.csi.as_mut().unwrap().driver = "nfs".to_string())),
        "PV driver nfs is not zfs.csi.openebs.io"
    );
    assert_eq!(
        refused(&|w| pv(w, &|s| s.csi.as_mut().unwrap().volume_handle = "bad/handle".to_string())),
        "volumeHandle bad/handle is not a valid label value; its snapshots cannot be found by label"
    );
    assert_eq!(
        refused(&|w| pv(w, &|s| s.claim_ref = None)),
        "PV has no claimRef (unbound PVs need no evacuation)"
    );
    assert_eq!(
        refused(&|w| pv(w, &|s| s.claim_ref.as_mut().unwrap().name = None)),
        "PV claimRef missing namespace/name"
    );
    assert_eq!(refused(&|w| w.pvcs.clear()), "bound PVC ns/data not found");
    assert_eq!(
        refused(&|w| w.pvcs.get_mut("data").unwrap().volume_name = text("other")),
        "PVC does not reference this PV"
    );
    let resizing = |type_: &str, status: &str| PersistentVolumeClaimCondition {
        type_: type_.to_string(),
        status: status.to_string(),
    };
    assert_eq!(
        refused(&|w| w.pvcs.get_mut("data").unwrap().conditions =
            vec![resizing("Resizing", "False"), resizing("FileSystemResizePending", "True")]),
        "PVC has a resize in progress"
    );
    assert_eq!(refused(&|w| w.volumes.clear()), "ZFSVolume pvc-old not found");
    assert_eq!(
        refused(&|w| {
            let mut m = StringMap::new();
            m.insert("openebs.io/marked-for-deletion".to_string(), "".to_string());
            w.volumes.get_mut(HANDLE).unwrap().metadata.annotations = Some(m);
        }),
        "ZFSVolume is marked for deletion"
    );
    assert_eq!(
        refused(&|w| w.volumes.get_mut(HANDLE).unwrap().spec.0.snapname = text("origin")),
        "volume is a clone; clone migration is unsupported"
    );
    assert_eq!(
        refused(&|w| {
            let mut labels = StringMap::new();
            labels.insert("openebs.io/persistent-volume".to_string(), HANDLE.to_string());
            let snap = ZFSSnapshot {
                metadata: ObjectMeta { labels: Some(labels), ..named("s") },
                spec: ZFSSnapshotSpec(VolumeInfo::default()),
                status: None,
            };
            w.snapshots.insert("s".to_string(), snap);
        }),
        "volume has ZFSSnapshots; delete them before evacuating (snapshot migration unsupported)"
    );
    assert_eq!(
        refused(&|w| {
            w.nodes.remove(0);
        }),
        "source node with nodeid src not found; data is unreachable"
    );
    for capacity in [None, text("much"), text("0")] {
        assert_eq!(
            refused(&|w| w.volumes.get_mut(HANDLE).unwrap().spec.0.capacity = capacity.clone()),
            "could not determine volume capacity"
        );
    }
}

// ------------------------------------------------------------------ waiting

#[test]
fn pods_hold_an_idle_volume() {
    let mut w = world(EvacuationTrigger::Annotation);
    w.run_to(Phase::Quiescing);
    w.now += 10;
    w.pods = vec![pod("app", Some("src"), &["data"]), pod("stranded", None, &["data"])];
    assert_eq!(w.run(), Action::RequeueSecs(15));
    assert!(w.message().contains("app") && w.message().contains("stranded"));
    let writes = w.log.len();
    assert_eq!(w.run(), Action::RequeueSecs(15));
    assert_eq!(w.log.len(), writes, "nothing new to say");
    w.pods.clear();
    assert_eq!(w.run(), Action::RequeueSecs(90));
    // A pod that shows up starts the settle period over.
    w.now += 60;
    w.pods = vec![pod("late", None, &["data"])];
    w.run();
    assert_eq!(w.status().quiesced_at, None);
}

#[test]
fn a_claimed_volume_waits_for_the_cordon() {
    let mut w = world(EvacuationTrigger::NodeTaint);
    taint_node(&mut w.nodes[0], "PreferNoSchedule");
    w.run_to(Phase::Quiescing);
    assert_eq!(w.params.as_ref().unwrap().claimable_pvc_keys, vec!["ns/data"]);
    w.now += 10;
    assert_eq!(w.run(), Action::RequeueSecs(15));
    assert_eq!(
        w.message(),
        "source node src can still receive pods; cordon it (kubectl cordon src) or give it the \
         zfsevac.alumino.us/evacuate taint with effect NoSchedule or NoExecute"
    );
    // The pending consumer does not hold it; a running one does.
    taint_node(&mut w.nodes[0], "NoSchedule");
    w.pods = vec![pod("app", Some("src"), &["data"]), pod("next", None, &["data"])];
    w.run();
    assert_eq!(w.message(), "waiting for pods to release PVC: app");
    w.pods.remove(0);
    assert_eq!(w.run(), Action::RequeueSecs(90));
    w.run_to(Phase::TargetSelecting);
    w.run();
    assert_eq!(w.phase(), Phase::Transferring);
}

#[test]
fn the_settle_period_starts_over_with_every_pod() {
    let mut w = world(EvacuationTrigger::Annotation);
    w.run_to(Phase::Quiescing);
    w.now += 10;
    let guest = vec![pod("guest", Some("src"), &["data"])];
    w.pods = guest.clone();
    w.run();
    let blocked = "waiting for pods to release PVC: guest";
    assert_eq!(w.message(), blocked);
    // It goes, the period starts; it comes back before the period is over.
    w.pods.clear();
    assert_eq!(w.run(), Action::RequeueSecs(90));
    assert!(w.status().quiesced_at.is_some());
    w.now += 80;
    w.pods = guest;
    assert_eq!(w.run(), Action::RequeueSecs(15));
    assert_eq!((w.message(), w.status().quiesced_at), (blocked.to_string(), None));
    // It goes again: the whole period lies ahead.
    w.now += 100;
    w.pods.clear();
    assert_eq!(w.run(), Action::RequeueSecs(90));
    assert_eq!(w.phase(), Phase::Quiescing);
    w.now += 90;
    w.run();
    assert_eq!(w.phase(), Phase::TargetSelecting);
}

#[test]
fn the_mode_stays_what_it_was_when_the_lock_was_taken() {
    let mut w = world(EvacuationTrigger::Annotation);
    w.run_to(Phase::Quiescing);
    w.evac.spec.mode = EvacuationMode::WhenClaimed;
    w.now += 10;
    w.pods = vec![pod("stranded", None, &["data"])];
    assert_eq!(w.run(), Action::RequeueSecs(15));
    assert!(w.message().starts_with("never-scheduled pods predate the lock"));
}

#[test]
fn one_transfer_leaves_a_node_at_a_time() {
    let mut w = world(EvacuationTrigger::Annotation);
    w.run_to(Phase::TargetSelecting);
    let mut other = new_evacuation("pv-9", EvacuationTrigger::Annotation);
    let mut st = w.status();
    st.phase = Phase::Adopting;
    other.status = Some(st);
    w.others = vec![other];
    assert_eq!(w.run(), Action::RequeueSecs(60));
    assert_eq!(w.message(), "another evacuation is transferring from this node");
    w.others.clear();
    for zn in w.zfsnodes.iter_mut() {
        zn.pools[0].free = text("1Gi");
    }
    assert_eq!(w.run(), Action::RequeueSecs(60));
    assert!(w.message().starts_with("no target yet: no eligible target: need 11811160064 bytes"));
    w.pvs.clear();
    w.run();
    assert_eq!((w.phase(), w.message()), (Phase::Aborting, "source PV disappeared before commit".to_string()));
}

#[test]
fn what_cannot_be_listed_is_waited_for() {
    let mut w = world(EvacuationTrigger::Annotation);
    w.run_to(Phase::TargetSelecting);
    w.outage = text("ApiError: too many requests");
    assert_eq!(w.run(), Action::RequeueSecs(60));
    assert_eq!(w.phase(), Phase::TargetSelecting);
    assert_eq!(w.message(), "no target yet: ApiError: too many requests");
    w.outage = None;
    assert_eq!(w.run(), Action::RequeueMillis(500));
    assert_eq!(w.phase(), Phase::Transferring);
}

#[test]
fn the_precautions_are_taken_in_order() {
    let mut w = world(EvacuationTrigger::Annotation);
    w.run_to(Phase::Guarding);
    let guard = "zfsevac.alumino.us/guard";
    assert!(!w.volumes[HANDLE].metadata.has_finalizer(guard));
    w.run();
    assert_eq!(w.phase(), Phase::Retaining);
    assert!(w.volumes[HANDLE].metadata.has_finalizer(guard));
    assert_eq!(policy(&w), text("Delete"));
    w.run();
    assert_eq!(w.phase(), Phase::Locking);
    assert_eq!(policy(&w), text("Retain"));
    assert!(w.params.is_none());
    w.run();
    assert_eq!(w.phase(), Phase::Quiescing);
    assert_eq!(w.params.as_ref().unwrap().pvc_keys, vec!["ns/data"]);
}

fn policy(w: &World) -> Option<String> {
    w.pvs["pv-1"].spec.as_ref().unwrap().persistent_volume_reclaim_policy.clone()
}

// ------------------------------------------------------------------ groups

#[test]
fn volumes_of_one_consumer_go_together() {
    let mut w = world(EvacuationTrigger::NodeTaint);
    taint_node(&mut w.nodes[0], "NoSchedule");
    w.add_volume("pv-2", "logs", "pvc-logs");
    w.pods = vec![pod("app", None, &["data", "logs"])];
    // Room for one of them on the first node, for both on the second.
    w.zfsnodes[1].pools[0].free = text("15Gi");
    w.zfsnodes[2].pools[0].free = text("30Gi");
    w.run_to(Phase::TargetSelecting);
    w.run();
    let st = w.status();
    assert_eq!(st.target.unwrap().node, "n2");
    let c = st.colocation.unwrap();
    assert_eq!((c.pod.as_str(), c.role, c.followed), ("ns/app", ColocationRole::Leader, None));
    let members: Vec<&str> = c.members.iter().map(|m| m.pv_name.as_str()).collect();
    assert_eq!(members, vec!["pv-1", "pv-2"]);

    // The other way round: a sibling that has a target is followed.
    let mut w = world(EvacuationTrigger::NodeTaint);
    taint_node(&mut w.nodes[0], "NoSchedule");
    w.add_volume("pv-2", "logs", "pvc-logs");
    w.pods = vec![pod("app", None, &["data", "logs"])];
    w.run_to(Phase::TargetSelecting);
    let mut sibling = new_evacuation("pv-2", EvacuationTrigger::NodeTaint);
    sibling.spec.target_node = text("n2");
    w.others = vec![sibling];
    w.run();
    let st = w.status();
    assert_eq!(st.target.unwrap().node, "n2");
    let c = st.colocation.unwrap();
    assert_eq!((c.role, c.followed), (ColocationRole::Follower, text("pv-2")));

    // A node named by the spec wins, and makes a leader.
    let mut w = world(EvacuationTrigger::NodeTaint);
    taint_node(&mut w.nodes[0], "NoSchedule");
    w.add_volume("pv-2", "logs", "pvc-logs");
    w.pods = vec![pod("app", None, &["data", "logs"])];
    w.run_to(Phase::TargetSelecting);
    let mut sibling = new_evacuation("pv-2", EvacuationTrigger::NodeTaint);
    sibling.spec.target_node = text("n2");
    w.others = vec![sibling];
    w.evac.spec.target_node = text("n1");
    w.run();
    assert_eq!(w.status().target.unwrap().node, "n1");
    assert_eq!(w.status().colocation.unwrap().role, ColocationRole::Leader);
}

// ------------------------------------------------------------------ transfers

#[test]
fn failed_attempts_are_torn_down_and_tried_again() {
    let mut w = world(EvacuationTrigger::Annotation);
    w.evac.spec.max_attempts = Some(2);
    w.run_to(Phase::Transferring);
    assert_eq!(w.run(), Action::RequeueSecs(2));
    assert_eq!(w.message(), "transfer attempt 1 starting");
    assert_eq!(w.run(), Action::RequeueSecs(2));
    assert_eq!(w.message(), "transfer attempt 1 waiting for source");
    w.backups.get_mut("pv-1-evac-a1").unwrap().status = text("Failed");
    w.backups.get_mut("pv-1-evac-a1").unwrap().metadata.finalizers = Some(vec![ZFS_FINALIZER.to_string()]);
    assert_eq!(w.run(), Action::RequeueSecs(10));
    assert_eq!(w.message(), "attempt 1 failed (backup reported status Failed); cleaning up");
    assert!(w.relay.is_none());
    w.run();
    assert!(w.backups.contains_key("pv-1-evac-a1"), "the agent has not let go yet");
    w.agents();
    w.run();
    assert_eq!(w.status().transfer.unwrap().attempt, 2);
    assert!(w.backups.contains_key("pv-1-evac-a2"));
    // The controller restarts: the relay is lost, and the last attempt with it.
    w.relay = None;
    w.run();
    assert_eq!(w.message(), "attempt 2 failed (controller restarted mid-transfer); cleaning up");
    w.agents();
    assert_eq!(w.run(), Action::RequeueSecs(1));
    assert_eq!(w.phase(), Phase::Aborting);
    assert_eq!(
        w.message(),
        "transfer failed after 2 attempts (last: controller restarted mid-transfer)"
    );
    w.run();
    assert_eq!(w.phase(), Phase::Failed);
    assert!(!w.status().cancelled, "a failure of its own stays visible");
    assert!(!w.volumes[HANDLE].metadata.has_finalizer(GUARD_FINALIZER));
}

#[test]
fn progress_is_recorded_and_live_relays_are_kept() {
    let mut w = world(EvacuationTrigger::Annotation);
    w.run_to(Phase::Transferring);
    w.run();
    w.relay.as_mut().unwrap().source_connected = true;
    w.run();
    assert!(w.restores.contains_key("pv-1-evacr-a1"));
    w.relay.as_mut().unwrap().bytes = 100;
    assert_eq!(w.run(), Action::RequeueSecs(10));
    assert_eq!(w.status().transfer.unwrap().bytes_relayed, Some(100));
    // A view of the status from before the attempt must not disturb it.
    let current = w.status();
    w.set_status(|st| st.transfer = None);
    assert_eq!(w.run(), Action::RequeueSecs(5));
    assert!(w.relay.is_some());
    w.evac.status = Some(current);
    w.relay.as_mut().unwrap().attempt = 2;
    assert_eq!(w.run(), Action::RequeueSecs(2));
    assert!(w.relay.is_some());
    w.set_status(|st| st.transfer.as_mut().unwrap().attempt = 3);
    assert_eq!(w.run(), Action::RequeueSecs(1));
    assert!(w.relay.is_none());
}

#[test]
fn finalizers_of_a_vanished_node_are_stripped() {
    let mut w = world(EvacuationTrigger::Annotation);
    w.run_to(Phase::Transferring);
    w.transfer();
    w.adopt();
    w.run();
    w.run();
    w.run();
    w.pvs.get_mut("pv-1").unwrap().status = Some(PersistentVolumeStatus { phase: text("Bound") });
    w.run();
    assert_eq!(w.phase(), Phase::CleaningUp);
    // Both agents are gone: nothing but the controller lets the objects go.
    w.nodes.clear();
    for _ in 0..12 {
        w.run();
    }
    assert_eq!(w.phase(), Phase::Completed);
    assert!(!w.volumes.contains_key(HANDLE) && w.backups.is_empty() && w.snapshots.is_empty());
}

// ------------------------------------------------------------------ cancelling

#[test]
fn taking_the_annotation_off_unwinds_everything() {
    let mut w = world(EvacuationTrigger::Annotation);
    w.run_to(Phase::Transferring);
    w.transfer();
    w.run();
    assert!(w.volumes.contains_key(&new_handle()));
    for zv in w.volumes.values_mut() {
        zv.metadata.finalizers.get_or_insert_with(Vec::new).push(ZFS_FINALIZER.to_string());
    }
    if let Some(a) = w.pvs.get_mut("pv-1").unwrap().metadata.annotations.as_mut() {
        a.remove(ANNOTATION);
    }
    assert_eq!(w.run(), Action::RequeueSecs(1));
    assert_eq!(w.message(), "evacuate annotation removed (cancelled)");
    assert!(w.status().cancelled);
    assert_eq!(w.run(), Action::RequeueSecs(5));
    assert_eq!(w.message(), "abort: destroying target dataset");
    w.agents();
    w.run();
    // The restore's Done status says that a dataset landed: it is adopted and
    // destroyed once more, until the restore itself is gone.
    assert_eq!(w.message(), "abort: adopting orphan dataset for destruction");
    for r in w.restores.values_mut() {
        r.status = text("Init");
    }
    w.run();
    w.agents();
    w.run();
    assert_eq!(w.message(), "abort: cleaning up transfer CRs");
    w.agents();
    assert_eq!(w.run(), Action::AwaitChange);
    assert_eq!(w.phase(), Phase::Failed);
    let pv = &w.pvs["pv-1"];
    assert_eq!(pv.spec.as_ref().unwrap().persistent_volume_reclaim_policy, text("Delete"));
    assert_eq!(pv.metadata.uid, text("pv-1-uid"));
    let zv = &w.volumes[HANDLE];
    assert!(!zv.metadata.deleting() && !zv.metadata.has_finalizer(GUARD_FINALIZER));
    assert!(w.locked().is_empty());
    assert!(!w.volumes.contains_key(&new_handle()));
}

#[test]
fn unwinding_stops_a_live_relay_first() {
    let mut w = world(EvacuationTrigger::Annotation);
    w.run_to(Phase::Transferring);
    w.run();
    w.relay.as_mut().unwrap().source_connected = true;
    w.run();
    w.restores.get_mut("pv-1-evacr-a1").unwrap().status = text("Done");
    // Without a source the rest cannot be unwound; the stream ends all the same.
    w.set_status(|st| {
        st.phase = Phase::Aborting;
        st.source = None;
    });
    assert!(w.relay.is_some());
    match w.tick() {
        Err(e) => assert_eq!(e.message(), "no source recorded"),
        other => panic!("{other:?}"),
    }
    assert!(w.relay.is_none());
}

#[test]
fn a_failed_attempt_stops_its_relay_and_keeps_its_reason() {
    let mut w = world(EvacuationTrigger::Annotation);
    w.evac.spec.max_attempts = Some(1);
    w.run_to(Phase::Transferring);
    w.run();
    w.backups.clear();
    w.now += 3601;
    assert_eq!(w.run(), Action::RequeueSecs(1));
    assert!(w.relay.is_none());
    let why = "transfer failed after 1 attempts (last: transfer timed out)";
    assert_eq!((w.phase(), w.message()), (Phase::Aborting, why.to_string()));
    assert_eq!(w.status().transfer.unwrap().failure_reason, text("transfer timed out"));
}

#[test]
fn a_replaced_pv_at_the_commit_fails_with_everything_in_place() {
    let mut w = world(EvacuationTrigger::Annotation);
    w.run_to(Phase::Transferring);
    w.transfer();
    w.run_to(Phase::Adopting);
    w.set_status(|st| st.phase = Phase::Committing);
    w.pvs.get_mut("pv-1").unwrap().metadata.uid = text("another-uid");
    assert_eq!(w.run(), Action::AwaitChange);
    assert_eq!(
        (w.phase(), w.message()),
        (Phase::Failed, "old PV UID changed at commit".to_string())
    );
    assert_eq!(w.locked(), vec!["ns/data"]);
    assert!(w.volumes[HANDLE].metadata.has_finalizer(GUARD_FINALIZER));
    assert_eq!(policy(&w), text("Retain"));
}

#[test]
fn deleting_the_evacuation_before_the_commit_unwinds_it() {
    let mut w = world(EvacuationTrigger::Annotation);
    w.run_to(Phase::Quiescing);
    w.evac.metadata.deletion_timestamp = text("2024-01-01T00:00:00Z");
    assert_eq!(w.run(), Action::AwaitChange);
    assert!(w.gone && w.locked().is_empty());
    assert!(w.log.contains(&"policy Delete".to_string()));
    assert!(!w.volumes[HANDLE].metadata.has_finalizer(GUARD_FINALIZER));
    assert_eq!(w.message(), "ZFSEvacuation deleted before commit; aborting");
}

#[test]
fn past_the_commit_deletion_rolls_forward() {
    let mut w = world(EvacuationTrigger::Annotation);
    w.run_to(Phase::Transferring);
    w.transfer();
    w.adopt();
    w.run();
    assert_eq!(w.phase(), Phase::Swapping);
    w.evac.metadata.deletion_timestamp = text("2024-01-01T00:00:00Z");
    w.relay = None;
    w.run();
    w.run();
    w.pvs.get_mut("pv-1").unwrap().status = Some(PersistentVolumeStatus { phase: text("Bound") });
    for _ in 0..12 {
        if w.gone {
            break;
        }
        w.run();
        w.agents();
    }
    assert!(w.gone);
    assert_eq!(w.phase(), Phase::Completed);
    assert!(!w.volumes.contains_key(HANDLE));
}

#[test]
fn the_taint_is_the_request() {
    let mut w = world(EvacuationTrigger::NodeTaint);
    taint_node(&mut w.nodes[0], "NoSchedule");
    w.run_to(Phase::Quiescing);
    w.nodes[0].spec = Some(NodeSpec::default());
    w.run();
    assert_eq!(w.message(), "source node's evacuate taint removed (cancelled)");
    assert!(w.status().cancelled);
    // A vanished node is no cancel.
    let mut w = world(EvacuationTrigger::NodeTaint);
    taint_node(&mut w.nodes[0], "NoSchedule");
    w.run_to(Phase::Quiescing);
    w.nodes.remove(0);
    w.now += 10;
    assert_eq!(w.run(), Action::RequeueSecs(90));
}

#[test]
fn a_deleted_or_replaced_pvc_aborts() {
    let mut w = world(EvacuationTrigger::Annotation);
    w.run_to(Phase::Quiescing);
    w.pvcs.get_mut("data").unwrap().metadata.uid = text("another");
    w.run();
    assert_eq!(w.message(), "PVC replaced (UID changed) during evacuation");
    // The user deleted PVC and PV, and the volume was to be reclaimed: it is.
    let mut w = world(EvacuationTrigger::Annotation);
    w.run_to(Phase::Quiescing);
    w.pvcs.clear();
    w.run();
    assert_eq!(w.message(), "PVC deleted during evacuation");
    assert!(!w.status().cancelled);
    w.pvs.clear();
    w.run();
    assert_eq!(w.phase(), Phase::Failed);
    assert!(w.log.contains(&"delete pvc-old".to_string()));
    w.agents();
    assert!(!w.volumes.contains_key(HANDLE));
}

#[test]
fn pods_at_the_commit_abort_or_hold_it() {
    let mut w = world(EvacuationTrigger::Annotation);
    w.run_to(Phase::Transferring);
    w.transfer();
    w.adopt();
    w.pods = vec![pod("b", None, &["data"]), pod("a", Some("src"), &["data"])];
    w.run();
    assert_eq!(w.phase(), Phase::Aborting);
    assert_eq!(w.message(), "pods appeared at commit despite lock: b, a");

    let mut w = world(EvacuationTrigger::NodeTaint);
    taint_node(&mut w.nodes[0], "NoExecute");
    w.pods = vec![pod("b", None, &["data"])];
    w.run_to(Phase::Transferring);
    w.transfer();
    w.adopt();
    assert_eq!(w.phase(), Phase::Committing);
    taint_node(&mut w.nodes[0], "PreferNoSchedule");
    assert_eq!(w.run(), Action::RequeueSecs(15));
    assert!(w.message().contains("can still receive pods"));
    taint_node(&mut w.nodes[0], "NoExecute");
    w.run();
    assert_eq!(w.phase(), Phase::Swapping);
    // Right up against the delete, once more.
    taint_node(&mut w.nodes[0], "PreferNoSchedule");
    assert_eq!(w.run(), Action::RequeueSecs(10));
    assert!(!w.pvs["pv-1"].metadata.deleting());
}

#[test]
fn adoption_that_fails_aborts() {
    let mut w = world(EvacuationTrigger::Annotation);
    w.run_to(Phase::Transferring);
    w.transfer();
    assert_eq!(w.run(), Action::RequeueSecs(3));
    assert_eq!(w.run(), Action::RequeueSecs(5));
    assert_eq!(w.message(), "waiting for target node agent to adopt dataset");
    w.volumes.get_mut(&new_handle()).unwrap().status = Some(ZFSVolumeStatus { state: text("Failed") });
    w.run();
    assert_eq!(w.phase(), Phase::Aborting);
    assert_eq!(w.message(), "new ZFSVolume reported Failed during adoption");
}

// ------------------------------------------------------------------ errors

#[test]
fn what_a_phase_cannot_go_on_from() {
    let fault = |phase: Phase, spoil: &dyn Fn(&mut World)| -> String {
        let mut w = world(EvacuationTrigger::Annotation);
        w.run_to(Phase::Transferring);
        if phase != Phase::Transferring {
            w.transfer();
            w.adopt();
        }
        w.set_status(|st| st.phase = phase);
        spoil(&mut w);
        match w.tick() {
            Err(e) => e.message(),
            Ok(a) => panic!("{a:?}"),
        }
    };
    let status = |w: &mut World, edit: &dyn Fn(&mut ZFSEvacuationStatus)| w.set_status(edit);
    assert_eq!(fault(Phase::Guarding, &|w| status(w, &|s| s.source = None)), "no source recorded");
    assert_eq!(fault(Phase::Adopting, &|w| status(w, &|s| s.target = None)), "no target recorded");
    assert_eq!(fault(Phase::Locking, &|w| status(w, &|s| s.pvc_ref = None)), "no pvcRef recorded");
    assert_eq!(
        fault(Phase::Adopting, &|w| w.volumes.clear()),
        "source ZFSVolume disappeared"
    );
    assert_eq!(
        fault(Phase::Transferring, &|w| {
            w.nodes.remove(0);
        }),
        "source node src gone"
    );
    assert_eq!(
        fault(Phase::Transferring, &|w| {
            w.nodes.remove(1);
        }),
        "target node n1 gone"
    );
    assert_eq!(
        fault(Phase::Transferring, &|w| w.nodes[1].status = None),
        "no relay peer addresses found for node n1"
    );
    let swapping = |w: &mut World| {
        w.set_status(|s| {
            s.committed = true;
            s.new_pv_manifest = None;
        });
        w.pvs.clear();
    };
    assert_eq!(
        fault(Phase::Swapping, &swapping),
        "no newPVManifest recorded; cannot complete swap"
    );
}

#[test]
fn errors_at_the_commit() {
    let mut w = world(EvacuationTrigger::Annotation);
    w.run_to(Phase::Transferring);
    w.transfer();
    w.adopt();
    let commit_with = |pvc: Lookup<PersistentVolumeClaim>, pv: Lookup<PersistentVolume>| {
        let mut seen = Seen::nothing();
        seen.enter(Stage::Checked);
        seen.pods = Some(vec![]);
        seen.pvc = pvc;
        seen.pv = pv;
        let mut st = w.status();
        let step = committing(&w.evac, &seen, &mut st, &w.cfg);
        (step, st)
    };
    let pvc = || Lookup::Found(w.pvcs["data"].clone());
    let fault = |step: Step| match step {
        Step::Fault(e) => e.message(),
        other => panic!("{other:?}"),
    };
    assert_eq!(fault(commit_with(Lookup::Absent, Lookup::Unread).0), "PVC vanished at commit");
    assert_eq!(fault(commit_with(pvc(), Lookup::Absent).0), "old PV vanished at commit");
    let mut bare = w.pvs["pv-1"].clone();
    bare.spec.as_mut().unwrap().csi = None;
    assert_eq!(fault(commit_with(pvc(), Lookup::Found(bare.clone())).0), "old PV has no csi source");
    bare.spec = None;
    assert_eq!(fault(commit_with(pvc(), Lookup::Found(bare.clone())).0), "old PV has no spec");
    bare.metadata.uid = text("another");
    let (step, st) = commit_with(pvc(), Lookup::Found(bare));
    assert!(matches!(step, Step::Run(_)));
    assert_eq!((st.phase, st.message), (Phase::Failed, text("old PV UID changed at commit")));
    let st = w.status();
    let target = st.target.unwrap();
    let e = render_new_pv(&PersistentVolume::default(), &st.pvc_ref.unwrap(), &target).unwrap_err();
    assert_eq!(e.message(), "old PV has no spec");
    assert_eq!(Error::ParamsConflict.message(), "persistent conflict updating zfs-evacuation-locks");
    assert_eq!(Error::SizeOverflow.message(), "the volumes' sizes are too large to add up");
    assert_eq!(error_policy(), Action::RequeueSecs(15));
}
