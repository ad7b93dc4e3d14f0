//! The zfs-localpv resources we consume.
//!
//! They are owned and installed by zfs-localpv; we only need enough of their
//! shape to read and write them. Spec fields that are not modelled are
//! preserved in `extra`, so that copying a spec (e.g. into a ZFSRestore
//! volSpec) keeps properties we don't act on (recordsize, compression,
//! encryption, ...).
use std::collections::BTreeMap;

use serde_json::Value;
use vstd::prelude::*;

use crate::cluster::{fresh, MetaView, ObjectMeta};
use crate::text::opt;

verus! {

pub const OPENEBS_GROUP: &'static str = "zfs.openebs.io";

/// Finalizer the zfs-localpv node agent places on ZFSVolume/ZFSSnapshot CRs
/// and removes only after a successful `zfs destroy`.
pub const ZFS_FINALIZER: &'static str = "zfs.openebs.io/finalizer";

/// Label linking ZFSSnapshot CRs to their source volume.
pub const ZFS_VOL_LABEL: &'static str = "openebs.io/persistent-volume";

/// Label a node agent selects its CRs by.
pub const NODE_NAME_LABEL: &'static str = "kubernetes.io/nodename";

/// Annotation the CSI controller uses to defer volume deletion while
/// snapshots exist.
pub const MARKED_FOR_DELETION: &'static str = "openebs.io/marked-for-deletion";

/// Topology key used in PV nodeAffinity, and node label overriding node
/// identity.
pub const NODE_ID_TOPOLOGY_KEY: &'static str = "openebs.io/nodeid";

/// volumeAttributes key on the PV naming the pool.
pub const POOLNAME_ATTRIBUTE: &'static str = "openebs.io/poolname";

/// The CSI driver name.
pub const ZFS_DRIVER: &'static str = "zfs.csi.openebs.io";

pub const ZFS_STATUS_READY: &'static str = "Ready";

pub const ZFS_STATUS_PENDING: &'static str = "Pending";

/// ZFSBackup/ZFSRestore statuses are plain strings on these CRDs
/// (Init/Pending/InProgress/Done/Failed/Invalid), set to Init by the creator.
pub const BKP_STATUS_INIT: &'static str = "Init";

pub const BKP_STATUS_DONE: &'static str = "Done";

pub const BKP_STATUS_FAILED: &'static str = "Failed";

pub const BKP_STATUS_INVALID: &'static str = "Invalid";

/// The spec of ZFSVolume/ZFSSnapshot and the `volSpec` of ZFSRestore. Only
/// fields we act on are modelled; the rest ride in `extra` verbatim.
#[derive(Debug, Default)]
pub struct VolumeInfo {
    pub owner_node_id: String,
    pub pool_name: String,
    pub capacity: Option<String>,
    /// Set only on clones (name of the origin snapshot).
    pub snapname: Option<String>,
    pub fs_type: Option<String>,
    pub volume_type: Option<String>,
    pub extra: BTreeMap<String, Value>,
}

/// What a volume's spec says.
#[verifier::ext_equal]
pub struct InfoView {
    pub owner_node_id: Seq<char>,
    pub pool_name: Seq<char>,
    pub capacity: Option<Seq<char>>,
    pub snapname: Option<Seq<char>>,
    pub fs_type: Option<Seq<char>>,
    pub volume_type: Option<Seq<char>>,
    pub extra: Map<String, Value>,
}

impl View for VolumeInfo {
    type V = InfoView;

    open spec fn view(&self) -> InfoView {
        InfoView {
            owner_node_id: self.owner_node_id@,
            pool_name: self.pool_name@,
            capacity: opt(self.capacity),
            snapname: opt(self.snapname),
            fs_type: opt(self.fs_type),
            volume_type: opt(self.volume_type),
            extra: self.extra@,
        }
    }
}

impl Clone for VolumeInfo {
    fn clone(&self) -> (r: VolumeInfo)
        ensures
            r@ == self@,
    {
        VolumeInfo {
            owner_node_id: self.owner_node_id.clone(),
            pool_name: self.pool_name.clone(),
            capacity: self.capacity.clone(),
            snapname: self.snapname.clone(),
            fs_type: self.fs_type.clone(),
            volume_type: self.volume_type.clone(),
            extra: self.extra.clone(),
        }
    }
}

#[derive(Clone, Debug, Default)]
pub struct ZFSVolumeStatus {
    pub state: Option<String>,
}

/// The state an agent reports, if there is a status and it reports one.
pub open spec fn state_of(status: Option<ZFSVolumeStatus>) -> Option<Seq<char>> {
    match status {
        Some(s) => opt(s.state),
        None => None,
    }
}

/// A volume, or a snapshot of one: its metadata, its spec and its state.
#[verifier::ext_equal]
pub struct VolumeView {
    pub metadata: MetaView,
    pub spec: InfoView,
    pub state: Option<Seq<char>>,
}

#[derive(Clone, Debug)]
pub struct ZFSVolumeSpec(pub VolumeInfo);

#[derive(Clone, Debug)]
pub struct ZFSVolume {
    pub metadata: ObjectMeta,
    pub spec: ZFSVolumeSpec,
    pub status: Option<ZFSVolumeStatus>,
}

impl View for ZFSVolume {
    type V = VolumeView;

    open spec fn view(&self) -> VolumeView {
        VolumeView {
            metadata: self.metadata@,
            spec: self.spec.0@,
            state: state_of(self.status),
        }
    }
}

#[derive(Clone, Debug)]
pub struct ZFSSnapshotSpec(pub VolumeInfo);

#[derive(Clone, Debug)]
pub struct ZFSSnapshot {
    pub metadata: ObjectMeta,
    pub spec: ZFSSnapshotSpec,
    pub status: Option<ZFSVolumeStatus>,
}

impl View for ZFSSnapshot {
    type V = VolumeView;

    open spec fn view(&self) -> VolumeView {
        VolumeView {
            metadata: self.metadata@,
            spec: self.spec.0@,
            state: state_of(self.status),
        }
    }
}

#[derive(Clone, Debug, Default)]
pub struct ZFSBackupSpec {
    pub volume_name: String,
    pub owner_node_id: String,
    pub snap_name: Option<String>,
    pub prev_snap_name: Option<String>,
    /// "ip:port" the source node agent connects out to with the send stream.
    pub backup_dest: String,
}

#[derive(Clone, Debug)]
pub struct ZFSBackup {
    pub metadata: ObjectMeta,
    pub spec: ZFSBackupSpec,
    pub status: Option<String>,
}

/// What a backup asks for.
#[verifier::ext_equal]
pub struct BackupView {
    pub metadata: MetaView,
    pub volume_name: Seq<char>,
    pub owner_node_id: Seq<char>,
    pub snap_name: Option<Seq<char>>,
    pub prev_snap_name: Option<Seq<char>>,
    pub backup_dest: Seq<char>,
    pub status: Option<Seq<char>>,
}

impl View for ZFSBackup {
    type V = BackupView;

    open spec fn view(&self) -> BackupView {
        BackupView {
            metadata: self.metadata@,
            volume_name: self.spec.volume_name@,
            owner_node_id: self.spec.owner_node_id@,
            snap_name: opt(self.spec.snap_name),
            prev_snap_name: opt(self.spec.prev_snap_name),
            backup_dest: self.spec.backup_dest@,
            status: opt(self.status),
        }
    }
}

#[derive(Clone, Debug, Default)]
pub struct ZFSRestoreSpec {
    /// Name of the dataset to `zfs recv` into (== new ZFSVolume CR name).
    pub volume_name: String,
    pub owner_node_id: String,
    /// "ip:port" the target node agent connects out to for the stream.
    pub restore_src: String,
}

/// ZFSRestore's `volSpec` is a top-level field, a sibling of `spec`.
#[derive(Clone, Debug)]
pub struct ZFSRestore {
    pub api_version: String,
    pub kind: String,
    pub metadata: ObjectMeta,
    pub spec: ZFSRestoreSpec,
    pub vol_spec: Option<VolumeInfo>,
    pub status: Option<String>,
}

/// What a restore asks for.
#[verifier::ext_equal]
pub struct RestoreView {
    pub api_version: Seq<char>,
    pub kind: Seq<char>,
    pub metadata: MetaView,
    pub volume_name: Seq<char>,
    pub owner_node_id: Seq<char>,
    pub restore_src: Seq<char>,
    pub vol_spec: Option<InfoView>,
    pub status: Option<Seq<char>>,
}

impl View for ZFSRestore {
    type V = RestoreView;

    open spec fn view(&self) -> RestoreView {
        RestoreView {
            api_version: self.api_version@,
            kind: self.kind@,
            metadata: self.metadata@,
            volume_name: self.spec.volume_name@,
            owner_node_id: self.spec.owner_node_id@,
            restore_src: self.spec.restore_src@,
            vol_spec: match self.vol_spec {
                Some(v) => Some(v@),
                None => None,
            },
            status: opt(self.status),
        }
    }
}

/// The pools of one node. ZFSNode has neither spec nor status.
#[derive(Clone, Debug)]
pub struct ZFSNode {
    pub metadata: ObjectMeta,
    pub pools: Vec<ZfsPool>,
}

#[derive(Clone, Debug, Default)]
pub struct ZfsPool {
    pub name: String,
    pub uuid: Option<String>,
    /// ZFS `available` for the pool root dataset (a quantity).
    pub free: Option<String>,
}

/// The metadata of a new object.
pub fn named(name: &str) -> (r: ObjectMeta)
    ensures
        r@ == fresh(Some(name@), None),
{
    ObjectMeta {
        name: Some(name.to_owned()),
        generate_name: None,
        uid: None,
        resource_version: None,
        labels: None,
        annotations: None,
        finalizers: None,
        deletion_timestamp: None,
    }
}

impl ZFSRestore {
    /// A restore with the given name, not yet processed by any agent.
    pub fn new(name: &str, spec: ZFSRestoreSpec, vol_spec: VolumeInfo) -> (r: ZFSRestore)
        ensures
            r@ == (RestoreView {
                api_version: OPENEBS_GROUP@ + "/v1"@,
                kind: "ZFSRestore"@,
                metadata: fresh(Some(name@), None),
                volume_name: spec.volume_name@,
                owner_node_id: spec.owner_node_id@,
                restore_src: spec.restore_src@,
                vol_spec: Some(vol_spec@),
                status: None,
            }),
    {
        ZFSRestore {
            api_version: crate::text::cat(OPENEBS_GROUP, "/v1"),
            kind: "ZFSRestore".to_owned(),
            metadata: named(name),
            spec,
            vol_spec: Some(vol_spec),
            status: None,
        }
    }
}

} // verus!
