//! The controller's own resources: `ZFSEvacuation` (one per in-flight
//! evacuation, cluster-scoped, named after the PV) and `EvacuationParams` (the
//! single admission-policy param object listing PVC keys under evacuation).
use vstd::prelude::*;

use crate::cluster::ObjectMeta;
use crate::text::{is_among, opt, same, views};

verus! {

/// PV annotation that triggers an evacuation ("true" = evacuate when unused).
/// Removing it before the commit point cancels the evacuation.
pub const EVACUATE_ANNOTATION: &'static str = "zfsevac.alumino.us/evacuate";

/// Our finalizer placed on the source ZFSVolume: the zfs-localpv node agent
/// will not `zfs destroy` while it is present.
pub const GUARD_FINALIZER: &'static str = "zfsevac.alumino.us/guard";

/// Finalizer on ZFSEvacuation so deletion runs abort logic.
pub const EVACUATION_FINALIZER: &'static str = "zfsevac.alumino.us/cleanup";

/// Human-visible marker label put on the PVC while evacuating (the actual
/// attach lock is the param object, not this label).
pub const EVACUATING_LABEL: &'static str = "zfsevac.alumino.us/evacuating";

/// Fixed name of the singleton EvacuationParams object the policy binding
/// references.
pub const PARAMS_NAME: &'static str = "zfs-evacuation-locks";

/// What created an evacuation. It governs the cancel condition.
#[derive(Clone, Copy, Debug, PartialEq, Eq, Structural, Default)]
pub enum EvacuationTrigger {
    #[default]
    Annotation,
    NodeTaint,
}

/// How an evacuation waits for its volume.
#[derive(Clone, Copy, Debug, PartialEq, Eq, Structural, Default)]
pub enum EvacuationMode {
    /// No pod may be created against the PVC until the volume has moved.
    #[default]
    WhenIdle,
    /// Scheduler-routed pods may be created and wait; the source node keeps
    /// them away by repelling pods.
    WhenClaimed,
}

#[derive(Clone, Copy, Debug, PartialEq, Eq, Structural, Default)]
pub enum Phase {
    #[default]
    Pending,
    Guarding,
    Retaining,
    Locking,
    Quiescing,
    TargetSelecting,
    Transferring,
    Adopting,
    Committing,
    Swapping,
    CleaningUp,
    Completed,
    Aborting,
    Failed,
}

#[derive(Debug)]
pub struct ZFSEvacuationSpec {
    /// Name of the PV to evacuate (immutable; also the ZFSEvacuation name).
    pub pv_name: String,
    /// What created this evacuation: Annotation evacuations cancel when the PV
    /// annotation is removed, NodeTaint evacuations cancel when the source
    /// node's taint is removed.
    pub trigger: EvacuationTrigger,
    /// How the evacuation waits for its volume; read once, when the lock is
    /// taken.
    pub mode: EvacuationMode,
    /// Optional explicit target node (else auto-selected).
    pub target_node: Option<String>,
    /// Optional explicit destination poolname, verbatim: may be a dataset path
    /// ("zroot/csi"). Default: the PV's StorageClass `poolname` parameter,
    /// else the source volume's poolName carried over.
    pub target_pool: Option<String>,
    /// Seconds to wait after the last pod disappears before snapshotting.
    pub settle_seconds: Option<u64>,
    /// Per-attempt transfer timeout in seconds.
    pub transfer_timeout_seconds: Option<u64>,
    /// Maximum transfer attempts.
    pub max_attempts: Option<u32>,
    /// Extra free-space headroom required on the target pool, percent.
    pub headroom_percent: Option<u32>,
}

#[derive(Debug)]
pub struct PvcRef {
    pub namespace: String,
    pub name: String,
    pub uid: String,
}

impl Clone for PvcRef {
    fn clone(&self) -> (r: PvcRef)
        ensures
            r == *self,
    {
        PvcRef {
            namespace: self.namespace.clone(),
            name: self.name.clone(),
            uid: self.uid.clone(),
        }
    }
}

/// Which PVC an evacuation belongs to.
#[verifier::ext_equal]
pub struct PvcView {
    pub namespace: Seq<char>,
    pub name: Seq<char>,
    pub uid: Seq<char>,
}

impl View for PvcRef {
    type V = PvcView;

    open spec fn view(&self) -> PvcView {
        PvcView { namespace: self.namespace@, name: self.name@, uid: self.uid@ }
    }
}

#[derive(Debug)]
pub struct SourceInfo {
    pub node: String,
    /// Resolved openebs.io/nodeid (label value, or node name).
    pub node_id: String,
    pub pool: String,
    pub volume_handle: String,
    pub pv_uid: String,
    /// Volume size in bytes (for target capacity reservations).
    pub capacity_bytes: u64,
}

impl Clone for SourceInfo {
    fn clone(&self) -> (r: SourceInfo)
        ensures
            r == *self,
    {
        SourceInfo {
            node: self.node.clone(),
            node_id: self.node_id.clone(),
            pool: self.pool.clone(),
            volume_handle: self.volume_handle.clone(),
            pv_uid: self.pv_uid.clone(),
            capacity_bytes: self.capacity_bytes,
        }
    }
}

/// Where an evacuation's data comes from.
#[verifier::ext_equal]
pub struct SourceView {
    pub node: Seq<char>,
    pub node_id: Seq<char>,
    pub pool: Seq<char>,
    pub volume_handle: Seq<char>,
    pub pv_uid: Seq<char>,
    pub capacity_bytes: u64,
}

impl View for SourceInfo {
    type V = SourceView;

    open spec fn view(&self) -> SourceView {
        SourceView {
            node: self.node@,
            node_id: self.node_id@,
            pool: self.pool@,
            volume_handle: self.volume_handle@,
            pv_uid: self.pv_uid@,
            capacity_bytes: self.capacity_bytes,
        }
    }
}

#[derive(Debug)]
pub struct TargetInfo {
    pub node: String,
    pub node_id: String,
    /// Full destination poolname (may be a dataset path): becomes the new
    /// ZFSVolume's poolName. Capacity accounting uses its zpool component.
    pub pool: String,
    pub new_volume_handle: String,
}

impl Clone for TargetInfo {
    fn clone(&self) -> (r: TargetInfo)
        ensures
            r == *self,
    {
        TargetInfo {
            node: self.node.clone(),
            node_id: self.node_id.clone(),
            pool: self.pool.clone(),
            new_volume_handle: self.new_volume_handle.clone(),
        }
    }
}

/// Where an evacuation's data goes.
#[verifier::ext_equal]
pub struct TargetView {
    pub node: Seq<char>,
    pub node_id: Seq<char>,
    pub pool: Seq<char>,
    pub new_volume_handle: Seq<char>,
}

impl View for TargetInfo {
    type V = TargetView;

    open spec fn view(&self) -> TargetView {
        TargetView {
            node: self.node@,
            node_id: self.node_id@,
            pool: self.pool@,
            new_volume_handle: self.new_volume_handle@,
        }
    }
}

#[derive(Clone, Debug)]
pub struct TransferStatus {
    pub attempt: u32,
    pub snap_name: String,
    /// [backup_port, restore_port] the relay listens on.
    pub ports: Vec<u16>,
    pub bytes_relayed: Option<u64>,
    pub started_at: Option<String>,
    /// Set the moment an attempt is judged failed; the attempt's CRs are then
    /// torn down across several reconciles and this keeps the verdict from
    /// being re-derived (wrongly) from the torn-down state.
    pub failure_reason: Option<String>,
    /// CleaningUp has issued the delete of the ZFSSnapshot CR that stands in
    /// for the received copy of the transfer snapshot on the target; a later
    /// reconcile that finds no CR must not register it again.
    pub target_snap_delete_issued: bool,
}

/// What is recorded of a transfer attempt.
#[verifier::ext_equal]
pub struct TransferView {
    pub attempt: u32,
    pub snap_name: Seq<char>,
    pub ports: Seq<u16>,
    pub bytes_relayed: Option<u64>,
    pub started_at: Option<Seq<char>>,
    pub failure_reason: Option<Seq<char>>,
    pub target_snap_delete_issued: bool,
}

impl View for TransferStatus {
    type V = TransferView;

    open spec fn view(&self) -> TransferView {
        TransferView {
            attempt: self.attempt,
            snap_name: self.snap_name@,
            ports: self.ports@,
            bytes_relayed: self.bytes_relayed,
            started_at: opt(self.started_at),
            failure_reason: opt(self.failure_reason),
            target_snap_delete_issued: self.target_snap_delete_issued,
        }
    }
}

/// One volume of a group that moves together.
#[derive(Debug)]
pub struct ColocationMember {
    pub pv_name: String,
    pub capacity_bytes: u64,
}

impl Clone for ColocationMember {
    fn clone(&self) -> (r: ColocationMember)
        ensures
            r == *self,
    {
        ColocationMember { pv_name: self.pv_name.clone(), capacity_bytes: self.capacity_bytes }
    }
}

/// One volume of a group that moves together.
#[verifier::ext_equal]
pub struct MemberView {
    pub pv_name: Seq<char>,
    pub capacity_bytes: u64,
}

impl View for ColocationMember {
    type V = MemberView;

    open spec fn view(&self) -> MemberView {
        MemberView { pv_name: self.pv_name@, capacity_bytes: self.capacity_bytes }
    }
}

/// The volumes of a group.
pub open spec fn member_views(v: Seq<ColocationMember>) -> Seq<MemberView> {
    v.map_values(|m: ColocationMember| m@)
}

/// Whether a volume chose the group's node or followed a sibling there.
#[derive(Clone, Copy, Debug, PartialEq, Eq, Structural)]
pub enum ColocationRole {
    Leader,
    Follower,
}

/// The group a volume was placed with.
#[derive(Clone, Debug)]
pub struct ColocationStatus {
    /// "namespace/name" of the consumer that defines the group.
    pub pod: String,
    /// The group's volumes that had no node when this one chose.
    pub members: Vec<ColocationMember>,
    pub role: ColocationRole,
    /// The PV whose node a follower went to.
    pub followed: Option<String>,
}

/// The group a volume was placed with.
#[verifier::ext_equal]
pub struct ColocationView {
    pub pod: Seq<char>,
    pub members: Seq<MemberView>,
    pub role: ColocationRole,
    pub followed: Option<Seq<char>>,
}

impl View for ColocationStatus {
    type V = ColocationView;

    open spec fn view(&self) -> ColocationView {
        ColocationView {
            pod: self.pod@,
            members: member_views(self.members@),
            role: self.role,
            followed: opt(self.followed),
        }
    }
}

#[derive(Clone, Debug)]
pub struct ZFSEvacuationStatus {
    pub phase: Phase,
    pub observed_generation: Option<i64>,
    pub message: Option<String>,
    pub pvc_ref: Option<PvcRef>,
    pub source: Option<SourceInfo>,
    pub target: Option<TargetInfo>,
    pub original_reclaim_policy: Option<String>,
    /// Serialized old PV, captured post-Retain (crash recovery).
    pub old_pv_manifest: Option<String>,
    /// Serialized fully-rendered replacement PV (crash recovery).
    pub new_pv_manifest: Option<String>,
    /// Set with both manifests, before the old PV delete is issued; from here,
    /// roll-forward only.
    pub committed: bool,
    pub transfer: Option<TransferStatus>,
    /// RFC3339 time the last referencing pod disappeared (settle-period anchor).
    pub quiesced_at: Option<String>,
    /// RFC3339 time the PVC key was added to the params (propagation grace).
    pub locked_at: Option<String>,
    /// The mode the lock was taken in.
    pub locked_mode: Option<EvacuationMode>,
    /// The group this volume was placed with, if it has a waiting consumer.
    pub colocation: Option<ColocationStatus>,
    /// The request was withdrawn (as opposed to an evacuation that failed).
    pub cancelled: bool,
}

/// The view of something that may be absent.
pub open spec fn view_opt<T: View>(x: Option<T>) -> Option<T::V> {
    match x {
        Some(v) => Some(v@),
        None => None,
    }
}

/// What the status of an evacuation says.
#[verifier::ext_equal]
pub struct StatusView {
    pub phase: Phase,
    pub observed_generation: Option<i64>,
    pub message: Option<Seq<char>>,
    pub pvc_ref: Option<PvcView>,
    pub source: Option<SourceView>,
    pub target: Option<TargetView>,
    pub original_reclaim_policy: Option<Seq<char>>,
    pub old_pv_manifest: Option<Seq<char>>,
    pub new_pv_manifest: Option<Seq<char>>,
    pub committed: bool,
    pub transfer: Option<TransferView>,
    pub quiesced_at: Option<Seq<char>>,
    pub locked_at: Option<Seq<char>>,
    pub locked_mode: Option<EvacuationMode>,
    pub colocation: Option<ColocationView>,
    pub cancelled: bool,
}

impl View for ZFSEvacuationStatus {
    type V = StatusView;

    open spec fn view(&self) -> StatusView {
        StatusView {
            phase: self.phase,
            observed_generation: self.observed_generation,
            message: opt(self.message),
            pvc_ref: view_opt(self.pvc_ref),
            source: view_opt(self.source),
            target: view_opt(self.target),
            original_reclaim_policy: opt(self.original_reclaim_policy),
            old_pv_manifest: opt(self.old_pv_manifest),
            new_pv_manifest: opt(self.new_pv_manifest),
            committed: self.committed,
            transfer: view_opt(self.transfer),
            quiesced_at: opt(self.quiesced_at),
            locked_at: opt(self.locked_at),
            locked_mode: self.locked_mode,
            colocation: view_opt(self.colocation),
            cancelled: self.cancelled,
        }
    }
}

impl Default for ZFSEvacuationStatus {
    fn default() -> (r: ZFSEvacuationStatus)
        ensures
            r == (ZFSEvacuationStatus {
                phase: Phase::Pending,
                observed_generation: None,
                message: None,
                pvc_ref: None,
                source: None,
                target: None,
                original_reclaim_policy: None,
                old_pv_manifest: None,
                new_pv_manifest: None,
                committed: false,
                transfer: None,
                quiesced_at: None,
                locked_at: None,
                locked_mode: None,
                colocation: None,
                cancelled: false,
            }),
    {
        ZFSEvacuationStatus {
            phase: Phase::Pending,
            observed_generation: None,
            message: None,
            pvc_ref: None,
            source: None,
            target: None,
            original_reclaim_policy: None,
            old_pv_manifest: None,
            new_pv_manifest: None,
            committed: false,
            transfer: None,
            quiesced_at: None,
            locked_at: None,
            locked_mode: None,
            colocation: None,
            cancelled: false,
        }
    }
}

/// One evacuation, named after its PV.
#[derive(Debug)]
pub struct ZFSEvacuation {
    pub metadata: ObjectMeta,
    pub spec: ZFSEvacuationSpec,
    pub status: Option<ZFSEvacuationStatus>,
}

// ------------------------------------------------------------------ the lock

/// The param object of the admission policy. A single cluster-scoped instance
/// named [`PARAMS_NAME`] holds every PVC currently locked.
#[derive(Debug)]
pub struct EvacuationParamsSpec {
    /// "namespace/name" keys of PVCs that no new pod may reference.
    pub pvc_keys: Vec<String>,
    /// "namespace/name" keys of PVCs that only scheduler-routed pods may
    /// reference.
    pub claimable_pvc_keys: Vec<String>,
}

/// The keys of a list that differ from `key`.
pub open spec fn without(keys: Seq<Seq<char>>, key: Seq<char>) -> Seq<Seq<char>> {
    keys.filter(|k: Seq<char>| k != key)
}

/// The keys of a list with `key` among them, added at the end if it is new.
pub open spec fn including(keys: Seq<Seq<char>>, key: Seq<char>) -> Seq<Seq<char>> {
    if keys.contains(key) {
        keys
    } else {
        keys.push(key)
    }
}

/// Removing a key that is not there changes nothing.
proof fn lemma_without_absent(keys: Seq<Seq<char>>, key: Seq<char>)
    requires
        !keys.contains(key),
    ensures
        without(keys, key) == keys,
    decreases keys.len(),
{
    reveal(Seq::filter);
    if keys.len() > 0 {
        assert(keys.drop_last().push(keys.last()) == keys);
        assert(keys[keys.len() - 1] != key);
        assert forall|i: int| 0 <= i < keys.drop_last().len() implies keys.drop_last()[i] != key by {
            assert(keys[i] != key);
        }
        lemma_without_absent(keys.drop_last(), key);
    }
}

/// What is left after a removal: the other keys, in number no more than before.
proof fn lemma_without(keys: Seq<Seq<char>>, key: Seq<char>)
    ensures
        !without(keys, key).contains(key),
        forall|k: Seq<char>| k != key ==> without(keys, key).contains(k) == keys.contains(k),
        keys.contains(key) ==> without(keys, key).len() < keys.len(),
        keys.no_duplicates() ==> without(keys, key).no_duplicates(),
    decreases keys.len(),
{
    reveal(Seq::filter);
    let rest = without(keys, key);
    if keys.len() > 0 {
        let front = keys.drop_last();
        let last = keys.last();
        assert(front.push(last) == keys);
        lemma_without(front, key);
        let kept = without(front, key);
        assert forall|k: Seq<char>| front.contains(k) || k == last implies keys.contains(k) by {
            if k == last {
                assert(keys[keys.len() - 1] == k);
            } else {
                let i = choose|i: int| 0 <= i < front.len() && front[i] == k;
                assert(keys[i] == k);
            }
        }
        assert forall|k: Seq<char>| keys.contains(k) implies front.contains(k) || k == last by {
            let i = choose|i: int| 0 <= i < keys.len() && keys[i] == k;
            if i < front.len() {
                assert(front[i] == k);
            }
        }
        if !front.contains(key) {
            lemma_without_absent(front, key);
        }
        if last != key {
            assert(rest == kept.push(last));
            assert forall|k: Seq<char>| rest.contains(k) == (kept.contains(k) || k == last) by {
                if kept.contains(k) {
                    let i = choose|i: int| 0 <= i < kept.len() && kept[i] == k;
                    assert(rest[i] == k);
                }
                if k == last {
                    assert(rest[kept.len() as int] == k);
                }
                if rest.contains(k) {
                    let i = choose|i: int| 0 <= i < rest.len() && rest[i] == k;
                    if i < kept.len() {
                        assert(kept[i] == k);
                    }
                }
            }
            if keys.no_duplicates() {
                assert(front.no_duplicates());
                assert(!front.contains(last)) by {
                    if front.contains(last) {
                        let i = choose|i: int| 0 <= i < front.len() && front[i] == last;
                        assert(keys[i] == keys[keys.len() - 1]);
                    }
                }
                assert(!kept.contains(last));
                assert forall|i: int, j: int|
                    0 <= i < rest.len() && 0 <= j < rest.len() && i != j implies rest[i]
                    != rest[j] by {
                    if i < kept.len() && j < kept.len() {
                        assert(kept[i] != kept[j]);
                    } else if i < kept.len() {
                        assert(kept.contains(kept[i]));
                    } else {
                        assert(kept.contains(kept[j]));
                    }
                }
            }
        } else {
            assert(rest == kept);
            if keys.no_duplicates() {
                assert(front.no_duplicates());
            }
        }
    }
}

/// Removes every occurrence of a key; tells whether there was one.
fn drop_key(keys: &mut Vec<String>, key: &str) -> (changed: bool)
    ensures
        views(final(keys)@) == without(views(old(keys)@), key@),
        changed == views(old(keys)@).contains(key@),
{
    let ghost before = keys@;
    let ghost pred = |k: Seq<char>| k != key@;
    let mut rest: Vec<String> = Vec::new();
    let mut changed = false;
    assert(views(before.take(0)) == Seq::<Seq<char>>::empty());
    assert(without(Seq::<Seq<char>>::empty(), key@) == Seq::<Seq<char>>::empty()) by {
        reveal(Seq::filter);
    }
    for i in 0..keys.len()
        invariant
            keys@ == before,
            pred == (|k: Seq<char>| k != key@),
            views(rest@) == views(before.take(i as int)).filter(pred),
            changed == views(before.take(i as int)).contains(key@),
    {
        let ghost seen = views(before.take(i as int));
        let ghost next = views(before.take(i + 1));
        proof {
            assert(next == seen.push(before[i as int]@));
            assert(next.drop_last() == seen);
            reveal(Seq::filter);
            if seen.contains(key@) {
                let j = choose|j: int| 0 <= j < seen.len() && seen[j] == key@;
                assert(next[j] == key@);
            }
            assert(next[i as int] == before[i as int]@);
            if next.contains(key@) && before[i as int]@ != key@ {
                let j = choose|j: int| 0 <= j < next.len() && next[j] == key@;
                assert(seen[j] == key@);
            }
        }
        if same(keys[i].as_str(), key) {
            changed = true;
        } else {
            let ghost r0 = rest@;
            rest.push(keys[i].clone());
            assert(views(rest@) == views(r0).push(before[i as int]@));
        }
    }
    assert(before.take(before.len() as int) == before);
    *keys = rest;
    changed
}

impl EvacuationParamsSpec {
    /// The keys no new pod may reference.
    pub open spec fn idle(self) -> Seq<Seq<char>> {
        views(self.pvc_keys@)
    }

    /// The keys only scheduler-routed pods may reference.
    pub open spec fn claimable(self) -> Seq<Seq<char>> {
        views(self.claimable_pvc_keys@)
    }

    /// No key occurs twice, neither within a list nor across the two.
    pub open spec fn well_formed(self) -> bool {
        &&& self.idle().no_duplicates()
        &&& self.claimable().no_duplicates()
        &&& forall|k: Seq<char>| !(#[trigger] self.idle().contains(k) && self.claimable().contains(k))
    }

    /// Lists `key` under the mode's list and only there; tells whether that
    /// changed anything.
    pub fn lock(&mut self, key: &str, mode: &EvacuationMode) -> (changed: bool)
        ensures
            *mode == EvacuationMode::WhenIdle ==> {
                &&& final(self).idle() == including(old(self).idle(), key@)
                &&& final(self).claimable() == without(old(self).claimable(), key@)
            },
            *mode == EvacuationMode::WhenClaimed ==> {
                &&& final(self).claimable() == including(old(self).claimable(), key@)
                &&& final(self).idle() == without(old(self).idle(), key@)
            },
            changed == (final(self).idle() != old(self).idle() || final(self).claimable() != old(
                self,
            ).claimable()),
            old(self).well_formed() ==> final(self).well_formed(),
    {
        let ghost before = *self;
        proof {
            lemma_without(self.idle(), key@);
            lemma_without(self.claimable(), key@);
            if !self.idle().contains(key@) {
                lemma_without_absent(self.idle(), key@);
            }
            if !self.claimable().contains(key@) {
                lemma_without_absent(self.claimable(), key@);
            }
        }
        let moved;
        let added;
        match mode {
            EvacuationMode::WhenIdle => {
                moved = drop_key(&mut self.claimable_pvc_keys, key);
                added = !is_among(&self.pvc_keys, key);
                if added {
                    self.pvc_keys.push(key.to_owned());
                    assert(self.idle() == before.idle().push(key@));
                }
                proof {
                    lemma_including(before.idle(), key@);
                }
            },
            EvacuationMode::WhenClaimed => {
                moved = drop_key(&mut self.pvc_keys, key);
                added = !is_among(&self.claimable_pvc_keys, key);
                if added {
                    self.claimable_pvc_keys.push(key.to_owned());
                    assert(self.claimable() == before.claimable().push(key@));
                }
                proof {
                    lemma_including(before.claimable(), key@);
                }
            },
        }
        proof {
            if before.well_formed() {
                assert forall|k: Seq<char>| !(#[trigger] self.idle().contains(k)
                    && self.claimable().contains(k)) by {
                    assert(!(before.idle().contains(k) && before.claimable().contains(k)));
                }
            }
        }
        moved || added
    }

    /// Removes `key` from both lists; tells whether that changed anything.
    pub fn unlock(&mut self, key: &str) -> (changed: bool)
        ensures
            final(self).idle() == without(old(self).idle(), key@),
            final(self).claimable() == without(old(self).claimable(), key@),
            changed == (old(self).idle().contains(key@) || old(self).claimable().contains(key@)),
            old(self).well_formed() ==> final(self).well_formed(),
    {
        let ghost before = *self;
        proof {
            lemma_without(self.idle(), key@);
            lemma_without(self.claimable(), key@);
        }
        let a = drop_key(&mut self.pvc_keys, key);
        let b = drop_key(&mut self.claimable_pvc_keys, key);
        proof {
            if before.well_formed() {
                assert forall|k: Seq<char>| !(#[trigger] self.idle().contains(k)
                    && self.claimable().contains(k)) by {
                    assert(!(before.idle().contains(k) && before.claimable().contains(k)));
                }
            }
        }
        a || b
    }
}

/// What is listed after an addition: the old keys and the new one.
proof fn lemma_including(keys: Seq<Seq<char>>, key: Seq<char>)
    ensures
        including(keys, key).contains(key),
        forall|k: Seq<char>| k != key ==> including(keys, key).contains(k) == keys.contains(k),
        keys.no_duplicates() ==> including(keys, key).no_duplicates(),
{
    let r = including(keys, key);
    if !keys.contains(key) {
        assert(r[keys.len() as int] == key);
        assert forall|k: Seq<char>| k != key implies r.contains(k) == keys.contains(k) by {
            if keys.contains(k) {
                let i = choose|i: int| 0 <= i < keys.len() && keys[i] == k;
                assert(r[i] == k);
            }
            if r.contains(k) {
                let i = choose|i: int| 0 <= i < r.len() && r[i] == k;
                assert(keys[i] == k);
            }
        }
    }
}

impl Default for EvacuationParamsSpec {
    fn default() -> (r: EvacuationParamsSpec)
        ensures
            r.idle() == Seq::<Seq<char>>::empty(),
            r.claimable() == Seq::<Seq<char>>::empty(),
            r.well_formed(),
    {
        let r = EvacuationParamsSpec { pvc_keys: Vec::new(), claimable_pvc_keys: Vec::new() };
        assert(r.idle() =~= Seq::<Seq<char>>::empty());
        assert(r.claimable() =~= Seq::<Seq<char>>::empty());
        r
    }
}

/// A change to the locks.
#[derive(Debug)]
pub enum LockChange {
    Lock { key: String, mode: EvacuationMode },
    Unlock { key: String },
}

/// How often a change to the locks is tried when others change them too.
pub const PARAMS_TRIES: u32 = 8;

/// What a change to the locks asks to be written.
#[derive(Debug)]
pub enum ParamsWrite {
    /// Nothing: it is as it should be.
    Nothing,
    /// The param object does not exist yet.
    Create(EvacuationParamsSpec),
    /// At the version that was read.
    Replace(EvacuationParamsSpec),
}

/// The idle list after a change.
pub open spec fn idle_after(change: LockChange, idle: Seq<Seq<char>>) -> Seq<Seq<char>> {
    match change {
        LockChange::Lock { key, mode } => match mode {
            EvacuationMode::WhenIdle => including(idle, key@),
            EvacuationMode::WhenClaimed => without(idle, key@),
        },
        LockChange::Unlock { key } => without(idle, key@),
    }
}

/// The claimable list after a change.
pub open spec fn claimable_after(change: LockChange, claimable: Seq<Seq<char>>) -> Seq<Seq<char>> {
    match change {
        LockChange::Lock { key, mode } => match mode {
            EvacuationMode::WhenIdle => without(claimable, key@),
            EvacuationMode::WhenClaimed => including(claimable, key@),
        },
        LockChange::Unlock { key } => without(claimable, key@),
    }
}

/// Applies a change to the locks as they were read; nothing is written if
/// nothing changes.
pub fn update_params(current: Option<EvacuationParamsSpec>, change: &LockChange) -> (r: ParamsWrite)
    ensures
        ({
            let idle = match current {
                Some(p) => p.idle(),
                None => Seq::empty(),
            };
            let claimable = match current {
                Some(p) => p.claimable(),
                None => Seq::empty(),
            };
            let idle2 = idle_after(*change, idle);
            let claimable2 = claimable_after(*change, claimable);
            match r {
                ParamsWrite::Nothing => idle2 == idle && claimable2 == claimable,
                ParamsWrite::Create(p) => current is None && p.idle() == idle2 && p.claimable()
                    == claimable2 && (idle2 != idle || claimable2 != claimable),
                ParamsWrite::Replace(p) => current is Some && p.idle() == idle2 && p.claimable()
                    == claimable2 && (idle2 != idle || claimable2 != claimable),
            }
        }),
{
    let exists_already = current.is_some();
    let mut spec = match current {
        Some(p) => p,
        None => EvacuationParamsSpec::default(),
    };
    let ghost before = spec;
    let changed = match change {
        LockChange::Lock { key, mode } => spec.lock(key.as_str(), mode),
        LockChange::Unlock { key } => {
            proof {
                let k = key@;
                lemma_without(spec.idle(), k);
                lemma_without(spec.claimable(), k);
                if !spec.idle().contains(k) {
                    lemma_without_absent(spec.idle(), k);
                }
                if !spec.claimable().contains(k) {
                    lemma_without_absent(spec.claimable(), k);
                }
            }
            spec.unlock(key.as_str())
        },
    };
    if !changed {
        ParamsWrite::Nothing
    } else if exists_already {
        ParamsWrite::Replace(spec)
    } else {
        ParamsWrite::Create(spec)
    }
}

// ------------------------------------------------------------------ what holds of the lock

/// A locked key is listed once and in one list only: the one of its mode.
pub proof fn locked_keys_follow_the_mode(
    idle: Seq<Seq<char>>,
    claimable: Seq<Seq<char>>,
    key: String,
    mode: EvacuationMode,
)
    ensures
        ({
            let c = LockChange::Lock { key, mode };
            &&& idle_after(c, idle).contains(key@) == (mode == EvacuationMode::WhenIdle)
            &&& claimable_after(c, claimable).contains(key@) == (mode
                == EvacuationMode::WhenClaimed)
            &&& idle.no_duplicates() ==> idle_after(c, idle).no_duplicates()
            &&& claimable.no_duplicates() ==> claimable_after(c, claimable).no_duplicates()
        }),
{
    lemma_including(idle, key@);
    lemma_including(claimable, key@);
    lemma_without(idle, key@);
    lemma_without(claimable, key@);
}

/// Locking a key again in the same mode changes nothing; so does unlocking one
/// that is not locked.
pub proof fn lock_changes_are_idempotent(
    idle: Seq<Seq<char>>,
    claimable: Seq<Seq<char>>,
    change: LockChange,
)
    ensures
        idle_after(change, idle_after(change, idle)) == idle_after(change, idle),
        claimable_after(change, claimable_after(change, claimable)) == claimable_after(
            change,
            claimable,
        ),
{
    let key = match change {
        LockChange::Lock { key, mode } => key@,
        LockChange::Unlock { key } => key@,
    };
    lemma_including(idle, key);
    lemma_including(claimable, key);
    lemma_without(idle, key);
    lemma_without(claimable, key);
    lemma_without_absent(without(idle, key), key);
    lemma_without_absent(without(claimable, key), key);
}

/// Unlocking undoes locking, whatever the mode: a key that was in neither list
/// is in neither again, and the lists are what they were.
pub proof fn unlock_undoes_lock(
    idle: Seq<Seq<char>>,
    claimable: Seq<Seq<char>>,
    key: String,
    mode: EvacuationMode,
)
    requires
        !idle.contains(key@),
        !claimable.contains(key@),
    ensures
        ({
            let l = LockChange::Lock { key, mode };
            let u = LockChange::Unlock { key };
            &&& idle_after(u, idle_after(l, idle)) == idle
            &&& claimable_after(u, claimable_after(l, claimable)) == claimable
        }),
{
    lemma_without_absent(idle, key@);
    lemma_without_absent(claimable, key@);
    lemma_without_pushed(idle, key@);
    lemma_without_pushed(claimable, key@);
}

/// Other keys keep their place in the lists.
pub proof fn lock_changes_leave_other_keys(
    idle: Seq<Seq<char>>,
    claimable: Seq<Seq<char>>,
    change: LockChange,
    other: Seq<char>,
)
    requires
        other != match change {
            LockChange::Lock { key, mode } => key@,
            LockChange::Unlock { key } => key@,
        },
    ensures
        idle_after(change, idle).contains(other) == idle.contains(other),
        claimable_after(change, claimable).contains(other) == claimable.contains(other),
{
    let key = match change {
        LockChange::Lock { key, mode } => key@,
        LockChange::Unlock { key } => key@,
    };
    lemma_including(idle, key);
    lemma_including(claimable, key);
    lemma_without(idle, key);
    lemma_without(claimable, key);
}

proof fn lemma_without_pushed(keys: Seq<Seq<char>>, key: Seq<char>)
    requires
        !keys.contains(key),
    ensures
        without(keys.push(key), key) == keys,
{
    reveal(Seq::filter);
    lemma_without_absent(keys, key);
    assert(keys.push(key).drop_last() =~= keys);
}

} // verus!
