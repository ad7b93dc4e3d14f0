//! What a phase asks of the world: what to read before it can decide, and what
//! to do once it has. Phases only decide; whoever drives them performs.
use vstd::prelude::*;

use crate::cluster::{
    Lookup, Node, PersistentVolume, PersistentVolumeClaim, Pod, PvView, StorageClass,
};
use crate::controller::colocation::Sibling;
use crate::controller::transfer::RelayObs;
use crate::crd::openebs::{
    BackupView, RestoreView, VolumeView, ZFSBackup, ZFSNode, ZFSRestore, ZFSSnapshot, ZFSVolume,
    ZFS_FINALIZER,
};
use crate::crd::zfs_evacuation::{
    EvacuationMode, ZFSEvacuation, EVACUATION_FINALIZER, GUARD_FINALIZER,
};
use crate::text::{cat3, same, views};
use crate::transfer::relay::IpNet;

verus! {

/// When to look at an evacuation again.
#[derive(Clone, Copy, Debug, PartialEq, Eq, Structural)]
pub enum Action {
    /// When it changes.
    AwaitChange,
    /// After so many milliseconds.
    RequeueMillis(u64),
    /// After so many seconds.
    RequeueSecs(u64),
}

/// How far one reconcile has come. What it writes on the way makes some of
/// what it has read stale.
#[derive(Clone, Copy, Debug, PartialEq, Eq, Structural)]
pub enum Stage {
    /// Nothing has been written.
    Begin,
    /// Our finalizer is on the evacuation.
    Held,
    /// Nothing cancels it.
    Checked,
    /// The PVC is unlocked.
    Unlocked,
}

/// What follows the effects of a plan.
#[derive(Clone, Copy, Debug, PartialEq, Eq, Structural)]
pub enum Outcome {
    /// This reconcile is over.
    Done(Action),
    /// It goes on, at this stage.
    Again(Stage),
}

/// The kinds of objects whose finalizers are edited or that are deleted.
#[derive(Clone, Copy, Debug, PartialEq, Eq, Structural)]
pub enum Kind {
    PersistentVolume,
    ZfsVolume,
    ZfsSnapshot,
    ZfsBackup,
    ZfsRestore,
}

/// The finalizer that keeps a PV while it is bound.
pub const PV_PROTECTION: &'static str = "kubernetes.io/pv-protection";

/// The finalizer that makes the provisioner honour the reclaim policy.
pub const PROVISIONER_FINALIZER: &'static str =
    "external-provisioner.volume.kubernetes.io/finalizer";

/// A change to a list of finalizers.
#[derive(Clone, Copy, Debug, PartialEq, Eq, Structural)]
pub enum FinalizerEdit {
    AddGuard,
    DropGuard,
    /// The agent's own.
    DropZfs,
    /// Those that keep a PV from being deleted.
    DropPvBlockers,
    /// Ours, on the evacuation.
    AddHold,
    DropHold,
}

/// Does the edit take this finalizer off?
pub open spec fn drops(edit: FinalizerEdit, finalizer: Seq<char>) -> bool {
    match edit {
        FinalizerEdit::AddGuard => false,
        FinalizerEdit::AddHold => false,
        FinalizerEdit::DropGuard => finalizer == GUARD_FINALIZER@,
        FinalizerEdit::DropZfs => finalizer == ZFS_FINALIZER@,
        FinalizerEdit::DropPvBlockers => finalizer == PV_PROTECTION@ || finalizer
            == PROVISIONER_FINALIZER@,
        FinalizerEdit::DropHold => finalizer == EVACUATION_FINALIZER@,
    }
}

/// The finalizer the edit puts on, if it puts one on.
pub open spec fn adds(edit: FinalizerEdit) -> Option<Seq<char>> {
    match edit {
        FinalizerEdit::AddGuard => Some(GUARD_FINALIZER@),
        FinalizerEdit::AddHold => Some(EVACUATION_FINALIZER@),
        _ => None,
    }
}

/// The finalizers after an edit: those it does not take off, and the one it
/// puts on at the end, unless that is there already.
pub open spec fn edited(edit: FinalizerEdit, current: Seq<Seq<char>>) -> Seq<Seq<char>> {
    match adds(edit) {
        Some(f) => if current.contains(f) {
            current
        } else {
            current.push(f)
        },
        None => current.filter(|f: Seq<char>| !drops(edit, f)),
    }
}

fn does_drop(edit: FinalizerEdit, finalizer: &str) -> (r: bool)
    ensures
        r == drops(edit, finalizer@),
{
    match edit {
        FinalizerEdit::AddGuard => false,
        FinalizerEdit::AddHold => false,
        FinalizerEdit::DropGuard => same(finalizer, GUARD_FINALIZER),
        FinalizerEdit::DropZfs => same(finalizer, ZFS_FINALIZER),
        FinalizerEdit::DropPvBlockers => same(finalizer, PV_PROTECTION) || same(
            finalizer,
            PROVISIONER_FINALIZER,
        ),
        FinalizerEdit::DropHold => same(finalizer, EVACUATION_FINALIZER),
    }
}

fn kept(edit: FinalizerEdit, current: &Vec<String>) -> (r: Vec<String>)
    ensures
        views(r@) == views(current@).filter(|f: Seq<char>| !drops(edit, f)),
        r@.len() <= current@.len(),
        r@.len() == current@.len() ==> views(r@) == views(current@),
{
    let ghost pred = |f: Seq<char>| !drops(edit, f);
    let mut r: Vec<String> = Vec::new();
    assert(views(current@.take(0)).filter(pred) =~= Seq::<Seq<char>>::empty()) by {
        reveal(Seq::filter);
    }
    for i in 0..current.len()
        invariant
            pred == (|f: Seq<char>| !drops(edit, f)),
            views(r@) == views(current@.take(i as int)).filter(pred),
            r@.len() <= i,
            r@.len() == i ==> views(r@) == views(current@.take(i as int)),
    {
        let ghost seen = views(current@.take(i as int));
        let ghost r0 = r@;
        proof {
            reveal(Seq::filter);
            assert(views(current@.take(i + 1)) == seen.push(current@[i as int]@));
            assert(seen.push(current@[i as int]@).drop_last() == seen);
        }
        if !does_drop(edit, current[i].as_str()) {
            r.push(current[i].clone());
            assert(views(r@) == views(r0).push(current@[i as int]@));
        }
    }
    assert(current@.take(current@.len() as int) == current@);
    r
}

/// Finds the finalizers an object is to have after an edit; `None` if it has
/// them already, so that nothing needs writing. Arrays replace wholesale in a
/// merge patch, which is what we want.
pub fn edit_finalizers(edit: FinalizerEdit, current: &Vec<String>) -> (r: Option<Vec<String>>)
    ensures
        match r {
            Some(v) => views(v@) == edited(edit, views(current@)) && views(v@) != views(current@),
            None => edited(edit, views(current@)) == views(current@),
        },
{
    let added: Option<&'static str> = match edit {
        FinalizerEdit::AddGuard => Some(GUARD_FINALIZER),
        FinalizerEdit::AddHold => Some(EVACUATION_FINALIZER),
        _ => None,
    };
    match added {
        Some(f) => {
            if crate::text::is_among(current, f) {
                None
            } else {
                let mut v = current.clone();
                v.push(f.to_owned());
                assert(views(v@) =~= views(current@).push(f@));
                Some(v)
            }
        },
        None => {
            let v = kept(edit, current);
            if v.len() == current.len() {
                None
            } else {
                assert(views(v@).len() != views(current@).len());
                Some(v)
            }
        },
    }
}

/// Something to be done to the world.
#[derive(Debug)]
pub enum Effect {
    /// Write the evacuation's status as it is when the plan is made.
    WriteStatus,
    /// Stop the evacuation's relay, if it has one.
    DropRelay,
    /// Edit the finalizers of an object, if it exists.
    EditFinalizers { kind: Kind, name: String, edit: FinalizerEdit },
    /// Delete an object.
    Delete { kind: Kind, name: String },
    /// Create these unless they exist.
    CreateVolume(ZFSVolume),
    CreateSnapshot(ZFSSnapshot),
    CreateBackup(ZFSBackup),
    CreateRestore(ZFSRestore),
    /// Create a PV from a stored manifest, unless it exists.
    CreatePv { manifest: String },
    /// Set a PV's reclaim policy.
    SetReclaimPolicy { pv: String, policy: String },
    /// List a PVC as locked.
    Lock { key: String, mode: EvacuationMode },
    /// Take a PVC off the lists of locked ones.
    Unlock { key: String },
    /// Put the human-visible marker on a PVC.
    MarkPvc { namespace: String, name: String },
    /// Take it off. The PVC may be gone by now.
    UnmarkPvc { namespace: String, name: String },
    /// Take the evacuate annotation off a PV.
    StripTrigger { pv: String },
    /// Put our finalizer on the evacuation.
    HoldEvacuation,
    /// Take our finalizer off the evacuation.
    ReleaseEvacuation,
}

/// Something to be done to the world.
#[verifier::ext_equal]
pub enum EffectView {
    WriteStatus,
    DropRelay,
    EditFinalizers(Kind, Seq<char>, FinalizerEdit),
    Delete(Kind, Seq<char>),
    CreateVolume(VolumeView),
    CreateSnapshot(VolumeView),
    CreateBackup(BackupView),
    CreateRestore(RestoreView),
    CreatePv(Seq<char>),
    SetReclaimPolicy(Seq<char>, Seq<char>),
    Lock(Seq<char>, EvacuationMode),
    Unlock(Seq<char>),
    MarkPvc(Seq<char>, Seq<char>),
    UnmarkPvc(Seq<char>, Seq<char>),
    StripTrigger(Seq<char>),
    HoldEvacuation,
    ReleaseEvacuation,
}

impl View for Effect {
    type V = EffectView;

    open spec fn view(&self) -> EffectView {
        match *self {
            Effect::WriteStatus => EffectView::WriteStatus,
            Effect::DropRelay => EffectView::DropRelay,
            Effect::EditFinalizers { kind, name, edit } => EffectView::EditFinalizers(
                kind,
                name@,
                edit,
            ),
            Effect::Delete { kind, name } => EffectView::Delete(kind, name@),
            Effect::CreateVolume(v) => EffectView::CreateVolume(v@),
            Effect::CreateSnapshot(v) => EffectView::CreateSnapshot(v@),
            Effect::CreateBackup(v) => EffectView::CreateBackup(v@),
            Effect::CreateRestore(v) => EffectView::CreateRestore(v@),
            Effect::CreatePv { manifest } => EffectView::CreatePv(manifest@),
            Effect::SetReclaimPolicy { pv, policy } => EffectView::SetReclaimPolicy(pv@, policy@),
            Effect::Lock { key, mode } => EffectView::Lock(key@, mode),
            Effect::Unlock { key } => EffectView::Unlock(key@),
            Effect::MarkPvc { namespace, name } => EffectView::MarkPvc(namespace@, name@),
            Effect::UnmarkPvc { namespace, name } => EffectView::UnmarkPvc(namespace@, name@),
            Effect::StripTrigger { pv } => EffectView::StripTrigger(pv@),
            Effect::HoldEvacuation => EffectView::HoldEvacuation,
            Effect::ReleaseEvacuation => EffectView::ReleaseEvacuation,
        }
    }
}

/// Effects, in their order.
pub open spec fn effect_views(v: Seq<Effect>) -> Seq<EffectView> {
    v.map_values(|e: Effect| e@)
}

/// Effects to be performed in order, and what follows. An effect that fails
/// ends the reconcile; it is tried again later.
#[derive(Debug)]
pub struct Plan {
    pub effects: Vec<Effect>,
    pub outcome: Outcome,
}

/// Effects to be performed in order, and what follows.
#[verifier::ext_equal]
pub struct PlanView {
    pub effects: Seq<EffectView>,
    pub outcome: Outcome,
}

impl View for Plan {
    type V = PlanView;

    open spec fn view(&self) -> PlanView {
        PlanView { effects: effect_views(self.effects@), outcome: self.outcome }
    }
}

impl Plan {
    /// Nothing to do but what follows.
    pub fn new(outcome: Outcome) -> (r: Plan)
        ensures
            r@ == (PlanView { effects: Seq::empty(), outcome }),
    {
        let r = Plan { effects: Vec::new(), outcome };
        assert(effect_views(r.effects@) =~= Seq::<EffectView>::empty());
        r
    }

    /// One more effect, after those there are.
    pub fn push(&mut self, e: Effect)
        ensures
            final(self)@ == (PlanView { effects: old(self)@.effects.push(e@), outcome: old(self)@.outcome }),
    {
        self.effects.push(e);
        assert(effect_views(self.effects@) =~= effect_views(old(self).effects@).push(e@));
    }

    /// The status is written; that is all.
    pub fn write(outcome: Outcome) -> (r: Plan)
        ensures
            r@ == (PlanView { effects: seq![EffectView::WriteStatus], outcome }),
    {
        let mut r = Plan::new(outcome);
        r.push(Effect::WriteStatus);
        assert(r@.effects =~= seq![EffectView::WriteStatus]);
        r
    }
}

// ------------------------------------------------------------------ reads

/// Something to be read before a phase can decide.
#[derive(Debug)]
pub enum Need {
    /// The evacuation's PV.
    Pv,
    /// The PVC of this namespace and name.
    Pvc { namespace: String, name: String },
    /// The pods of this namespace that reference the PVC of this name.
    Pods { namespace: String, name: String },
    /// The source's ZFSVolume, by its handle.
    SourceVolume(String),
    /// The target's ZFSVolume, by its handle.
    TargetVolume(String),
    /// Whether the volume with this handle has ZFSSnapshots.
    Snapshots(String),
    /// The node with this zfs-localpv identity: the source, the target.
    SourceNode(String),
    TargetNode(String),
    /// The source node, by its name.
    SourceNodeByName(String),
    /// The current attempt's backup and restore, by their names.
    Backup(String),
    Restore(String),
    /// The snapshot that stands for the transfer snapshot on the target.
    TargetSnapshot(String),
    /// The evacuation's relay.
    Relay,
    /// Every evacuation.
    Evacuations,
    /// What a target is chosen from.
    Inventory,
    /// What is known of the PVCs of this namespace with these names.
    Siblings { namespace: String, names: Vec<String> },
}

/// Something to be read before a phase can decide.
#[verifier::ext_equal]
pub enum NeedView {
    Pv,
    Pvc(Seq<char>, Seq<char>),
    Pods(Seq<char>, Seq<char>),
    SourceVolume(Seq<char>),
    TargetVolume(Seq<char>),
    Snapshots(Seq<char>),
    SourceNode(Seq<char>),
    TargetNode(Seq<char>),
    SourceNodeByName(Seq<char>),
    Backup(Seq<char>),
    Restore(Seq<char>),
    TargetSnapshot(Seq<char>),
    Relay,
    Evacuations,
    Inventory,
    Siblings(Seq<char>, Seq<Seq<char>>),
}

impl View for Need {
    type V = NeedView;

    open spec fn view(&self) -> NeedView {
        match *self {
            Need::Pv => NeedView::Pv,
            Need::Pvc { namespace, name } => NeedView::Pvc(namespace@, name@),
            Need::Pods { namespace, name } => NeedView::Pods(namespace@, name@),
            Need::SourceVolume(h) => NeedView::SourceVolume(h@),
            Need::TargetVolume(h) => NeedView::TargetVolume(h@),
            Need::Snapshots(h) => NeedView::Snapshots(h@),
            Need::SourceNode(id) => NeedView::SourceNode(id@),
            Need::TargetNode(id) => NeedView::TargetNode(id@),
            Need::SourceNodeByName(n) => NeedView::SourceNodeByName(n@),
            Need::Backup(n) => NeedView::Backup(n@),
            Need::Restore(n) => NeedView::Restore(n@),
            Need::TargetSnapshot(n) => NeedView::TargetSnapshot(n@),
            Need::Relay => NeedView::Relay,
            Need::Evacuations => NeedView::Evacuations,
            Need::Inventory => NeedView::Inventory,
            Need::Siblings { namespace, names } => NeedView::Siblings(namespace@, views(names@)),
        }
    }
}

/// What a target is chosen from, as it was read.
#[derive(Debug)]
pub struct Stock {
    pub zfsnodes: Vec<ZFSNode>,
    pub nodes: Vec<Node>,
    pub evacs: Vec<ZFSEvacuation>,
    /// The name of the PV's StorageClass, and the class if it still exists.
    pub class_name: String,
    pub class: Option<StorageClass>,
}

/// What has been read of the world in one reconcile.
#[derive(Debug)]
pub struct Seen {
    pub stage: Stage,
    pub pv: Lookup<PersistentVolume>,
    pub pvc: Lookup<PersistentVolumeClaim>,
    pub pods: Option<Vec<Pod>>,
    pub source_volume: Lookup<ZFSVolume>,
    pub target_volume: Lookup<ZFSVolume>,
    pub has_snapshots: Option<bool>,
    pub source_node: Lookup<Node>,
    pub target_node: Lookup<Node>,
    pub source_node_by_name: Lookup<Node>,
    pub backup: Lookup<ZFSBackup>,
    pub restore: Lookup<ZFSRestore>,
    pub target_snapshot: Lookup<ZFSSnapshot>,
    /// The live relay, if there is one, once it was looked for.
    pub relay: Option<Option<RelayObs>>,
    pub evacuations: Option<Vec<ZFSEvacuation>>,
    /// What a target is chosen from, or why it could not be read.
    pub stock: Option<Result<Stock, String>>,
    pub siblings: Option<Vec<Sibling>>,
}

impl Seen {
    /// Nothing has been read yet.
    pub fn nothing() -> (r: Seen)
        ensures
            r == (Seen {
                stage: Stage::Begin,
                pv: Lookup::Unread,
                pvc: Lookup::Unread,
                pods: None,
                source_volume: Lookup::Unread,
                target_volume: Lookup::Unread,
                has_snapshots: None,
                source_node: Lookup::Unread,
                target_node: Lookup::Unread,
                source_node_by_name: Lookup::Unread,
                backup: Lookup::Unread,
                restore: Lookup::Unread,
                target_snapshot: Lookup::Unread,
                relay: None,
                evacuations: None,
                stock: None,
                siblings: None,
            }),
    {
        Seen {
            stage: Stage::Begin,
            pv: Lookup::Unread,
            pvc: Lookup::Unread,
            pods: None,
            source_volume: Lookup::Unread,
            target_volume: Lookup::Unread,
            has_snapshots: None,
            source_node: Lookup::Unread,
            target_node: Lookup::Unread,
            source_node_by_name: Lookup::Unread,
            backup: Lookup::Unread,
            restore: Lookup::Unread,
            target_snapshot: Lookup::Unread,
            relay: None,
            evacuations: None,
            stock: None,
            siblings: None,
        }
    }

    /// A new stage is reached: the PV, the PVC and the relay are looked at
    /// afresh, all else still stands.
    pub fn enter(&mut self, stage: Stage)
        ensures
            *final(self) == (Seen {
                stage,
                pv: Lookup::Unread,
                pvc: Lookup::Unread,
                relay: None,
                ..*old(self)
            }),
    {
        self.stage = stage;
        self.pv = Lookup::Unread;
        self.pvc = Lookup::Unread;
        self.relay = None;
    }
}

// ------------------------------------------------------------------ errors

/// What a phase cannot go on from.
#[derive(Debug)]
pub enum Error {
    NoSource,
    NoPvcRef,
    NoTarget,
    NoNewManifest,
    SourceVolumeGone,
    PvcGoneAtCommit,
    PvGoneAtCommit,
    PvWithoutSpec,
    PvWithoutCsi,
    SourceNodeGone(String),
    TargetNodeGone(String),
    NoPeers(String),
    SizeOverflow,
    ParamsConflict,
}

/// What an error says.
pub open spec fn error_text(e: Error) -> Seq<char> {
    match e {
        Error::NoSource => "no source recorded"@,
        Error::NoPvcRef => "no pvcRef recorded"@,
        Error::NoTarget => "no target recorded"@,
        Error::NoNewManifest => "no newPVManifest recorded; cannot complete swap"@,
        Error::SourceVolumeGone => "source ZFSVolume disappeared"@,
        Error::PvcGoneAtCommit => "PVC vanished at commit"@,
        Error::PvGoneAtCommit => "old PV vanished at commit"@,
        Error::PvWithoutSpec => "old PV has no spec"@,
        Error::PvWithoutCsi => "old PV has no csi source"@,
        Error::SourceNodeGone(id) => "source node "@ + id@ + " gone"@,
        Error::TargetNodeGone(id) => "target node "@ + id@ + " gone"@,
        Error::NoPeers(node) => "no relay peer addresses found for node "@ + node@,
        Error::SizeOverflow => "the volumes' sizes are too large to add up"@,
        Error::ParamsConflict => "persistent conflict updating zfs-evacuation-locks"@,
    }
}

impl View for Error {
    type V = Seq<char>;

    open spec fn view(&self) -> Seq<char> {
        error_text(*self)
    }
}

impl Error {
    /// What the error says.
    pub fn message(&self) -> (r: String)
        ensures
            r@ == self@,
    {
        match self {
            Error::NoSource => "no source recorded".to_owned(),
            Error::NoPvcRef => "no pvcRef recorded".to_owned(),
            Error::NoTarget => "no target recorded".to_owned(),
            Error::NoNewManifest => "no newPVManifest recorded; cannot complete swap".to_owned(),
            Error::SourceVolumeGone => "source ZFSVolume disappeared".to_owned(),
            Error::PvcGoneAtCommit => "PVC vanished at commit".to_owned(),
            Error::PvGoneAtCommit => "old PV vanished at commit".to_owned(),
            Error::PvWithoutSpec => "old PV has no spec".to_owned(),
            Error::PvWithoutCsi => "old PV has no csi source".to_owned(),
            Error::SourceNodeGone(id) => cat3("source node ", id.as_str(), " gone"),
            Error::TargetNodeGone(id) => cat3("target node ", id.as_str(), " gone"),
            Error::NoPeers(node) => crate::text::cat(
                "no relay peer addresses found for node ",
                node.as_str(),
            ),
            Error::SizeOverflow => "the volumes' sizes are too large to add up".to_owned(),
            Error::ParamsConflict => "persistent conflict updating zfs-evacuation-locks".to_owned(),
        }
    }
}

// ------------------------------------------------------------------ steps

/// One step of a phase.
#[derive(Debug)]
pub enum Step {
    /// Read this and come back; nothing has changed.
    Read(Need),
    /// Carry this out. The status is as it is to be written.
    Run(Plan),
    /// Start a relay for this attempt that listens to these networks, in place
    /// of any the evacuation has, and begin the attempt with its ports.
    Spawn { attempt: u32, backup_peers: Vec<IpNet>, restore_peers: Vec<IpNet> },
    /// Write the PV as it was read and this replacement down, and commit.
    Commit(PersistentVolume),
    /// This cannot go on.
    Fault(Error),
}

/// One step of a phase.
#[verifier::ext_equal]
pub enum StepView {
    Read(NeedView),
    Run(PlanView),
    Spawn(u32, Seq<IpNet>, Seq<IpNet>),
    Commit(PvView),
    Fault(Seq<char>),
}

impl View for Step {
    type V = StepView;

    open spec fn view(&self) -> StepView {
        match *self {
            Step::Read(n) => StepView::Read(n@),
            Step::Run(p) => StepView::Run(p@),
            Step::Spawn { attempt, backup_peers, restore_peers } => StepView::Spawn(
                attempt,
                backup_peers@,
                restore_peers@,
            ),
            Step::Commit(pv) => StepView::Commit(pv@),
            Step::Fault(e) => StepView::Fault(e@),
        }
    }
}

/// A fault says what is missing, and which node it is about.
pub proof fn faults_say_what_is_missing(id: String)
    ensures
        error_text(Error::NoSource) == "no source recorded"@,
        error_text(Error::NoPvcRef) == "no pvcRef recorded"@,
        error_text(Error::NoTarget) == "no target recorded"@,
        error_text(Error::NoNewManifest) == "no newPVManifest recorded; cannot complete swap"@,
        error_text(Error::SourceVolumeGone) == "source ZFSVolume disappeared"@,
        error_text(Error::PvcGoneAtCommit) == "PVC vanished at commit"@,
        error_text(Error::PvGoneAtCommit) == "old PV vanished at commit"@,
        error_text(Error::PvWithoutSpec) == "old PV has no spec"@,
        error_text(Error::PvWithoutCsi) == "old PV has no csi source"@,
        error_text(Error::SourceNodeGone(id)) == "source node "@ + id@ + " gone"@,
        error_text(Error::TargetNodeGone(id)) == "target node "@ + id@ + " gone"@,
        error_text(Error::NoPeers(id)) == "no relay peer addresses found for node "@ + id@,
{
}

} // verus!
