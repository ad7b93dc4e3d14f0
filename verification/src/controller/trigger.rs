//! Triggers: reconcile evacuation-worthy PVs into ZFSEvacuations. All state
//! lives on the ZFSEvacuation; this only decides which to create.
//!
//! - A PV annotated `zfsevac.alumino.us/evacuate=true`: WhenIdle.
//! - A node tainted with the evacuate taint key: every zfs-localpv volume owned
//!   by that node is evacuated, always WhenClaimed. A volume with a consumer
//!   moves with it, and a volume without one resolves no group and is placed on
//!   its own. Either way the node must repel pods before any copy starts. Both
//!   triggers lock the PVC immediately; nothing is evicted here.
//!
//! A periodic list (not a watch): a pure watcher misses the case that an
//! evacuation was deleted while the trigger condition remains.
use vstd::prelude::*;

use crate::cluster::{entries, fresh, lookup, Lookup, MetaView, Node, PersistentVolume, PvSpecView};
use crate::controller::admission::carries_taint;
use crate::controller::nodes::taints_are_found_by_their_key;
use crate::controller::pv_swap::replacement;
use crate::controller::{has_taint, node_has_evacuate_taint, node_id, node_id_of};
use crate::crd::openebs::{named, ZFSVolume, ZFS_DRIVER};
use crate::crd::zfs_evacuation::{
    EvacuationMode, EvacuationTrigger, Phase, PvcView, TargetView, ZFSEvacuation, ZFSEvacuationSpec,
    EVACUATE_ANNOTATION,
};
use crate::text::same;

verus! {

/// How long to wait between two looks at the triggers, in seconds.
pub const POLL_SECONDS: u64 = 15;

// ------------------------------------------------------------------ conditions

/// The handle of a PV's volume, if the PV is one of ours.
pub open spec fn our_handle(pv: PersistentVolume) -> Option<Seq<char>> {
    match pv.csi() {
        Some(csi) => if csi.driver@ == ZFS_DRIVER@ {
            Some(csi.volume_handle@)
        } else {
            None
        },
        None => None,
    }
}

/// Is a PV annotated for evacuation, ours, and not being deleted?
pub open spec fn wanted(pv: PersistentVolume) -> bool {
    &&& lookup(pv.metadata.annotations, EVACUATE_ANNOTATION@) == Some("true"@)
    &&& our_handle(pv) is Some
    &&& pv.metadata.deletion_timestamp is None
}

/// Is a PV annotated for evacuation, ours, and not being deleted?
pub fn wants_evacuation(pv: &PersistentVolume) -> (r: bool)
    ensures
        r == wanted(*pv),
{
    let annotated = match pv.metadata.annotation(EVACUATE_ANNOTATION) {
        Some(v) => same(v.as_str(), "true"),
        None => false,
    };
    let is_zfs = match pv.csi_source() {
        Some(csi) => same(csi.driver.as_str(), ZFS_DRIVER),
        None => false,
    };
    annotated && is_zfs && !pv.metadata.deleting()
}

/// Does the annotation condition hold of the PV as it was just read? The list
/// it was found in can predate the end of an evacuation (which takes the
/// annotation off), and one created from that stale view would be destined to
/// cancel.
pub fn annotation_condition_fresh(pv: Option<&PersistentVolume>) -> (r: bool)
    ensures
        r == match pv {
            Some(pv) => wanted(*pv),
            None => false,
        },
{
    match pv {
        Some(pv) => wants_evacuation(pv),
        None => false,
    }
}

/// How far the check of a taint condition has come.
#[derive(Debug)]
pub enum TaintCheck {
    /// These have to be read: the PV, the volume with the handle, the node with
    /// this identity.
    ReadPv,
    ReadVolume,
    ReadNode(String),
    /// It holds.
    Holds,
    /// It does not.
    Fails,
}

/// How far the check of a taint condition has come.
pub enum TaintCheckView {
    ReadPv,
    ReadVolume,
    ReadNode(Seq<char>),
    Holds,
    Fails,
}

impl View for TaintCheck {
    type V = TaintCheckView;

    open spec fn view(&self) -> TaintCheckView {
        match *self {
            TaintCheck::ReadPv => TaintCheckView::ReadPv,
            TaintCheck::ReadVolume => TaintCheckView::ReadVolume,
            TaintCheck::ReadNode(id) => TaintCheckView::ReadNode(id@),
            TaintCheck::Holds => TaintCheckView::Holds,
            TaintCheck::Fails => TaintCheckView::Fails,
        }
    }
}

/// Does a PV, if it is there, carry this handle?
pub open spec fn carries(pv: Lookup<PersistentVolume>, handle: Seq<char>) -> bool {
    pv matches Lookup::Found(p) && p.csi() is Some && p.csi()->0.volume_handle@ == handle
}

/// The taint condition: the PV still carries the handle (a completed evacuation
/// changes it), and the volume's current owner still carries the taint.
pub open spec fn taint_condition(
    pv: Lookup<PersistentVolume>,
    volume: Lookup<ZFSVolume>,
    node: Lookup<Node>,
    handle: Seq<char>,
    taint_key: Seq<char>,
) -> TaintCheckView {
    if pv is Unread {
        TaintCheckView::ReadPv
    } else if !carries(pv, handle) {
        TaintCheckView::Fails
    } else {
        match volume {
            Lookup::Unread => TaintCheckView::ReadVolume,
            Lookup::Absent => TaintCheckView::Fails,
            Lookup::Found(zv) => match node {
                Lookup::Unread => TaintCheckView::ReadNode(zv.spec.0.owner_node_id@),
                Lookup::Absent => TaintCheckView::Fails,
                Lookup::Found(n) => if has_taint(n, taint_key) {
                    TaintCheckView::Holds
                } else {
                    TaintCheckView::Fails
                },
            },
        }
    }
}

/// Checks the taint condition from what was just read.
pub fn taint_condition_fresh(
    pv: &Lookup<PersistentVolume>,
    volume: &Lookup<ZFSVolume>,
    node: &Lookup<Node>,
    handle: &str,
    taint_key: &str,
) -> (r: TaintCheck)
    ensures
        r@ == taint_condition(*pv, *volume, *node, handle@, taint_key@),
{
    let matches_handle = match pv {
        Lookup::Unread => return TaintCheck::ReadPv,
        Lookup::Absent => false,
        Lookup::Found(p) => match p.csi_source() {
            Some(csi) => same(csi.volume_handle.as_str(), handle),
            None => false,
        },
    };
    if !matches_handle {
        return TaintCheck::Fails;
    }
    let zv = match volume {
        Lookup::Unread => return TaintCheck::ReadVolume,
        Lookup::Absent => return TaintCheck::Fails,
        Lookup::Found(zv) => zv,
    };
    match node {
        Lookup::Unread => TaintCheck::ReadNode(zv.spec.0.owner_node_id.clone()),
        Lookup::Absent => TaintCheck::Fails,
        Lookup::Found(n) => if node_has_evacuate_taint(n, taint_key) {
            TaintCheck::Holds
        } else {
            TaintCheck::Fails
        },
    }
}

// ------------------------------------------------------------------ room for a new one

/// Whether there is room for a new evacuation of a PV.
#[derive(Clone, Copy, Debug, PartialEq, Eq, Structural)]
pub enum Clearance {
    /// There is none yet.
    Clear,
    /// There is one that has ended and may be replaced.
    Replace,
    /// There is one that stays.
    Occupied,
}

/// A completed evacuation is a finished job keeping the per-PV name; a cancelled
/// one records a withdrawn request. The trigger firing again is a new request,
/// so both are replaceable. A genuinely failed one stays put: deleting it is
/// the operator's retry gesture, and it must stay visible until that happens.
pub open spec fn replaceable(e: ZFSEvacuation) -> bool {
    e.status is Some && (e.status->0.phase == Phase::Completed || (e.status->0.phase
        == Phase::Failed && e.status->0.cancelled))
}

/// Tells whether there is room for a new evacuation of a PV.
pub fn clear_for_creation(existing: Option<&ZFSEvacuation>) -> (r: Clearance)
    ensures
        r == match existing {
            None => Clearance::Clear,
            Some(e) => if replaceable(*e) {
                Clearance::Replace
            } else {
                Clearance::Occupied
            },
        },
{
    match existing {
        None => Clearance::Clear,
        Some(e) => {
            let over = match &e.status {
                Some(st) => st.phase == Phase::Completed || (st.phase == Phase::Failed
                    && st.cancelled),
                None => false,
            };
            if over {
                Clearance::Replace
            } else {
                Clearance::Occupied
            }
        },
    }
}

/// The mode that goes with a trigger.
pub open spec fn mode_for(trigger: EvacuationTrigger) -> EvacuationMode {
    match trigger {
        EvacuationTrigger::Annotation => EvacuationMode::WhenIdle,
        EvacuationTrigger::NodeTaint => EvacuationMode::WhenClaimed,
    }
}

/// A new evacuation of a PV, named after it, with nothing overridden.
pub fn new_evacuation(pv_name: &str, trigger: EvacuationTrigger) -> (r: ZFSEvacuation)
    ensures
        r.metadata@ == fresh(Some(pv_name@), None),
        r.spec.pv_name@ == pv_name@,
        r.spec == (ZFSEvacuationSpec {
            pv_name: r.spec.pv_name,
            trigger,
            mode: mode_for(trigger),
            target_node: None,
            target_pool: None,
            settle_seconds: None,
            transfer_timeout_seconds: None,
            max_attempts: None,
            headroom_percent: None,
        }),
        r.status is None,
{
    let mode = match trigger {
        EvacuationTrigger::Annotation => EvacuationMode::WhenIdle,
        EvacuationTrigger::NodeTaint => EvacuationMode::WhenClaimed,
    };
    ZFSEvacuation {
        metadata: named(pv_name),
        spec: ZFSEvacuationSpec {
            pv_name: pv_name.to_owned(),
            trigger,
            mode,
            target_node: None,
            target_pool: None,
            settle_seconds: None,
            transfer_timeout_seconds: None,
            max_attempts: None,
            headroom_percent: None,
        },
        status: None,
    }
}

// ------------------------------------------------------------------ what is due

/// The names of the annotated PVs of a list, in their order.
pub open spec fn annotated(pvs: Seq<PersistentVolume>) -> Seq<Seq<char>>
    decreases pvs.len(),
{
    if pvs.len() == 0 {
        Seq::empty()
    } else {
        let front = annotated(pvs.drop_last());
        if wanted(pvs.last()) {
            front.push(pvs.last().metadata.any_name())
        } else {
            front
        }
    }
}

/// Finds the annotated PVs of a list.
pub fn annotated_pvs(pvs: &Vec<PersistentVolume>) -> (r: Vec<String>)
    ensures
        crate::text::views(r@) == annotated(pvs@),
{
    let mut r: Vec<String> = Vec::new();
    assert(crate::text::views(r@) =~= annotated(pvs@.take(0)));
    for i in 0..pvs.len()
        invariant
            crate::text::views(r@) == annotated(pvs@.take(i as int)),
    {
        assert(pvs@.take(i + 1).drop_last() == pvs@.take(i as int));
        if wants_evacuation(&pvs[i]) {
            let ghost r0 = crate::text::views(r@);
            r.push(pvs[i].metadata.name_any());
            assert(crate::text::views(r@) =~= r0.push(pvs@[i as int].metadata.any_name()));
        }
    }
    assert(pvs@.take(pvs@.len() as int) == pvs@);
    r
}

/// Is the node with this identity marked for evacuation?
pub open spec fn marked_node(nodes: Seq<Node>, taint_key: Seq<char>, id: Seq<char>) -> bool {
    exists|i: int|
        0 <= i < nodes.len() && has_taint(#[trigger] nodes[i], taint_key) && node_id(nodes[i]) == id
}

/// Is any node marked for evacuation?
pub fn any_marked(nodes: &Vec<Node>, taint_key: &str) -> (r: bool)
    ensures
        r == exists|i: int| 0 <= i < nodes@.len() && has_taint(#[trigger] nodes@[i], taint_key@),
{
    for i in 0..nodes.len()
        invariant
            forall|j: int| 0 <= j < i ==> !has_taint(#[trigger] nodes@[j], taint_key@),
    {
        if node_has_evacuate_taint(&nodes[i], taint_key) {
            assert(has_taint(nodes@[i as int], taint_key@));
            return true;
        }
    }
    false
}

fn is_marked(nodes: &Vec<Node>, taint_key: &str, id: &str) -> (r: bool)
    ensures
        r == marked_node(nodes@, taint_key@, id@),
{
    for i in 0..nodes.len()
        invariant
            forall|j: int|
                0 <= j < i ==> !(has_taint(#[trigger] nodes@[j], taint_key@) && node_id(nodes@[j])
                    == id@),
    {
        if node_has_evacuate_taint(&nodes[i], taint_key) && same(
            node_id_of(&nodes[i]).as_str(),
            id,
        ) {
            assert(has_taint(nodes@[i as int], taint_key@));
            return true;
        }
    }
    false
}

/// The last PV of a list that carries a handle (PV names and handles diverge
/// after an evacuation).
pub open spec fn pv_with(pvs: Seq<PersistentVolume>, handle: Seq<char>) -> Option<int>
    decreases pvs.len(),
{
    if pvs.len() == 0 {
        None
    } else if our_handle(pvs.last()) == Some(handle) {
        Some(pvs.len() - 1)
    } else {
        pv_with(pvs.drop_last(), handle)
    }
}

fn find_pv(pvs: &Vec<PersistentVolume>, handle: &str) -> (r: Option<usize>)
    ensures
        match r {
            Some(i) => i < pvs@.len() && pv_with(pvs@, handle@) == Some(i as int),
            None => pv_with(pvs@, handle@) is None,
        },
{
    let mut n: usize = pvs.len();
    assert(pvs@.take(n as int) == pvs@);
    while n > 0
        invariant
            n <= pvs@.len(),
            pv_with(pvs@.take(n as int), handle@) == pv_with(pvs@, handle@),
        decreases n,
    {
        let here = match pvs[n - 1].csi_source() {
            Some(csi) => same(csi.driver.as_str(), ZFS_DRIVER) && same(
                csi.volume_handle.as_str(),
                handle,
            ),
            None => false,
        };
        assert(pvs@.take(n as int).last() == pvs@[n - 1]);
        assert(pvs@.take(n as int).drop_last() =~= pvs@.take(n - 1));
        if here {
            return Some(n - 1);
        }
        n -= 1;
    }
    None
}

/// A volume on a marked node: the PV's name and the volume's handle.
#[derive(Debug)]
pub struct Due {
    pub pv_name: String,
    pub handle: String,
}

/// A volume on a marked node: the PV's name and the volume's handle.
#[verifier::ext_equal]
pub struct DueView {
    pub pv_name: Seq<char>,
    pub handle: Seq<char>,
}

impl View for Due {
    type V = DueView;

    open spec fn view(&self) -> DueView {
        DueView { pv_name: self.pv_name@, handle: self.handle@ }
    }
}

/// The volumes on marked nodes that a PV stands for, in their order. A dataset
/// without a PV is nothing for us to move.
pub open spec fn due(
    volumes: Seq<ZFSVolume>,
    pvs: Seq<PersistentVolume>,
    nodes: Seq<Node>,
    taint_key: Seq<char>,
) -> Seq<DueView>
    decreases volumes.len(),
{
    if volumes.len() == 0 {
        Seq::empty()
    } else {
        let front = due(volumes.drop_last(), pvs, nodes, taint_key);
        let zv = volumes.last();
        let handle = zv.metadata.any_name();
        if marked_node(nodes, taint_key, zv.spec.0.owner_node_id@) && pv_with(pvs, handle) is Some {
            front.push(
                DueView { pv_name: pvs[pv_with(pvs, handle)->0].metadata.any_name(), handle },
            )
        } else {
            front
        }
    }
}

/// The views of due volumes.
pub open spec fn due_views(v: Seq<Due>) -> Seq<DueView> {
    v.map_values(|d: Due| d@)
}

/// Finds the volumes on marked nodes that a PV stands for.
pub fn tainted_volumes(
    volumes: &Vec<ZFSVolume>,
    pvs: &Vec<PersistentVolume>,
    nodes: &Vec<Node>,
    taint_key: &str,
) -> (r: Vec<Due>)
    ensures
        due_views(r@) == due(volumes@, pvs@, nodes@, taint_key@),
{
    let mut r: Vec<Due> = Vec::new();
    assert(due_views(r@) =~= Seq::<DueView>::empty());
    for i in 0..volumes.len()
        invariant
            due_views(r@) == due(volumes@.take(i as int), pvs@, nodes@, taint_key@),
    {
        assert(volumes@.take(i + 1).drop_last() == volumes@.take(i as int));
        let zv = &volumes[i];
        if is_marked(nodes, taint_key, zv.spec.0.owner_node_id.as_str()) {
            let handle = zv.metadata.name_any();
            if let Some(k) = find_pv(pvs, handle.as_str()) {
                let ghost r0 = due_views(r@);
                let d = Due { pv_name: pvs[k].metadata.name_any(), handle };
                r.push(d);
                assert(due_views(r@) =~= r0.push(d@));
            }
        }
    }
    assert(volumes@.take(volumes@.len() as int) == volumes@);
    r
}

// ------------------------------------------------------------------ what holds of triggers

/// Is this what a volume on a marked node comes to?
pub open spec fn due_from(
    zv: ZFSVolume,
    d: DueView,
    pvs: Seq<PersistentVolume>,
    nodes: Seq<Node>,
    taint_key: Seq<char>,
) -> bool {
    &&& marked_node(nodes, taint_key, zv.spec.0.owner_node_id@)
    &&& d.handle == zv.metadata.any_name()
    &&& pv_with(pvs, d.handle) matches Some(k) && d.pv_name == pvs[k].metadata.any_name()
}

/// What is due is exactly what stands on a marked node and has a PV: nothing
/// else is moved, and nothing of it is left behind.
pub proof fn whole_nodes_are_due(
    volumes: Seq<ZFSVolume>,
    pvs: Seq<PersistentVolume>,
    nodes: Seq<Node>,
    taint_key: Seq<char>,
    d: DueView,
)
    ensures
        due(volumes, pvs, nodes, taint_key).contains(d) == exists|i: int|
            0 <= i < volumes.len() && due_from(#[trigger] volumes[i], d, pvs, nodes, taint_key),
    decreases volumes.len(),
{
    let all = due(volumes, pvs, nodes, taint_key);
    if volumes.len() > 0 {
        let front = volumes.drop_last();
        let last = volumes.last();
        let before = due(front, pvs, nodes, taint_key);
        whole_nodes_are_due(front, pvs, nodes, taint_key, d);
        if all.contains(d) {
            let k = choose|k: int| 0 <= k < all.len() && all[k] == d;
            if k < before.len() {
                assert(before[k] == d);
                let i = choose|i: int|
                    0 <= i < front.len() && due_from(
                        #[trigger] front[i],
                        d,
                        pvs,
                        nodes,
                        taint_key,
                    );
                assert(volumes[i] == front[i]);
            } else {
                assert(due_from(volumes[volumes.len() - 1], d, pvs, nodes, taint_key));
            }
        }
        if exists|i: int|
            0 <= i < volumes.len() && due_from(#[trigger] volumes[i], d, pvs, nodes, taint_key) {
            let i = choose|i: int|
                0 <= i < volumes.len() && due_from(#[trigger] volumes[i], d, pvs, nodes, taint_key);
            if i < front.len() {
                assert(front[i] == volumes[i]);
                let k = choose|k: int| 0 <= k < before.len() && before[k] == d;
                assert(all[k] == d);
            } else {
                assert(all =~= before.push(d));
                assert(all[before.len() as int] == d);
            }
        }
    }
}

/// A replacement is not evacuated again on account of the annotation that its
/// original carried.
pub proof fn replacements_are_not_wanted(
    pv: PersistentVolume,
    old_meta: MetaView,
    old_spec: PvSpecView,
    pvc: PvcView,
    target: TargetView,
)
    requires
        pv@ == replacement(old_meta, old_spec, pvc, target),
    ensures
        !wanted(pv),
{
    assert(entries(pv.metadata.annotations) == pv@.metadata.annotations);
}

/// An evacuation that failed on its own stays until it is deleted; one that was
/// withdrawn, and one that is complete, makes room for a new request.
pub proof fn failures_stay_visible(e: ZFSEvacuation)
    requires
        e.status is Some,
    ensures
        e.status->0.phase == Phase::Failed ==> replaceable(e) == e.status->0.cancelled,
        e.status->0.phase == Phase::Completed ==> replaceable(e),
        replaceable(e) ==> e.status->0.phase == Phase::Completed || e.status->0.phase
            == Phase::Failed,
{
}

/// A PV is to be evacuated exactly if it carries the annotation with the value
/// `true`, is the ZFS CSI driver's and is not being deleted.
pub proof fn annotations_ask_for_evacuation(pv: PersistentVolume)
    ensures
        wanted(pv) <==> {
            &&& pv.metadata.annotations is Some
            &&& pv.metadata.annotations->0@.contains_key("zfsevac.alumino.us/evacuate"@)
            &&& pv.metadata.annotations->0@["zfsevac.alumino.us/evacuate"@] == "true"@
            &&& pv.spec is Some
            &&& pv.spec->0.csi is Some
            &&& pv.spec->0.csi->0.driver@ == "zfs.csi.openebs.io"@
            &&& pv.metadata.deletion_timestamp is None
        },
{
}

/// The PVs that are listed are those that are to be evacuated, by name.
pub proof fn wanted_pvs_are_listed(pvs: Seq<PersistentVolume>, name: Seq<char>)
    ensures
        annotated(pvs).contains(name) <==> exists|i: int|
            0 <= i < pvs.len() && wanted(#[trigger] pvs[i]) && pvs[i].metadata.any_name() == name,
    decreases pvs.len(),
{
    if pvs.len() > 0 {
        let front = pvs.drop_last();
        let last = pvs.last();
        let some = annotated(front);
        let all = annotated(pvs);
        wanted_pvs_are_listed(front, name);
        assert(pvs[pvs.len() - 1] == last);
        if all.contains(name) {
            let k = choose|k: int| 0 <= k < all.len() && all[k] == name;
            if k < some.len() {
                assert(some[k] == name);
                let i = choose|i: int|
                    0 <= i < front.len() && wanted(#[trigger] front[i])
                        && front[i].metadata.any_name() == name;
                assert(pvs[i] == front[i]);
            }
        }
        if exists|i: int|
            0 <= i < pvs.len() && wanted(#[trigger] pvs[i]) && pvs[i].metadata.any_name() == name {
            let i = choose|i: int|
                0 <= i < pvs.len() && wanted(#[trigger] pvs[i]) && pvs[i].metadata.any_name()
                    == name;
            if i < front.len() {
                assert(front[i] == pvs[i]);
                let k = choose|k: int| 0 <= k < some.len() && some[k] == name;
                assert(all[k] == name);
            } else {
                assert(all[all.len() - 1] == name);
            }
        }
    }
}

/// A volume is still due on account of a taint exactly if its PV, its volume and
/// the node that owns it are all there, the PV still stands for that volume and
/// the node still carries the taint; what is not read yet is read in that order.
pub proof fn taints_ask_for_evacuation(
    pv: Lookup<PersistentVolume>,
    volume: Lookup<ZFSVolume>,
    node: Lookup<Node>,
    handle: Seq<char>,
    taint_key: Seq<char>,
)
    ensures
        ({
            let t = taint_condition(pv, volume, node, handle, taint_key);
            let stands = pv is Found && pv->0.spec is Some && pv->0.spec->0.csi is Some
                && pv->0.spec->0.csi->0.volume_handle@ == handle;
            &&& t is Holds <==> stands && volume is Found && node is Found && carries_taint(
                node->0,
                taint_key,
            )
            &&& t is ReadPv <==> pv is Unread
            &&& t is ReadVolume <==> stands && volume is Unread
            &&& t is ReadNode <==> stands && volume is Found && node is Unread
            &&& t matches TaintCheckView::ReadNode(id) ==> id
                == volume->0.spec.0.owner_node_id@
        }),
{
    if let Lookup::Found(n) = node {
        taints_are_found_by_their_key(n, taint_key);
    }
}

/// An evacuation makes room for a new request exactly if it is completed, or
/// failed because it was withdrawn.
pub proof fn only_ended_evacuations_make_room(e: ZFSEvacuation)
    ensures
        replaceable(e) <==> e.status is Some && (e.status->0.phase == Phase::Completed || (
        e.status->0.phase == Phase::Failed && e.status->0.cancelled)),
{
}

/// What an annotation asks for waits until the volume is idle; what a taint asks
/// for moves it while it is claimed.
pub proof fn taints_move_claimed_volumes(trigger: EvacuationTrigger)
    ensures
        mode_for(trigger) == EvacuationMode::WhenClaimed <==> trigger
            == EvacuationTrigger::NodeTaint,
        mode_for(trigger) == EvacuationMode::WhenIdle <==> trigger
            == EvacuationTrigger::Annotation,
{
}

/// The PV of a handle is the last of the driver's PVs that has it.
pub proof fn the_last_pv_of_a_handle_counts(pvs: Seq<PersistentVolume>, handle: Seq<char>)
    ensures
        pv_with(pvs, handle) is None <==> forall|i: int|
            0 <= i < pvs.len() ==> !is_of_handle(#[trigger] pvs[i], handle),
        pv_with(pvs, handle) matches Some(k) ==> {
            &&& 0 <= k < pvs.len()
            &&& is_of_handle(pvs[k], handle)
            &&& forall|i: int| k < i < pvs.len() ==> !is_of_handle(#[trigger] pvs[i], handle)
        },
    decreases pvs.len(),
{
    if pvs.len() > 0 {
        let front = pvs.drop_last();
        the_last_pv_of_a_handle_counts(front, handle);
        assert(our_handle(pvs.last()) == Some(handle) <==> is_of_handle(pvs.last(), handle));
        assert forall|i: int| 0 <= i < front.len() implies #[trigger] pvs[i] == front[i] by {}
        assert(pvs[pvs.len() - 1] == pvs.last());
        if forall|i: int| 0 <= i < pvs.len() ==> !is_of_handle(#[trigger] pvs[i], handle) {
            assert forall|i: int| 0 <= i < front.len() implies !is_of_handle(
                #[trigger] front[i],
                handle,
            ) by {
                assert(front[i] == pvs[i]);
            }
        }
    }
}

/// A PV of the ZFS CSI driver that has this handle.
pub open spec fn is_of_handle(pv: PersistentVolume, handle: Seq<char>) -> bool {
    &&& pv.spec is Some
    &&& pv.spec->0.csi is Some
    &&& pv.spec->0.csi->0.driver@ == "zfs.csi.openebs.io"@
    &&& pv.spec->0.csi->0.volume_handle@ == handle
}

/// A node is marked exactly if one of that identity carries the taint.
pub proof fn marked_nodes_carry_the_taint(
    nodes: Seq<Node>,
    taint_key: Seq<char>,
    id: Seq<char>,
)
    ensures
        marked_node(nodes, taint_key, id) <==> exists|i: int|
            0 <= i < nodes.len() && carries_taint(#[trigger] nodes[i], taint_key) && node_id(
                nodes[i],
            ) == id,
{
    if marked_node(nodes, taint_key, id) {
        let i = choose|i: int|
            0 <= i < nodes.len() && has_taint(#[trigger] nodes[i], taint_key) && node_id(nodes[i])
                == id;
        taints_are_found_by_their_key(nodes[i], taint_key);
        assert(carries_taint(nodes[i], taint_key));
    }
    if exists|i: int|
        0 <= i < nodes.len() && carries_taint(#[trigger] nodes[i], taint_key) && node_id(nodes[i])
            == id {
        let i = choose|i: int|
            0 <= i < nodes.len() && carries_taint(#[trigger] nodes[i], taint_key) && node_id(
                nodes[i],
            ) == id;
        taints_are_found_by_their_key(nodes[i], taint_key);
        assert(has_taint(nodes[i], taint_key));
    }
}

} // verus!
