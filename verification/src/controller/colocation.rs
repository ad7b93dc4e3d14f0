//! WhenClaimed grouping: the never-scheduled consumer of a locked PVC defines
//! the set of volumes that must land on one node, and where that node is if
//! any of them already has a home. No labels, no bookkeeping: the pod that
//! will mount the volumes is the only source of truth that exists exactly when
//! it matters.
use vstd::prelude::*;

use crate::cluster::{Lookup, PersistentVolume, PersistentVolumeClaim, Pod};
use crate::controller::placement::{placement_of, Placement, PlacementView};
use crate::controller::quantity::{bytes_or_suffixed, parse_quantity_or_bytes};
use crate::controller::{
    first_index, lemma_first_index, sorted_by_name, unscheduled, unscheduled_pods,
};
use crate::crd::openebs::{VolumeInfo, ZFSVolume, ZFS_DRIVER};
use crate::crd::zfs_evacuation::{
    member_views, ColocationMember, MemberView, Phase, PvcRef, ZFSEvacuation,
};
use crate::text::{
    before, cat3, lemma_precedes_asymmetric, lemma_precedes_total, lemma_precedes_transitive, opt,
    precedes, same,
};

verus! {

/// A sibling that already has (or is committed to) a node off the source.
#[derive(Clone, Debug, PartialEq, Eq)]
pub struct Anchor {
    /// Node name or node id: a selection accepts either.
    pub node: String,
    pub pv_name: String,
    pub how: &'static str,
}

/// A sibling that already has (or is committed to) a node off the source.
#[verifier::ext_equal]
pub struct AnchorView {
    pub node: Seq<char>,
    pub pv_name: Seq<char>,
    pub how: Seq<char>,
}

impl View for Anchor {
    type V = AnchorView;

    open spec fn view(&self) -> AnchorView {
        AnchorView { node: self.node@, pv_name: self.pv_name@, how: self.how@ }
    }
}

/// The volumes that move together.
#[derive(Debug)]
pub struct Group {
    /// "namespace/name" of the consumer.
    pub pod: String,
    pub placement: Placement,
    /// Volumes still on the source that no sibling evacuation has placed yet,
    /// this one included. Their capacity travels with the leader.
    pub members: Vec<ColocationMember>,
    pub anchor: Option<Anchor>,
}

// ------------------------------------------------------------------ siblings

/// What is known of one PVC of the consumer.
#[derive(Debug)]
pub struct Sibling {
    pub pvc: Lookup<PersistentVolumeClaim>,
    pub pv: Lookup<PersistentVolume>,
    pub volume: Lookup<ZFSVolume>,
    pub evac: Lookup<ZFSEvacuation>,
}

/// What has to be read next of one PVC of the consumer.
#[derive(Debug)]
pub enum SiblingNeed {
    /// The PVC itself.
    Pvc,
    /// The PV of this name.
    Pv(String),
    /// The ZFSVolume with this handle.
    Volume(String),
    /// The evacuation of this name.
    Evacuation(String),
    /// Nothing more.
    Nothing,
}

/// What has to be read next of one PVC of the consumer.
pub enum SiblingNeedView {
    Pvc,
    Pv(Seq<char>),
    Volume(Seq<char>),
    Evacuation(Seq<char>),
    Nothing,
}

impl View for SiblingNeed {
    type V = SiblingNeedView;

    open spec fn view(&self) -> SiblingNeedView {
        match *self {
            SiblingNeed::Pvc => SiblingNeedView::Pvc,
            SiblingNeed::Pv(n) => SiblingNeedView::Pv(n@),
            SiblingNeed::Volume(n) => SiblingNeedView::Volume(n@),
            SiblingNeed::Evacuation(n) => SiblingNeedView::Evacuation(n@),
            SiblingNeed::Nothing => SiblingNeedView::Nothing,
        }
    }
}

/// The PV a sibling's PVC is bound to, if it is there and bound.
pub open spec fn bound_pv(s: Sibling) -> Option<Seq<char>> {
    match s.pvc {
        Lookup::Found(pvc) => opt(pvc.volume_name),
        _ => None,
    }
}

/// The handle of a sibling's volume, if its PV is one of ours.
pub open spec fn zfs_handle(s: Sibling) -> Option<Seq<char>> {
    match s.pv {
        Lookup::Found(pv) => match pv.csi() {
            Some(csi) => if csi.driver@ == ZFS_DRIVER@ {
                Some(csi.volume_handle@)
            } else {
                None
            },
            None => None,
        },
        _ => None,
    }
}

/// What has to be read next of a sibling of `pv_name`: only what the answers so
/// far make worth knowing.
pub open spec fn next_need(s: Sibling, pv_name: Seq<char>) -> SiblingNeedView {
    if s.pvc is Unread {
        SiblingNeedView::Pvc
    } else {
        match bound_pv(s) {
            None => SiblingNeedView::Nothing,
            Some(pv) => if s.pv is Unread {
                SiblingNeedView::Pv(pv)
            } else {
                match zfs_handle(s) {
                    None => SiblingNeedView::Nothing,
                    Some(handle) => if s.volume is Unread {
                        SiblingNeedView::Volume(handle)
                    } else if s.volume is Found && pv != pv_name && s.evac is Unread {
                        SiblingNeedView::Evacuation(pv)
                    } else {
                        SiblingNeedView::Nothing
                    },
                }
            },
        }
    }
}

fn bound_name(s: &Sibling) -> (r: Option<&String>)
    ensures
        match r {
            Some(n) => bound_pv(*s) == Some(n@),
            None => bound_pv(*s) is None,
        },
{
    match &s.pvc {
        Lookup::Found(pvc) => match &pvc.volume_name {
            Some(n) => Some(n),
            None => None,
        },
        _ => None,
    }
}

fn handle_name(s: &Sibling) -> (r: Option<&String>)
    ensures
        match r {
            Some(n) => zfs_handle(*s) == Some(n@),
            None => zfs_handle(*s) is None,
        },
{
    match &s.pv {
        Lookup::Found(pv) => match pv.csi_source() {
            Some(csi) => if same(csi.driver.as_str(), ZFS_DRIVER) {
                Some(&csi.volume_handle)
            } else {
                None
            },
            None => None,
        },
        _ => None,
    }
}

impl Sibling {
    /// Nothing is known yet.
    pub fn unknown() -> (r: Sibling)
        ensures
            r == (Sibling {
                pvc: Lookup::Unread,
                pv: Lookup::Unread,
                volume: Lookup::Unread,
                evac: Lookup::Unread,
            }),
    {
        Sibling {
            pvc: Lookup::Unread,
            pv: Lookup::Unread,
            volume: Lookup::Unread,
            evac: Lookup::Unread,
        }
    }

    /// What has to be read next of a sibling of `pv_name`.
    pub fn next_read(&self, pv_name: &str) -> (r: SiblingNeed)
        ensures
            r@ == next_need(*self, pv_name@),
    {
        match &self.pvc {
            Lookup::Unread => return SiblingNeed::Pvc,
            _ => {},
        }
        let pv = match bound_name(self) {
            Some(n) => n,
            None => return SiblingNeed::Nothing,
        };
        match &self.pv {
            Lookup::Unread => return SiblingNeed::Pv(pv.clone()),
            _ => {},
        }
        let handle = match handle_name(self) {
            Some(n) => n,
            None => return SiblingNeed::Nothing,
        };
        match &self.volume {
            Lookup::Unread => SiblingNeed::Volume(handle.clone()),
            Lookup::Absent => SiblingNeed::Nothing,
            Lookup::Found(_) => match &self.evac {
                Lookup::Unread => if same(pv.as_str(), pv_name) {
                    SiblingNeed::Nothing
                } else {
                    SiblingNeed::Evacuation(pv.clone())
                },
                _ => SiblingNeed::Nothing,
            },
        }
    }
}

/// A volume's capacity in bytes, zero when it cannot be told; kept to 64 bits.
pub open spec fn capacity_bytes(info: VolumeInfo) -> u64 {
    match opt(info.capacity) {
        Some(q) => match bytes_or_suffixed(q) {
            Some(n) => (n % 0x1_0000_0000_0000_0000) as u64,
            None => 0,
        },
        None => 0,
    }
}

/// A volume's capacity in bytes, zero when it cannot be told; kept to 64 bits.
pub fn capacity_of(info: &VolumeInfo) -> (r: u64)
    ensures
        r == capacity_bytes(*info),
{
    match &info.capacity {
        Some(q) => match parse_quantity_or_bytes(q.as_str()) {
            Some(n) => (n % 0x1_0000_0000_0000_0000) as u64,
            None => 0,
        },
        None => 0,
    }
}

/// What a sibling is to the group.
pub enum Part {
    /// Not one of our volumes.
    Neither,
    /// Still on the source, with no node yet.
    Member(MemberView),
    /// Has a node, or is on its way to one.
    Anchor(AnchorView),
}

/// A sibling's evacuation that is under way.
pub open spec fn active(s: Sibling) -> Option<ZFSEvacuation> {
    match s.evac {
        Lookup::Found(e) => if e.status is Some && (e.status->0.phase == Phase::Completed
            || e.status->0.phase == Phase::Failed || e.status->0.phase == Phase::Aborting) {
            None
        } else {
            Some(e)
        },
        _ => None,
    }
}

/// What a sibling of `pv_name` is to the group. Its evacuation, if one is under
/// way, knows more than its volume: an explicit or chosen target is where the
/// data is heading even while the dataset still sits on the source.
pub open spec fn part_of(s: Sibling, pv_name: Seq<char>, source_node_id: Seq<char>) -> Part {
    match (bound_pv(s), zfs_handle(s), s.volume) {
        (Some(pv), Some(_), Lookup::Found(zv)) => {
            let member = MemberView { pv_name: pv, capacity_bytes: capacity_bytes(zv.spec.0) };
            let e = active(s);
            if pv == pv_name {
                Part::Member(member)
            } else if e is Some && e->0.spec.target_node is Some {
                Part::Anchor(
                    AnchorView {
                        node: e->0.spec.target_node->0@,
                        pv_name: pv,
                        how: "spec.targetNode"@,
                    },
                )
            } else if e is Some && e->0.status is Some && e->0.status->0.target is Some {
                Part::Anchor(
                    AnchorView {
                        node: e->0.status->0.target->0.node_id@,
                        pv_name: pv,
                        how: "status.target"@,
                    },
                )
            } else if zv.spec.0.owner_node_id@ != source_node_id {
                Part::Anchor(
                    AnchorView {
                        node: zv.spec.0.owner_node_id@,
                        pv_name: pv,
                        how: "ZFSVolume owner"@,
                    },
                )
            } else {
                Part::Member(member)
            }
        },
        _ => Part::Neither,
    }
}

/// The members among siblings, in their order.
pub open spec fn members_of(
    siblings: Seq<Sibling>,
    pv_name: Seq<char>,
    source_node_id: Seq<char>,
) -> Seq<MemberView>
    decreases siblings.len(),
{
    if siblings.len() == 0 {
        Seq::empty()
    } else {
        let front = members_of(siblings.drop_last(), pv_name, source_node_id);
        match part_of(siblings.last(), pv_name, source_node_id) {
            Part::Member(m) => front.push(m),
            _ => front,
        }
    }
}

/// The anchors among siblings, in their order.
pub open spec fn anchors_of(
    siblings: Seq<Sibling>,
    pv_name: Seq<char>,
    source_node_id: Seq<char>,
) -> Seq<AnchorView>
    decreases siblings.len(),
{
    if siblings.len() == 0 {
        Seq::empty()
    } else {
        let front = anchors_of(siblings.drop_last(), pv_name, source_node_id);
        match part_of(siblings.last(), pv_name, source_node_id) {
            Part::Anchor(a) => front.push(a),
            _ => front,
        }
    }
}

// ------------------------------------------------------------------ anchors

/// How many anchors name a node.
pub open spec fn votes(anchors: Seq<AnchorView>, node: Seq<char>) -> nat
    decreases anchors.len(),
{
    if anchors.len() == 0 {
        0
    } else {
        votes(anchors.drop_last(), node) + if anchors.last().node == node {
            1nat
        } else {
            0nat
        }
    }
}

/// Is a node to be preferred over another: more anchors name it, or as many and
/// it comes first by name?
pub open spec fn preferred(anchors: Seq<AnchorView>, node: Seq<char>, other: Seq<char>) -> bool {
    votes(anchors, node) > votes(anchors, other) || (votes(anchors, node) == votes(anchors, other)
        && precedes(node, other))
}

/// Is no anchor's node preferred over this one?
pub open spec fn unbeaten(anchors: Seq<AnchorView>, node: Seq<char>) -> bool {
    forall|j: int|
        0 <= j < anchors.len() ==> !preferred(anchors, (#[trigger] anchors[j]).node, node)
}

/// The first anchor that names the node most of them name.
pub open spec fn majority(anchors: Seq<AnchorView>) -> Option<int> {
    first_index(anchors, |a: AnchorView| unbeaten(anchors, a.node))
}

/// The views of anchors.
pub open spec fn anchor_views(v: Seq<Anchor>) -> Seq<AnchorView> {
    v.map_values(|a: Anchor| a@)
}

fn count_votes(anchors: &Vec<Anchor>, node: &str) -> (r: usize)
    ensures
        r == votes(anchor_views(anchors@), node@),
{
    let mut n: usize = 0;
    let ghost all = anchor_views(anchors@);
    for i in 0..anchors.len()
        invariant
            all == anchor_views(anchors@),
            n <= i,
            n == votes(all.take(i as int), node@),
    {
        proof {
            assert(all.take(i + 1).drop_last() == all.take(i as int));
            assert(all.take(i + 1).last() == anchors@[i as int]@);
        }
        if same(anchors[i].node.as_str(), node) {
            n += 1;
        }
    }
    assert(all.take(all.len() as int) == all);
    n
}

fn is_preferred(anchors: &Vec<Anchor>, node: &str, other: &str) -> (r: bool)
    ensures
        r == preferred(anchor_views(anchors@), node@, other@),
{
    let a: usize = count_votes(anchors, node);
    let b: usize = count_votes(anchors, other);
    a > b || (a == b && before(node, other))
}

/// Preference is transitive.
pub proof fn lemma_preferred(anchors: Seq<AnchorView>, a: Seq<char>, b: Seq<char>, c: Seq<char>)
    ensures
        preferred(anchors, a, b) && preferred(anchors, b, c) ==> preferred(anchors, a, c),
        a != b ==> preferred(anchors, a, b) || preferred(anchors, b, a),
{
    lemma_precedes_transitive(a, b, c);
    lemma_precedes_total(a, b);
}

/// Siblings normally agree; when they do not (a group already split), go with
/// the majority so the fewest volumes have to move again, ties by node string
/// for determinism across reconciles.
pub fn pick_anchor(anchors: Vec<Anchor>) -> (r: Option<Anchor>)
    ensures
        match r {
            Some(a) => majority(anchor_views(anchors@)) matches Some(i) && 0 <= i
                < anchors@.len() && a == anchors@[i],
            None => majority(anchor_views(anchors@)) is None && anchors@.len() == 0,
        },
{
    let ghost all = anchor_views(anchors@);
    let ghost p = |a: AnchorView| unbeaten(all, a.node);
    if anchors.len() == 0 {
        assert(majority(all) is None) by {
            lemma_first_index(all, p, 0);
        }
        return None;
    }
    let mut best: usize = 0;
    for i in 1..anchors.len()
        invariant
            all == anchor_views(anchors@),
            best < i,
            forall|j: int|
                0 <= j < i ==> !preferred(all, (#[trigger] all[j]).node, all[best as int].node)
                    || all[j].node == all[best as int].node,
            forall|j: int| 0 <= j < best ==> (#[trigger] all[j]).node != all[best as int].node,
    {
        assert(all[i as int] == anchors@[i as int]@ && all[best as int] == anchors@[best as int]@);
        if is_preferred(&anchors, anchors[i].node.as_str(), anchors[best].node.as_str()) {
            proof {
                let x = all[i as int].node;
                let y = all[best as int].node;
                lemma_precedes_asymmetric(x, x);
                lemma_precedes_asymmetric(y, y);
                assert forall|j: int| 0 <= j < i + 1 implies !preferred(
                    all,
                    (#[trigger] all[j]).node,
                    x,
                ) || all[j].node == x by {
                    lemma_preferred(all, all[j].node, x, y);
                }
                assert forall|j: int| 0 <= j < i implies (#[trigger] all[j]).node != x by {
                    if all[j].node == x {
                        assert(preferred(all, all[j].node, y));
                    }
                }
            }
            best = i;
        }
    }
    proof {
        let top = all[best as int].node;
        lemma_precedes_asymmetric(top, top);
        assert(unbeaten(all, top));
        assert(p(all[best as int]));
        assert forall|j: int| 0 <= j < best implies !p(#[trigger] all[j]) by {
            lemma_preferred(all, all[j].node, top, top);
            assert(preferred(all, all[best as int].node, all[j].node));
        }
        lemma_first_index(all, p, best as int);
    }
    let mut anchors = anchors;
    Some(anchors.remove(best))
}

// ------------------------------------------------------------------ groups

/// The pod that waits for the volume: of those that no node has been chosen
/// for, the first by name.
pub open spec fn consumer(pods: Seq<Pod>) -> Option<Pod> {
    let waiting = sorted_by_name(unscheduled(pods));
    if waiting.len() == 0 {
        None
    } else {
        Some(waiting[0])
    }
}

/// Finds the pod that waits for the volume.
pub fn find_consumer(pods: &[Pod]) -> (r: Option<&Pod>)
    ensures
        match r {
            Some(p) => consumer(pods@) == Some(*p),
            None => consumer(pods@) is None,
        },
{
    let waiting = unscheduled_pods(pods);
    assert(waiting@.unref().len() == waiting@.len());
    if waiting.len() == 0 {
        None
    } else {
        assert(waiting@.unref()[0] == *waiting@[0]);
        Some(waiting[0])
    }
}

/// The volumes that move together.
#[verifier::ext_equal]
pub struct GroupView {
    pub pod: Seq<char>,
    pub placement: PlacementView,
    pub members: Seq<MemberView>,
    pub anchor: Option<AnchorView>,
}

impl View for Group {
    type V = GroupView;

    open spec fn view(&self) -> GroupView {
        GroupView {
            pod: self.pod@,
            placement: self.placement@,
            members: member_views(self.members@),
            anchor: match self.anchor {
                Some(a) => Some(a@),
                None => None,
            },
        }
    }
}

/// The group that a consumer and its siblings make.
pub open spec fn group_of(
    pod: Pod,
    pv_name: Seq<char>,
    namespace: Seq<char>,
    source_node_id: Seq<char>,
    siblings: Seq<Sibling>,
) -> GroupView {
    let anchors = anchors_of(siblings, pv_name, source_node_id);
    GroupView {
        pod: namespace + "/"@ + pod.metadata.any_name(),
        placement: placement_of(pod),
        members: members_of(siblings, pv_name, source_node_id),
        anchor: match majority(anchors) {
            Some(i) => Some(anchors[i]),
            None => None,
        },
    }
}

fn push_member(v: &mut Vec<ColocationMember>, m: ColocationMember)
    ensures
        member_views(final(v)@) == member_views(old(v)@).push(m@),
{
    v.push(m);
    assert(member_views(v@) =~= member_views(old(v)@).push(m@));
}

fn push_anchor(v: &mut Vec<Anchor>, a: Anchor)
    ensures
        anchor_views(final(v)@) == anchor_views(old(v)@).push(a@),
{
    v.push(a);
    assert(anchor_views(v@) =~= anchor_views(old(v)@).push(a@));
}

/// A sibling's evacuation that is under way.
fn active_evac(s: &Sibling) -> (r: Option<&ZFSEvacuation>)
    ensures
        match r {
            Some(e) => active(*s) == Some(*e),
            None => active(*s) is None,
        },
{
    match &s.evac {
        Lookup::Found(e) => {
            let over = match &e.status {
                Some(st) => st.phase == Phase::Completed || st.phase == Phase::Failed || st.phase
                    == Phase::Aborting,
                None => false,
            };
            if over {
                None
            } else {
                Some(e)
            }
        },
        _ => None,
    }
}

/// Adds a sibling to the members or to the anchors, as it belongs.
fn sort_in(
    s: &Sibling,
    pv_name: &str,
    source_node_id: &str,
    members: &mut Vec<ColocationMember>,
    anchors: &mut Vec<Anchor>,
)
    ensures
        member_views(final(members)@) == (match part_of(*s, pv_name@, source_node_id@) {
            Part::Member(m) => member_views(old(members)@).push(m),
            _ => member_views(old(members)@),
        }),
        anchor_views(final(anchors)@) == (match part_of(*s, pv_name@, source_node_id@) {
            Part::Anchor(a) => anchor_views(old(anchors)@).push(a),
            _ => anchor_views(old(anchors)@),
        }),
{
    let pv = match bound_name(s) {
        Some(n) => n,
        None => return ,
    };
    if handle_name(s).is_none() {
        return ;
    }
    let zv = match &s.volume {
        Lookup::Found(zv) => zv,
        _ => return ,
    };
    let member = ColocationMember { pv_name: pv.clone(), capacity_bytes: capacity_of(&zv.spec.0) };
    if same(pv.as_str(), pv_name) {
        push_member(members, member);
        return ;
    }
    if let Some(e) = active_evac(s) {
        if let Some(node) = &e.spec.target_node {
            push_anchor(
                anchors,
                Anchor { node: node.clone(), pv_name: pv.clone(), how: "spec.targetNode" },
            );
            return ;
        }
        if let Some(st) = &e.status {
            if let Some(t) = &st.target {
                push_anchor(
                    anchors,
                    Anchor { node: t.node_id.clone(), pv_name: pv.clone(), how: "status.target" },
                );
                return ;
            }
        }
    }
    if !same(zv.spec.0.owner_node_id.as_str(), source_node_id) {
        push_anchor(
            anchors,
            Anchor {
                node: zv.spec.0.owner_node_id.clone(),
                pv_name: pv.clone(),
                how: "ZFSVolume owner",
            },
        );
    } else {
        push_member(members, member);
    }
}

/// Resolves the group for `pv_name` from the pods referencing its PVC and from
/// what is known of the consumer's own PVCs. `None` when no never-scheduled
/// consumer exists (nothing to co-locate with).
pub fn resolve(
    pv_name: &str,
    pvc_ref: &PvcRef,
    source_node_id: &str,
    pods: &[Pod],
    siblings: &Vec<Sibling>,
) -> (r: Option<Group>)
    ensures
        match r {
            Some(g) => consumer(pods@) matches Some(pod) && g@ == group_of(
                pod,
                pv_name@,
                pvc_ref.namespace@,
                source_node_id@,
                siblings@,
            ),
            None => consumer(pods@) is None,
        },
{
    let pod = match find_consumer(pods) {
        Some(p) => p,
        None => return None,
    };
    let mut members: Vec<ColocationMember> = Vec::new();
    let mut anchors: Vec<Anchor> = Vec::new();
    assert(member_views(members@) =~= Seq::<MemberView>::empty());
    assert(anchor_views(anchors@) =~= Seq::<AnchorView>::empty());
    for i in 0..siblings.len()
        invariant
            member_views(members@) == members_of(
                siblings@.take(i as int),
                pv_name@,
                source_node_id@,
            ),
            anchor_views(anchors@) == anchors_of(
                siblings@.take(i as int),
                pv_name@,
                source_node_id@,
            ),
    {
        assert(siblings@.take(i + 1).drop_last() == siblings@.take(i as int));
        sort_in(&siblings[i], pv_name, source_node_id, &mut members, &mut anchors);
    }
    assert(siblings@.take(siblings@.len() as int) == siblings@);
    Some(
        Group {
            pod: cat3(pvc_ref.namespace.as_str(), "/", pod.metadata.name_any().as_str()),
            placement: Placement::from_pod(pod),
            members,
            anchor: pick_anchor(anchors),
        },
    )
}

// ------------------------------------------------------------------ what holds of groups

/// The consumer is one of the never-scheduled pods, and none of them comes
/// before it by name; there is one exactly if there is a never-scheduled pod.
pub proof fn the_consumer_is_the_first_by_name(pods: Seq<Pod>)
    ensures
        consumer(pods) is Some == (unscheduled(pods).len() > 0),
        consumer(pods) matches Some(c) ==> {
            &&& unscheduled(pods).contains(c)
            &&& !c.scheduled()
            &&& forall|i: int|
                0 <= i < unscheduled(pods).len() ==> !precedes(
                    (#[trigger] unscheduled(pods)[i]).metadata.any_name(),
                    c.metadata.any_name(),
                )
        },
{
    broadcast use vstd::seq_lib::group_to_multiset_ensures;

    let waiting = unscheduled(pods);
    let sorted = sorted_by_name(waiting);
    crate::controller::sorting_orders_by_name(waiting);
    if let Some(c) = consumer(pods) {
        assert(sorted.contains(sorted[0]));
        assert(waiting.to_multiset().contains(c));
        assert(waiting.contains(c));
        pods.filter_lemma(|p: Pod| !p.scheduled());
        assert forall|i: int| 0 <= i < waiting.len() implies !precedes(
            (#[trigger] waiting[i]).metadata.any_name(),
            c.metadata.any_name(),
        ) by {
            assert(waiting.contains(waiting[i]));
            assert(sorted.to_multiset().contains(waiting[i]));
            assert(sorted.contains(waiting[i]));
            let k = choose|k: int| 0 <= k < sorted.len() && sorted[k] == waiting[i];
            lemma_precedes_asymmetric(c.metadata.any_name(), c.metadata.any_name());
            if k > 0 {
                assert(!precedes(sorted[k].metadata.any_name(), sorted[0].metadata.any_name()));
            }
        }
    }
}

/// The node a group follows is named by as many anchors as any other, and by
/// more than any that comes before it by name.
pub proof fn the_anchor_has_the_most_votes(anchors: Seq<AnchorView>, i: int, j: int)
    requires
        majority(anchors) == Some(i),
        0 <= i < anchors.len(),
        0 <= j < anchors.len(),
    ensures
        votes(anchors, anchors[j].node) <= votes(anchors, anchors[i].node),
        precedes(anchors[j].node, anchors[i].node) ==> votes(anchors, anchors[j].node) < votes(
            anchors,
            anchors[i].node,
        ),
{
    let p = |a: AnchorView| unbeaten(anchors, a.node);
    lemma_first_holds(anchors, p, i);
    assert(!preferred(anchors, anchors[j].node, anchors[i].node));
}

proof fn lemma_first_holds(s: Seq<AnchorView>, p: spec_fn(AnchorView) -> bool, i: int)
    requires
        first_index(s, p) == Some(i),
    ensures
        0 <= i < s.len(),
        p(s[i]),
    decreases s.len(),
{
    if s.len() > 0 {
        if let Some(k) = first_index(s.drop_last(), p) {
            lemma_first_holds(s.drop_last(), p, k);
        }
    }
}

} // verus!
