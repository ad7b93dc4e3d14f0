//! Target node/pool selection: ZFSNode capacity (up to a minute stale) minus a
//! reservation ledger rebuilt from in-flight ZFSEvacuation statuses, filtered
//! by node health and StorageClass allowedTopologies.
use vstd::prelude::*;

use crate::cluster::{
    list_or_empty, lookup, Node, PersistentVolume, StorageClass, TopologySelectorLabelRequirement,
    TopologySelectorTerm,
};
use crate::controller::placement::{Placement, PlacementView};
use crate::controller::quantity::{bytes_or_suffixed, parse_quantity_or_bytes};
use crate::controller::{
    find_node, first_index, has_taint, is_ready, lemma_first_index, node_has_evacuate_taint,
    node_id, node_id_of, node_index, node_is_ready, DEFAULT_HEADROOM_PERCENT,
};
use crate::crd::openebs::{ZFSNode, ZfsPool, NODE_ID_TOPOLOGY_KEY};
use crate::crd::zfs_evacuation::{
    ColocationMember, Phase, TargetInfo, ZFSEvacuation, ZFSEvacuationSpec,
};
use crate::text::{
    cat, cat3, chars, decimal, is_among, join, joined, lemma_run_length, opt, run_length, same,
    slice, to_decimal, views,
};

verus! {

/// What a selection goes by.
pub struct SelectionInput<'a> {
    pub evac_name: &'a str,
    pub spec: &'a ZFSEvacuationSpec,
    pub source_node_id: &'a str,
    pub source_pool: &'a str,
    pub capacity_bytes: u128,
    /// Co-location: bytes of the group's other unplaced members, carried along
    /// so the leader's target can take the whole group.
    pub group_extra_bytes: u128,
    /// Co-location: a sibling's node (name or id) this volume must follow.
    /// `spec.target_node` still wins when both are set.
    pub anchor: Option<&'a str>,
    /// Co-location: the consumer's own node constraints.
    pub placement: Option<&'a Placement>,
}

/// What a selection goes by.
pub struct SelectionView {
    pub evac_name: Seq<char>,
    pub target_node: Option<Seq<char>>,
    pub target_pool: Option<Seq<char>>,
    pub headroom_percent: Option<u32>,
    pub source_node_id: Seq<char>,
    pub source_pool: Seq<char>,
    pub capacity_bytes: nat,
    pub group_extra_bytes: nat,
    pub anchor: Option<Seq<char>>,
    pub placement: Option<PlacementView>,
}

impl<'a> View for SelectionInput<'a> {
    type V = SelectionView;

    open spec fn view(&self) -> SelectionView {
        SelectionView {
            evac_name: self.evac_name@,
            target_node: opt(self.spec.target_node),
            target_pool: opt(self.spec.target_pool),
            headroom_percent: self.spec.headroom_percent,
            source_node_id: self.source_node_id@,
            source_pool: self.source_pool@,
            capacity_bytes: self.capacity_bytes as nat,
            group_extra_bytes: self.group_extra_bytes as nat,
            anchor: str_opt(self.anchor),
            placement: match self.placement {
                Some(p) => Some(p@),
                None => None,
            },
        }
    }
}

/// The view of an optional borrowed text.
pub open spec fn str_opt(s: Option<&str>) -> Option<Seq<char>> {
    match s {
        Some(t) => Some(t@),
        None => None,
    }
}

// ------------------------------------------------------------------ pools

/// The zpool a poolname lies in: what stands before the first slash.
pub open spec fn zpool(poolname: Seq<char>) -> Seq<char> {
    poolname.take(run_length(poolname, |c: char| c != '/') as int)
}

/// A zfs-localpv poolname may be a dataset path ("zroot/csi"). Only its first
/// component names a zpool; ZFSNode inventories (and capacity) are per-zpool,
/// so eligibility must compare components while the full path stays the
/// receive location.
pub fn pool_component(poolname: &str) -> (r: String)
    ensures
        r@ == zpool(poolname@),
{
    let v = chars(poolname);
    let ghost pred = |c: char| c != '/';
    let mut n: usize = 0;
    while n < v.len() && v[n] != '/'
        invariant
            n <= v@.len(),
            pred == (|c: char| c != '/'),
            forall|i: int| 0 <= i < n ==> pred(#[trigger] v@[i]),
        decreases v@.len() - n,
    {
        n += 1;
    }
    proof {
        lemma_run_length(v@, pred, n as int);
        assert(v@.subrange(0, n as int) =~= v@.take(n as int));
    }
    slice(&v, 0, n)
}

/// Where the received dataset goes (the new ZFSVolume's poolName), in priority
/// order, none of which encodes any site naming convention:
/// 1. spec.targetPool verbatim (operator override);
/// 2. the PV's StorageClass `poolname` parameter: by definition what
///    provisioning this PVC on the target node would have used;
/// 3. the source volume's poolName carried over (StorageClass gone or missing
///    the parameter).
pub open spec fn dest_poolname(
    target_pool: Option<Seq<char>>,
    sc_poolname: Option<Seq<char>>,
    source_pool: Seq<char>,
) -> Seq<char> {
    match target_pool {
        Some(p) => p,
        None => match sc_poolname {
            Some(p) => p,
            None => source_pool,
        },
    }
}

/// The destination poolname and which rule picked it (for logging).
pub fn resolve_dest_poolname(
    target_pool: Option<&str>,
    sc_poolname: Option<&str>,
    source_pool: &str,
) -> (r: (String, &'static str))
    ensures
        r.0@ == dest_poolname(str_opt(target_pool), str_opt(sc_poolname), source_pool@),
        r.1@ == (if target_pool is Some {
            "spec.targetPool"@
        } else if sc_poolname is Some {
            "StorageClass poolname"@
        } else {
            "source poolName (StorageClass unavailable)"@
        }),
{
    if let Some(p) = target_pool {
        return (p.to_owned(), "spec.targetPool");
    }
    if let Some(p) = sc_poolname {
        return (p.to_owned(), "StorageClass poolname");
    }
    (source_pool.to_owned(), "source poolName (StorageClass unavailable)")
}

// ------------------------------------------------------------------ storage classes

/// The value behind an optional borrow.
pub open spec fn value_of(class: Option<&StorageClass>) -> Option<StorageClass> {
    match class {
        Some(c) => Some(*c),
        None => None,
    }
}

/// The name of a PV's StorageClass.
pub fn storage_class_name(pv: &PersistentVolume) -> (r: Option<String>)
    ensures
        opt(r) == match pv.spec {
            Some(s) => opt(s.storage_class_name),
            None => None,
        },
{
    match &pv.spec {
        Some(s) => s.storage_class_name.clone(),
        None => None,
    }
}

/// The `poolname` parameter of a StorageClass, if there is one.
pub open spec fn class_poolname(class: Option<StorageClass>) -> Option<Seq<char>> {
    match class {
        Some(c) => lookup(c.parameters, "poolname"@),
        None => None,
    }
}

/// The PV's StorageClass `poolname` parameter, if the class still exists and
/// carries one.
fn sc_poolname(class: Option<&StorageClass>) -> (r: Option<String>)
    ensures
        opt(r) == class_poolname(value_of(class)),
{
    match class {
        Some(c) => match &c.parameters {
            Some(p) => match p.get("poolname") {
                Some(v) => Some(v.clone()),
                None => None,
            },
            None => None,
        },
        None => None,
    }
}

/// Does one of the expressions constrain the node identity?
pub open spec fn names_nodes(exprs: Seq<TopologySelectorLabelRequirement>) -> bool {
    exists|i: int|
        0 <= i < exprs.len() && (#[trigger] exprs[i]).key@ == NODE_ID_TOPOLOGY_KEY@
}

/// Does one of the expressions list this node identity?
pub open spec fn lists_node(
    exprs: Seq<TopologySelectorLabelRequirement>,
    id: Seq<char>,
) -> bool {
    exists|i: int|
        0 <= i < exprs.len() && (#[trigger] exprs[i]).key@ == NODE_ID_TOPOLOGY_KEY@ && views(
            exprs[i].values@,
        ).contains(id)
}

/// The expressions of a topology term.
pub open spec fn expressions(t: TopologySelectorTerm) -> Seq<TopologySelectorLabelRequirement> {
    list_or_empty(t.match_label_expressions)
}

/// The topology terms of a StorageClass.
pub open spec fn topologies(class: Option<StorageClass>) -> Seq<TopologySelectorTerm> {
    match class {
        Some(c) => list_or_empty(c.allowed_topologies),
        None => Seq::empty(),
    }
}

/// Does the StorageClass constrain the node identity at all?
pub open spec fn constrained(class: Option<StorageClass>) -> bool {
    exists|i: int|
        0 <= i < topologies(class).len() && names_nodes(
            expressions(#[trigger] topologies(class)[i]),
        )
}

/// Does the StorageClass list this node identity?
pub open spec fn listed(class: Option<StorageClass>, id: Seq<char>) -> bool {
    exists|i: int|
        0 <= i < topologies(class).len() && lists_node(
            expressions(#[trigger] topologies(class)[i]),
            id,
        )
}

/// Does one of the expressions list any node identity?
pub open spec fn lists_some(exprs: Seq<TopologySelectorLabelRequirement>) -> bool {
    exists|i: int|
        0 <= i < exprs.len() && (#[trigger] exprs[i]).key@ == NODE_ID_TOPOLOGY_KEY@
            && exprs[i].values@.len() > 0
}

/// Does the StorageClass constrain the node identity, and list none?
pub open spec fn excludes_all(class: Option<StorageClass>) -> bool {
    constrained(class) && !exists|i: int|
        0 <= i < topologies(class).len() && lists_some(
            expressions(#[trigger] topologies(class)[i]),
        )
}

/// What a topology term says of the node identity.
struct TermReading {
    constrains: bool,
    lists_some: bool,
    lists_it: bool,
}

fn read_term(t: &TopologySelectorTerm, id: &str) -> (r: TermReading)
    ensures
        r.constrains == names_nodes(expressions(*t)),
        r.lists_some == lists_some(expressions(*t)),
        r.lists_it == lists_node(expressions(*t), id@),
{
    let mut r = TermReading { constrains: false, lists_some: false, lists_it: false };
    if let Some(exprs) = &t.match_label_expressions {
        for i in 0..exprs.len()
            invariant
                exprs@ == expressions(*t),
                r.constrains == exists|k: int|
                    0 <= k < i && (#[trigger] exprs@[k]).key@ == NODE_ID_TOPOLOGY_KEY@,
                r.lists_some == exists|k: int|
                    0 <= k < i && (#[trigger] exprs@[k]).key@ == NODE_ID_TOPOLOGY_KEY@
                        && exprs@[k].values@.len() > 0,
                r.lists_it == exists|k: int|
                    0 <= k < i && (#[trigger] exprs@[k]).key@ == NODE_ID_TOPOLOGY_KEY@ && views(
                        exprs@[k].values@,
                    ).contains(id@),
        {
            let e = &exprs[i];
            if same(e.key.as_str(), NODE_ID_TOPOLOGY_KEY) {
                assert(exprs@[i as int].key@ == NODE_ID_TOPOLOGY_KEY@);
                r.constrains = true;
                if e.values.len() > 0 {
                    r.lists_some = true;
                }
                if is_among(&e.values, id) {
                    r.lists_it = true;
                }
            }
        }
    }
    r
}

/// What the PV's StorageClass says of a node: whether it constrains the node
/// identity, whether it then lists any, and whether it lists this one.
fn read_topologies(class: Option<&StorageClass>, id: &str) -> (r: TermReading)
    ensures
        r.constrains == constrained(value_of(class)),
        (r.constrains && !r.lists_some) == excludes_all(value_of(class)),
        r.lists_it == listed(value_of(class), id@),
{
    let mut r = TermReading { constrains: false, lists_some: false, lists_it: false };
    let topos = match class {
        Some(c) => match &c.allowed_topologies {
            Some(t) => t,
            None => return r,
        },
        None => return r,
    };
    for i in 0..topos.len()
        invariant
            topos@ == topologies(value_of(class)),
            r.constrains == exists|k: int|
                0 <= k < i && names_nodes(expressions(#[trigger] topologies(value_of(class))[k])),
            r.lists_some == exists|k: int|
                0 <= k < i && lists_some(expressions(#[trigger] topologies(value_of(class))[k])),
            r.lists_it == exists|k: int|
                0 <= k < i && lists_node(expressions(#[trigger] topologies(value_of(class))[k]), id@),
    {
        let t = read_term(&topos[i], id);
        assert(topologies(value_of(class))[i as int] == topos@[i as int]);
        r.constrains = r.constrains || t.constrains;
        r.lists_some = r.lists_some || t.lists_some;
        r.lists_it = r.lists_it || t.lists_it;
    }
    r
}

// ------------------------------------------------------------------ the ledger

/// Does another evacuation hold a target? Failed evacuations reserve nothing
/// (their target never kept data).
pub open spec fn holds_target(e: ZFSEvacuation, chooser: Seq<char>) -> bool {
    &&& e.metadata.any_name() != chooser
    &&& e.status is Some
    &&& e.status->0.phase != Phase::Failed
    &&& e.status->0.target is Some
}

/// Is a node already receiving another evacuation?
pub open spec fn receiving(evacs: Seq<ZFSEvacuation>, chooser: Seq<char>, id: Seq<char>) -> bool {
    exists|i: int|
        0 <= i < evacs.len() && holds_target(#[trigger] evacs[i], chooser)
            && evacs[i].status->0.phase != Phase::Completed
            && evacs[i].status->0.target->0.node_id@ == id
}

/// Has the PV's evacuation chosen a target?
pub open spec fn placed(evacs: Seq<ZFSEvacuation>, pv: Seq<char>) -> bool {
    exists|i: int|
        0 <= i < evacs.len() && (#[trigger] evacs[i]).metadata.any_name() == pv
            && evacs[i].status is Some && evacs[i].status->0.target is Some
}

/// The bytes of an evacuation's own volume.
pub open spec fn own_bytes(e: ZFSEvacuation) -> nat {
    match e.status {
        Some(s) => match s.source {
            Some(s) => s.capacity_bytes as nat,
            None => 0,
        },
        None => 0,
    }
}

/// The bytes of a group's members that still have to choose a target, without
/// the group's leader and without the one that is choosing.
pub open spec fn group_bytes(
    members: Seq<ColocationMember>,
    leader: Seq<char>,
    chooser: Seq<char>,
    evacs: Seq<ZFSEvacuation>,
) -> nat
    decreases members.len(),
{
    if members.len() == 0 {
        0
    } else {
        let m = members.last();
        group_bytes(members.drop_last(), leader, chooser, evacs) + if m.pv_name@ != leader
            && m.pv_name@ != chooser && !placed(evacs, m.pv_name@) {
            m.capacity_bytes as nat
        } else {
            0
        }
    }
}

/// What an evacuation reserves where it goes: its own volume while it is under
/// way, and the unplaced members of its group. It keeps holding those after it
/// completes: the followers could not choose while the leader was receiving,
/// so giving their space up would let an unrelated evacuation take it.
pub open spec fn share(
    e: ZFSEvacuation,
    chooser: Seq<char>,
    evacs: Seq<ZFSEvacuation>,
) -> nat {
    let own = if e.status->0.phase == Phase::Completed {
        0
    } else {
        own_bytes(e)
    };
    own + match e.status->0.colocation {
        Some(c) => group_bytes(c.members@, e.metadata.any_name(), chooser, evacs),
        None => 0,
    }
}

/// The bytes reserved by the first `n` evacuations in one zpool of one node.
pub open spec fn reserved(
    evacs: Seq<ZFSEvacuation>,
    n: nat,
    chooser: Seq<char>,
    id: Seq<char>,
    pool: Seq<char>,
) -> nat
    decreases n,
{
    if n == 0 {
        0
    } else {
        let e = evacs[n - 1];
        reserved(evacs, (n - 1) as nat, chooser, id, pool) + if holds_target(e, chooser)
            && e.status->0.target->0.node_id@ == id && zpool(e.status->0.target->0.pool@)
            == pool {
            share(e, chooser, evacs)
        } else {
            0
        }
    }
}

/// A count of bytes, at most `u128::MAX`.
pub open spec fn capped(n: nat) -> int {
    if n <= u128::MAX {
        n as int
    } else {
        u128::MAX as int
    }
}

fn capped_sum(a: u128, b: u128) -> (r: u128)
    ensures
        forall|x: nat, y: nat|
            capped(x) == a && capped(y) == b ==> r == #[trigger] capped(x + y),
{
    if a > u128::MAX - b {
        u128::MAX
    } else {
        a + b
    }
}

fn is_placed(evacs: &Vec<ZFSEvacuation>, pv: &str) -> (r: bool)
    ensures
        r == placed(evacs@, pv@),
{
    for i in 0..evacs.len()
        invariant
            forall|k: int|
                0 <= k < i ==> !((#[trigger] evacs@[k]).metadata.any_name() == pv@
                    && evacs@[k].status is Some && evacs@[k].status->0.target is Some),
    {
        if let Some(st) = &evacs[i].status {
            if st.target.is_some() && same(evacs[i].metadata.name_any().as_str(), pv) {
                assert(evacs@[i as int].metadata.any_name() == pv@);
                return true;
            }
        }
    }
    false
}

fn sum_of_group(
    members: &Vec<ColocationMember>,
    leader: &str,
    chooser: &str,
    evacs: &Vec<ZFSEvacuation>,
) -> (r: u128)
    ensures
        r == capped(group_bytes(members@, leader@, chooser@, evacs@)),
{
    let mut r: u128 = 0;
    for i in 0..members.len()
        invariant
            r == capped(group_bytes(members@.take(i as int), leader@, chooser@, evacs@)),
    {
        let m = &members[i];
        assert(members@.take(i + 1).drop_last() == members@.take(i as int));
        let counts = !same(m.pv_name.as_str(), leader) && !same(m.pv_name.as_str(), chooser)
            && !is_placed(evacs, m.pv_name.as_str());
        let bytes: u128 = if counts {
            m.capacity_bytes as u128
        } else {
            0
        };
        assert(capped(bytes as nat) == bytes);
        r = capped_sum(r, bytes);
    }
    assert(members@.take(members@.len() as int) == members@);
    r
}

fn capacity_of_evac(e: &ZFSEvacuation) -> (r: u128)
    ensures
        r == own_bytes(*e),
{
    match &e.status {
        Some(s) => match &s.source {
            Some(s) => s.capacity_bytes as u128,
            None => 0,
        },
        None => 0,
    }
}

fn reservations(evacs: &Vec<ZFSEvacuation>, chooser: &str, id: &str, pool: &str) -> (r: u128)
    ensures
        r == capped(reserved(evacs@, evacs@.len(), chooser@, id@, pool@)),
{
    let mut r: u128 = 0;
    for i in 0..evacs.len()
        invariant
            r == capped(reserved(evacs@, i as nat, chooser@, id@, pool@)),
    {
        let e = &evacs[i];
        let mut bytes: u128 = 0;
        let ghost mut exact: nat = 0;
        if let Some(st) = &e.status {
            if let Some(t) = &st.target {
                if !same(e.metadata.name_any().as_str(), chooser) && st.phase != Phase::Failed
                    && same(t.node_id.as_str(), id) && same(
                    pool_component(t.pool.as_str()).as_str(),
                    pool,
                ) {
                    let own: u128 = if st.phase == Phase::Completed {
                        0
                    } else {
                        capacity_of_evac(e)
                    };
                    let group: u128 = match &st.colocation {
                        Some(c) => sum_of_group(
                            &c.members,
                            e.metadata.name_any().as_str(),
                            chooser,
                            evacs,
                        ),
                        None => 0,
                    };
                    proof {
                        exact = share(*e, chooser@, evacs@);
                        assert(capped(own as nat) == own);
                        let g = match &st.colocation {
                            Some(c) => group_bytes(
                                c.members@,
                                e.metadata.any_name(),
                                chooser@,
                                evacs@,
                            ),
                            None => 0,
                        };
                        assert(capped(g) == group);
                        assert(exact == own as nat + g);
                    }
                    bytes = capped_sum(own, group);
                }
            }
        }
        assert(bytes == capped(exact));
        r = capped_sum(r, bytes);
    }
    r
}

fn is_receiving(evacs: &Vec<ZFSEvacuation>, chooser: &str, id: &str) -> (r: bool)
    ensures
        r == receiving(evacs@, chooser@, id@),
{
    for i in 0..evacs.len()
        invariant
            forall|k: int|
                0 <= k < i ==> !(holds_target(#[trigger] evacs@[k], chooser@)
                    && evacs@[k].status->0.phase != Phase::Completed
                    && evacs@[k].status->0.target->0.node_id@ == id@),
    {
        if let Some(st) = &evacs[i].status {
            if let Some(t) = &st.target {
                if st.phase != Phase::Failed && st.phase != Phase::Completed && same(
                    t.node_id.as_str(),
                    id,
                ) && !same(evacs[i].metadata.name_any().as_str(), chooser) {
                    assert(holds_target(evacs@[i as int], chooser@));
                    return true;
                }
            }
        }
    }
    false
}

// ------------------------------------------------------------------ the choice

/// What a selection chooses from.
pub struct Inventory<'a> {
    pub zfsnodes: &'a Vec<ZFSNode>,
    pub nodes: &'a Vec<Node>,
    pub evacs: &'a Vec<ZFSEvacuation>,
    /// The PV's StorageClass, with its name, if it still exists.
    pub storage_class: Option<(&'a str, &'a StorageClass)>,
    pub taint_key: &'a str,
}

/// What a selection chooses from.
pub struct InventoryView {
    pub zfsnodes: Seq<ZFSNode>,
    pub nodes: Seq<Node>,
    pub evacs: Seq<ZFSEvacuation>,
    pub storage_class: Option<(Seq<char>, StorageClass)>,
    pub taint_key: Seq<char>,
}

impl<'a> View for Inventory<'a> {
    type V = InventoryView;

    open spec fn view(&self) -> InventoryView {
        InventoryView {
            zfsnodes: self.zfsnodes@,
            nodes: self.nodes@,
            evacs: self.evacs@,
            storage_class: match self.storage_class {
                Some((n, c)) => Some((n@, *c)),
                None => None,
            },
            taint_key: self.taint_key@,
        }
    }
}

/// A zpool that can take the data.
pub struct Candidate {
    pub node: String,
    pub node_id: String,
    /// What is free in it after reservations.
    pub left: u128,
}

/// A zpool that can take the data.
pub struct CandidateView {
    pub node: Seq<char>,
    pub node_id: Seq<char>,
    pub left: int,
}

impl View for Candidate {
    type V = CandidateView;

    open spec fn view(&self) -> CandidateView {
        CandidateView { node: self.node@, node_id: self.node_id@, left: self.left as int }
    }
}

/// The PV's StorageClass.
pub open spec fn class_of(inv: InventoryView) -> Option<StorageClass> {
    match inv.storage_class {
        Some((_, c)) => Some(c),
        None => None,
    }
}

/// The bytes to be placed: the volume, and the members it chooses for.
pub open spec fn bytes(input: SelectionView) -> nat {
    input.capacity_bytes + input.group_extra_bytes
}

/// The extra free space demanded, in percent.
pub open spec fn headroom(input: SelectionView) -> nat {
    match input.headroom_percent {
        Some(p) => p as nat,
        None => DEFAULT_HEADROOM_PERCENT as nat,
    }
}

/// The free space demanded.
pub open spec fn need(input: SelectionView) -> nat {
    bytes(input) + bytes(input) * headroom(input) / 100
}

/// Can the demand be computed in 128 bits?
pub open spec fn computable(input: SelectionView) -> bool {
    bytes(input) * headroom(input) <= u128::MAX && need(input) <= u128::MAX
}

/// Where the data goes.
pub open spec fn destination(input: SelectionView, inv: InventoryView) -> Seq<char> {
    dest_poolname(input.target_pool, class_poolname(class_of(inv)), input.source_pool)
}

/// The zpool the data goes into.
pub open spec fn wanted(input: SelectionView, inv: InventoryView) -> Seq<char> {
    zpool(destination(input, inv))
}

/// The node that was asked for, by name or by identity: the spec's, else the
/// one a sibling went to.
pub open spec fn asked(input: SelectionView) -> Option<Seq<char>> {
    match input.target_node {
        Some(n) => Some(n),
        None => input.anchor,
    }
}

/// The first node of this name.
pub open spec fn named_index(nodes: Seq<Node>, name: Seq<char>) -> Option<int> {
    first_index(nodes, |n: Node| n.metadata.any_name() == name)
}

/// Does a node's name or identity stand for this identity?
pub open spec fn stands_for(nodes: Seq<Node>, asked: Seq<char>, id: Seq<char>) -> bool {
    asked == id || match named_index(nodes, asked) {
        Some(i) => node_id(nodes[i]) == id,
        None => false,
    }
}

/// Is a node in question at all?
pub open spec fn in_question(input: SelectionView, inv: InventoryView, id: Seq<char>) -> bool {
    id != input.source_node_id && match asked(input) {
        Some(a) => stands_for(inv.nodes, a, id),
        None => true,
    }
}

/// Why a node cannot receive the data, whatever its pools.
pub open spec fn obstacle(input: SelectionView, inv: InventoryView, id: Seq<char>) -> Option<
    Seq<char>,
> {
    let i = node_index(inv.nodes, id);
    if constrained(class_of(inv)) && !listed(class_of(inv), id) {
        Some("outside the StorageClass allowedTopologies"@)
    } else if i is None {
        Some("no Node with this openebs.io/nodeid"@)
    } else if !is_ready(inv.nodes[i->0]) {
        Some("not Ready or unschedulable"@)
    } else if has_taint(inv.nodes[i->0], inv.taint_key) {
        Some("carries the evacuate taint"@)
    } else if receiving(inv.evacs, input.evac_name, id) {
        Some("already receiving another evacuation"@)
    } else if input.placement is Some && !input.placement->0.allows(inv.nodes[i->0]) {
        Some("excluded by the consumer pod's nodeSelector/affinity/tolerations"@)
    } else {
        None
    }
}

/// What a pool reports as free.
pub open spec fn free_bytes(pool: ZfsPool) -> nat {
    match opt(pool.free) {
        Some(q) => match bytes_or_suffixed(q) {
            Some(n) => n,
            None => 0,
        },
        None => 0,
    }
}

/// What is free in a pool after reservations.
pub open spec fn left(
    input: SelectionView,
    inv: InventoryView,
    id: Seq<char>,
    pool: ZfsPool,
) -> int {
    let r = reserved(inv.evacs, inv.evacs.len(), input.evac_name, id, wanted(input, inv));
    if free_bytes(pool) > r {
        free_bytes(pool) - r
    } else {
        0
    }
}

/// The pools of a node that can take the data.
pub open spec fn pool_candidates(
    input: SelectionView,
    inv: InventoryView,
    id: Seq<char>,
    pools: Seq<ZfsPool>,
) -> Seq<CandidateView>
    decreases pools.len(),
{
    if pools.len() == 0 {
        Seq::empty()
    } else {
        let front = pool_candidates(input, inv, id, pools.drop_last());
        let pool = pools.last();
        let i = node_index(inv.nodes, id);
        if pool.name@ == wanted(input, inv) && left(input, inv, id, pool) >= need(input) {
            front.push(
                CandidateView {
                    node: inv.nodes[i->0].metadata.any_name(),
                    node_id: id,
                    left: left(input, inv, id, pool),
                },
            )
        } else {
            front
        }
    }
}

/// Why pools of the right name cannot take the data.
pub open spec fn pool_rejections(
    input: SelectionView,
    inv: InventoryView,
    id: Seq<char>,
    pools: Seq<ZfsPool>,
) -> Seq<Seq<char>>
    decreases pools.len(),
{
    if pools.len() == 0 {
        Seq::empty()
    } else {
        let front = pool_rejections(input, inv, id, pools.drop_last());
        let pool = pools.last();
        if pool.name@ == wanted(input, inv) && left(input, inv, id, pool) < need(input) {
            front.push(
                id + ": "@ + "zpool "@ + wanted(input, inv) + " has "@ + decimal(
                    left(input, inv, id, pool) as nat,
                ) + " bytes free after reservations, need "@ + decimal(need(input)),
            )
        } else {
            front
        }
    }
}

/// Is there a pool of this name?
pub open spec fn has_pool(pools: Seq<ZfsPool>, name: Seq<char>) -> bool {
    exists|i: int| 0 <= i < pools.len() && (#[trigger] pools[i]).name@ == name
}

/// The candidates among nodes.
pub open spec fn candidates(
    input: SelectionView,
    inv: InventoryView,
    zfsnodes: Seq<ZFSNode>,
) -> Seq<CandidateView>
    decreases zfsnodes.len(),
{
    if zfsnodes.len() == 0 {
        Seq::empty()
    } else {
        let front = candidates(input, inv, zfsnodes.drop_last());
        let id = zfsnodes.last().metadata.any_name();
        if in_question(input, inv, id) && obstacle(input, inv, id) is None {
            front + pool_candidates(input, inv, id, zfsnodes.last().pools@)
        } else {
            front
        }
    }
}

/// What is wrong with the nodes in question.
pub open spec fn rejections(
    input: SelectionView,
    inv: InventoryView,
    zfsnodes: Seq<ZFSNode>,
) -> Seq<Seq<char>>
    decreases zfsnodes.len(),
{
    if zfsnodes.len() == 0 {
        Seq::empty()
    } else {
        let front = rejections(input, inv, zfsnodes.drop_last());
        let id = zfsnodes.last().metadata.any_name();
        let pools = zfsnodes.last().pools@;
        if !in_question(input, inv, id) {
            front
        } else {
            match obstacle(input, inv, id) {
                Some(why) => front.push(id + ": "@ + why),
                None => {
                    let all = front + pool_rejections(input, inv, id, pools);
                    if has_pool(pools, wanted(input, inv)) {
                        all
                    } else {
                        all.push(id + ": "@ + "no zpool "@ + wanted(input, inv))
                    }
                },
            }
        }
    }
}

/// The candidate with the most space left, the first of equals.
pub open spec fn best(cs: Seq<CandidateView>) -> Option<int>
    decreases cs.len(),
{
    if cs.len() == 0 {
        None
    } else {
        match best(cs.drop_last()) {
            Some(i) => if cs.last().left > cs[i].left {
                Some(cs.len() - 1)
            } else {
                Some(i)
            },
            None => Some(0),
        }
    }
}

/// Why no node can receive the data.
pub open spec fn refusal(input: SelectionView, inv: InventoryView) -> Seq<char> {
    if excludes_all(class_of(inv)) {
        "StorageClass "@ + (inv.storage_class->0).0 + " allowedTopologies excludes every node"@
    } else {
        let why = rejections(input, inv, inv.zfsnodes);
        let reasons = if why.len() == 0 {
            Seq::empty()
        } else {
            "; "@ + joined(why, ", "@)
        };
        match asked(input) {
            Some(a) => "target "@ + a + " ineligible (need "@ + decimal(need(input))
                + " bytes in zpool "@ + wanted(input, inv) + ")"@ + reasons,
            None => "no eligible target: need "@ + decimal(need(input)) + " bytes in zpool "@
                + wanted(input, inv) + " (for destination "@ + destination(input, inv)
                + ") on a ready node (excluding source "@ + input.source_node_id + ")"@ + reasons,
        }
    }
}

/// The candidate that is chosen, if there is one.
pub open spec fn chosen(input: SelectionView, inv: InventoryView) -> Option<CandidateView> {
    if excludes_all(class_of(inv)) {
        None
    } else {
        let cs = candidates(input, inv, inv.zfsnodes);
        match best(cs) {
            Some(i) => Some(cs[i]),
            None => None,
        }
    }
}

/// The index [`best`] finds lies within the list.
proof fn lemma_best(cs: Seq<CandidateView>)
    ensures
        cs.len() == 0 <==> best(cs) is None,
        best(cs) matches Some(i) ==> 0 <= i < cs.len() && forall|j: int|
            0 <= j < cs.len() ==> (#[trigger] cs[j]).left <= cs[i].left,
    decreases cs.len(),
{
    if cs.len() > 0 {
        let front = cs.drop_last();
        lemma_best(front);
        if let Some(i) = best(front) {
            let k = best(cs)->0;
            assert(cs[i] == front[i]);
            assert forall|j: int| 0 <= j < cs.len() implies (#[trigger] cs[j]).left
                <= cs[k].left by {
                if j < front.len() {
                    assert(cs[j] == front[j]);
                }
            }
        }
    }
}

fn named_node(nodes: &Vec<Node>, name: &str) -> (r: Option<usize>)
    ensures
        match r {
            Some(i) => named_index(nodes@, name@) == Some(i as int) && i < nodes@.len(),
            None => named_index(nodes@, name@) is None,
        },
{
    let ghost p = |n: Node| n.metadata.any_name() == name@;
    for i in 0..nodes.len()
        invariant
            p == (|n: Node| n.metadata.any_name() == name@),
            forall|j: int| 0 <= j < i ==> !p(#[trigger] nodes@[j]),
    {
        if same(nodes[i].metadata.name_any().as_str(), name) {
            proof {
                lemma_first_index(nodes@, p, i as int);
            }
            return Some(i);
        }
    }
    proof {
        lemma_first_index(nodes@, p, nodes@.len() as int);
    }
    None
}

fn asked_node<'a>(input: &SelectionInput<'a>) -> (r: Option<&'a str>)
    ensures
        str_opt(r) == asked(input@),
{
    match &input.spec.target_node {
        Some(n) => Some(n.as_str()),
        None => input.anchor,
    }
}

fn is_in_question(input: &SelectionInput, inv: &Inventory, id: &str) -> (r: bool)
    ensures
        r == in_question(input@, inv@, id@),
{
    if same(id, input.source_node_id) {
        return false;
    }
    match asked_node(input) {
        None => true,
        Some(a) => {
            if same(a, id) {
                return true;
            }
            match named_node(inv.nodes, a) {
                Some(i) => same(node_id_of(&inv.nodes[i]).as_str(), id),
                None => false,
            }
        },
    }
}

fn class<'a>(inv: &Inventory<'a>) -> (r: Option<&'a StorageClass>)
    ensures
        value_of(r) == class_of(inv@),
{
    match inv.storage_class {
        Some((_, c)) => Some(c),
        None => None,
    }
}

fn find_obstacle(input: &SelectionInput, inv: &Inventory, id: &str) -> (r: Result<
    usize,
    &'static str,
>)
    ensures
        match r {
            Ok(i) => obstacle(input@, inv@, id@) is None && i < inv.nodes@.len() && node_index(
                inv.nodes@,
                id@,
            ) == Some(i as int),
            Err(why) => obstacle(input@, inv@, id@) == Some(why@),
        },
{
    let topology = read_topologies(class(inv), id);
    if topology.constrains && !topology.lists_it {
        return Err("outside the StorageClass allowedTopologies");
    }
    let i: usize = match find_node(inv.nodes, id) {
        Some(i) => i,
        None => return Err("no Node with this openebs.io/nodeid"),
    };
    let node = &inv.nodes[i];
    if !node_is_ready(node) {
        return Err("not Ready or unschedulable");
    }
    // A node marked for evacuation must never receive evacuated data.
    if node_has_evacuate_taint(node, inv.taint_key) {
        return Err("carries the evacuate taint");
    }
    if is_receiving(inv.evacs, input.evac_name, id) {
        return Err("already receiving another evacuation");
    }
    if let Some(p) = input.placement {
        if !p.admits(node) {
            return Err("excluded by the consumer pod's nodeSelector/affinity/tolerations");
        }
    }
    Ok(i)
}

/// The views of candidates.
pub open spec fn candidate_views(v: Seq<Candidate>) -> Seq<CandidateView> {
    v.map_values(|c: Candidate| c@)
}

fn push_candidate(v: &mut Vec<Candidate>, c: Candidate)
    ensures
        candidate_views(final(v)@) == candidate_views(old(v)@).push(c@),
{
    v.push(c);
    assert(candidate_views(v@) =~= candidate_views(old(v)@).push(c@));
}

fn push_text(v: &mut Vec<String>, t: String)
    ensures
        views(final(v)@) == views(old(v)@).push(t@),
{
    v.push(t);
    assert(views(v@) =~= views(old(v)@).push(t@));
}

/// Looks at the pools of a node that nothing else speaks against.
fn look_at_pools(
    input: &SelectionInput,
    inv: &Inventory,
    id: &str,
    node: usize,
    pools: &Vec<ZfsPool>,
    zpool_name: &str,
    demand: u128,
    found: &mut Vec<Candidate>,
    rejected: &mut Vec<String>,
)
    requires
        node_index(inv.nodes@, id@) == Some(node as int),
        node < inv.nodes@.len(),
        zpool_name@ == wanted(input@, inv@),
        demand == need(input@),
    ensures
        candidate_views(final(found)@) == candidate_views(old(found)@) + pool_candidates(
            input@,
            inv@,
            id@,
            pools@,
        ),
        views(final(rejected)@) == (if has_pool(pools@, zpool_name@) {
            views(old(rejected)@) + pool_rejections(input@, inv@, id@, pools@)
        } else {
            (views(old(rejected)@) + pool_rejections(input@, inv@, id@, pools@)).push(
                id@ + ": "@ + "no zpool "@ + zpool_name@,
            )
        }),
{
    let ghost found0 = candidate_views(found@);
    let ghost rejected0 = views(rejected@);
    let reserve: u128 = reservations(inv.evacs, input.evac_name, id, zpool_name);
    let mut any = false;
    assert(found0 + Seq::<CandidateView>::empty() =~= found0);
    assert(rejected0 + Seq::<Seq<char>>::empty() =~= rejected0);
    for i in 0..pools.len()
        invariant
            node_index(inv.nodes@, id@) == Some(node as int),
            node < inv.nodes@.len(),
            zpool_name@ == wanted(input@, inv@),
            demand == need(input@),
            reserve == capped(
                reserved(inv.evacs@, inv.evacs@.len(), input.evac_name@, id@, zpool_name@),
            ),
            any == exists|k: int| 0 <= k < i && (#[trigger] pools@[k]).name@ == zpool_name@,
            candidate_views(found@) == found0 + pool_candidates(
                input@,
                inv@,
                id@,
                pools@.take(i as int),
            ),
            views(rejected@) == rejected0 + pool_rejections(
                input@,
                inv@,
                id@,
                pools@.take(i as int),
            ),
    {
        let pool = &pools[i];
        assert(pools@.take(i + 1).drop_last() == pools@.take(i as int));
        assert(pools@.take(i + 1).last() == *pool);
        if same(pool.name.as_str(), zpool_name) {
            assert(pools@[i as int].name@ == zpool_name@);
            any = true;
            let free: u128 = match &pool.free {
                Some(q) => match parse_quantity_or_bytes(q.as_str()) {
                    Some(n) => n,
                    None => 0,
                },
                None => 0,
            };
            let rest: u128 = if free > reserve {
                free - reserve
            } else {
                0
            };
            assert(rest == left(input@, inv@, id@, *pool));
            let ghost f0 = candidate_views(found@);
            let ghost r0 = views(rejected@);
            if rest >= demand {
                push_candidate(
                    found,
                    Candidate {
                        node: inv.nodes[node].metadata.name_any(),
                        node_id: id.to_owned(),
                        left: rest,
                    },
                );
                assert(candidate_views(found@) =~= found0 + pool_candidates(
                    input@,
                    inv@,
                    id@,
                    pools@.take(i + 1),
                ));
            } else {
                let mut why = cat3(id, ": ", "zpool ");
                why.append(zpool_name);
                why.append(" has ");
                why.append(to_decimal(rest).as_str());
                why.append(" bytes free after reservations, need ");
                why.append(to_decimal(demand).as_str());
                push_text(rejected, why);
                assert(views(rejected@) =~= rejected0 + pool_rejections(
                    input@,
                    inv@,
                    id@,
                    pools@.take(i + 1),
                ));
            }
        }
    }
    assert(pools@.take(pools@.len() as int) == pools@);
    if !any {
        let mut why = cat3(id, ": ", "no zpool ");
        why.append(zpool_name);
        push_text(rejected, why);
    }
}

/// Chooses where an evacuation's data goes: on a node other than the source
/// that is ready, unmarked, idle, allowed and admitted, the zpool with the
/// most space left after reservations. The handle of the new volume is left to
/// the caller.
pub fn select_target(input: &SelectionInput, inv: &Inventory) -> (r: Result<TargetInfo, String>)
    requires
        computable(input@),
    ensures
        r is Ok == chosen(input@, inv@) is Some,
        r matches Ok(t) ==> {
            &&& t.node@ == chosen(input@, inv@)->0.node
            &&& t.node_id@ == chosen(input@, inv@)->0.node_id
            &&& t.pool@ == destination(input@, inv@)
            &&& t.new_volume_handle@ == Seq::<char>::empty()
        },
        r matches Err(why) ==> why@ == refusal(input@, inv@),
{
    let class_pool = sc_poolname(class(inv));
    let (dest_pool, _rule) = resolve_dest_poolname(
        match &input.spec.target_pool {
            Some(p) => Some(p.as_str()),
            None => None,
        },
        match &class_pool {
            Some(p) => Some(p.as_str()),
            None => None,
        },
        input.source_pool,
    );
    let component = pool_component(dest_pool.as_str());
    let percent: u128 = match input.spec.headroom_percent {
        Some(p) => p as u128,
        None => DEFAULT_HEADROOM_PERCENT as u128,
    };
    let total: u128 = input.capacity_bytes + input.group_extra_bytes;
    let demand: u128 = total + total * percent / 100;
    // The identity does not matter to whether any is listed.
    let topology = read_topologies(class(inv), "");
    if topology.constrains && !topology.lists_some {
        if let Some((name, _)) = inv.storage_class {
            return Err(cat3("StorageClass ", name, " allowedTopologies excludes every node"));
        }
    }
    let mut found: Vec<Candidate> = Vec::new();
    let mut rejected: Vec<String> = Vec::new();
    assert(candidate_views(found@) =~= Seq::<CandidateView>::empty());
    assert(views(rejected@) =~= Seq::<Seq<char>>::empty());
    for i in 0..inv.zfsnodes.len()
        invariant
            component@ == wanted(input@, inv@),
            demand == need(input@),
            candidate_views(found@) == candidates(input@, inv@, inv.zfsnodes@.take(i as int)),
            views(rejected@) == rejections(input@, inv@, inv.zfsnodes@.take(i as int)),
    {
        let zn = &inv.zfsnodes[i];
        assert(inv.zfsnodes@.take(i + 1).drop_last() == inv.zfsnodes@.take(i as int));
        assert(inv.zfsnodes@.take(i + 1).last() == *zn);
        let id = zn.metadata.name_any();
        if is_in_question(input, inv, id.as_str()) {
            match find_obstacle(input, inv, id.as_str()) {
                Err(why) => {
                    push_text(&mut rejected, cat3(id.as_str(), ": ", why));
                },
                Ok(node) => {
                    look_at_pools(
                        input,
                        inv,
                        id.as_str(),
                        node,
                        &zn.pools,
                        component.as_str(),
                        demand,
                        &mut found,
                        &mut rejected,
                    );
                },
            }
        }
    }
    assert(inv.zfsnodes@.take(inv.zfsnodes@.len() as int) == inv.zfsnodes@);
    let ghost cs = candidate_views(found@);
    proof {
        lemma_best(cs);
    }
    if found.len() > 0 {
        let mut top: usize = 0;
        assert(best(cs.take(1)) == Some(0int)) by {
            assert(best(cs.take(1).drop_last()) is None);
        }
        for i in 1..found.len()
            invariant
                cs == candidate_views(found@),
                top < i,
                best(cs.take(i as int)) == Some(top as int),
        {
            proof {
                let t = cs.take(i + 1);
                assert(t.drop_last() == cs.take(i as int));
                assert(t.last() == found@[i as int]@);
                assert(t[top as int] == found@[top as int]@);
            }
            if found[i].left > found[top].left {
                top = i;
            }
        }
        assert(cs.take(cs.len() as int) == cs);
        assert(cs[top as int] == found@[top as int]@);
        return Ok(
            TargetInfo {
                node: found[top].node.clone(),
                node_id: found[top].node_id.clone(),
                pool: dest_pool,
                new_volume_handle: String::new(),
            },
        );
    }
    let reasons = if rejected.len() == 0 {
        String::new()
    } else {
        cat("; ", join(&rejected, ", ").as_str())
    };
    assert(views(rejected@).len() == rejected@.len());
    let mut why;
    match asked_node(input) {
        Some(a) => {
            why = cat3("target ", a, " ineligible (need ");
            why.append(to_decimal(demand).as_str());
            why.append(" bytes in zpool ");
            why.append(component.as_str());
            why.append(")");
        },
        None => {
            why = cat("no eligible target: need ", to_decimal(demand).as_str());
            why.append(" bytes in zpool ");
            why.append(component.as_str());
            why.append(" (for destination ");
            why.append(dest_pool.as_str());
            why.append(") on a ready node (excluding source ");
            why.append(input.source_node_id);
            why.append(")");
        },
    }
    why.append(reasons.as_str());
    Err(why)
}

// ------------------------------------------------------------------ what holds of a choice

/// Can this zpool of this node take the data?
pub open spec fn eligible(
    input: SelectionView,
    inv: InventoryView,
    zn: ZFSNode,
    pool: ZfsPool,
) -> bool {
    let id = zn.metadata.any_name();
    &&& in_question(input, inv, id)
    &&& obstacle(input, inv, id) is None
    &&& pool.name@ == wanted(input, inv)
    &&& left(input, inv, id, pool) >= need(input)
}

/// An eligible zpool as a candidate.
pub open spec fn as_candidate(
    input: SelectionView,
    inv: InventoryView,
    zn: ZFSNode,
    pool: ZfsPool,
) -> CandidateView {
    let id = zn.metadata.any_name();
    CandidateView {
        node: inv.nodes[node_index(inv.nodes, id)->0].metadata.any_name(),
        node_id: id,
        left: left(input, inv, id, pool),
    }
}

proof fn lemma_pool_candidates(
    input: SelectionView,
    inv: InventoryView,
    zn: ZFSNode,
    pools: Seq<ZfsPool>,
)
    requires
        in_question(input, inv, zn.metadata.any_name()),
        obstacle(input, inv, zn.metadata.any_name()) is None,
    ensures
        ({
            let cs = pool_candidates(input, inv, zn.metadata.any_name(), pools);
            &&& forall|k: int|
                0 <= k < cs.len() ==> exists|j: int|
                    0 <= j < pools.len() && eligible(input, inv, zn, #[trigger] pools[j])
                        && #[trigger] cs[k] == as_candidate(input, inv, zn, pools[j])
            &&& forall|j: int|
                0 <= j < pools.len() && eligible(input, inv, zn, #[trigger] pools[j])
                    ==> cs.contains(as_candidate(input, inv, zn, pools[j]))
        }),
    decreases pools.len(),
{
    let id = zn.metadata.any_name();
    let cs = pool_candidates(input, inv, id, pools);
    if pools.len() > 0 {
        let front = pools.drop_last();
        let fs = pool_candidates(input, inv, id, front);
        lemma_pool_candidates(input, inv, zn, front);
        assert forall|k: int| 0 <= k < cs.len() implies exists|j: int|
            0 <= j < pools.len() && eligible(input, inv, zn, #[trigger] pools[j])
                && #[trigger] cs[k] == as_candidate(input, inv, zn, pools[j]) by {
            if k < fs.len() {
                let j = choose|j: int|
                    0 <= j < front.len() && eligible(input, inv, zn, #[trigger] front[j])
                        && fs[k] == as_candidate(input, inv, zn, front[j]);
                assert(pools[j] == front[j]);
            } else {
                assert(eligible(input, inv, zn, pools[pools.len() - 1]));
            }
        }
        assert forall|j: int|
            0 <= j < pools.len() && eligible(input, inv, zn, #[trigger] pools[j]) implies cs.contains(
            as_candidate(input, inv, zn, pools[j]),
        ) by {
            if j < front.len() {
                assert(front[j] == pools[j]);
                let k = choose|k: int|
                    0 <= k < fs.len() && fs[k] == as_candidate(input, inv, zn, front[j]);
                assert(cs[k] == fs[k]);
            } else {
                assert(cs[cs.len() - 1] == as_candidate(input, inv, zn, pools[j]));
            }
        }
    }
}

/// Does one of the nodes have an eligible zpool that makes this candidate?
pub open spec fn offers(
    input: SelectionView,
    inv: InventoryView,
    zns: Seq<ZFSNode>,
    c: CandidateView,
) -> bool {
    exists|i: int, j: int|
        0 <= i < zns.len() && 0 <= j < zns[i].pools@.len() && eligible(
            input,
            inv,
            zns[i],
            #[trigger] zns[i].pools@[j],
        ) && c == as_candidate(input, inv, zns[i], zns[i].pools@[j])
}

proof fn lemma_candidates(input: SelectionView, inv: InventoryView, zns: Seq<ZFSNode>)
    ensures
        ({
            let cs = candidates(input, inv, zns);
            &&& forall|k: int| 0 <= k < cs.len() ==> offers(input, inv, zns, #[trigger] cs[k])
            &&& forall|i: int, j: int|
                0 <= i < zns.len() && 0 <= j < zns[i].pools@.len() && eligible(
                    input,
                    inv,
                    zns[i],
                    #[trigger] zns[i].pools@[j],
                ) ==> cs.contains(as_candidate(input, inv, zns[i], zns[i].pools@[j]))
        }),
    decreases zns.len(),
{
    let cs = candidates(input, inv, zns);
    if zns.len() > 0 {
        let front = zns.drop_last();
        let zn = zns.last();
        let id = zn.metadata.any_name();
        let fs = candidates(input, inv, front);
        let open = in_question(input, inv, id) && obstacle(input, inv, id) is None;
        let ps = pool_candidates(input, inv, id, zn.pools@);
        lemma_candidates(input, inv, front);
        if open {
            lemma_pool_candidates(input, inv, zn, zn.pools@);
        }
        assert forall|k: int| 0 <= k < cs.len() implies offers(
            input,
            inv,
            zns,
            #[trigger] cs[k],
        ) by {
            if k < fs.len() {
                assert(cs[k] == fs[k]);
                assert(offers(input, inv, front, fs[k]));
                let (i, j) = choose|i: int, j: int|
                    0 <= i < front.len() && 0 <= j < front[i].pools@.len() && eligible(
                        input,
                        inv,
                        front[i],
                        #[trigger] front[i].pools@[j],
                    ) && fs[k] == as_candidate(input, inv, front[i], front[i].pools@[j]);
                assert(zns[i] == front[i]);
                assert(eligible(input, inv, zns[i], zns[i].pools@[j]));
            } else {
                assert(cs[k] == ps[k - fs.len()]);
                let j = choose|j: int|
                    0 <= j < zn.pools@.len() && eligible(input, inv, zn, #[trigger] zn.pools@[j])
                        && ps[k - fs.len()] == as_candidate(input, inv, zn, zn.pools@[j]);
                let i = zns.len() - 1;
                assert(zns[i] == zn);
                assert(eligible(input, inv, zns[i], zns[i].pools@[j]));
            }
        }
        assert forall|i: int, j: int|
            0 <= i < zns.len() && 0 <= j < zns[i].pools@.len() && eligible(
                input,
                inv,
                zns[i],
                #[trigger] zns[i].pools@[j],
            ) implies cs.contains(as_candidate(input, inv, zns[i], zns[i].pools@[j])) by {
            let c = as_candidate(input, inv, zns[i], zns[i].pools@[j]);
            if i < front.len() {
                assert(front[i] == zns[i]);
                assert(eligible(input, inv, front[i], front[i].pools@[j]));
                let k = choose|k: int| 0 <= k < fs.len() && fs[k] == c;
                assert(cs[k] == fs[k]);
            } else {
                assert(eligible(input, inv, zn, zn.pools@[j]));
                let k = choose|k: int| 0 <= k < ps.len() && ps[k] == c;
                assert(cs[fs.len() + k] == ps[k]);
            }
        }
    }
}

/// A target is chosen exactly if some zpool is eligible, and it is an eligible
/// one with the most space left: never on the source, never on a node that is
/// not ready, marked for evacuation, already receiving, outside the
/// StorageClass's topologies or out of the consumer's reach, never another
/// node than the one asked for, and never without the space demanded.
pub proof fn target_is_eligible(input: SelectionView, inv: InventoryView)
    requires
        !excludes_all(class_of(inv)),
    ensures
        chosen(input, inv) is Some == exists|i: int, j: int|
            0 <= i < inv.zfsnodes.len() && 0 <= j < inv.zfsnodes[i].pools@.len() && eligible(
                input,
                inv,
                inv.zfsnodes[i],
                #[trigger] inv.zfsnodes[i].pools@[j],
            ),
        chosen(input, inv) matches Some(c) ==> {
            &&& offers(input, inv, inv.zfsnodes, c)
            &&& forall|i: int, j: int|
                0 <= i < inv.zfsnodes.len() && 0 <= j < inv.zfsnodes[i].pools@.len() && eligible(
                    input,
                    inv,
                    inv.zfsnodes[i],
                    #[trigger] inv.zfsnodes[i].pools@[j],
                ) ==> left(
                    input,
                    inv,
                    inv.zfsnodes[i].metadata.any_name(),
                    inv.zfsnodes[i].pools@[j],
                ) <= c.left
            &&& c.node_id != input.source_node_id
            &&& c.left >= need(input)
            &&& node_index(inv.nodes, c.node_id) matches Some(n) && c.node
                == inv.nodes[n].metadata.any_name() && is_ready(inv.nodes[n]) && !has_taint(
                inv.nodes[n],
                inv.taint_key,
            ) && (input.placement is Some ==> input.placement->0.allows(inv.nodes[n]))
            &&& !receiving(inv.evacs, input.evac_name, c.node_id)
            &&& constrained(class_of(inv)) ==> listed(class_of(inv), c.node_id)
            &&& asked(input) matches Some(a) ==> stands_for(inv.nodes, a, c.node_id)
        },
{
    let zns = inv.zfsnodes;
    let cs = candidates(input, inv, zns);
    lemma_candidates(input, inv, zns);
    lemma_best(cs);
    if let Some(c) = chosen(input, inv) {
        let k = best(cs)->0;
        assert(cs[k] == c);
        assert(offers(input, inv, zns, cs[k]));
        assert forall|i: int, j: int|
            0 <= i < zns.len() && 0 <= j < zns[i].pools@.len() && eligible(
                input,
                inv,
                zns[i],
                #[trigger] zns[i].pools@[j],
            ) implies left(input, inv, zns[i].metadata.any_name(), zns[i].pools@[j])
            <= c.left by {
            let d = as_candidate(input, inv, zns[i], zns[i].pools@[j]);
            let m = choose|m: int| 0 <= m < cs.len() && cs[m] == d;
            assert(cs[m].left <= cs[k].left);
        }
    }
}

/// An evacuation that completes gives up the space of its own volume, and keeps
/// that of its group's unplaced members.
pub proof fn completion_releases_only_its_own(
    before: ZFSEvacuation,
    after: ZFSEvacuation,
    chooser: Seq<char>,
    evacs: Seq<ZFSEvacuation>,
)
    requires
        before.status is Some,
        before.status->0.phase != Phase::Completed,
        after.status is Some,
        after.status->0.phase == Phase::Completed,
        after.metadata.any_name() == before.metadata.any_name(),
        after.status->0.colocation == before.status->0.colocation,
    ensures
        share(after, chooser, evacs) + own_bytes(before) == share(before, chooser, evacs),
{
}

/// A group's members are never counted against the one that is choosing, nor
/// against one that has chosen.
pub proof fn placed_members_are_not_counted(
    members: Seq<ColocationMember>,
    leader: Seq<char>,
    chooser: Seq<char>,
    evacs: Seq<ZFSEvacuation>,
)
    requires
        forall|i: int|
            0 <= i < members.len() ==> (#[trigger] members[i]).pv_name@ == leader
                || members[i].pv_name@ == chooser || placed(evacs, members[i].pv_name@),
    ensures
        group_bytes(members, leader, chooser, evacs) == 0,
    decreases members.len(),
{
    if members.len() > 0 {
        let front = members.drop_last();
        assert forall|i: int| 0 <= i < front.len() implies (#[trigger] front[i]).pv_name@ == leader
            || front[i].pv_name@ == chooser || placed(evacs, front[i].pv_name@) by {
            assert(front[i] == members[i]);
        }
        placed_members_are_not_counted(front, leader, chooser, evacs);
        assert(members[members.len() - 1] == members.last());
    }
}

} // verus!
