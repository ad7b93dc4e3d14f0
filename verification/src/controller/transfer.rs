//! The Transferring phase: per-attempt relay lifecycle, the pure verdict that
//! orders success/failure/staleness/timeout/stall, ZFSBackup/ZFSRestore CR
//! management, and the target-side transfer-snapshot cleanup used by
//! CleaningUp.
use vstd::prelude::*;

use crate::cluster::{fresh, list_or_empty, Lookup, Node, NodeAddress};
use crate::controller::clock::{
    rfc3339_at, rfc3339_text, second_of, seconds_since, secs_since_at, Moment,
};
use crate::controller::plan::{
    error_text, Action, Effect, EffectView, Error, FinalizerEdit, Kind, Need, NeedView, Outcome,
    Plan, PlanView, Seen, Step, StepView,
};
use crate::controller::state_machine::{
    aborting, advance, advanced, done, no_effects, pause, paused, single, turn_back, wait, waiting,
};
use crate::controller::{
    adapt_to_target, adapted, pending_status, Config, DEFAULT_MAX_ATTEMPTS,
    DEFAULT_TRANSFER_TIMEOUT,
};
use crate::crd::openebs::{
    named, BackupView, InfoView, RestoreView, VolumeInfo, VolumeView, ZFSBackup, ZFSBackupSpec,
    ZFSRestore, ZFSRestoreSpec, ZFSSnapshot, ZFSSnapshotSpec, BKP_STATUS_DONE, BKP_STATUS_FAILED,
    BKP_STATUS_INIT, BKP_STATUS_INVALID, NODE_NAME_LABEL, OPENEBS_GROUP, ZFS_FINALIZER,
    ZFS_STATUS_PENDING, ZFS_VOL_LABEL,
};
use crate::crd::zfs_evacuation::{
    Phase, SourceView, StatusView, TargetInfo, TargetView, TransferStatus, TransferView,
    ZFSEvacuation, ZFSEvacuationStatus,
};
use crate::string_map::StringMap;
use crate::text::{
    cat, cat3, decimal, hex, is_among, opt, owned_or_empty, same, text_or_empty, to_decimal, to_hex,
    views,
};
use crate::transfer::relay::{cidr, ip_of, IpAddr, IpNet};

verus! {

// ------------------------------------------------------------------ names

/// The name of an attempt's backup.
pub open spec fn backup_name(evac: Seq<char>, attempt: u32) -> Seq<char> {
    evac + "-evac-a"@ + decimal(attempt as nat)
}

/// The name of an attempt's restore.
pub open spec fn restore_name(evac: Seq<char>, attempt: u32) -> Seq<char> {
    evac + "-evacr-a"@ + decimal(attempt as nat)
}

/// The name of an attempt's backup.
pub fn bkp_name(evac: &str, attempt: u32) -> (r: String)
    ensures
        r@ == backup_name(evac@, attempt),
{
    cat3(evac, "-evac-a", to_decimal(attempt as u128).as_str())
}

/// The name of an attempt's restore.
pub fn rst_name(evac: &str, attempt: u32) -> (r: String)
    ensures
        r@ == restore_name(evac@, attempt),
{
    cat3(evac, "-evacr-a", to_decimal(attempt as u128).as_str())
}

/// The name of an attempt's transfer snapshot; the number sets it apart from what
/// other evacuations may have left.
pub open spec fn snapshot_text(attempt: u32, noise: u16) -> Seq<char> {
    "zevac-a"@ + decimal(attempt as nat) + "-"@ + hex(noise as nat, 4)
}

/// The name of an attempt's transfer snapshot.
pub fn snapshot_name(attempt: u32, noise: u16) -> (r: String)
    ensures
        r@ == snapshot_text(attempt, noise),
{
    let mut r = cat3("zevac-a", to_decimal(attempt as u128).as_str(), "-");
    r.append(to_hex(noise as u128, 4).as_str());
    r
}

// ------------------------------------------------------------------ the verdict

/// What is known of a live relay.
#[derive(Clone, Copy, Debug)]
pub struct RelayObs {
    pub attempt: u32,
    /// Bytes delivered to the target (the relay counts drain-side writes), so
    /// bytes > 0 implies the target is connected and receiving.
    pub bytes: u64,
    pub last_activity: u64,
    pub task_finished: bool,
    pub source_connected: bool,
}

/// Everything the transfer phase can observe about an attempt, gathered in one
/// struct so the precedence between success, failure, staleness, the attempt
/// timeout and the stall detector lives in exactly one place:
/// [`transfer_verdict`].
#[derive(Debug)]
pub struct TransferObs {
    pub attempt: u32,
    pub failure_reason: Option<String>,
    pub bkp_status: String,
    pub rst_status: String,
    pub rst_exists: bool,
    pub mem: Option<RelayObs>,
    pub elapsed_secs: u64,
    pub now_secs: u64,
    pub timeout_secs: u64,
    pub stall_secs: u64,
}

/// Everything the transfer phase can observe about an attempt.
#[verifier::ext_equal]
pub struct ObsView {
    pub attempt: u32,
    pub failure_reason: Option<Seq<char>>,
    pub bkp_status: Seq<char>,
    pub rst_status: Seq<char>,
    pub rst_exists: bool,
    pub mem: Option<RelayObs>,
    pub elapsed_secs: u64,
    pub now_secs: u64,
    pub timeout_secs: u64,
    pub stall_secs: u64,
}

impl View for TransferObs {
    type V = ObsView;

    open spec fn view(&self) -> ObsView {
        ObsView {
            attempt: self.attempt,
            failure_reason: opt(self.failure_reason),
            bkp_status: self.bkp_status@,
            rst_status: self.rst_status@,
            rst_exists: self.rst_exists,
            mem: self.mem,
            elapsed_secs: self.elapsed_secs,
            now_secs: self.now_secs,
            timeout_secs: self.timeout_secs,
            stall_secs: self.stall_secs,
        }
    }
}

/// What is to be done about an attempt.
#[derive(Debug, PartialEq, Eq)]
pub enum TransferVerdict {
    Complete { bytes: Option<u64> },
    FailAttempt(String),
    /// Status view older than the live relay: touch nothing.
    StaleStatus,
    /// Relay older than the recorded attempt: drop it.
    StaleRelay,
    WaitingForSource,
    CreateRestore,
    Continue { bytes: u64 },
}

/// What is to be done about an attempt.
#[verifier::ext_equal]
pub enum VerdictView {
    Complete(Option<u64>),
    FailAttempt(Seq<char>),
    StaleStatus,
    StaleRelay,
    WaitingForSource,
    CreateRestore,
    Continue(u64),
}

impl View for TransferVerdict {
    type V = VerdictView;

    open spec fn view(&self) -> VerdictView {
        match *self {
            TransferVerdict::Complete { bytes } => VerdictView::Complete(bytes),
            TransferVerdict::FailAttempt(r) => VerdictView::FailAttempt(r@),
            TransferVerdict::StaleStatus => VerdictView::StaleStatus,
            TransferVerdict::StaleRelay => VerdictView::StaleRelay,
            TransferVerdict::WaitingForSource => VerdictView::WaitingForSource,
            TransferVerdict::CreateRestore => VerdictView::CreateRestore,
            TransferVerdict::Continue { bytes } => VerdictView::Continue(bytes),
        }
    }
}

/// Does a status say that the agent gave up?
pub open spec fn gave_up(status: Seq<char>) -> bool {
    status == BKP_STATUS_FAILED@ || status == BKP_STATUS_INVALID@
}

/// Is a stream delivering bytes to the target?
pub open spec fn flowing(m: RelayObs) -> bool {
    !m.task_finished && m.bytes > 0
}

/// What is to be done about an attempt, by precedence:
/// success before everything, a recorded failure included; then the recorded
/// failure, the agents' own, a missing relay, stale views, the timeout of
/// whatever is not flowing, the creation of the restore, and a stalled stream.
pub open spec fn verdict(o: ObsView) -> VerdictView {
    if o.bkp_status == BKP_STATUS_DONE@ && o.rst_status == BKP_STATUS_DONE@ {
        VerdictView::Complete(
            match o.mem {
                Some(m) => Some(m.bytes),
                None => None,
            },
        )
    } else if o.failure_reason is Some {
        VerdictView::FailAttempt(o.failure_reason->0)
    } else if gave_up(o.bkp_status) {
        VerdictView::FailAttempt("backup reported status "@ + o.bkp_status)
    } else if gave_up(o.rst_status) {
        VerdictView::FailAttempt("restore reported status "@ + o.rst_status)
    } else if o.mem is None {
        VerdictView::FailAttempt("controller restarted mid-transfer"@)
    } else {
        let m = o.mem->0;
        if m.attempt > o.attempt {
            VerdictView::StaleStatus
        } else if m.attempt < o.attempt {
            VerdictView::StaleRelay
        } else if !flowing(m) && o.elapsed_secs > o.timeout_secs {
            VerdictView::FailAttempt("transfer timed out"@)
        } else if !o.rst_exists {
            if m.source_connected {
                VerdictView::CreateRestore
            } else {
                VerdictView::WaitingForSource
            }
        } else if flowing(m) && o.now_secs - m.last_activity > o.stall_secs {
            VerdictView::FailAttempt("transfer stalled (no bytes)"@)
        } else {
            VerdictView::Continue(m.bytes)
        }
    }
}

/// What is to be done about an attempt.
pub fn transfer_verdict(o: &TransferObs) -> (r: TransferVerdict)
    ensures
        r@ == verdict(o@),
{
    // Success wins over everything, a recorded failure_reason included: a
    // teardown that loses the race against the agents' Done flips must salvage
    // the received data, not destroy it.
    if same(o.bkp_status.as_str(), BKP_STATUS_DONE) && same(
        o.rst_status.as_str(),
        BKP_STATUS_DONE,
    ) {
        let bytes: Option<u64> = match &o.mem {
            Some(m) => Some(m.bytes),
            None => None,
        };
        return TransferVerdict::Complete { bytes };
    }
    // An attempt already judged failed is only ever torn down; re-deriving a
    // verdict from its half-deleted CRs and dropped relay would replace the
    // real reason with a bogus one ("controller restarted").
    if let Some(r) = &o.failure_reason {
        return TransferVerdict::FailAttempt(r.clone());
    }
    if agent_gave_up(o.bkp_status.as_str()) {
        return TransferVerdict::FailAttempt(
            cat("backup reported status ", o.bkp_status.as_str()),
        );
    }
    if agent_gave_up(o.rst_status.as_str()) {
        return TransferVerdict::FailAttempt(
            cat("restore reported status ", o.rst_status.as_str()),
        );
    }
    let m = match &o.mem {
        Some(m) => m,
        // A recorded, non-terminal attempt with no live relay: the controller
        // restarted mid-transfer. Invalidate the attempt.
        None => return TransferVerdict::FailAttempt(
            "controller restarted mid-transfer".to_owned(),
        ),
    };
    // Reconciles can carry a stale cached status (an event older than our own
    // last write). A live relay newer than the status view must never be
    // killed: that cascades into burning every attempt. Only a relay older
    // than the recorded attempt is stale and safe to drop.
    if m.attempt > o.attempt {
        return TransferVerdict::StaleStatus;
    }
    if m.attempt < o.attempt {
        return TransferVerdict::StaleRelay;
    }
    // One clock bounds every non-flowing state: waiting for the source, waiting
    // for the target (including a source that already ended into the buffer),
    // and the agents' post-stream finalization. Only a stream actually
    // delivering bytes to the target is exempt: tearing down a progressing
    // transfer only to restart it from zero can never finish.
    let moving = !m.task_finished && m.bytes > 0;
    if !moving && o.elapsed_secs > o.timeout_secs {
        return TransferVerdict::FailAttempt("transfer timed out".to_owned());
    }
    // The target is dialed only once the source is connected and flowing: the
    // agents close any connection idle for 3 s, so a target that connects
    // before the source has bytes dies before the stream starts.
    if !o.rst_exists {
        return if m.source_connected {
            TransferVerdict::CreateRestore
        } else {
            TransferVerdict::WaitingForSource
        };
    }
    // Stall detection applies only to a flowing stream that stops moving.
    // Before the target connects, last_activity freezes at the source's end or
    // at a full buffer: that state belongs to the attempt timeout above.
    if moving && o.now_secs > m.last_activity && o.now_secs - m.last_activity > o.stall_secs {
        return TransferVerdict::FailAttempt("transfer stalled (no bytes)".to_owned());
    }
    TransferVerdict::Continue { bytes: m.bytes }
}

fn agent_gave_up(status: &str) -> (r: bool)
    ensures
        r == gave_up(status@),
{
    same(status, BKP_STATUS_FAILED) || same(status, BKP_STATUS_INVALID)
}

// ------------------------------------------------------------------ peers

/// The address of a node's address entry, if it is one to be reached by.
pub open spec fn node_ip(a: NodeAddress) -> Option<IpAddr> {
    if a.type_@ == "InternalIP"@ || a.type_@ == "ExternalIP"@ {
        ip_of(a.address@)
    } else {
        None
    }
}

/// The addresses a node can be reached by.
pub open spec fn ips_of(addresses: Seq<NodeAddress>) -> Seq<IpAddr>
    decreases addresses.len(),
{
    if addresses.len() == 0 {
        Seq::empty()
    } else {
        let front = ips_of(addresses.drop_last());
        match node_ip(addresses.last()) {
            Some(ip) => front.push(ip),
            None => front,
        }
    }
}

/// The addresses a node can be reached by.
pub fn node_ips(node: &Node) -> (r: Vec<IpAddr>)
    ensures
        r@ == ips_of(node.addresses()),
{
    let mut r: Vec<IpAddr> = Vec::new();
    let addresses = match &node.status {
        Some(s) => match &s.addresses {
            Some(a) => a,
            None => return r,
        },
        None => return r,
    };
    for i in 0..addresses.len()
        invariant
            addresses@ == node.addresses(),
            r@ == ips_of(addresses@.take(i as int)),
    {
        assert(addresses@.take(i + 1).drop_last() == addresses@.take(i as int));
        let a = &addresses[i];
        if same(a.type_.as_str(), "InternalIP") || same(a.type_.as_str(), "ExternalIP") {
            if let Some(ip) = IpAddr::parse(a.address.as_str()) {
                r.push(ip);
            }
        }
    }
    assert(addresses@.take(addresses@.len() as int) == addresses@);
    r
}

/// The networks of a node's pods, as it names them.
pub open spec fn pod_cidrs(node: Node) -> Seq<Seq<char>> {
    match node.spec {
        Some(s) => {
            let listed = views(list_or_empty(s.pod_cidrs));
            match opt(s.pod_cidr) {
                Some(c) => if listed.contains(c) {
                    listed
                } else {
                    listed.push(c)
                },
                None => listed,
            }
        },
        None => Seq::empty(),
    }
}

/// The networks that texts in CIDR notation write; others are passed over.
pub open spec fn nets_of(cidrs: Seq<Seq<char>>) -> Seq<IpNet>
    decreases cidrs.len(),
{
    if cidrs.len() == 0 {
        Seq::empty()
    } else {
        let front = nets_of(cidrs.drop_last());
        match cidr(cidrs.last()) {
            Some(n) => front.push(n),
            None => front,
        }
    }
}

/// The addresses the relay accepts from for a node: the node's own (agents on
/// the host network, or translated egress) and its pods' networks (agents on
/// the pod network, and the gateway address the traffic can be masqueraded to
/// when crossing nodes).
pub open spec fn peers_of(node: Node) -> Seq<IpNet> {
    ips_of(node.addresses()).map_values(
        |a: IpAddr| IpNet { addr: a, prefix: a.bits() as u8 },
    ) + nets_of(pod_cidrs(node))
}

/// Can all of these be matched against addresses?
pub open spec fn all_well_formed(nets: Seq<IpNet>) -> bool {
    forall|i: int| 0 <= i < nets.len() ==> (#[trigger] nets[i]).well_formed()
}

/// Finds the addresses the relay accepts from for a node.
pub fn relay_peers(node: &Node) -> (r: Vec<IpNet>)
    ensures
        r@ == peers_of(*node),
        all_well_formed(r@),
{
    let mut peers: Vec<IpNet> = Vec::new();
    let ips = node_ips(node);
    let ghost hosts = ips@.map_values(|a: IpAddr| IpNet { addr: a, prefix: a.bits() as u8 });
    for i in 0..ips.len()
        invariant
            hosts == ips@.map_values(|a: IpAddr| IpNet { addr: a, prefix: a.bits() as u8 }),
            peers@ == hosts.take(i as int),
            all_well_formed(peers@),
    {
        peers.push(IpNet::host(ips[i]));
        assert(peers@ =~= hosts.take(i + 1));
    }
    assert(peers@ =~= hosts);
    let mut cidrs: Vec<String> = Vec::new();
    if let Some(spec) = &node.spec {
        if let Some(listed) = &spec.pod_cidrs {
            cidrs = listed.clone();
        }
        assert(views(cidrs@) =~= views(list_or_empty(spec.pod_cidrs)));
        if let Some(c) = &spec.pod_cidr {
            if !is_among(&cidrs, c.as_str()) {
                let ghost c0 = views(cidrs@);
                cidrs.push(c.clone());
                assert(views(cidrs@) =~= c0.push(c@));
            }
        }
    }
    let ghost texts = views(cidrs@);
    assert(texts =~= pod_cidrs(*node));
    assert(hosts + nets_of(texts.take(0)) =~= hosts);
    for i in 0..cidrs.len()
        invariant
            texts == views(cidrs@),
            peers@ == hosts + nets_of(texts.take(i as int)),
            all_well_formed(peers@),
    {
        proof {
            assert(texts.take(i + 1).drop_last() == texts.take(i as int));
            assert(texts.take(i + 1).last() == cidrs@[i as int]@);
        }
        if let Some(n) = IpNet::parse_cidr(cidrs[i].as_str()) {
            peers.push(n);
            assert(peers@ =~= hosts + nets_of(texts.take(i + 1)));
        }
    }
    assert(texts.take(texts.len() as int) == texts);
    peers
}

// ------------------------------------------------------------------ attempts

/// A transfer attempt that is to be started: what has to be read, what stands
/// in its way, or the relay it needs.
pub open spec fn start_next(seen: Seen, st: StatusView, attempt: u32) -> (StatusView, StepView) {
    if st.source is None {
        (st, StepView::Fault(error_text(Error::NoSource)))
    } else if st.target is None {
        (st, StepView::Fault(error_text(Error::NoTarget)))
    } else if seen.relay is None {
        (st, StepView::Read(NeedView::Relay))
    } else if seen.relay->0 is Some && (seen.relay->0)->0.attempt >= attempt {
        // Never respawn over a live relay.
        paused(st, Seq::empty(), 5)
    } else {
        match (seen.source_node, seen.target_node) {
            (Lookup::Unread, _) => (st, StepView::Read(NeedView::SourceNode(st.source->0.node_id))),
            (Lookup::Absent, _) => (
                st,
                StepView::Fault("source node "@ + st.source->0.node_id + " gone"@),
            ),
            (_, Lookup::Unread) => (st, StepView::Read(NeedView::TargetNode(st.target->0.node_id))),
            (_, Lookup::Absent) => (
                st,
                StepView::Fault("target node "@ + st.target->0.node_id + " gone"@),
            ),
            (Lookup::Found(src), Lookup::Found(dst)) => if peers_of(src).len() == 0 {
                (
                    st,
                    StepView::Fault(
                        "no relay peer addresses found for node "@ + src.metadata.any_name(),
                    ),
                )
            } else if peers_of(dst).len() == 0 {
                (
                    st,
                    StepView::Fault(
                        "no relay peer addresses found for node "@ + dst.metadata.any_name(),
                    ),
                )
            } else {
                (st, StepView::Spawn(attempt, peers_of(src), peers_of(dst)))
            },
        }
    }
}

/// Starts an attempt: with the nodes at hand, asks for its relay.
pub fn start_attempt(seen: &Seen, st: &ZFSEvacuationStatus, attempt: u32) -> (r: Step)
    ensures
        (st@, r@) == start_next(*seen, st@, attempt),
        r matches Step::Spawn { attempt: _, backup_peers, restore_peers } ==> all_well_formed(
            backup_peers@,
        ) && all_well_formed(restore_peers@),
{
    let source = match &st.source {
        Some(s) => s,
        None => return Step::Fault(Error::NoSource),
    };
    let target = match &st.target {
        Some(t) => t,
        None => return Step::Fault(Error::NoTarget),
    };
    match &seen.relay {
        None => return Step::Read(Need::Relay),
        Some(live) => {
            if let Some(existing) = live {
                if existing.attempt >= attempt {
                    return pause(no_effects(), 5);
                }
            }
        },
    }
    let src = match &seen.source_node {
        Lookup::Unread => return Step::Read(Need::SourceNode(source.node_id.clone())),
        Lookup::Absent => return Step::Fault(Error::SourceNodeGone(source.node_id.clone())),
        Lookup::Found(n) => n,
    };
    let dst = match &seen.target_node {
        Lookup::Unread => return Step::Read(Need::TargetNode(target.node_id.clone())),
        Lookup::Absent => return Step::Fault(Error::TargetNodeGone(target.node_id.clone())),
        Lookup::Found(n) => n,
    };
    let backup_peers = relay_peers(src);
    if backup_peers.len() == 0 {
        return Step::Fault(Error::NoPeers(src.metadata.name_any()));
    }
    let restore_peers = relay_peers(dst);
    if restore_peers.len() == 0 {
        return Step::Fault(Error::NoPeers(dst.metadata.name_any()));
    }
    Step::Spawn { attempt, backup_peers, restore_peers }
}

/// Where an agent connects: our address and a port.
pub open spec fn endpoint(ip: Seq<char>, port: u16) -> Seq<char> {
    ip + ":"@ + decimal(port as nat)
}

/// What is recorded of an attempt that begins.
pub open spec fn begun(
    attempt: u32,
    noise: u16,
    backup_port: u16,
    restore_port: u16,
    now: Option<Moment>,
) -> TransferView {
    TransferView {
        attempt,
        snap_name: snapshot_text(attempt, noise),
        ports: seq![backup_port, restore_port],
        bytes_relayed: None,
        started_at: Some(rfc3339_text(second_of(now))),
        failure_reason: None,
        target_snap_delete_issued: false,
    }
}

/// The send side of an attempt.
pub open spec fn backup_of(
    evac: Seq<char>,
    source: SourceView,
    attempt: u32,
    noise: u16,
    pod_ip: Seq<char>,
    backup_port: u16,
) -> BackupView {
    BackupView {
        metadata: fresh(Some(backup_name(evac, attempt)), None),
        volume_name: source.volume_handle,
        owner_node_id: source.node_id,
        snap_name: Some(snapshot_text(attempt, noise)),
        prev_snap_name: None,
        backup_dest: endpoint(pod_ip, backup_port),
        status: Some(BKP_STATUS_INIT@),
    }
}

/// An attempt begins. Intent before action: the attempt record must be durable
/// before the CRs exist, so a crash always knows what to clean up.
pub open spec fn begin_next(
    evac: ZFSEvacuation,
    st: StatusView,
    attempt: u32,
    backup_port: u16,
    restore_port: u16,
    noise: u16,
    now: Option<Moment>,
    pod_ip: Seq<char>,
) -> (StatusView, StepView) {
    match st.source {
        None => (st, StepView::Fault(error_text(Error::NoSource))),
        Some(source) => (
            StatusView {
                transfer: Some(begun(attempt, noise, backup_port, restore_port, now)),
                message: Some("transfer attempt "@ + decimal(attempt as nat) + " starting"@),
                ..st
            },
            done(
                seq![
                    EffectView::WriteStatus,
                    EffectView::CreateBackup(
                        backup_of(
                            evac.metadata.any_name(),
                            source,
                            attempt,
                            noise,
                            pod_ip,
                            backup_port,
                        ),
                    ),
                ],
                Action::RequeueSecs(2),
            ),
        ),
    }
}

fn endpoint_text(ip: &str, port: u16) -> (r: String)
    ensures
        r@ == endpoint(ip@, port),
{
    cat3(ip, ":", to_decimal(port as u128).as_str())
}

/// Begins an attempt whose relay listens. Source only: the restore follows
/// once the source has connected to the relay.
pub fn begin_attempt(
    evac: &ZFSEvacuation,
    st: &mut ZFSEvacuationStatus,
    attempt: u32,
    backup_port: u16,
    restore_port: u16,
    noise: u16,
    now: Option<Moment>,
    pod_ip: &str,
) -> (r: Step)
    ensures
        (final(st)@, r@) == begin_next(
            *evac,
            old(st)@,
            attempt,
            backup_port,
            restore_port,
            noise,
            now,
            pod_ip@,
        ),
{
    let name = evac.metadata.name_any();
    let source = match &st.source {
        Some(s) => s.clone(),
        None => return Step::Fault(Error::NoSource),
    };
    let mut ports: Vec<u16> = Vec::new();
    ports.push(backup_port);
    ports.push(restore_port);
    assert(ports@ =~= seq![backup_port, restore_port]);
    st.transfer = Some(
        TransferStatus {
            attempt,
            snap_name: snapshot_name(attempt, noise),
            ports,
            bytes_relayed: None,
            started_at: Some(rfc3339_at(now)),
            failure_reason: None,
            target_snap_delete_issued: false,
        },
    );
    st.message = Some(
        cat3("transfer attempt ", to_decimal(attempt as u128).as_str(), " starting"),
    );
    let bkp = ZFSBackup {
        metadata: named(bkp_name(name.as_str(), attempt).as_str()),
        spec: ZFSBackupSpec {
            volume_name: source.volume_handle,
            owner_node_id: source.node_id,
            snap_name: Some(snapshot_name(attempt, noise)),
            prev_snap_name: None,
            backup_dest: endpoint_text(pod_ip, backup_port),
        },
        status: Some(BKP_STATUS_INIT.to_owned()),
    };
    let mut plan = no_effects();
    plan.push(Effect::WriteStatus);
    plan.push(Effect::CreateBackup(bkp));
    let r = pause(plan, 2);
    assert(r@->Run_0.effects =~= seq![EffectView::WriteStatus, EffectView::CreateBackup(bkp@)]);
    r
}

// ------------------------------------------------------------------ teardown

/// How far the teardown of an attempt's CRs has come.
pub enum Teardown {
    /// This has to be read.
    Read(Need),
    /// Both are gone.
    Gone,
    /// They are going; these effects help them along.
    Going(Plan),
}

/// How far the teardown of an attempt's CRs has come.
#[verifier::ext_equal]
pub enum TeardownView {
    Read(NeedView),
    Gone,
    Going(Seq<EffectView>),
}

impl View for Teardown {
    type V = TeardownView;

    open spec fn view(&self) -> TeardownView {
        match *self {
            Teardown::Read(n) => TeardownView::Read(n@),
            Teardown::Gone => TeardownView::Gone,
            Teardown::Going(p) => TeardownView::Going(p@.effects),
        }
    }
}

/// What to do about a CR that has to go: delete it; once that is under way, and
/// the node that should process its finalizer no longer exists, take the
/// finalizer off. The disk is gone with the node; leaking the on-disk artifact
/// is the correct outcome.
pub open spec fn removal(
    kind: Kind,
    name: Seq<char>,
    deleting: bool,
    node_gone: bool,
) -> Seq<EffectView> {
    if !deleting {
        seq![EffectView::Delete(kind, name)]
    } else if node_gone {
        seq![EffectView::EditFinalizers(kind, name, FinalizerEdit::DropZfs)]
    } else {
        Seq::empty()
    }
}

/// The teardown of an attempt's backup and restore.
pub open spec fn teardown(
    seen: Seen,
    evac: Seq<char>,
    attempt: u32,
    st: StatusView,
) -> TeardownView {
    let b = backup_name(evac, attempt);
    let r = restore_name(evac, attempt);
    if seen.backup is Unread {
        TeardownView::Read(NeedView::Backup(b))
    } else if seen.restore is Unread {
        TeardownView::Read(NeedView::Restore(r))
    } else if seen.backup is Absent && seen.restore is Absent {
        TeardownView::Gone
    } else {
        let b_deleting = seen.backup is Found && seen.backup->0.metadata.deletion_timestamp is Some;
        let r_deleting = seen.restore is Found
            && seen.restore->0.metadata.deletion_timestamp is Some;
        if b_deleting && st.source is Some && seen.source_node is Unread {
            TeardownView::Read(NeedView::SourceNode(st.source->0.node_id))
        } else if r_deleting && st.target is Some && seen.target_node is Unread {
            TeardownView::Read(NeedView::TargetNode(st.target->0.node_id))
        } else {
            let first = if seen.backup is Found {
                removal(
                    Kind::ZfsBackup,
                    b,
                    b_deleting,
                    st.source is Some && seen.source_node is Absent,
                )
            } else {
                Seq::empty()
            };
            let second = if seen.restore is Found {
                removal(
                    Kind::ZfsRestore,
                    r,
                    r_deleting,
                    st.target is Some && seen.target_node is Absent,
                )
            } else {
                Seq::empty()
            };
            TeardownView::Going(first + second)
        }
    }
}

fn add_removal(plan: &mut Plan, kind: Kind, name: String, deleting: bool, node_gone: bool)
    ensures
        final(plan)@.effects == old(plan)@.effects + removal(kind, name@, deleting, node_gone),
        final(plan)@.outcome == old(plan)@.outcome,
{
    let ghost e0 = plan@.effects;
    if !deleting {
        plan.push(Effect::Delete { kind, name });
    } else if node_gone {
        plan.push(Effect::EditFinalizers { kind, name, edit: FinalizerEdit::DropZfs });
    }
    assert(plan@.effects =~= e0 + removal(kind, name@, deleting, node_gone));
}

fn is_absent<T>(x: &Lookup<T>) -> (r: bool)
    ensures
        r == (*x is Absent),
{
    match x {
        Lookup::Absent => true,
        _ => false,
    }
}

fn is_unread<T>(x: &Lookup<T>) -> (r: bool)
    ensures
        r == (*x is Unread),
{
    match x {
        Lookup::Unread => true,
        _ => false,
    }
}

/// Deletes an attempt's backup and restore, and takes stuck finalizers off when
/// the owning node no longer exists.
pub fn cleanup_transfer_crs(
    seen: &Seen,
    evac_name: &str,
    attempt: u32,
    st: &ZFSEvacuationStatus,
) -> (r: Teardown)
    ensures
        r@ == teardown(*seen, evac_name@, attempt, st@),
{
    let b = bkp_name(evac_name, attempt);
    let r = rst_name(evac_name, attempt);
    if is_unread(&seen.backup) {
        return Teardown::Read(Need::Backup(b));
    }
    if is_unread(&seen.restore) {
        return Teardown::Read(Need::Restore(r));
    }
    if is_absent(&seen.backup) && is_absent(&seen.restore) {
        return Teardown::Gone;
    }
    let b_deleting = match &seen.backup {
        Lookup::Found(cr) => cr.metadata.deleting(),
        _ => false,
    };
    let r_deleting = match &seen.restore {
        Lookup::Found(cr) => cr.metadata.deleting(),
        _ => false,
    };
    if b_deleting && is_unread(&seen.source_node) {
        if let Some(s) = &st.source {
            return Teardown::Read(Need::SourceNode(s.node_id.clone()));
        }
    }
    if r_deleting && is_unread(&seen.target_node) {
        if let Some(t) = &st.target {
            return Teardown::Read(Need::TargetNode(t.node_id.clone()));
        }
    }
    let mut plan = no_effects();
    if !is_absent(&seen.backup) {
        add_removal(
            &mut plan,
            Kind::ZfsBackup,
            b,
            b_deleting,
            st.source.is_some() && is_absent(&seen.source_node),
        );
    }
    if !is_absent(&seen.restore) {
        add_removal(
            &mut plan,
            Kind::ZfsRestore,
            r,
            r_deleting,
            st.target.is_some() && is_absent(&seen.target_node),
        );
    }
    proof {
        let e = teardown(*seen, evac_name@, attempt, st@)->Going_0;
        assert(plan@.effects =~= e);
    }
    Teardown::Going(plan)
}

// ------------------------------------------------------------------ the phase

/// The most attempts an evacuation may make.
pub open spec fn attempts_allowed(evac: ZFSEvacuation) -> u32 {
    match evac.spec.max_attempts {
        Some(n) => n,
        None => DEFAULT_MAX_ATTEMPTS,
    }
}

/// How long an attempt may take, in seconds.
pub open spec fn timeout_of(evac: ZFSEvacuation) -> u64 {
    match evac.spec.transfer_timeout_seconds {
        Some(n) => n,
        None => DEFAULT_TRANSFER_TIMEOUT,
    }
}

/// What a status text says, nothing when the CR or its status is absent.
pub open spec fn backup_status(seen: Seen) -> Seq<char> {
    match seen.backup {
        Lookup::Found(b) => text_or_empty(b.status),
        _ => Seq::empty(),
    }
}

/// What a status text says, nothing when the CR or its status is absent.
pub open spec fn restore_status(seen: Seen) -> Seq<char> {
    match seen.restore {
        Lookup::Found(r) => text_or_empty(r.status),
        _ => Seq::empty(),
    }
}

/// Everything that is observed of the recorded attempt.
pub open spec fn observed(
    evac: ZFSEvacuation,
    seen: Seen,
    t: TransferView,
    stall_secs: u64,
    now: Option<Moment>,
) -> ObsView {
    ObsView {
        attempt: t.attempt,
        failure_reason: t.failure_reason,
        bkp_status: backup_status(seen),
        rst_status: restore_status(seen),
        rst_exists: seen.restore is Found,
        mem: seen.relay->0,
        elapsed_secs: match t.started_at {
            Some(at) => match seconds_since(at, now) {
                Some(n) => n as u64,
                None => 0,
            },
            None => 0,
        },
        now_secs: match now {
            Some(m) => m.secs,
            None => 0,
        },
        timeout_secs: timeout_of(evac),
        stall_secs,
    }
}

/// The receive side of an attempt, pointed at the relay's restore port, with
/// the source's volume spec adapted to the target.
pub open spec fn restore_of(
    evac: Seq<char>,
    info: InfoView,
    target: TargetView,
    attempt: u32,
    pod_ip: Seq<char>,
    restore_port: u16,
) -> RestoreView {
    RestoreView {
        api_version: OPENEBS_GROUP@ + "/v1"@,
        kind: "ZFSRestore"@,
        metadata: fresh(Some(restore_name(evac, attempt)), None),
        volume_name: target.new_volume_handle,
        owner_node_id: target.node_id,
        restore_src: endpoint(pod_ip, restore_port),
        vol_spec: Some(adapted(info, target)),
        status: Some(BKP_STATUS_INIT@),
    }
}

/// The port a recorded attempt's restore connects to.
pub open spec fn restore_port(t: TransferView) -> u16 {
    if t.ports.len() > 1 {
        t.ports[1]
    } else {
        0
    }
}

/// The creation of the receive side.
pub open spec fn restore_next(
    evac: ZFSEvacuation,
    seen: Seen,
    st: StatusView,
    t: TransferView,
    pod_ip: Seq<char>,
) -> (StatusView, StepView) {
    if st.source is None {
        (st, StepView::Fault(error_text(Error::NoSource)))
    } else if st.target is None {
        (st, StepView::Fault(error_text(Error::NoTarget)))
    } else {
        match seen.source_volume {
            Lookup::Unread => (
                st,
                StepView::Read(NeedView::SourceVolume(st.source->0.volume_handle)),
            ),
            Lookup::Absent => (st, StepView::Fault(error_text(Error::SourceVolumeGone))),
            Lookup::Found(zv) => paused(
                st,
                seq![
                    EffectView::CreateRestore(
                        restore_of(
                            evac.metadata.any_name(),
                            zv.spec.0@,
                            st.target->0,
                            t.attempt,
                            pod_ip,
                            restore_port(t),
                        ),
                    ),
                ],
                2,
            ),
        }
    }
}

/// The status of an evacuation whose attempt was judged failed.
pub open spec fn judged(st: StatusView, reason: Seq<char>) -> StatusView {
    StatusView {
        transfer: match st.transfer {
            Some(t) => Some(TransferView { failure_reason: Some(reason), ..t }),
            None => None,
        },
        ..st
    }
}

/// A failed attempt: a relay that is still live is stopped before anything else is
/// looked at, with the reason kept; then its CRs are torn down; once both are
/// gone, the next attempt starts or the evacuation is given up.
pub open spec fn retry_next(
    evac: ZFSEvacuation,
    seen: Seen,
    st: StatusView,
    t: TransferView,
    reason: Seq<char>,
) -> (StatusView, StepView) {
    let name = evac.metadata.any_name();
    if seen.relay->0 is Some {
        (
            judged(st, reason),
            StepView::Run(
                PlanView {
                    effects: seq![EffectView::DropRelay],
                    outcome: Outcome::Again(seen.stage),
                },
            ),
        )
    } else {
        match teardown(seen, name, t.attempt, st) {
            TeardownView::Read(n) => (st, StepView::Read(n)),
            TeardownView::Going(e) => waiting(
                judged(st, reason),
                e,
                "attempt "@ + decimal(t.attempt as nat) + " failed ("@ + reason
                    + "); cleaning up"@,
                10,
            ),
            TeardownView::Gone => if t.attempt >= attempts_allowed(evac) {
                aborting(
                    judged(st, reason),
                    Seq::empty(),
                    "transfer failed after "@ + decimal(t.attempt as nat) + " attempts (last: "@
                        + reason + ")"@,
                )
            } else {
                start_next(seen, st, (t.attempt + 1) as u32)
            },
        }
    }
}

/// The Transferring phase.
pub open spec fn transferring_next(
    evac: ZFSEvacuation,
    seen: Seen,
    st: StatusView,
    cfg: Config,
    now: Option<Moment>,
) -> (StatusView, StepView) {
    let name = evac.metadata.any_name();
    match st.transfer {
        None => start_next(seen, st, 1),
        Some(t) => if seen.backup is Unread {
            (st, StepView::Read(NeedView::Backup(backup_name(name, t.attempt))))
        } else if seen.restore is Unread {
            (st, StepView::Read(NeedView::Restore(restore_name(name, t.attempt))))
        } else if seen.relay is None {
            (st, StepView::Read(NeedView::Relay))
        } else {
            match verdict(observed(evac, seen, t, cfg.stall_seconds, now)) {
                VerdictView::Complete(bytes) => advanced(
                    StatusView {
                        transfer: Some(
                            TransferView {
                                bytes_relayed: if bytes is Some {
                                    bytes
                                } else {
                                    t.bytes_relayed
                                },
                                ..t
                            },
                        ),
                        ..st
                    },
                    seq![EffectView::DropRelay],
                    Phase::Adopting,
                ),
                VerdictView::FailAttempt(reason) => retry_next(evac, seen, st, t, reason),
                VerdictView::StaleStatus => paused(st, Seq::empty(), 2),
                VerdictView::StaleRelay => paused(st, seq![EffectView::DropRelay], 1),
                VerdictView::WaitingForSource => waiting(
                    st,
                    Seq::empty(),
                    "transfer attempt "@ + decimal(t.attempt as nat) + " waiting for source"@,
                    2,
                ),
                VerdictView::CreateRestore => restore_next(evac, seen, st, t, cfg.pod_ip@),
                VerdictView::Continue(bytes) => if t.bytes_relayed == Some(bytes) {
                    paused(st, Seq::empty(), 10)
                } else {
                    paused(
                        StatusView {
                            transfer: Some(TransferView { bytes_relayed: Some(bytes), ..t }),
                            ..st
                        },
                        seq![EffectView::WriteStatus],
                        10,
                    )
                },
            }
        },
    }
}

/// Creates the receive side of an attempt.
fn create_restore(
    evac: &ZFSEvacuation,
    seen: &Seen,
    st: &ZFSEvacuationStatus,
    t: &TransferStatus,
    pod_ip: &str,
) -> (r: Step)
    ensures
        (st@, r@) == restore_next(*evac, *seen, st@, t@, pod_ip@),
{
    let source = match &st.source {
        Some(s) => s,
        None => return Step::Fault(Error::NoSource),
    };
    let target = match &st.target {
        Some(t) => t,
        None => return Step::Fault(Error::NoTarget),
    };
    let zv = match &seen.source_volume {
        Lookup::Unread => return Step::Read(Need::SourceVolume(source.volume_handle.clone())),
        Lookup::Absent => return Step::Fault(Error::SourceVolumeGone),
        Lookup::Found(zv) => zv,
    };
    let vol_spec = adapt_to_target(zv.spec.0.clone(), target);
    let port: u16 = if t.ports.len() > 1 {
        t.ports[1]
    } else {
        0
    };
    let mut rst = ZFSRestore::new(
        rst_name(evac.metadata.name_any().as_str(), t.attempt).as_str(),
        ZFSRestoreSpec {
            volume_name: target.new_volume_handle.clone(),
            owner_node_id: target.node_id.clone(),
            restore_src: endpoint_text(pod_ip, port),
        },
        vol_spec,
    );
    rst.status = Some(BKP_STATUS_INIT.to_owned());
    let mut plan = no_effects();
    plan.push(Effect::CreateRestore(rst));
    let r = pause(plan, 2);
    assert(r@->Run_0.effects =~= seq![EffectView::CreateRestore(rst@)]);
    r
}

/// Tears a failed attempt's CRs down; once both are gone, starts the next
/// attempt or gives up.
fn retry_or_fail(
    evac: &ZFSEvacuation,
    seen: &Seen,
    st: &mut ZFSEvacuationStatus,
    attempt: u32,
    reason: &str,
) -> (r: Step)
    requires
        old(st)@.transfer is Some,
        old(st)@.transfer->0.attempt == attempt,
        seen.relay is Some,
    ensures
        (final(st)@, r@) == retry_next(*evac, *seen, old(st)@, old(st)@.transfer->0, reason@),
        r matches Step::Spawn { attempt: _, backup_peers, restore_peers } ==> all_well_formed(
            backup_peers@,
        ) && all_well_formed(restore_peers@),
{
    let name = evac.metadata.name_any();
    if let Some(Some(_)) = &seen.relay {
        record_failure(st, reason);
        let mut plan = single(Effect::DropRelay);
        plan.outcome = Outcome::Again(seen.stage);
        return Step::Run(plan);
    }
    match cleanup_transfer_crs(seen, name.as_str(), attempt, st) {
        Teardown::Read(n) => Step::Read(n),
        Teardown::Going(plan) => {
            let mut msg = cat3("attempt ", to_decimal(attempt as u128).as_str(), " failed (");
            msg.append(reason);
            msg.append("); cleaning up");
            record_failure(st, reason);
            wait(st, plan, msg, 10)
        },
        Teardown::Gone => {
            let most: u32 = match evac.spec.max_attempts {
                Some(n) => n,
                None => DEFAULT_MAX_ATTEMPTS,
            };
            if attempt >= most {
                let mut msg = cat3(
                    "transfer failed after ",
                    to_decimal(attempt as u128).as_str(),
                    " attempts (last: ",
                );
                msg.append(reason);
                msg.append(")");
                record_failure(st, reason);
                return turn_back(st, no_effects(), msg);
            }
            start_attempt(seen, st, attempt + 1)
        },
    }
}

fn record_failure(st: &mut ZFSEvacuationStatus, reason: &str)
    ensures
        final(st)@ == judged(old(st)@, reason@),
{
    if let Some(mut t) = st.transfer.take() {
        t.failure_reason = Some(reason.to_owned());
        st.transfer = Some(t);
    }
}

/// The Transferring phase.
pub fn transferring(
    evac: &ZFSEvacuation,
    seen: &Seen,
    st: &mut ZFSEvacuationStatus,
    cfg: &Config,
    now: Option<Moment>,
) -> (r: Step)
    requires
        now matches Some(m) ==> m.nanos < 1_000_000_000,
    ensures
        (final(st)@, r@) == transferring_next(*evac, *seen, old(st)@, *cfg, now),
        r matches Step::Spawn { attempt: _, backup_peers, restore_peers } ==> all_well_formed(
            backup_peers@,
        ) && all_well_formed(restore_peers@),
{
    let name = evac.metadata.name_any();
    let t = match &st.transfer {
        Some(t) => t,
        None => return start_attempt(seen, st, 1),
    };
    let attempt: u32 = t.attempt;
    let bkp_status = match &seen.backup {
        Lookup::Unread => return Step::Read(Need::Backup(bkp_name(name.as_str(), attempt))),
        Lookup::Absent => String::new(),
        Lookup::Found(b) => owned_or_empty(&b.status),
    };
    let rst_status = match &seen.restore {
        Lookup::Unread => return Step::Read(Need::Restore(rst_name(name.as_str(), attempt))),
        Lookup::Absent => String::new(),
        Lookup::Found(r) => owned_or_empty(&r.status),
    };
    let mem: Option<RelayObs> = match &seen.relay {
        None => return Step::Read(Need::Relay),
        Some(live) => *live,
    };
    let elapsed_secs: u64 = match &t.started_at {
        Some(at) => match secs_since_at(at.as_str(), now) {
            Some(n) => n,
            None => 0,
        },
        None => 0,
    };
    let now_secs: u64 = match now {
        Some(m) => m.secs,
        None => 0,
    };
    let timeout_secs: u64 = match evac.spec.transfer_timeout_seconds {
        Some(n) => n,
        None => DEFAULT_TRANSFER_TIMEOUT,
    };
    let obs = TransferObs {
        attempt,
        failure_reason: t.failure_reason.clone(),
        bkp_status,
        rst_status,
        rst_exists: !is_absent(&seen.restore),
        mem,
        elapsed_secs,
        now_secs,
        timeout_secs,
        stall_secs: cfg.stall_seconds,
    };
    assert(obs@ == observed(*evac, *seen, st@.transfer->0, cfg.stall_seconds, now));
    match transfer_verdict(&obs) {
        TransferVerdict::Complete { bytes } => {
            if let Some(n) = bytes {
                record_bytes(st, n);
            }
            advance(st, single(Effect::DropRelay), Phase::Adopting)
        },
        TransferVerdict::FailAttempt(reason) => {
            retry_or_fail(evac, seen, st, attempt, reason.as_str())
        },
        TransferVerdict::StaleStatus => pause(no_effects(), 2),
        TransferVerdict::StaleRelay => pause(single(Effect::DropRelay), 1),
        TransferVerdict::WaitingForSource => {
            let msg = cat3(
                "transfer attempt ",
                to_decimal(attempt as u128).as_str(),
                " waiting for source",
            );
            wait(st, no_effects(), msg, 2)
        },
        TransferVerdict::CreateRestore => create_restore(evac, seen, st, t, cfg.pod_ip.as_str()),
        TransferVerdict::Continue { bytes } => {
            if t.bytes_relayed == Some(bytes) {
                return pause(no_effects(), 10);
            }
            record_bytes(st, bytes);
            pause(single(Effect::WriteStatus), 10)
        },
    }
}

fn record_bytes(st: &mut ZFSEvacuationStatus, bytes: u64)
    requires
        old(st)@.transfer is Some,
    ensures
        final(st)@ == (StatusView {
            transfer: Some(
                TransferView { bytes_relayed: Some(bytes), ..old(st)@.transfer->0 },
            ),
            ..old(st)@
        }),
{
    if let Some(mut t) = st.transfer.take() {
        t.bytes_relayed = Some(bytes);
        st.transfer = Some(t);
    }
}

// ------------------------------------------------------------------ the target's snapshot

/// The snapshot that stands for the target-side copy of the transfer snapshot:
/// the agent on the target node names the dataset from the volume label, the
/// pool from the spec, and only acts on what its own node owns.
pub open spec fn target_snapshot(
    target: TargetView,
    snap_name: Seq<char>,
    info: InfoView,
) -> VolumeView {
    VolumeView {
        metadata: fresh(
            Some(snap_name),
            Some(
                Map::empty().insert(NODE_NAME_LABEL@, target.node_id).insert(
                    ZFS_VOL_LABEL@,
                    target.new_volume_handle,
                ),
            ),
        ),
        spec: adapted(info, target),
        state: Some(ZFS_STATUS_PENDING@),
    }
}

/// The ZFSSnapshot CR that stands in for the target-side copy of the transfer
/// snapshot.
pub fn target_snapshot_cr(target: &TargetInfo, snap_name: &str, info: VolumeInfo) -> (r:
    ZFSSnapshot)
    ensures
        r@ == target_snapshot(target@, snap_name@, info@),
{
    let mut labels = StringMap::new();
    labels.insert(NODE_NAME_LABEL.to_owned(), target.node_id.clone());
    labels.insert(ZFS_VOL_LABEL.to_owned(), target.new_volume_handle.clone());
    let mut metadata = named(snap_name);
    metadata.labels = Some(labels);
    ZFSSnapshot {
        metadata,
        spec: ZFSSnapshotSpec(adapt_to_target(info, target)),
        // The CRD requires status on create; anything but Ready makes the agent
        // run its (idempotent) create and then mark it Ready with its
        // finalizer.
        status: pending_status(),
    }
}

/// How far the destruction of the target's transfer snapshot has come.
pub enum Destruction {
    /// This has to be read.
    Read(Need),
    /// It is gone.
    Gone,
    /// It is under way: effects, what to say, and whether they issue the
    /// delete.
    Going { effects: Plan, message: String, issued: bool },
}

/// How far the destruction of the target's transfer snapshot has come.
#[verifier::ext_equal]
pub enum DestructionView {
    Read(NeedView),
    Gone,
    Going(Seq<EffectView>, Seq<char>, bool),
}

impl View for Destruction {
    type V = DestructionView;

    open spec fn view(&self) -> DestructionView {
        match *self {
            Destruction::Read(n) => DestructionView::Read(n@),
            Destruction::Gone => DestructionView::Gone,
            Destruction::Going { effects, message, issued } => DestructionView::Going(
                effects@.effects,
                message@,
                issued,
            ),
        }
    }
}

/// The destruction of the transfer snapshot that the received stream recreated
/// on the target. zfs-localpv has no record of it, so it would leak and pin
/// every block the volume has since overwritten. It is routed through the
/// target agent: a snapshot CR is registered for it (the agent's create is a
/// no-op when the snapshot already exists) and then deleted, and the agent's
/// finalizer runs the destroy. That the delete went out is recorded, so that a
/// CR that is simply gone is never registered again.
pub open spec fn destruction(seen: Seen, st: StatusView) -> DestructionView {
    match (st.transfer, st.target) {
        (Some(t), Some(target)) => {
            let going = "waiting for target transfer snapshot destruction"@;
            match seen.target_snapshot {
                Lookup::Unread => DestructionView::Read(NeedView::TargetSnapshot(t.snap_name)),
                Lookup::Absent => if t.target_snap_delete_issued {
                    DestructionView::Gone
                } else {
                    match seen.target_volume {
                        Lookup::Unread => DestructionView::Read(
                            NeedView::TargetVolume(target.new_volume_handle),
                        ),
                        // The new volume is already being torn down; its
                        // snapshots go with the dataset.
                        Lookup::Absent => DestructionView::Gone,
                        Lookup::Found(zv) => DestructionView::Going(
                            seq![
                                EffectView::CreateSnapshot(
                                    target_snapshot(target, t.snap_name, zv.spec.0@),
                                ),
                            ],
                            "registering target transfer snapshot"@,
                            false,
                        ),
                    }
                },
                Lookup::Found(cr) => if t.target_snap_delete_issued {
                    match seen.target_node {
                        Lookup::Unread => DestructionView::Read(NeedView::TargetNode(target.node_id)),
                        Lookup::Absent => DestructionView::Going(
                            seq![
                                EffectView::EditFinalizers(
                                    Kind::ZfsSnapshot,
                                    t.snap_name,
                                    FinalizerEdit::DropZfs,
                                ),
                            ],
                            going,
                            false,
                        ),
                        Lookup::Found(_) => DestructionView::Going(Seq::empty(), going, false),
                    }
                } else if cr.metadata.deletion_timestamp is Some {
                    DestructionView::Going(Seq::empty(), going, true)
                } else if cr.metadata.held_by().contains(ZFS_FINALIZER@) {
                    // The agent adds its finalizer in the same update that sets
                    // Ready; deleting before that would let the CR vanish
                    // without a destroy.
                    DestructionView::Going(
                        seq![EffectView::Delete(Kind::ZfsSnapshot, t.snap_name)],
                        going,
                        true,
                    )
                } else {
                    match seen.target_node {
                        Lookup::Unread => DestructionView::Read(NeedView::TargetNode(target.node_id)),
                        // Unprocessed, and the node that should process it is
                        // gone: so is the dataset.
                        Lookup::Absent => DestructionView::Going(
                            seq![EffectView::Delete(Kind::ZfsSnapshot, t.snap_name)],
                            "waiting for target agent to register transfer snapshot"@,
                            true,
                        ),
                        Lookup::Found(_) => DestructionView::Going(
                            Seq::empty(),
                            "waiting for target agent to register transfer snapshot"@,
                            false,
                        ),
                    }
                },
            }
        },
        _ => DestructionView::Gone,
    }
}

/// Destroys the transfer snapshot that the received stream recreated on the
/// target.
pub fn destroy_target_snapshot(seen: &Seen, st: &ZFSEvacuationStatus) -> (r: Destruction)
    ensures
        r@ == destruction(*seen, st@),
{
    let (t, target) = match (&st.transfer, &st.target) {
        (Some(t), Some(target)) => (t, target),
        _ => return Destruction::Gone,
    };
    match &seen.target_snapshot {
        Lookup::Unread => Destruction::Read(Need::TargetSnapshot(t.snap_name.clone())),
        Lookup::Absent => {
            if t.target_snap_delete_issued {
                return Destruction::Gone;
            }
            match &seen.target_volume {
                Lookup::Unread => Destruction::Read(
                    Need::TargetVolume(target.new_volume_handle.clone()),
                ),
                Lookup::Absent => Destruction::Gone,
                Lookup::Found(zv) => {
                    let snap = target_snapshot_cr(target, t.snap_name.as_str(), zv.spec.0.clone());
                    Destruction::Going {
                        effects: single(Effect::CreateSnapshot(snap)),
                        message: "registering target transfer snapshot".to_owned(),
                        issued: false,
                    }
                },
            }
        },
        Lookup::Found(cr) => {
            let going = "waiting for target transfer snapshot destruction".to_owned();
            if t.target_snap_delete_issued {
                return match &seen.target_node {
                    Lookup::Unread => Destruction::Read(Need::TargetNode(target.node_id.clone())),
                    Lookup::Absent => Destruction::Going {
                        effects: single(
                            Effect::EditFinalizers {
                                kind: Kind::ZfsSnapshot,
                                name: t.snap_name.clone(),
                                edit: FinalizerEdit::DropZfs,
                            },
                        ),
                        message: going,
                        issued: false,
                    },
                    Lookup::Found(_) => Destruction::Going {
                        effects: no_effects(),
                        message: going,
                        issued: false,
                    },
                };
            }
            if cr.metadata.deleting() {
                return Destruction::Going { effects: no_effects(), message: going, issued: true };
            }
            if cr.metadata.has_finalizer(ZFS_FINALIZER) {
                return Destruction::Going {
                    effects: single(
                        Effect::Delete { kind: Kind::ZfsSnapshot, name: t.snap_name.clone() },
                    ),
                    message: going,
                    issued: true,
                };
            }
            let unprocessed = "waiting for target agent to register transfer snapshot".to_owned();
            match &seen.target_node {
                Lookup::Unread => Destruction::Read(Need::TargetNode(target.node_id.clone())),
                Lookup::Absent => Destruction::Going {
                    effects: single(
                        Effect::Delete { kind: Kind::ZfsSnapshot, name: t.snap_name.clone() },
                    ),
                    message: unprocessed,
                    issued: true,
                },
                Lookup::Found(_) => Destruction::Going {
                    effects: no_effects(),
                    message: unprocessed,
                    issued: false,
                },
            }
        },
    }
}

} // verus!
