//! The evacuation state machine. Every phase is idempotent and resumable;
//! intent and recovery data are written to the status before the corresponding
//! external mutation.
use vstd::arithmetic::div_mod::{lemma_mod_breakdown, lemma_small_mod};
use vstd::arithmetic::power::{lemma_pow0, lemma_pow1, lemma_pow_adds, lemma_pow_positive, pow};
use vstd::prelude::*;

use crate::cluster::{lookup, uid_is, Lookup, Node, PersistentVolume, PersistentVolumeClaim, Pod};
use crate::controller::abort::{self, abort_next};
use crate::controller::clock::{
    rfc3339_at, rfc3339_text, second_of, seconds_since, secs_since_at, Moment,
};
use crate::controller::colocation::{
    capacity_bytes, capacity_of, consumer, find_consumer, group_of, resolve, Group, GroupView,
};
use crate::controller::plan::{
    error_text, Action, Effect, EffectView, Error, FinalizerEdit, Kind, Need, NeedView, Outcome,
    Plan, PlanView, Seen, Stage, Step, StepView, Stock,
};
use crate::controller::pv_swap::{self, committing_next, swapping_next};
use crate::controller::target::{
    chosen, computable, destination, refusal, select_target, Inventory, InventoryView,
    SelectionInput, SelectionView,
};
use crate::controller::transfer::{
    self, all_well_formed, cleanup_transfer_crs, destroy_target_snapshot, destruction, teardown,
    transferring_next, Destruction, DestructionView, Teardown, TeardownView,
};
use crate::controller::{
    blocking_pods_message, blocking_text, has_taint, node_has_evacuate_taint, node_repels_pods,
    pod_pvc_names, pvc_names, repels, scheduled, scheduled_blocking_message, target_volume,
    target_zfsvolume, Config, DEFAULT_HEADROOM_PERCENT, DEFAULT_SETTLE_SECONDS,
    LOCK_PROPAGATION_SECONDS,
};
use crate::crd::openebs::{state_of, ZFSVolume, MARKED_FOR_DELETION, ZFS_DRIVER, ZFS_STATUS_READY};
use crate::crd::zfs_evacuation::{
    ColocationMember, ColocationRole, ColocationStatus, ColocationView, EvacuationMode,
    EvacuationTrigger, MemberView, Phase, PvcRef, PvcView, SourceInfo, SourceView, StatusView,
    TargetView, TransferView, ZFSEvacuation, ZFSEvacuationStatus, EVACUATE_ANNOTATION,
    EVACUATION_FINALIZER,
};
use crate::text::{cat, cat3, chars, hex, opt, opt_is, owned_or_empty, same, text_or_empty, to_hex};

verus! {

// ------------------------------------------------------------------ transitions

/// The status of an evacuation that enters a phase.
pub open spec fn entered(st: StatusView, phase: Phase) -> StatusView {
    StatusView { phase, message: None, ..st }
}

/// The status of an evacuation in a phase, with a message.
pub open spec fn marked(st: StatusView, phase: Phase, message: Seq<char>) -> StatusView {
    StatusView { phase, message: Some(message), ..st }
}

/// A step that performs effects and is done.
pub open spec fn done(effects: Seq<EffectView>, action: Action) -> StepView {
    StepView::Run(PlanView { effects, outcome: Outcome::Done(action) })
}

/// Enters a phase once the effects are performed.
pub open spec fn advanced(
    st: StatusView,
    effects: Seq<EffectView>,
    phase: Phase,
) -> (StatusView, StepView) {
    (
        entered(st, phase),
        done(effects.push(EffectView::WriteStatus), Action::RequeueMillis(500)),
    )
}

/// Gives the evacuation up as it stands: what was done so far is not unwound.
pub open spec fn failed(st: StatusView, message: Seq<char>) -> (StatusView, StepView) {
    (
        marked(st, Phase::Failed, message),
        done(seq![EffectView::WriteStatus], Action::AwaitChange),
    )
}

/// Turns to unwinding the evacuation, once the effects are performed.
pub open spec fn aborting(
    st: StatusView,
    effects: Seq<EffectView>,
    message: Seq<char>,
) -> (StatusView, StepView) {
    (
        marked(st, Phase::Aborting, message),
        done(effects.push(EffectView::WriteStatus), Action::RequeueSecs(1)),
    )
}

/// Stays in the phase, and says why; the status is written if it says
/// something new.
pub open spec fn waiting(
    st: StatusView,
    effects: Seq<EffectView>,
    message: Seq<char>,
    secs: u64,
) -> (StatusView, StepView) {
    (
        StatusView { message: Some(message), ..st },
        done(
            if st.message == Some(message) {
                effects
            } else {
                effects.push(EffectView::WriteStatus)
            },
            Action::RequeueSecs(secs),
        ),
    )
}

/// Stays in the phase without a word.
pub open spec fn paused(
    st: StatusView,
    effects: Seq<EffectView>,
    secs: u64,
) -> (StatusView, StepView) {
    (st, done(effects, Action::RequeueSecs(secs)))
}

/// Enters a phase once the effects are performed.
pub fn advance(st: &mut ZFSEvacuationStatus, effects: Plan, phase: Phase) -> (r: Step)
    ensures
        (final(st)@, r@) == advanced(old(st)@, effects@.effects, phase),
{
    st.phase = phase;
    st.message = None;
    let mut plan = effects;
    plan.outcome = Outcome::Done(Action::RequeueMillis(500));
    plan.push(Effect::WriteStatus);
    Step::Run(plan)
}

/// Gives the evacuation up as it stands: what was done so far is not unwound.
pub fn fail(st: &mut ZFSEvacuationStatus, msg: String) -> (r: Step)
    ensures
        (final(st)@, r@) == failed(old(st)@, msg@),
{
    st.phase = Phase::Failed;
    st.message = Some(msg);
    Step::Run(Plan::write(Outcome::Done(Action::AwaitChange)))
}

/// Turns to unwinding the evacuation, once the effects are performed.
pub fn turn_back(st: &mut ZFSEvacuationStatus, effects: Plan, msg: String) -> (r: Step)
    ensures
        (final(st)@, r@) == aborting(old(st)@, effects@.effects, msg@),
{
    st.phase = Phase::Aborting;
    st.message = Some(msg);
    let mut plan = effects;
    plan.outcome = Outcome::Done(Action::RequeueSecs(1));
    plan.push(Effect::WriteStatus);
    Step::Run(plan)
}

/// Stays in the phase, and says why.
pub fn wait(st: &mut ZFSEvacuationStatus, effects: Plan, msg: String, secs: u64) -> (r: Step)
    ensures
        (final(st)@, r@) == waiting(old(st)@, effects@.effects, msg@, secs),
{
    let mut plan = effects;
    plan.outcome = Outcome::Done(Action::RequeueSecs(secs));
    if !opt_is(&st.message, msg.as_str()) {
        plan.push(Effect::WriteStatus);
    }
    st.message = Some(msg);
    Step::Run(plan)
}

/// Stays in the phase without a word.
pub fn pause(effects: Plan, secs: u64) -> (r: Step)
    ensures
        r@ == done(effects@.effects, Action::RequeueSecs(secs)),
{
    let mut plan = effects;
    plan.outcome = Outcome::Done(Action::RequeueSecs(secs));
    Step::Run(plan)
}

/// A plan without effects, to be filled; as it stands, it waits for a change.
pub fn no_effects() -> (r: Plan)
    ensures
        r@ == (PlanView {
            effects: Seq::empty(),
            outcome: Outcome::Done(Action::AwaitChange),
        }),
{
    Plan::new(Outcome::Done(Action::AwaitChange))
}

/// A plan with one effect, to be filled.
pub fn single(e: Effect) -> (r: Plan)
    ensures
        r@.effects == seq![e@],
{
    let mut plan = no_effects();
    plan.push(e);
    assert(plan@.effects =~= seq![e@]);
    plan
}

// ------------------------------------------------------------------ what blocks

/// The mode an evacuation runs in: the one its lock was taken in, else the one
/// its spec names.
pub open spec fn mode_of(evac: ZFSEvacuation, st: StatusView) -> EvacuationMode {
    match st.locked_mode {
        Some(m) => m,
        None => evac.spec.mode,
    }
}

/// The mode an evacuation runs in.
pub fn working_mode(evac: &ZFSEvacuation, st: &ZFSEvacuationStatus) -> (r: EvacuationMode)
    ensures
        r == mode_of(*evac, st@),
{
    match st.locked_mode {
        Some(m) => m,
        None => evac.spec.mode,
    }
}

/// What keeps a volume from being copied or swapped.
#[derive(Debug)]
pub enum Blocking {
    /// This has to be read.
    Read(Need),
    /// Nothing.
    Clear,
    /// This.
    By(String),
}

/// What keeps a volume from being copied or swapped.
#[verifier::ext_equal]
pub enum BlockingView {
    Read(NeedView),
    Clear,
    By(Seq<char>),
}

impl View for Blocking {
    type V = BlockingView;

    open spec fn view(&self) -> BlockingView {
        match *self {
            Blocking::Read(n) => BlockingView::Read(n@),
            Blocking::Clear => BlockingView::Clear,
            Blocking::By(m) => BlockingView::By(m@),
        }
    }
}

/// What asks for the source node to be cordoned.
pub open spec fn cordon_text(node: Seq<char>, taint_key: Seq<char>) -> Seq<char> {
    "source node "@ + node + " can still receive pods; cordon it (kubectl cordon "@ + node
        + ") or give it the "@ + taint_key + " taint with effect NoSchedule or NoExecute"@
}

/// What keeps a volume from being copied or swapped. When it is waited for
/// idle: any pod that references it. When it is claimed: a pod that was
/// scheduled; and, whether or not there is a consumer, a source node that could
/// still receive one. A node that is gone can receive none.
pub open spec fn blocking(
    evac: ZFSEvacuation,
    seen: Seen,
    st: StatusView,
    cfg: Config,
    pods: Seq<Pod>,
) -> BlockingView {
    match mode_of(evac, st) {
        EvacuationMode::WhenIdle => if pods.len() > 0 {
            BlockingView::By(blocking_text(pods))
        } else {
            BlockingView::Clear
        },
        EvacuationMode::WhenClaimed => if scheduled(pods).len() > 0 {
            BlockingView::By(blocking_text(scheduled(pods)))
        } else if st.source is None {
            BlockingView::Clear
        } else {
            match seen.source_node {
                Lookup::Unread => BlockingView::Read(NeedView::SourceNode(st.source->0.node_id)),
                Lookup::Absent => BlockingView::Clear,
                Lookup::Found(n) => if repels(n, cfg.taint_key@) {
                    BlockingView::Clear
                } else {
                    BlockingView::By(cordon_text(st.source->0.node, cfg.taint_key@))
                },
            }
        },
    }
}

/// What keeps a volume from being copied or swapped.
pub fn blocking_reason(
    evac: &ZFSEvacuation,
    seen: &Seen,
    st: &ZFSEvacuationStatus,
    cfg: &Config,
    pods: &Vec<Pod>,
) -> (r: Blocking)
    ensures
        r@ == blocking(*evac, *seen, st@, *cfg, pods@),
{
    match working_mode(evac, st) {
        EvacuationMode::WhenIdle => if pods.len() > 0 {
            Blocking::By(blocking_pods_message(pods.as_slice()))
        } else {
            Blocking::Clear
        },
        EvacuationMode::WhenClaimed => {
            if let Some(msg) = scheduled_blocking_message(pods.as_slice()) {
                return Blocking::By(msg);
            }
            let source = match &st.source {
                Some(s) => s,
                None => return Blocking::Clear,
            };
            match &seen.source_node {
                Lookup::Unread => Blocking::Read(Need::SourceNode(source.node_id.clone())),
                Lookup::Absent => Blocking::Clear,
                Lookup::Found(n) => {
                    if node_repels_pods(n, cfg.taint_key.as_str()) {
                        return Blocking::Clear;
                    }
                    let mut msg = crate::text::cat3(
                        "source node ",
                        source.node.as_str(),
                        " can still receive pods; cordon it (kubectl cordon ",
                    );
                    msg.append(source.node.as_str());
                    msg.append(") or give it the ");
                    msg.append(cfg.taint_key.as_str());
                    msg.append(" taint with effect NoSchedule or NoExecute");
                    Blocking::By(msg)
                },
            }
        },
    }
}

// ------------------------------------------------------------------ handles

/// May a character stand anywhere in a label value?
pub open spec fn label_end(c: char) -> bool {
    '0' <= c <= '9' || 'a' <= c <= 'z' || 'A' <= c <= 'Z'
}

/// May a character stand inside a label value?
pub open spec fn label_middle(c: char) -> bool {
    label_end(c) || c == '-' || c == '_' || c == '.'
}

/// Can this be the value of a label: 1 to 63 characters, letters and digits at
/// both ends, and dashes, underscores and dots between them?
pub open spec fn label_value(s: Seq<char>) -> bool {
    &&& 1 <= s.len() <= 63
    &&& label_end(s[0])
    &&& label_end(s.last())
    &&& forall|i: int| 0 <= i < s.len() ==> label_middle(#[trigger] s[i])
}

fn is_label_end(c: char) -> (r: bool)
    ensures
        r == label_end(c),
{
    ('0' <= c && c <= '9') || ('a' <= c && c <= 'z') || ('A' <= c && c <= 'Z')
}

/// Can the handle of a source volume be the value of the label by which its
/// snapshots are found? One that cannot would have to be cut short, and would
/// then name another volume.
pub fn source_handle_fits_snapshot_label(handle: &str) -> (r: bool)
    ensures
        r == label_value(handle@),
{
    let v = chars(handle);
    let n: usize = v.len();
    if n == 0 || n > 63 || !is_label_end(v[0]) || !is_label_end(v[n - 1]) {
        return false;
    }
    for i in 0..n
        invariant
            n == v@.len(),
            v@ == handle@,
            forall|j: int| 0 <= j < i ==> label_middle(#[trigger] v@[j]),
    {
        let c = v[i];
        if !(is_label_end(c) || c == '-' || c == '_' || c == '.') {
            assert(!label_middle(handle@[i as int]));
            return false;
        }
    }
    true
}

/// The handle of a new volume: of fixed length, so that a volume can be moved
/// any number of times.
pub open spec fn handle_text(noise: u128) -> Seq<char> {
    "zevac-"@ + hex(noise as nat, 32)
}

/// The handle of a new volume, from a number that no other one has.
pub fn destination_handle(noise: u128) -> (r: String)
    ensures
        r@ == handle_text(noise),
{
    cat("zevac-", to_hex(noise, 32).as_str())
}

/// Calls `rand::random` for 128 bits: a number of which nothing is known.
#[verifier::external_body]
fn random_u128() -> (r: u128) {
    rand::random::<u128>()
}

/// A new, unique handle: a same-named dataset already present on the target is
/// not touched.
pub fn new_destination_handle() -> (r: String)
    ensures
        exists|noise: u128| r@ == #[trigger] handle_text(noise),
        label_value(r@),
{
    let noise: u128 = random_u128();
    let r = destination_handle(noise);
    proof {
        handles_are_label_values(noise);
    }
    r
}

/// Hexadecimal text has the length asked for, and only digits and letters.
proof fn lemma_hex(n: nat, width: nat)
    ensures
        hex(n, width).len() == width,
        forall|i: int| 0 <= i < width ==> label_end(#[trigger] hex(n, width)[i]),
    decreases width,
{
    if width > 0 {
        lemma_hex(n / 16, (width - 1) as nat);
        let front = hex(n / 16, (width - 1) as nat);
        assert(label_end(crate::text::digit(n % 16)));
        assert forall|i: int| 0 <= i < width implies label_end(#[trigger] hex(n, width)[i]) by {
            if i < width - 1 {
                assert(hex(n, width)[i] == front[i]);
            }
        }
    }
}

/// Every handle that a new volume can get is a label value of 38 characters: a
/// volume that was moved can be moved again.
pub proof fn handles_are_label_values(noise: u128)
    ensures
        label_value(handle_text(noise)),
        handle_text(noise).len() == 38,
{
    reveal_strlit("zevac-");
    lemma_hex(noise as nat, 32);
    let h = hex(noise as nat, 32);
    let t = handle_text(noise);
    assert(t.last() == h[31]);
    assert forall|i: int| 0 <= i < t.len() implies label_middle(#[trigger] t[i]) by {
        if i >= 6 {
            assert(t[i] == h[i - 6]);
        }
    }
}

/// Hexadecimal text of a fixed length tells numbers apart.
proof fn lemma_hex_differs(a: nat, b: nat, width: nat)
    requires
        hex(a, width) == hex(b, width),
    ensures
        a % pow(16, width) as nat == b % pow(16, width) as nat,
    decreases width,
{
    if width == 0 {
        lemma_pow0(16);
    } else {
        let w = (width - 1) as nat;
        lemma_hex(a / 16, w);
        lemma_hex(b / 16, w);
        assert(hex(a, width).drop_last() =~= hex(a / 16, w));
        assert(hex(b, width).drop_last() =~= hex(b / 16, w));
        lemma_hex_differs(a / 16, b / 16, w);
        assert(hex(a, width).last() == crate::text::digit(a % 16));
        assert(hex(b, width).last() == crate::text::digit(b % 16));
        assert(a % 16 == b % 16);
        lemma_pow1(16);
        lemma_pow_adds(16, 1, w);
        lemma_pow_positive(16, w);
        lemma_mod_breakdown(a as int, 16, pow(16, w));
        lemma_mod_breakdown(b as int, 16, pow(16, w));
    }
}

/// Two new volumes have the same handle only if they were given the same number.
pub proof fn handles_tell_volumes_apart(a: u128, b: u128)
    requires
        handle_text(a) == handle_text(b),
    ensures
        a == b,
{
    let prefix = "zevac-"@;
    let x = hex(a as nat, 32);
    let y = hex(b as nat, 32);
    lemma_hex(a as nat, 32);
    lemma_hex(b as nat, 32);
    assert(x =~= handle_text(a).skip(prefix.len() as int));
    assert(y =~= handle_text(b).skip(prefix.len() as int));
    lemma_hex_differs(a as nat, b as nat, 32);
    assert(pow(16, 32) > u128::MAX) by {
        reveal_with_fuel(pow, 33);
    }
    lemma_small_mod(a as nat, pow(16, 32) as nat);
    lemma_small_mod(b as nat, pow(16, 32) as nat);
}

/// What a reconcile leaves to chance.
#[derive(Clone, Copy, Debug)]
pub struct Chance {
    /// Sets a new volume apart.
    pub volume: u128,
    /// Sets a transfer snapshot apart.
    pub snapshot: u16,
}

impl Chance {
    /// Draws what a reconcile leaves to chance.
    pub fn draw() -> (r: Chance) {
        let snapshot: u16 = (random_u128() % 65536) as u16;
        Chance { volume: random_u128(), snapshot }
    }
}

// ------------------------------------------------------------------ Pending

/// The lock key of a PVC.
pub open spec fn key_of(p: PvcView) -> Seq<char> {
    p.namespace + "/"@ + p.name
}

/// The lock key of a PVC.
pub fn lock_key(p: &PvcRef) -> (r: String)
    ensures
        r@ == key_of(p@),
{
    cat3(p.namespace.as_str(), "/", p.name.as_str())
}

/// Is a resize of the PVC in progress?
pub open spec fn resizing(pvc: PersistentVolumeClaim) -> bool {
    exists|i: int|
        0 <= i < pvc.conditions@.len() && ((#[trigger] pvc.conditions@[i]).type_@ == "Resizing"@
            || pvc.conditions@[i].type_@ == "FileSystemResizePending"@)
            && pvc.conditions@[i].status@ == "True"@
}

fn is_resizing(pvc: &PersistentVolumeClaim) -> (r: bool)
    ensures
        r == resizing(*pvc),
{
    for i in 0..pvc.conditions.len()
        invariant
            forall|j: int|
                0 <= j < i ==> !(((#[trigger] pvc.conditions@[j]).type_@ == "Resizing"@
                    || pvc.conditions@[j].type_@ == "FileSystemResizePending"@)
                    && pvc.conditions@[j].status@ == "True"@),
    {
        let c = &pvc.conditions[i];
        if (same(c.type_.as_str(), "Resizing") || same(c.type_.as_str(), "FileSystemResizePending"))
            && same(c.status.as_str(), "True") {
            assert(pvc.conditions@[i as int].status@ == "True"@);
            return true;
        }
    }
    false
}

/// The namespace and name of the claim a PV is bound to.
pub open spec fn claim_names(pv: PersistentVolume) -> Option<(Seq<char>, Seq<char>)> {
    match pv.claim() {
        Some(c) => match (c.namespace, c.name) {
            (Some(ns), Some(n)) => Some((ns@, n@)),
            _ => None,
        },
        None => None,
    }
}

/// Why a PV cannot be evacuated, from itself alone.
pub open spec fn pv_refusal(pv: PersistentVolume) -> Option<Seq<char>> {
    match pv.csi() {
        None => Some("PV is not a CSI volume"@),
        Some(csi) => if csi.driver@ != ZFS_DRIVER@ {
            Some("PV driver "@ + csi.driver@ + " is not "@ + ZFS_DRIVER@)
        } else if !label_value(csi.volume_handle@) {
            Some(
                "volumeHandle "@ + csi.volume_handle@
                    + " is not a valid label value; its snapshots cannot be found by label"@,
            )
        } else if pv.claim() is None {
            Some("PV has no claimRef (unbound PVs need no evacuation)"@)
        } else if claim_names(pv) is None {
            Some("PV claimRef missing namespace/name"@)
        } else {
            None
        },
    }
}

/// Why a PVC's volume cannot be evacuated now.
pub open spec fn pvc_refusal(pvc: PersistentVolumeClaim, pv_name: Seq<char>) -> Option<Seq<char>> {
    if opt(pvc.volume_name) != Some(pv_name) {
        Some("PVC does not reference this PV"@)
    } else if resizing(pvc) {
        Some("PVC has a resize in progress"@)
    } else {
        None
    }
}

/// Why a ZFSVolume cannot be evacuated.
pub open spec fn volume_refusal(zv: ZFSVolume) -> Option<Seq<char>> {
    if lookup(zv.metadata.annotations, MARKED_FOR_DELETION@) is Some {
        Some("ZFSVolume is marked for deletion"@)
    } else if text_or_empty(zv.spec.0.snapname).len() > 0 {
        Some("volume is a clone; clone migration is unsupported"@)
    } else {
        None
    }
}

/// What is recorded of an evacuation that is accepted.
pub open spec fn accepted(
    st: StatusView,
    pv: PersistentVolume,
    pvc: PersistentVolumeClaim,
    zv: ZFSVolume,
    node: Node,
) -> StatusView {
    StatusView {
        pvc_ref: Some(
            PvcView {
                namespace: (claim_names(pv)->0).0,
                name: (claim_names(pv)->0).1,
                uid: text_or_empty(pvc.metadata.uid),
            },
        ),
        source: Some(
            SourceView {
                node: node.metadata.any_name(),
                node_id: zv.spec.0.owner_node_id@,
                pool: zv.spec.0.pool_name@,
                volume_handle: pv.csi()->0.volume_handle@,
                pv_uid: text_or_empty(pv.metadata.uid),
                capacity_bytes: capacity_bytes(zv.spec.0),
            },
        ),
        original_reclaim_policy: opt(pv.spec->0.persistent_volume_reclaim_policy),
        ..st
    }
}

/// The Pending phase: what cannot be evacuated is refused up front; of what
/// can, the PVC's identity, the source and the reclaim policy are recorded.
pub open spec fn pending_next(
    evac: ZFSEvacuation,
    seen: Seen,
    st: StatusView,
) -> (StatusView, StepView) {
    match seen.pv {
        Lookup::Unread => (st, StepView::Read(NeedView::Pv)),
        Lookup::Absent => failed(st, "PV "@ + evac.spec.pv_name@ + " not found"@),
        Lookup::Found(pv) => if pv_refusal(pv) is Some {
            failed(st, pv_refusal(pv)->0)
        } else {
            let claim = claim_names(pv)->0;
            let handle = pv.csi()->0.volume_handle@;
            match seen.pvc {
                Lookup::Unread => (st, StepView::Read(NeedView::Pvc(claim.0, claim.1))),
                Lookup::Absent => failed(
                    st,
                    "bound PVC "@ + claim.0 + "/"@ + claim.1 + " not found"@,
                ),
                Lookup::Found(pvc) => if pvc_refusal(pvc, evac.spec.pv_name@) is Some {
                    failed(st, pvc_refusal(pvc, evac.spec.pv_name@)->0)
                } else {
                    match seen.source_volume {
                        Lookup::Unread => (st, StepView::Read(NeedView::SourceVolume(handle))),
                        Lookup::Absent => failed(st, "ZFSVolume "@ + handle + " not found"@),
                        Lookup::Found(zv) => if volume_refusal(zv) is Some {
                            failed(st, volume_refusal(zv)->0)
                        } else if seen.has_snapshots is None {
                            (st, StepView::Read(NeedView::Snapshots(handle)))
                        } else if seen.has_snapshots->0 {
                            failed(
                                st,
                                "volume has ZFSSnapshots; delete them before evacuating (snapshot migration unsupported)"@,
                            )
                        } else {
                            let id = zv.spec.0.owner_node_id@;
                            match seen.source_node {
                                Lookup::Unread => (st, StepView::Read(NeedView::SourceNode(id))),
                                Lookup::Absent => failed(
                                    st,
                                    "source node with nodeid "@ + id
                                        + " not found; data is unreachable"@,
                                ),
                                Lookup::Found(node) => if capacity_bytes(zv.spec.0) == 0 {
                                    failed(st, "could not determine volume capacity"@)
                                } else {
                                    advanced(
                                        accepted(st, pv, pvc, zv, node),
                                        Seq::empty(),
                                        Phase::Guarding,
                                    )
                                },
                            }
                        },
                    }
                },
            }
        },
    }
}

/// What a PV says of the volume behind it and of the claim it is bound to.
struct Binding {
    handle: String,
    namespace: String,
    name: String,
    policy: Option<String>,
}

fn read_binding(pv: &PersistentVolume) -> (r: Result<Binding, String>)
    ensures
        match r {
            Ok(b) => {
                &&& pv_refusal(*pv) is None
                &&& b.handle@ == pv.csi()->0.volume_handle@
                &&& claim_names(*pv) == Some((b.namespace@, b.name@))
                &&& opt(b.policy) == opt(pv.spec->0.persistent_volume_reclaim_policy)
            },
            Err(why) => pv_refusal(*pv) == Some(why@),
        },
{
    let spec = match &pv.spec {
        Some(s) => s,
        None => return Err("PV is not a CSI volume".to_owned()),
    };
    let csi = match &spec.csi {
        Some(c) => c,
        None => return Err("PV is not a CSI volume".to_owned()),
    };
    if !same(csi.driver.as_str(), ZFS_DRIVER) {
        let mut msg = cat3("PV driver ", csi.driver.as_str(), " is not ");
        msg.append(ZFS_DRIVER);
        return Err(msg);
    }
    if !source_handle_fits_snapshot_label(csi.volume_handle.as_str()) {
        return Err(
            cat3(
                "volumeHandle ",
                csi.volume_handle.as_str(),
                " is not a valid label value; its snapshots cannot be found by label",
            ),
        );
    }
    let claim = match &spec.claim_ref {
        Some(c) => c,
        None => return Err("PV has no claimRef (unbound PVs need no evacuation)".to_owned()),
    };
    match (&claim.namespace, &claim.name) {
        (Some(namespace), Some(name)) => Ok(
            Binding {
                handle: csi.volume_handle.clone(),
                namespace: namespace.clone(),
                name: name.clone(),
                policy: spec.persistent_volume_reclaim_policy.clone(),
            },
        ),
        _ => Err("PV claimRef missing namespace/name".to_owned()),
    }
}

fn refuse_pvc(pvc: &PersistentVolumeClaim, pv_name: &str) -> (r: Option<String>)
    ensures
        opt(r) == pvc_refusal(*pvc, pv_name@),
{
    if !opt_is(&pvc.volume_name, pv_name) {
        return Some("PVC does not reference this PV".to_owned());
    }
    if is_resizing(pvc) {
        return Some("PVC has a resize in progress".to_owned());
    }
    None
}

fn refuse_volume(zv: &ZFSVolume) -> (r: Option<String>)
    ensures
        opt(r) == volume_refusal(*zv),
{
    if zv.metadata.annotation(MARKED_FOR_DELETION).is_some() {
        return Some("ZFSVolume is marked for deletion".to_owned());
    }
    if let Some(s) = &zv.spec.0.snapname {
        if !s.as_str().is_empty() {
            return Some("volume is a clone; clone migration is unsupported".to_owned());
        }
    }
    None
}

/// The Pending phase.
pub fn pending(evac: &ZFSEvacuation, seen: &Seen, st: &mut ZFSEvacuationStatus) -> (r: Step)
    ensures
        (final(st)@, r@) == pending_next(*evac, *seen, old(st)@),
{
    let pv = match &seen.pv {
        Lookup::Unread => return Step::Read(Need::Pv),
        Lookup::Absent => return fail(st, cat3("PV ", evac.spec.pv_name.as_str(), " not found")),
        Lookup::Found(pv) => pv,
    };
    let Binding { handle, namespace, name, policy } = match read_binding(pv) {
        Ok(b) => b,
        Err(msg) => return fail(st, msg),
    };
    let pvc = match &seen.pvc {
        Lookup::Unread => return Step::Read(Need::Pvc { namespace, name }),
        Lookup::Absent => {
            let mut msg = cat3("bound PVC ", namespace.as_str(), "/");
            msg.append(name.as_str());
            msg.append(" not found");
            return fail(st, msg);
        },
        Lookup::Found(pvc) => pvc,
    };
    if let Some(msg) = refuse_pvc(pvc, evac.spec.pv_name.as_str()) {
        return fail(st, msg);
    }
    let zv = match &seen.source_volume {
        Lookup::Unread => return Step::Read(Need::SourceVolume(handle)),
        Lookup::Absent => return fail(st, cat3("ZFSVolume ", handle.as_str(), " not found")),
        Lookup::Found(zv) => zv,
    };
    if let Some(msg) = refuse_volume(zv) {
        return fail(st, msg);
    }
    match seen.has_snapshots {
        None => return Step::Read(Need::Snapshots(handle)),
        Some(true) => return fail(
            st,
            "volume has ZFSSnapshots; delete them before evacuating (snapshot migration unsupported)".to_owned(),
        ),
        Some(false) => {},
    }
    let node_id = zv.spec.0.owner_node_id.clone();
    let node = match &seen.source_node {
        Lookup::Unread => return Step::Read(Need::SourceNode(node_id)),
        Lookup::Absent => return fail(
            st,
            cat3(
                "source node with nodeid ",
                node_id.as_str(),
                " not found; data is unreachable",
            ),
        ),
        Lookup::Found(n) => n,
    };
    let capacity: u64 = capacity_of(&zv.spec.0);
    if capacity == 0 {
        return fail(st, "could not determine volume capacity".to_owned());
    }
    st.pvc_ref = Some(PvcRef { namespace, name, uid: owned_or_empty(&pvc.metadata.uid) });
    st.source = Some(
        SourceInfo {
            node: node.metadata.name_any(),
            node_id,
            pool: zv.spec.0.pool_name.clone(),
            volume_handle: handle,
            pv_uid: owned_or_empty(&pv.metadata.uid),
            capacity_bytes: capacity,
        },
    );
    st.original_reclaim_policy = policy;
    advance(st, no_effects(), Phase::Guarding)
}

// ------------------------------------------------------------------ Guarding, Retaining, Locking

/// The Guarding phase: while the guard is on the source volume, the agent does
/// not destroy the dataset.
pub open spec fn guarding_next(st: StatusView) -> (StatusView, StepView) {
    match st.source {
        None => (st, StepView::Fault(error_text(Error::NoSource))),
        Some(source) => advanced(
            st,
            seq![
                EffectView::EditFinalizers(
                    Kind::ZfsVolume,
                    source.volume_handle,
                    FinalizerEdit::AddGuard,
                ),
            ],
            Phase::Retaining,
        ),
    }
}

/// The Guarding phase.
pub fn guarding(st: &mut ZFSEvacuationStatus) -> (r: Step)
    ensures
        (final(st)@, r@) == guarding_next(old(st)@),
{
    let handle = match &st.source {
        Some(s) => s.volume_handle.clone(),
        None => return Step::Fault(Error::NoSource),
    };
    advance(
        st,
        single(
            Effect::EditFinalizers {
                kind: Kind::ZfsVolume,
                name: handle,
                edit: FinalizerEdit::AddGuard,
            },
        ),
        Phase::Retaining,
    )
}

/// The Retaining phase: deleting the PV does not delete the volume any more.
pub open spec fn retaining_next(evac: ZFSEvacuation, st: StatusView) -> (StatusView, StepView) {
    advanced(
        st,
        seq![EffectView::SetReclaimPolicy(evac.spec.pv_name@, "Retain"@)],
        Phase::Locking,
    )
}

/// The Retaining phase.
pub fn retaining(evac: &ZFSEvacuation, st: &mut ZFSEvacuationStatus) -> (r: Step)
    ensures
        (final(st)@, r@) == retaining_next(*evac, old(st)@),
{
    advance(
        st,
        single(
            Effect::SetReclaimPolicy {
                pv: evac.spec.pv_name.clone(),
                policy: "Retain".to_owned(),
            },
        ),
        Phase::Locking,
    )
}

/// The Locking phase. Both triggers lock immediately, in use or not: locking
/// before the consumer is evicted is what makes a drain safe. The mode is read
/// here and nowhere after.
pub open spec fn locking_next(
    evac: ZFSEvacuation,
    st: StatusView,
    now: Option<Moment>,
) -> (StatusView, StepView) {
    match st.pvc_ref {
        None => (st, StepView::Fault(error_text(Error::NoPvcRef))),
        Some(p) => advanced(
            StatusView {
                locked_at: Some(rfc3339_text(second_of(now))),
                locked_mode: Some(evac.spec.mode),
                ..st
            },
            seq![
                EffectView::Lock(key_of(p), evac.spec.mode),
                EffectView::MarkPvc(p.namespace, p.name),
            ],
            Phase::Quiescing,
        ),
    }
}

/// The Locking phase.
pub fn locking(evac: &ZFSEvacuation, st: &mut ZFSEvacuationStatus, now: Option<Moment>) -> (r: Step)
    ensures
        (final(st)@, r@) == locking_next(*evac, old(st)@, now),
{
    let pvc_ref = match &st.pvc_ref {
        Some(p) => p.clone(),
        None => return Step::Fault(Error::NoPvcRef),
    };
    let mut plan = no_effects();
    plan.push(Effect::Lock { key: lock_key(&pvc_ref), mode: evac.spec.mode });
    plan.push(Effect::MarkPvc { namespace: pvc_ref.namespace, name: pvc_ref.name });
    assert(plan@.effects =~= seq![
        EffectView::Lock(key_of(pvc_ref@), evac.spec.mode),
        EffectView::MarkPvc(pvc_ref@.namespace, pvc_ref@.name),
    ]);
    st.locked_at = Some(rfc3339_at(now));
    st.locked_mode = Some(evac.spec.mode);
    advance(st, plan, Phase::Quiescing)
}

// ------------------------------------------------------------------ Quiescing

/// The seconds since a recorded time, if it is one and has passed.
pub open spec fn age(at: Option<Seq<char>>, now: Option<Moment>) -> Option<int> {
    match at {
        Some(t) => seconds_since(t, now),
        None => None,
    }
}

fn age_of(at: &Option<String>, now: Option<Moment>) -> (r: Option<u64>)
    requires
        now matches Some(m) ==> m.nanos < 1_000_000_000,
    ensures
        r is Some == age(opt(*at), now) is Some,
        r matches Some(n) ==> age(opt(*at), now) == Some(n as int),
{
    match at {
        Some(t) => secs_since_at(t.as_str(), now),
        None => None,
    }
}

/// How long a volume is left alone after its last pod is gone, in seconds.
pub open spec fn settle_seconds(evac: ZFSEvacuation) -> u64 {
    match evac.spec.settle_seconds {
        Some(n) => n,
        None => DEFAULT_SETTLE_SECONDS,
    }
}

/// The Quiescing phase: the lock is given time to take hold, then nothing may
/// block the volume, and a settle period has to pass from when it was recorded
/// that nothing does. What blocks the volume takes that record back, and the
/// status is written for it even if there is nothing new to say: the period counts
/// from when the last pod disappeared.
pub open spec fn quiescing_next(
    evac: ZFSEvacuation,
    seen: Seen,
    st: StatusView,
    cfg: Config,
    now: Option<Moment>,
) -> (StatusView, StepView) {
    match st.pvc_ref {
        None => (st, StepView::Fault(error_text(Error::NoPvcRef))),
        Some(p) => {
            let locked = age(st.locked_at, now);
            if locked is Some && locked->0 < LOCK_PROPAGATION_SECONDS {
                paused(st, Seq::empty(), (LOCK_PROPAGATION_SECONDS - locked->0) as u64)
            } else if seen.pods is None {
                (st, StepView::Read(NeedView::Pods(p.namespace, p.name)))
            } else {
                match blocking(evac, seen, st, cfg, seen.pods->0@) {
                    BlockingView::Read(n) => (st, StepView::Read(n)),
                    BlockingView::By(msg) => if st.quiesced_at is Some {
                        paused(
                            StatusView { quiesced_at: None, message: Some(msg), ..st },
                            seq![EffectView::WriteStatus],
                            15,
                        )
                    } else {
                        waiting(st, Seq::empty(), msg, 15)
                    },
                    BlockingView::Clear => match age(st.quiesced_at, now) {
                        None => paused(
                            StatusView { quiesced_at: Some(rfc3339_text(second_of(now))), ..st },
                            seq![EffectView::WriteStatus],
                            settle_seconds(evac),
                        ),
                        Some(n) => if n < settle_seconds(evac) {
                            paused(st, Seq::empty(), (settle_seconds(evac) - n) as u64)
                        } else {
                            advanced(st, Seq::empty(), Phase::TargetSelecting)
                        },
                    },
                }
            }
        },
    }
}

/// The Quiescing phase.
pub fn quiescing(
    evac: &ZFSEvacuation,
    seen: &Seen,
    st: &mut ZFSEvacuationStatus,
    cfg: &Config,
    now: Option<Moment>,
) -> (r: Step)
    requires
        now matches Some(m) ==> m.nanos < 1_000_000_000,
    ensures
        (final(st)@, r@) == quiescing_next(*evac, *seen, old(st)@, *cfg, now),
{
    let pvc_ref = match &st.pvc_ref {
        Some(p) => p.clone(),
        None => return Step::Fault(Error::NoPvcRef),
    };
    if let Some(since) = age_of(&st.locked_at, now) {
        if since < LOCK_PROPAGATION_SECONDS {
            return pause(no_effects(), LOCK_PROPAGATION_SECONDS - since);
        }
    }
    let pods = match &seen.pods {
        Some(p) => p,
        None => return Step::Read(Need::Pods { namespace: pvc_ref.namespace, name: pvc_ref.name }),
    };
    match blocking_reason(evac, seen, st, cfg, pods) {
        Blocking::Read(n) => return Step::Read(n),
        Blocking::By(msg) => {
            if st.quiesced_at.is_some() {
                st.quiesced_at = None;
                st.message = Some(msg);
                return pause(single(Effect::WriteStatus), 15);
            }
            return wait(st, no_effects(), msg, 15);
        },
        Blocking::Clear => {},
    }
    let settle: u64 = match evac.spec.settle_seconds {
        Some(n) => n,
        None => DEFAULT_SETTLE_SECONDS,
    };
    match age_of(&st.quiesced_at, now) {
        None => {
            st.quiesced_at = Some(rfc3339_at(now));
            pause(single(Effect::WriteStatus), settle)
        },
        Some(elapsed) => if elapsed < settle {
            pause(no_effects(), settle - elapsed)
        } else {
            advance(st, no_effects(), Phase::TargetSelecting)
        },
    }
}

// ------------------------------------------------------------------ TargetSelecting

/// Is another evacuation sending from this node?
pub open spec fn sending(evacs: Seq<ZFSEvacuation>, name: Seq<char>, node_id: Seq<char>) -> bool {
    exists|i: int| 0 <= i < evacs.len() && sends(#[trigger] evacs[i], name, node_id)
}

/// Is this another evacuation than `name`, and sending from this node?
pub open spec fn sends(e: ZFSEvacuation, name: Seq<char>, node_id: Seq<char>) -> bool {
    &&& e.metadata.any_name() != name
    &&& e.status is Some
    &&& e.status->0.phase == Phase::Transferring || e.status->0.phase == Phase::Adopting
    &&& e.status->0.source is Some
    &&& e.status->0.source->0.node_id@ == node_id
}

fn is_sending(evacs: &Vec<ZFSEvacuation>, name: &str, node_id: &str) -> (r: bool)
    ensures
        r == sending(evacs@, name@, node_id@),
{
    for i in 0..evacs.len()
        invariant
            forall|j: int| 0 <= j < i ==> !sends(#[trigger] evacs@[j], name@, node_id@),
    {
        if let Some(st) = &evacs[i].status {
            if let Some(src) = &st.source {
                if (st.phase == Phase::Transferring || st.phase == Phase::Adopting) && same(
                    src.node_id.as_str(),
                    node_id,
                ) && !same(evacs[i].metadata.name_any().as_str(), name) {
                    assert(sends(evacs@[i as int], name@, node_id@));
                    return true;
                }
            }
        }
    }
    false
}

/// The bytes of a group's members other than one.
pub open spec fn others_bytes(members: Seq<MemberView>, pv_name: Seq<char>) -> nat
    decreases members.len(),
{
    if members.len() == 0 {
        0
    } else {
        others_bytes(members.drop_last(), pv_name) + if members.last().pv_name != pv_name {
            members.last().capacity_bytes as nat
        } else {
            0
        }
    }
}

fn sum_others(members: &Vec<ColocationMember>, pv_name: &str) -> (r: Option<u128>)
    ensures
        match r {
            Some(n) => n == others_bytes(
                crate::crd::zfs_evacuation::member_views(members@),
                pv_name@,
            ),
            None => others_bytes(crate::crd::zfs_evacuation::member_views(members@), pv_name@)
                > u128::MAX,
        },
{
    let ghost all = crate::crd::zfs_evacuation::member_views(members@);
    let mut n: u128 = 0;
    for i in 0..members.len()
        invariant
            all == crate::crd::zfs_evacuation::member_views(members@),
            n == others_bytes(all.take(i as int), pv_name@),
    {
        proof {
            assert(all.take(i + 1).drop_last() == all.take(i as int));
            assert(all.take(i + 1).last() == members@[i as int]@);
        }
        if !same(members[i].pv_name.as_str(), pv_name) {
            let c: u128 = members[i].capacity_bytes as u128;
            if n > u128::MAX - c {
                proof {
                    lemma_others_grow(all, pv_name@, i + 1);
                }
                return None;
            }
            n = n + c;
        }
    }
    assert(all.take(all.len() as int) == all);
    Some(n)
}

proof fn lemma_others_grow(members: Seq<MemberView>, pv_name: Seq<char>, k: int)
    requires
        0 <= k <= members.len(),
    ensures
        others_bytes(members.take(k), pv_name) <= others_bytes(members, pv_name),
    decreases members.len() - k,
{
    if k < members.len() {
        assert(members.take(k + 1).drop_last() =~= members.take(k));
        lemma_others_grow(members, pv_name, k + 1);
    } else {
        assert(members.take(k) =~= members);
    }
}

/// Does the volume follow a sibling? Not if its spec names a node.
pub open spec fn follows(evac: ZFSEvacuation, group: Option<GroupView>) -> bool {
    group is Some && group->0.anchor is Some && evac.spec.target_node is None
}

/// What a target is chosen by: a leader's target has to take the whole group; a
/// follower goes where its sibling is, and takes only its own.
pub open spec fn selection(
    evac: ZFSEvacuation,
    source: SourceView,
    group: Option<GroupView>,
) -> SelectionView {
    SelectionView {
        evac_name: evac.metadata.any_name(),
        target_node: opt(evac.spec.target_node),
        target_pool: opt(evac.spec.target_pool),
        headroom_percent: evac.spec.headroom_percent,
        source_node_id: source.node_id,
        source_pool: source.pool,
        capacity_bytes: source.capacity_bytes as nat,
        group_extra_bytes: if group is Some && !follows(evac, group) {
            others_bytes(group->0.members, evac.spec.pv_name@)
        } else {
            0
        },
        anchor: match group {
            Some(g) => match g.anchor {
                Some(a) => Some(a.node),
                None => None,
            },
            None => None,
        },
        placement: match group {
            Some(g) => Some(g.placement),
            None => None,
        },
    }
}

/// What is recorded of the group a volume was placed with.
pub open spec fn placed_with(evac: ZFSEvacuation, group: Option<GroupView>) -> Option<
    ColocationView,
> {
    match group {
        Some(g) => Some(
            ColocationView {
                pod: g.pod,
                members: g.members,
                role: if follows(evac, group) {
                    ColocationRole::Follower
                } else {
                    ColocationRole::Leader
                },
                followed: if follows(evac, group) {
                    Some(g.anchor->0.pv_name)
                } else {
                    None
                },
            },
        ),
        None => None,
    }
}

/// What a target is chosen from.
pub open spec fn inventory(stock: Stock, cfg: Config) -> InventoryView {
    InventoryView {
        zfsnodes: stock.zfsnodes@,
        nodes: stock.nodes@,
        evacs: stock.evacs@,
        storage_class: match stock.class {
            Some(c) => Some((stock.class_name@, c)),
            None => None,
        },
        taint_key: cfg.taint_key@,
    }
}

/// The choice of a target, with or without a group. Where what there is to
/// choose from cannot be read, there is no target yet.
pub open spec fn choice_next(
    evac: ZFSEvacuation,
    seen: Seen,
    st: StatusView,
    cfg: Config,
    noise: u128,
    group: Option<GroupView>,
) -> (StatusView, StepView) {
    match seen.stock {
        None => (st, StepView::Read(NeedView::Inventory)),
        Some(Err(why)) => waiting(st, Seq::empty(), "no target yet: "@ + why@, 60),
        Some(Ok(stock)) => {
            let input = selection(evac, st.source->0, group);
            let inv = inventory(stock, cfg);
            if !computable(input) {
                (st, StepView::Fault(error_text(Error::SizeOverflow)))
            } else {
                match chosen(input, inv) {
                    None => waiting(
                        st,
                        Seq::empty(),
                        "no target yet: "@ + refusal(input, inv),
                        60,
                    ),
                    Some(c) => advanced(
                        StatusView {
                            target: Some(
                                TargetView {
                                    node: c.node,
                                    node_id: c.node_id,
                                    pool: destination(input, inv),
                                    new_volume_handle: handle_text(noise),
                                },
                            ),
                            colocation: placed_with(evac, group),
                            ..st
                        },
                        Seq::empty(),
                        Phase::Transferring,
                    ),
                }
            }
        },
    }
}

/// The TargetSelecting phase. One transfer at a time leaves a node; a claimed
/// volume moves with the other volumes of its consumer.
pub open spec fn target_selecting_next(
    evac: ZFSEvacuation,
    seen: Seen,
    st: StatusView,
    cfg: Config,
    noise: u128,
) -> (StatusView, StepView) {
    match st.source {
        None => (st, StepView::Fault(error_text(Error::NoSource))),
        Some(source) => if seen.evacuations is None {
            (st, StepView::Read(NeedView::Evacuations))
        } else if sending(seen.evacuations->0@, evac.metadata.any_name(), source.node_id) {
            waiting(
                st,
                Seq::empty(),
                "another evacuation is transferring from this node"@,
                60,
            )
        } else {
            match seen.pv {
                Lookup::Unread => (st, StepView::Read(NeedView::Pv)),
                Lookup::Absent => failed(st, "PV disappeared during target selection"@),
                Lookup::Found(_) => match mode_of(evac, st) {
                    EvacuationMode::WhenIdle => choice_next(evac, seen, st, cfg, noise, None),
                    EvacuationMode::WhenClaimed => match st.pvc_ref {
                        None => (st, StepView::Fault(error_text(Error::NoPvcRef))),
                        Some(p) => if seen.pods is None {
                            (st, StepView::Read(NeedView::Pods(p.namespace, p.name)))
                        } else {
                            match consumer(seen.pods->0@) {
                                None => choice_next(evac, seen, st, cfg, noise, None),
                                Some(pod) => if seen.siblings is None {
                                    (
                                        st,
                                        StepView::Read(
                                            NeedView::Siblings(p.namespace, pvc_names(pod)),
                                        ),
                                    )
                                } else {
                                    choice_next(
                                        evac,
                                        seen,
                                        st,
                                        cfg,
                                        noise,
                                        Some(
                                            group_of(
                                                pod,
                                                evac.spec.pv_name@,
                                                p.namespace,
                                                source.node_id,
                                                seen.siblings->0@,
                                            ),
                                        ),
                                    )
                                },
                            }
                        },
                    },
                },
            }
        },
    }
}

/// The view of an optional group.
pub open spec fn group_view(g: Option<Group>) -> Option<GroupView> {
    match g {
        Some(g) => Some(g@),
        None => None,
    }
}

fn is_computable(capacity: u128, extra: u128, percent: u128) -> (r: bool)
    ensures
        r == ({
            let bytes = (capacity + extra) as nat;
            bytes * percent <= u128::MAX && bytes + bytes * (percent as nat) / 100 <= u128::MAX
        }),
{
    if capacity > u128::MAX - extra {
        assert(((capacity + extra) as nat) + ((capacity + extra) as nat) * (percent as nat) / 100
            > u128::MAX) by (nonlinear_arith)
            requires
                capacity + extra > u128::MAX,
                percent >= 0,
        ;
        return false;
    }
    let bytes: u128 = capacity + extra;
    match bytes.checked_mul(percent) {
        None => false,
        Some(product) => match bytes.checked_add(product / 100) {
            None => false,
            Some(_) => true,
        },
    }
}

fn place(
    evac: &ZFSEvacuation,
    seen: &Seen,
    st: &mut ZFSEvacuationStatus,
    cfg: &Config,
    noise: u128,
    source: &SourceInfo,
    group: Option<Group>,
) -> (r: Step)
    requires
        old(st)@.source == Some(source@),
    ensures
        (final(st)@, r@) == choice_next(*evac, *seen, old(st)@, *cfg, noise, group_view(group)),
{
    let stock = match &seen.stock {
        Some(Ok(s)) => s,
        Some(Err(why)) => return wait(
            st,
            no_effects(),
            cat("no target yet: ", why.as_str()),
            60,
        ),
        None => return Step::Read(Need::Inventory),
    };
    let name = evac.metadata.name_any();
    let following = match &group {
        Some(g) => g.anchor.is_some() && evac.spec.target_node.is_none(),
        None => false,
    };
    assert(following == follows(*evac, group_view(group)));
    let percent: u128 = match evac.spec.headroom_percent {
        Some(p) => p as u128,
        None => DEFAULT_HEADROOM_PERCENT as u128,
    };
    let ghost sel = selection(*evac, source@, group_view(group));
    let extra: u128 = match &group {
        Some(g) => if following {
            0
        } else {
            match sum_others(&g.members, evac.spec.pv_name.as_str()) {
                Some(n) => n,
                None => {
                    assert(!computable(sel)) by {
                        let b = sel.capacity_bytes + sel.group_extra_bytes;
                        let h = crate::controller::target::headroom(sel);
                        assert(b + b * h / 100 > u128::MAX) by (nonlinear_arith)
                            requires
                                b > u128::MAX,
                                h >= 0,
                        ;
                    }
                    return Step::Fault(Error::SizeOverflow);
                },
            }
        },
        None => 0,
    };
    let input = SelectionInput {
        evac_name: name.as_str(),
        spec: &evac.spec,
        source_node_id: source.node_id.as_str(),
        source_pool: source.pool.as_str(),
        capacity_bytes: source.capacity_bytes as u128,
        group_extra_bytes: extra,
        anchor: match &group {
            Some(g) => match &g.anchor {
                Some(a) => Some(a.node.as_str()),
                None => None,
            },
            None => None,
        },
        placement: match &group {
            Some(g) => Some(&g.placement),
            None => None,
        },
    };
    let inv = Inventory {
        zfsnodes: &stock.zfsnodes,
        nodes: &stock.nodes,
        evacs: &stock.evacs,
        storage_class: match &stock.class {
            Some(c) => Some((stock.class_name.as_str(), c)),
            None => None,
        },
        taint_key: cfg.taint_key.as_str(),
    };
    assert(input@ == sel);
    assert(inv@ == inventory(*stock, *cfg));
    if !is_computable(input.capacity_bytes, extra, percent) {
        return Step::Fault(Error::SizeOverflow);
    }
    match select_target(&input, &inv) {
        Err(why) => wait(st, no_effects(), cat("no target yet: ", why.as_str()), 60),
        Ok(t) => {
            let mut t = t;
            t.new_volume_handle = destination_handle(noise);
            st.target = Some(t);
            st.colocation = match group {
                Some(g) => {
                    let (role, followed) = match (following, g.anchor) {
                        (true, Some(a)) => (ColocationRole::Follower, Some(a.pv_name)),
                        _ => (ColocationRole::Leader, None),
                    };
                    Some(ColocationStatus { pod: g.pod, members: g.members, role, followed })
                },
                None => None,
            };
            advance(st, no_effects(), Phase::Transferring)
        },
    }
}

/// The TargetSelecting phase.
pub fn target_selecting(
    evac: &ZFSEvacuation,
    seen: &Seen,
    st: &mut ZFSEvacuationStatus,
    cfg: &Config,
    noise: u128,
) -> (r: Step)
    ensures
        (final(st)@, r@) == target_selecting_next(*evac, *seen, old(st)@, *cfg, noise),
{
    let source = match &st.source {
        Some(s) => s.clone(),
        None => return Step::Fault(Error::NoSource),
    };
    let name = evac.metadata.name_any();
    match &seen.evacuations {
        None => return Step::Read(Need::Evacuations),
        Some(evacs) => {
            if is_sending(evacs, name.as_str(), source.node_id.as_str()) {
                return wait(
                    st,
                    no_effects(),
                    "another evacuation is transferring from this node".to_owned(),
                    60,
                );
            }
        },
    }
    match &seen.pv {
        Lookup::Unread => return Step::Read(Need::Pv),
        Lookup::Absent => return fail(st, "PV disappeared during target selection".to_owned()),
        Lookup::Found(_) => {},
    }
    match working_mode(evac, st) {
        EvacuationMode::WhenIdle => place(evac, seen, st, cfg, noise, &source, None),
        EvacuationMode::WhenClaimed => {
            let pvc_ref = match &st.pvc_ref {
                Some(p) => p.clone(),
                None => return Step::Fault(Error::NoPvcRef),
            };
            let pods = match &seen.pods {
                Some(p) => p,
                None => return Step::Read(
                    Need::Pods { namespace: pvc_ref.namespace, name: pvc_ref.name },
                ),
            };
            let pod = match find_consumer(pods.as_slice()) {
                Some(p) => p,
                None => return place(evac, seen, st, cfg, noise, &source, None),
            };
            let siblings = match &seen.siblings {
                Some(s) => s,
                None => return Step::Read(
                    Need::Siblings { namespace: pvc_ref.namespace, names: pod_pvc_names(pod) },
                ),
            };
            let group = resolve(
                evac.spec.pv_name.as_str(),
                &pvc_ref,
                source.node_id.as_str(),
                pods.as_slice(),
                siblings,
            );
            place(evac, seen, st, cfg, noise, &source, group)
        },
    }
}

// ------------------------------------------------------------------ Adopting

/// The Adopting phase: a volume is created for the received dataset, and the
/// target's agent adopts it.
pub open spec fn adopting_next(seen: Seen, st: StatusView) -> (StatusView, StepView) {
    if st.source is None {
        (st, StepView::Fault(error_text(Error::NoSource)))
    } else if st.target is None {
        (st, StepView::Fault(error_text(Error::NoTarget)))
    } else {
        match seen.target_volume {
            Lookup::Unread => (
                st,
                StepView::Read(NeedView::TargetVolume(st.target->0.new_volume_handle)),
            ),
            Lookup::Absent => match seen.source_volume {
                Lookup::Unread => (
                    st,
                    StepView::Read(NeedView::SourceVolume(st.source->0.volume_handle)),
                ),
                Lookup::Absent => (st, StepView::Fault(error_text(Error::SourceVolumeGone))),
                Lookup::Found(zv) => paused(
                    st,
                    seq![EffectView::CreateVolume(target_volume(zv.spec.0@, st.target->0))],
                    3,
                ),
            },
            Lookup::Found(zv) => if state_of(zv.status) == Some(ZFS_STATUS_READY@) {
                advanced(st, Seq::empty(), Phase::Committing)
            } else if state_of(zv.status) == Some("Failed"@) {
                aborting(st, Seq::empty(), "new ZFSVolume reported Failed during adoption"@)
            } else {
                waiting(st, Seq::empty(), "waiting for target node agent to adopt dataset"@, 5)
            },
        }
    }
}

fn state_is(zv: &ZFSVolume, state: &str) -> (r: bool)
    ensures
        r == (state_of(zv.status) == Some(state@)),
{
    match &zv.status {
        Some(s) => opt_is(&s.state, state),
        None => false,
    }
}

/// The Adopting phase.
pub fn adopting(seen: &Seen, st: &mut ZFSEvacuationStatus) -> (r: Step)
    ensures
        (final(st)@, r@) == adopting_next(*seen, old(st)@),
{
    let source = match &st.source {
        Some(s) => s,
        None => return Step::Fault(Error::NoSource),
    };
    let target = match &st.target {
        Some(t) => t,
        None => return Step::Fault(Error::NoTarget),
    };
    match &seen.target_volume {
        Lookup::Unread => Step::Read(Need::TargetVolume(target.new_volume_handle.clone())),
        Lookup::Absent => match &seen.source_volume {
            Lookup::Unread => Step::Read(Need::SourceVolume(source.volume_handle.clone())),
            Lookup::Absent => Step::Fault(Error::SourceVolumeGone),
            Lookup::Found(zv) => pause(
                single(Effect::CreateVolume(target_zfsvolume(zv.spec.0.clone(), target))),
                3,
            ),
        },
        Lookup::Found(zv) => if state_is(zv, ZFS_STATUS_READY) {
            advance(st, no_effects(), Phase::Committing)
        } else if state_is(zv, "Failed") {
            turn_back(
                st,
                no_effects(),
                "new ZFSVolume reported Failed during adoption".to_owned(),
            )
        } else {
            wait(
                st,
                no_effects(),
                "waiting for target node agent to adopt dataset".to_owned(),
                5,
            )
        },
    }
}

// ------------------------------------------------------------------ CleaningUp

/// The status once the delete of the target's transfer snapshot was issued.
pub open spec fn issued(st: StatusView) -> StatusView {
    StatusView {
        transfer: match st.transfer {
            Some(t) => Some(TransferView { target_snap_delete_issued: true, ..t }),
            None => None,
        },
        ..st
    }
}

/// The source volume goes: it is deleted, and then our guard is dropped so that
/// the agent's destroy proceeds.
pub open spec fn source_removal(source: SourceView, deleting: bool, node_gone: bool) -> Seq<
    EffectView,
> {
    let handle = source.volume_handle;
    (if deleting {
        Seq::empty()
    } else {
        seq![EffectView::Delete(Kind::ZfsVolume, handle)]
    }) + seq![EffectView::EditFinalizers(Kind::ZfsVolume, handle, FinalizerEdit::DropGuard)] + (
    if node_gone {
        seq![EffectView::EditFinalizers(Kind::ZfsVolume, handle, FinalizerEdit::DropZfs)]
    } else {
        Seq::empty()
    })
}

/// The CleaningUp phase, in the order in which a stuck part leaves the most
/// intact: the transfer CRs (the backup's finalizer destroys the source's
/// transfer snapshot), the target's transfer snapshot, the source volume, the
/// lock, and what is left of the trigger.
pub open spec fn cleaning_up_next(
    evac: ZFSEvacuation,
    seen: Seen,
    st: StatusView,
) -> (StatusView, StepView) {
    match st.source {
        None => (st, StepView::Fault(error_text(Error::NoSource))),
        Some(source) => if seen.stage == Stage::Unlocked {
            complete_next(evac, seen, st)
        } else {
            let crs = match st.transfer {
                Some(t) => teardown(seen, evac.metadata.any_name(), t.attempt, st),
                None => TeardownView::Gone,
            };
            match crs {
                TeardownView::Read(n) => (st, StepView::Read(n)),
                TeardownView::Going(e) => waiting(
                    st,
                    e,
                    "waiting for transfer CRs to clean up"@,
                    10,
                ),
                TeardownView::Gone => match destruction(seen, st) {
                    DestructionView::Read(n) => (st, StepView::Read(n)),
                    DestructionView::Going(e, msg, true) => (
                        StatusView { message: Some(msg), ..issued(st) },
                        done(e.push(EffectView::WriteStatus), Action::RequeueSecs(5)),
                    ),
                    DestructionView::Going(e, msg, false) => waiting(st, e, msg, 5),
                    DestructionView::Gone => match seen.source_volume {
                        Lookup::Unread => (
                            st,
                            StepView::Read(NeedView::SourceVolume(source.volume_handle)),
                        ),
                        Lookup::Found(zv) => if seen.source_node is Unread {
                            (st, StepView::Read(NeedView::SourceNode(source.node_id)))
                        } else {
                            waiting(
                                st,
                                source_removal(
                                    source,
                                    zv.metadata.deletion_timestamp is Some,
                                    seen.source_node is Absent,
                                ),
                                "waiting for source dataset destruction"@,
                                10,
                            )
                        },
                        Lookup::Absent => (
                            st,
                            StepView::Run(
                                PlanView {
                                    effects: crate::controller::abort::unlock_effects(st),
                                    outcome: Outcome::Again(Stage::Unlocked),
                                },
                            ),
                        ),
                    },
                },
            }
        },
    }
}

/// The end: the replacement must not carry the trigger (an old stored manifest
/// might), or deleting the evacuation would start it all over. Completed is
/// recorded before our finalizer goes: if the evacuation is being deleted, that
/// may erase it at once.
pub open spec fn complete_next(
    evac: ZFSEvacuation,
    seen: Seen,
    st: StatusView,
) -> (StatusView, StepView) {
    match seen.pv {
        Lookup::Unread => (st, StepView::Read(NeedView::Pv)),
        _ => {
            let strip = if seen.pv is Found && lookup(
                seen.pv->0.metadata.annotations,
                EVACUATE_ANNOTATION@,
            ) is Some {
                seq![EffectView::StripTrigger(evac.spec.pv_name@)]
            } else {
                Seq::empty()
            };
            (
                entered(st, Phase::Completed),
                done(
                    strip.push(EffectView::WriteStatus).push(EffectView::ReleaseEvacuation),
                    Action::RequeueMillis(500),
                ),
            )
        },
    }
}

fn complete(evac: &ZFSEvacuation, seen: &Seen, st: &mut ZFSEvacuationStatus) -> (r: Step)
    ensures
        (final(st)@, r@) == complete_next(*evac, *seen, old(st)@),
{
    let triggered = match &seen.pv {
        Lookup::Unread => return Step::Read(Need::Pv),
        Lookup::Absent => false,
        Lookup::Found(pv) => pv.metadata.annotation(EVACUATE_ANNOTATION).is_some(),
    };
    let mut plan = Plan::new(Outcome::Done(Action::RequeueMillis(500)));
    if triggered {
        plan.push(Effect::StripTrigger { pv: evac.spec.pv_name.clone() });
        assert(plan@.effects =~= seq![EffectView::StripTrigger(evac.spec.pv_name@)]);
    }
    st.phase = Phase::Completed;
    st.message = None;
    plan.push(Effect::WriteStatus);
    plan.push(Effect::ReleaseEvacuation);
    Step::Run(plan)
}

fn mark_issued(st: &mut ZFSEvacuationStatus)
    ensures
        final(st)@ == issued(old(st)@),
{
    if let Some(mut t) = st.transfer.take() {
        t.target_snap_delete_issued = true;
        st.transfer = Some(t);
    }
}

/// The CleaningUp phase.
pub fn cleaning_up(evac: &ZFSEvacuation, seen: &Seen, st: &mut ZFSEvacuationStatus) -> (r: Step)
    ensures
        (final(st)@, r@) == cleaning_up_next(*evac, *seen, old(st)@),
{
    let source = match &st.source {
        Some(s) => s.clone(),
        None => return Step::Fault(Error::NoSource),
    };
    if seen.stage == Stage::Unlocked {
        return complete(evac, seen, st);
    }
    let name = evac.metadata.name_any();
    if let Some(t) = &st.transfer {
        match cleanup_transfer_crs(seen, name.as_str(), t.attempt, st) {
            Teardown::Read(n) => return Step::Read(n),
            Teardown::Going(p) => return wait(
                st,
                p,
                "waiting for transfer CRs to clean up".to_owned(),
                10,
            ),
            Teardown::Gone => {},
        }
    }
    match destroy_target_snapshot(seen, st) {
        Destruction::Read(n) => return Step::Read(n),
        Destruction::Going { effects, message, issued } => {
            if issued {
                mark_issued(st);
                st.message = Some(message);
                let mut plan = effects;
                plan.push(Effect::WriteStatus);
                return pause(plan, 5);
            }
            return wait(st, effects, message, 5);
        },
        Destruction::Gone => {},
    }
    match &seen.source_volume {
        Lookup::Unread => Step::Read(Need::SourceVolume(source.volume_handle)),
        Lookup::Found(zv) => {
            let node_gone = match &seen.source_node {
                Lookup::Unread => return Step::Read(Need::SourceNode(source.node_id)),
                Lookup::Absent => true,
                Lookup::Found(_) => false,
            };
            let deleting = zv.metadata.deleting();
            let mut plan = no_effects();
            if !deleting {
                plan.push(
                    Effect::Delete { kind: Kind::ZfsVolume, name: source.volume_handle.clone() },
                );
            }
            plan.push(
                Effect::EditFinalizers {
                    kind: Kind::ZfsVolume,
                    name: source.volume_handle.clone(),
                    edit: FinalizerEdit::DropGuard,
                },
            );
            if node_gone {
                plan.push(
                    Effect::EditFinalizers {
                        kind: Kind::ZfsVolume,
                        name: source.volume_handle.clone(),
                        edit: FinalizerEdit::DropZfs,
                    },
                );
            }
            assert(plan@.effects =~= source_removal(source@, deleting, node_gone));
            wait(st, plan, "waiting for source dataset destruction".to_owned(), 10)
        },
        Lookup::Absent => {
            let mut plan = Plan::new(Outcome::Again(Stage::Unlocked));
            if let Some(p) = &st.pvc_ref {
                plan.push(Effect::Unlock { key: lock_key(p) });
                plan.push(
                    Effect::UnmarkPvc { namespace: p.namespace.clone(), name: p.name.clone() },
                );
            }
            assert(plan@.effects =~= crate::controller::abort::unlock_effects(st@));
            Step::Run(plan)
        },
    }
}

// ------------------------------------------------------------------ cancelling

/// Whether an evacuation is cancelled.
#[derive(Debug)]
pub enum Cancel {
    /// This has to be read.
    Read(Need),
    /// Nothing speaks against going on.
    No,
    /// For this reason; `withdrawn` if the request itself was.
    Because { reason: String, withdrawn: bool },
}

/// Whether an evacuation is cancelled.
#[verifier::ext_equal]
pub enum CancelView {
    Read(NeedView),
    No,
    Because(Seq<char>, bool),
}

impl View for Cancel {
    type V = CancelView;

    open spec fn view(&self) -> CancelView {
        match *self {
            Cancel::Read(n) => CancelView::Read(n@),
            Cancel::No => CancelView::No,
            Cancel::Because { reason, withdrawn } => CancelView::Because(reason@, withdrawn),
        }
    }
}

/// Whether the PVC an evacuation belongs to is gone or another one by now.
pub open spec fn pvc_cancel(seen: Seen, st: StatusView) -> CancelView {
    match st.pvc_ref {
        None => CancelView::No,
        Some(p) => match seen.pvc {
            Lookup::Unread => CancelView::Read(NeedView::Pvc(p.namespace, p.name)),
            Lookup::Absent => CancelView::Because("PVC deleted during evacuation"@, false),
            Lookup::Found(pvc) => if opt(pvc.metadata.uid) != Some(p.uid) {
                CancelView::Because("PVC replaced (UID changed) during evacuation"@, false)
            } else {
                CancelView::No
            },
        },
    }
}

/// Whether an evacuation is cancelled before the commit point: its PV or PVC is
/// gone, or its request was withdrawn. Taking the annotation off withdraws an
/// annotation's; taking the taint off a node that still exists withdraws a
/// taint's: a vanished node is no cancel, since the whole point is evacuating
/// ahead of removal. In Pending nothing has been touched yet.
pub open spec fn cancel(
    evac: ZFSEvacuation,
    seen: Seen,
    st: StatusView,
    cfg: Config,
) -> CancelView {
    if st.phase == Phase::Pending {
        CancelView::No
    } else {
        match seen.pv {
            Lookup::Unread => CancelView::Read(NeedView::Pv),
            Lookup::Absent => CancelView::Because("source PV disappeared before commit"@, false),
            Lookup::Found(pv) => match evac.spec.trigger {
                EvacuationTrigger::Annotation => if lookup(
                    pv.metadata.annotations,
                    EVACUATE_ANNOTATION@,
                ) != Some("true"@) {
                    CancelView::Because("evacuate annotation removed (cancelled)"@, true)
                } else {
                    pvc_cancel(seen, st)
                },
                EvacuationTrigger::NodeTaint => match st.source {
                    None => pvc_cancel(seen, st),
                    Some(source) => match seen.source_node_by_name {
                        Lookup::Unread => CancelView::Read(NeedView::SourceNodeByName(source.node)),
                        Lookup::Absent => pvc_cancel(seen, st),
                        Lookup::Found(node) => if !has_taint(node, cfg.taint_key@) {
                            CancelView::Because(
                                "source node's evacuate taint removed (cancelled)"@,
                                true,
                            )
                        } else {
                            pvc_cancel(seen, st)
                        },
                    },
                },
            },
        }
    }
}

fn cancelled_by_pvc(seen: &Seen, st: &ZFSEvacuationStatus) -> (r: Cancel)
    ensures
        r@ == pvc_cancel(*seen, st@),
{
    match &st.pvc_ref {
        None => Cancel::No,
        Some(p) => match &seen.pvc {
            Lookup::Unread => Cancel::Read(
                Need::Pvc { namespace: p.namespace.clone(), name: p.name.clone() },
            ),
            Lookup::Absent => Cancel::Because {
                reason: "PVC deleted during evacuation".to_owned(),
                withdrawn: false,
            },
            Lookup::Found(pvc) => if !uid_is(&pvc.metadata.uid, p.uid.as_str()) {
                Cancel::Because {
                    reason: "PVC replaced (UID changed) during evacuation".to_owned(),
                    withdrawn: false,
                }
            } else {
                Cancel::No
            },
        },
    }
}

/// Tells whether an evacuation is cancelled before the commit point.
pub fn cancel_reason(
    evac: &ZFSEvacuation,
    seen: &Seen,
    st: &ZFSEvacuationStatus,
    cfg: &Config,
) -> (r: Cancel)
    ensures
        r@ == cancel(*evac, *seen, st@, *cfg),
{
    if st.phase == Phase::Pending {
        return Cancel::No;
    }
    let pv = match &seen.pv {
        Lookup::Unread => return Cancel::Read(Need::Pv),
        Lookup::Absent => return Cancel::Because {
            reason: "source PV disappeared before commit".to_owned(),
            withdrawn: false,
        },
        Lookup::Found(pv) => pv,
    };
    match evac.spec.trigger {
        EvacuationTrigger::Annotation => {
            let wanted = match pv.metadata.annotation(EVACUATE_ANNOTATION) {
                Some(v) => same(v.as_str(), "true"),
                None => false,
            };
            if !wanted {
                return Cancel::Because {
                    reason: "evacuate annotation removed (cancelled)".to_owned(),
                    withdrawn: true,
                };
            }
        },
        EvacuationTrigger::NodeTaint => {
            if let Some(source) = &st.source {
                match &seen.source_node_by_name {
                    Lookup::Unread => return Cancel::Read(
                        Need::SourceNodeByName(source.node.clone()),
                    ),
                    Lookup::Absent => {},
                    Lookup::Found(node) => {
                        if !node_has_evacuate_taint(node, cfg.taint_key.as_str()) {
                            return Cancel::Because {
                                reason: "source node's evacuate taint removed (cancelled)".to_owned(),
                                withdrawn: true,
                            };
                        }
                    },
                }
            }
        },
    }
    cancelled_by_pvc(seen, st)
}

// ------------------------------------------------------------------ the machine

/// One phase of an evacuation.
pub open spec fn phase_next(
    evac: ZFSEvacuation,
    seen: Seen,
    st: StatusView,
    cfg: Config,
    now: Option<Moment>,
    chance: Chance,
) -> (StatusView, StepView) {
    match st.phase {
        Phase::Pending => pending_next(evac, seen, st),
        Phase::Guarding => guarding_next(st),
        Phase::Retaining => retaining_next(evac, st),
        Phase::Locking => locking_next(evac, st, now),
        Phase::Quiescing => quiescing_next(evac, seen, st, cfg, now),
        Phase::TargetSelecting => target_selecting_next(evac, seen, st, cfg, chance.volume),
        Phase::Transferring => transferring_next(evac, seen, st, cfg, now),
        Phase::Adopting => adopting_next(seen, st),
        Phase::Committing => committing_next(evac, seen, st, cfg),
        Phase::Swapping => swapping_next(evac, seen, st, cfg),
        Phase::CleaningUp => cleaning_up_next(evac, seen, st),
        Phase::Aborting => abort_next(evac, seen, st),
        Phase::Completed => (st, done(Seq::empty(), Action::AwaitChange)),
        Phase::Failed => (st, done(Seq::empty(), Action::AwaitChange)),
    }
}

/// Has an evacuation come to an end?
pub open spec fn terminal(phase: Phase) -> bool {
    phase == Phase::Completed || phase == Phase::Failed
}

/// What the status says of an evacuation that is deleted before the commit.
pub open spec fn withdrawn_by_deletion(st: StatusView) -> StatusView {
    StatusView { message: Some("ZFSEvacuation deleted before commit; aborting"@), ..st }
}

/// One step of an evacuation. One that has come to an end is only let go of;
/// one that is deleted before the commit point is unwound. Past the commit
/// point, deleted or not, it rolls forward only. Our finalizer is put on it
/// while it lives, so that deletion cannot orphan what it did.
pub open spec fn reconcile_next(
    evac: ZFSEvacuation,
    seen: Seen,
    st: StatusView,
    cfg: Config,
    now: Option<Moment>,
    chance: Chance,
) -> (StatusView, StepView) {
    let deleted = evac.metadata.deletion_timestamp is Some;
    if terminal(st.phase) {
        (
            st,
            done(
                if deleted {
                    seq![EffectView::ReleaseEvacuation]
                } else {
                    Seq::empty()
                },
                Action::AwaitChange,
            ),
        )
    } else if deleted && !st.committed {
        let next = abort_next(evac, seen, withdrawn_by_deletion(st));
        (
            if next.1 is Run {
                next.0
            } else {
                st
            },
            next.1,
        )
    } else if !deleted && seen.stage == Stage::Begin && !evac.metadata.held_by().contains(
        EVACUATION_FINALIZER@,
    ) {
        (
            st,
            StepView::Run(
                PlanView {
                    effects: seq![EffectView::HoldEvacuation],
                    outcome: Outcome::Again(Stage::Held),
                },
            ),
        )
    } else if st.phase == Phase::Aborting {
        abort_next(evac, seen, st)
    } else if !st.committed && st.phase != Phase::Pending && seen.stage != Stage::Checked {
        match cancel(evac, seen, st, cfg) {
            CancelView::Read(n) => (st, StepView::Read(n)),
            CancelView::Because(reason, withdrawn) => aborting(
                StatusView { cancelled: st.cancelled || withdrawn, ..st },
                Seq::empty(),
                reason,
            ),
            CancelView::No => (
                st,
                StepView::Run(
                    PlanView { effects: Seq::empty(), outcome: Outcome::Again(Stage::Checked) },
                ),
            ),
        }
    } else {
        phase_next(evac, seen, st, cfg, now, chance)
    }
}

/// One phase of an evacuation.
#[verifier::rlimit(40)]
fn run_phase(
    evac: &ZFSEvacuation,
    seen: &Seen,
    st: &mut ZFSEvacuationStatus,
    cfg: &Config,
    now: Option<Moment>,
    chance: Chance,
) -> (r: Step)
    requires
        now matches Some(m) ==> m.nanos < 1_000_000_000,
    ensures
        (final(st)@, r@) == phase_next(*evac, *seen, old(st)@, *cfg, now, chance),
        r matches Step::Spawn { attempt: _, backup_peers, restore_peers } ==> all_well_formed(
            backup_peers@,
        ) && all_well_formed(restore_peers@),
{
    match st.phase {
        Phase::Pending => pending(evac, seen, st),
        Phase::Guarding => guarding(st),
        Phase::Retaining => retaining(evac, st),
        Phase::Locking => locking(evac, st, now),
        Phase::Quiescing => quiescing(evac, seen, st, cfg, now),
        Phase::TargetSelecting => target_selecting(evac, seen, st, cfg, chance.volume),
        Phase::Transferring => transfer::transferring(evac, seen, st, cfg, now),
        Phase::Adopting => adopting(seen, st),
        Phase::Committing => pv_swap::committing(evac, seen, st, cfg),
        Phase::Swapping => pv_swap::swapping(evac, seen, st, cfg),
        Phase::CleaningUp => cleaning_up(evac, seen, st),
        Phase::Aborting => abort::run(evac, seen, st),
        Phase::Completed => Step::Run(Plan::new(Outcome::Done(Action::AwaitChange))),
        Phase::Failed => Step::Run(Plan::new(Outcome::Done(Action::AwaitChange))),
    }
}

/// One step of an evacuation.
#[verifier::rlimit(40)]
pub fn reconcile(
    evac: &ZFSEvacuation,
    seen: &Seen,
    st: &mut ZFSEvacuationStatus,
    cfg: &Config,
    now: Option<Moment>,
    chance: Chance,
) -> (r: Step)
    requires
        now matches Some(m) ==> m.nanos < 1_000_000_000,
    ensures
        (final(st)@, r@) == reconcile_next(*evac, *seen, old(st)@, *cfg, now, chance),
        r matches Step::Spawn { attempt: _, backup_peers, restore_peers } ==> all_well_formed(
            backup_peers@,
        ) && all_well_formed(restore_peers@),
{
    let deleted = evac.metadata.deleting();
    if st.phase == Phase::Completed || st.phase == Phase::Failed {
        let mut plan = no_effects();
        if deleted {
            plan.push(Effect::ReleaseEvacuation);
            assert(plan@.effects =~= seq![EffectView::ReleaseEvacuation]);
        }
        plan.outcome = Outcome::Done(Action::AwaitChange);
        return Step::Run(plan);
    }
    if deleted && !st.committed {
        let before = st.message.clone();
        st.message = Some("ZFSEvacuation deleted before commit; aborting".to_owned());
        let ghost marked_st = st@;
        let step = abort::run(evac, seen, st);
        proof {
            abort_keeps_status(*evac, *seen, marked_st);
        }
        match &step {
            Step::Run(_) => {},
            _ => {
                st.message = before;
            },
        }
        return step;
    }
    if !deleted && seen.stage == Stage::Begin && !evac.metadata.has_finalizer(
        EVACUATION_FINALIZER,
    ) {
        let mut plan = single(Effect::HoldEvacuation);
        plan.outcome = Outcome::Again(Stage::Held);
        return Step::Run(plan);
    }
    if st.phase == Phase::Aborting {
        return abort::run(evac, seen, st);
    }
    if !st.committed && st.phase != Phase::Pending && seen.stage != Stage::Checked {
        return match cancel_reason(evac, seen, st, cfg) {
            Cancel::Read(n) => Step::Read(n),
            Cancel::Because { reason, withdrawn } => {
                st.cancelled = st.cancelled || withdrawn;
                turn_back(st, no_effects(), reason)
            },
            Cancel::No => Step::Run(Plan::new(Outcome::Again(Stage::Checked))),
        };
    }
    run_phase(evac, seen, st, cfg, now, chance)
}

/// What is not carried out changes nothing.
proof fn abort_keeps_status(evac: ZFSEvacuation, seen: Seen, st: StatusView)
    ensures
        !(abort_next(evac, seen, st).1 is Run) ==> abort_next(evac, seen, st).0 == st,
{
}

/// When to try again after an error.
pub fn error_policy() -> (r: Action)
    ensures
        r == Action::RequeueSecs(15),
{
    Action::RequeueSecs(15)
}

} // verus!
