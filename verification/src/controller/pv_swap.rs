//! Commit-point rendering and the PV swap itself. The swap window (old PV
//! deleted, new PV not yet created) is survivable only because both manifests
//! are durable in status before the first delete.
use vstd::prelude::*;

use crate::cluster::{
    uid_is, CsiVolumeSource, CsiView, Lookup, MetaView, NodeSelector, NodeSelectorRequirement,
    NodeSelectorTerm, ObjectMeta, ObjectReference, PersistentVolume, PersistentVolumeSpec, Pod,
    PvSpecView, PvView, ReferenceView, RequirementView, TermView, VolumeNodeAffinity,
};
use crate::controller::plan::{
    error_text, Effect, EffectView, Error, FinalizerEdit, Kind, Need, NeedView, Seen, Step,
    StepView,
};
use crate::controller::state_machine::{
    aborting, advance, advanced, blocking, blocking_reason, fail, failed, mode_of, no_effects,
    pause, paused, turn_back, wait, waiting, working_mode, Blocking, BlockingView,
};
use crate::controller::{names_of, pod_names, scheduled, Config};
use crate::crd::openebs::{NODE_ID_TOPOLOGY_KEY, POOLNAME_ATTRIBUTE};
use crate::crd::zfs_evacuation::{
    EvacuationMode, Phase, PvcRef, PvcView, StatusView, TargetInfo, TargetView, ZFSEvacuation,
    ZFSEvacuationStatus, EVACUATE_ANNOTATION,
};
use crate::string_map::StringMap;
use crate::text::{cat, join, joined, opt, text_or_empty, views};

verus! {

// ------------------------------------------------------------------ the replacement

/// A PV's CSI source with the new volume in it.
pub open spec fn moved_csi(csi: CsiView, target: TargetView) -> CsiView {
    CsiView {
        volume_handle: target.new_volume_handle,
        volume_attributes: match csi.volume_attributes {
            Some(a) => Some(
                if a.contains_key(POOLNAME_ATTRIBUTE@) {
                    a.insert(POOLNAME_ATTRIBUTE@, target.pool)
                } else {
                    a
                },
            ),
            None => None,
        },
        ..csi
    }
}

/// A node selector's terms that admit exactly the node with this identity.
pub open spec fn only_node(id: Seq<char>) -> Seq<TermView> {
    seq![
        TermView {
            expressions: seq![
                RequirementView {
                    key: NODE_ID_TOPOLOGY_KEY@,
                    operator: "In"@,
                    values: seq![id],
                },
            ],
            fields: Seq::empty(),
        },
    ]
}

/// The replacement of a PV: same name (so that PVC bindings survive), new
/// handle, pool and node, bound in advance to the PVC by its UID so that the PV
/// controller rebinds it, and retained until the rebind is verified. Labels,
/// annotations and everything else in the spec stay, but for our own trigger,
/// which would evacuate the volume again; what the server fills in does not.
pub open spec fn replacement(
    old_meta: MetaView,
    old_spec: PvSpecView,
    pvc: PvcView,
    target: TargetView,
) -> PvView {
    PvView {
        metadata: MetaView {
            name: old_meta.name,
            generate_name: None,
            uid: None,
            resource_version: None,
            labels: old_meta.labels,
            annotations: match old_meta.annotations {
                Some(a) => Some(a.remove(EVACUATE_ANNOTATION@)),
                None => None,
            },
            finalizers: None,
            deletion_timestamp: None,
        },
        spec: Some(
            PvSpecView {
                claim_ref: Some(
                    ReferenceView {
                        api_version: Some("v1"@),
                        kind: Some("PersistentVolumeClaim"@),
                        namespace: Some(pvc.namespace),
                        name: Some(pvc.name),
                        uid: Some(pvc.uid),
                        resource_version: None,
                        field_path: None,
                    },
                ),
                csi: Some(moved_csi(old_spec.csi->0, target)),
                node_affinity: Some(Some(only_node(target.node_id))),
                persistent_volume_reclaim_policy: Some("Retain"@),
                ..old_spec
            },
        ),
        status: None,
    }
}

fn copied_map(m: &Option<StringMap>) -> (r: Option<StringMap>)
    ensures
        crate::cluster::entries(r) == crate::cluster::entries(*m),
{
    match m {
        Some(m) => Some(m.clone()),
        None => None,
    }
}

fn affinity_to(id: &str) -> (r: Option<VolumeNodeAffinity>)
    ensures
        crate::cluster::affinity_terms(r) == Some(Some(only_node(id@))),
{
    let mut values: Vec<String> = Vec::new();
    values.push(id.to_owned());
    assert(views(values@) =~= seq![id@]);
    let req = NodeSelectorRequirement {
        key: NODE_ID_TOPOLOGY_KEY.to_owned(),
        operator: "In".to_owned(),
        values: Some(values),
    };
    let mut exprs: Vec<NodeSelectorRequirement> = Vec::new();
    exprs.push(req);
    let ghost rv = RequirementView {
        key: NODE_ID_TOPOLOGY_KEY@,
        operator: "In"@,
        values: seq![id@],
    };
    assert(req@ == rv);
    let term = NodeSelectorTerm { match_expressions: Some(exprs), match_fields: None };
    assert(term@.expressions =~= seq![rv]);
    assert(term@.fields =~= Seq::<RequirementView>::empty());
    let mut all: Vec<NodeSelectorTerm> = Vec::new();
    all.push(term);
    assert(crate::cluster::terms(all@) =~= only_node(id@));
    Some(VolumeNodeAffinity { required: Some(NodeSelector { node_selector_terms: all }) })
}

/// Renders the replacement of a PV.
pub fn render_new_pv(old_pv: &PersistentVolume, pvc_ref: &PvcRef, target: &TargetInfo) -> (r: Result<
    PersistentVolume,
    Error,
>)
    ensures
        match r {
            Ok(pv) => old_pv.spec is Some && old_pv.spec->0.csi is Some && pv@ == replacement(
                old_pv.metadata@,
                old_pv.spec->0@,
                pvc_ref@,
                target@,
            ),
            Err(e) => if old_pv.spec is None {
                e == Error::PvWithoutSpec
            } else {
                old_pv.spec->0.csi is None && e == Error::PvWithoutCsi
            },
        },
{
    let spec = match &old_pv.spec {
        Some(s) => s,
        None => return Err(Error::PvWithoutSpec),
    };
    let csi = match &spec.csi {
        Some(c) => c,
        None => return Err(Error::PvWithoutCsi),
    };
    let mut annotations = copied_map(&old_pv.metadata.annotations);
    if let Some(mut a) = annotations.take() {
        a.remove(EVACUATE_ANNOTATION);
        annotations = Some(a);
    }
    let mut attributes = copied_map(&csi.volume_attributes);
    if let Some(mut a) = attributes.take() {
        if a.contains_key(POOLNAME_ATTRIBUTE) {
            a.insert(POOLNAME_ATTRIBUTE.to_owned(), target.pool.clone());
        }
        attributes = Some(a);
    }
    let metadata = ObjectMeta {
        name: old_pv.metadata.name.clone(),
        generate_name: None,
        uid: None,
        resource_version: None,
        labels: copied_map(&old_pv.metadata.labels),
        annotations,
        finalizers: None,
        deletion_timestamp: None,
    };
    let claim_ref = ObjectReference {
        api_version: Some("v1".to_owned()),
        kind: Some("PersistentVolumeClaim".to_owned()),
        namespace: Some(pvc_ref.namespace.clone()),
        name: Some(pvc_ref.name.clone()),
        uid: Some(pvc_ref.uid.clone()),
        resource_version: None,
        field_path: None,
    };
    let new_csi = CsiVolumeSource {
        driver: csi.driver.clone(),
        volume_handle: target.new_volume_handle.clone(),
        volume_attributes: attributes,
        extra: csi.extra.clone(),
    };
    assert(new_csi@ =~= moved_csi(csi@, target@));
    let new_spec = PersistentVolumeSpec {
        claim_ref: Some(claim_ref),
        csi: Some(new_csi),
        node_affinity: affinity_to(target.node_id.as_str()),
        persistent_volume_reclaim_policy: Some("Retain".to_owned()),
        storage_class_name: spec.storage_class_name.clone(),
        extra: spec.extra.clone(),
    };
    let pv = PersistentVolume { metadata, spec: Some(new_spec), status: None };
    assert(pv@ =~= replacement(old_pv.metadata@, old_pv.spec->0@, pvc_ref@, target@));
    Ok(pv)
}

// ------------------------------------------------------------------ the commit

/// The pods that must not be there at the commit: any when the volume was
/// waited for idle; when it is claimed, one that was scheduled means that the
/// source stopped repelling pods mid-copy.
pub open spec fn unexpected(mode: EvacuationMode, pods: Seq<Pod>) -> Seq<Pod> {
    match mode {
        EvacuationMode::WhenIdle => pods,
        EvacuationMode::WhenClaimed => scheduled(pods),
    }
}

/// The Committing phase: the checks at the last moment that can be cancelled,
/// and the rendering of the replacement.
pub open spec fn committing_next(
    evac: ZFSEvacuation,
    seen: Seen,
    st: StatusView,
    cfg: Config,
) -> (StatusView, StepView) {
    if st.pvc_ref is None {
        (st, StepView::Fault(error_text(Error::NoPvcRef)))
    } else if st.source is None {
        (st, StepView::Fault(error_text(Error::NoSource)))
    } else if st.target is None {
        (st, StepView::Fault(error_text(Error::NoTarget)))
    } else {
        let pvc_ref = st.pvc_ref->0;
        let source = st.source->0;
        match seen.pvc {
            Lookup::Unread => (st, StepView::Read(NeedView::Pvc(pvc_ref.namespace, pvc_ref.name))),
            Lookup::Absent => (st, StepView::Fault(error_text(Error::PvcGoneAtCommit))),
            Lookup::Found(pvc) => if opt(pvc.metadata.uid) != Some(pvc_ref.uid) {
                aborting(st, Seq::empty(), "PVC UID changed at commit; aborting"@)
            } else if seen.pods is None {
                (st, StepView::Read(NeedView::Pods(pvc_ref.namespace, pvc_ref.name)))
            } else {
                let extra = unexpected(mode_of(evac, st), seen.pods->0@);
                if extra.len() > 0 {
                    // Abort loudly rather than swap under a live consumer.
                    aborting(
                        st,
                        Seq::empty(),
                        "pods appeared at commit despite lock: "@ + joined(names_of(extra), ", "@),
                    )
                } else {
                    match blocking(evac, seen, st, cfg, seen.pods->0@) {
                        BlockingView::Read(n) => (st, StepView::Read(n)),
                        BlockingView::By(msg) => waiting(st, Seq::empty(), msg, 15),
                        BlockingView::Clear => match seen.pv {
                            Lookup::Unread => (st, StepView::Read(NeedView::Pv)),
                            Lookup::Absent => (st, StepView::Fault(error_text(Error::PvGoneAtCommit))),
                            Lookup::Found(pv) => if opt(pv.metadata.uid) != Some(source.pv_uid) {
                                failed(st, "old PV UID changed at commit"@)
                            } else if pv.spec is None {
                                (st, StepView::Fault(error_text(Error::PvWithoutSpec)))
                            } else if pv.spec->0.csi is None {
                                (st, StepView::Fault(error_text(Error::PvWithoutCsi)))
                            } else {
                                (
                                    st,
                                    StepView::Commit(
                                        replacement(
                                            pv.metadata@,
                                            pv.spec->0@,
                                            pvc_ref,
                                            st.target->0,
                                        ),
                                    ),
                                )
                            },
                        },
                    }
                }
            },
        }
    }
}

fn names_unexpected(mode: EvacuationMode, pods: &Vec<Pod>) -> (r: Vec<String>)
    ensures
        views(r@) == names_of(unexpected(mode, pods@)),
{
    match mode {
        EvacuationMode::WhenIdle => pod_names(pods.as_slice()),
        EvacuationMode::WhenClaimed => crate::controller::scheduled_names(pods.as_slice()),
    }
}

/// The Committing phase.
pub fn committing(
    evac: &ZFSEvacuation,
    seen: &Seen,
    st: &mut ZFSEvacuationStatus,
    cfg: &Config,
) -> (r: Step)
    ensures
        (final(st)@, r@) == committing_next(*evac, *seen, old(st)@, *cfg),
{
    let pvc_ref = match &st.pvc_ref {
        Some(p) => p.clone(),
        None => return Step::Fault(Error::NoPvcRef),
    };
    let source = match &st.source {
        Some(s) => s.clone(),
        None => return Step::Fault(Error::NoSource),
    };
    let target = match &st.target {
        Some(t) => t.clone(),
        None => return Step::Fault(Error::NoTarget),
    };
    let pvc = match &seen.pvc {
        Lookup::Unread => return Step::Read(
            Need::Pvc { namespace: pvc_ref.namespace, name: pvc_ref.name },
        ),
        Lookup::Absent => return Step::Fault(Error::PvcGoneAtCommit),
        Lookup::Found(pvc) => pvc,
    };
    if !uid_is(&pvc.metadata.uid, pvc_ref.uid.as_str()) {
        return turn_back(
            st,
            no_effects(),
            "PVC UID changed at commit; aborting".to_owned(),
        );
    }
    let pods = match &seen.pods {
        Some(p) => p,
        None => return Step::Read(Need::Pods { namespace: pvc_ref.namespace, name: pvc_ref.name }),
    };
    let extra = names_unexpected(working_mode(evac, st), pods);
    assert(views(extra@).len() == extra@.len());
    if extra.len() > 0 {
        return turn_back(
            st,
            no_effects(),
            cat("pods appeared at commit despite lock: ", join(&extra, ", ").as_str()),
        );
    }
    match blocking_reason(evac, seen, st, cfg, pods) {
        Blocking::Read(n) => return Step::Read(n),
        Blocking::By(msg) => return wait(st, no_effects(), msg, 15),
        Blocking::Clear => {},
    }
    let old_pv = match &seen.pv {
        Lookup::Unread => return Step::Read(Need::Pv),
        Lookup::Absent => return Step::Fault(Error::PvGoneAtCommit),
        Lookup::Found(pv) => pv,
    };
    if !uid_is(&old_pv.metadata.uid, source.pv_uid.as_str()) {
        return fail(st, "old PV UID changed at commit".to_owned());
    }
    match render_new_pv(old_pv, &pvc_ref, &target) {
        Ok(pv) => Step::Commit(pv),
        Err(e) => Step::Fault(e),
    }
}

/// The commit record: both manifests, and that there is no way back.
pub open spec fn committed_next(
    st: StatusView,
    old_manifest: Seq<char>,
    new_manifest: Seq<char>,
) -> (StatusView, StepView) {
    advanced(
        StatusView {
            old_pv_manifest: Some(old_manifest),
            new_pv_manifest: Some(new_manifest),
            committed: true,
            ..st
        },
        Seq::empty(),
        Phase::Swapping,
    )
}

/// Commits: the status write that this asks for is the commit record; from
/// there, roll forward only. The status is the sole store: deleting the
/// evacuation mid-swap runs the finalizer's roll-forward.
pub fn commit(st: &mut ZFSEvacuationStatus, old_manifest: String, new_manifest: String) -> (r: Step)
    ensures
        (final(st)@, r@) == committed_next(old(st)@, old_manifest@, new_manifest@),
{
    st.old_pv_manifest = Some(old_manifest);
    st.new_pv_manifest = Some(new_manifest);
    st.committed = true;
    advance(st, no_effects(), Phase::Swapping)
}

// ------------------------------------------------------------------ the swap

/// What keeps the old PV is taken off it. Its protection blocks while it is
/// bound (quiescence is verified), and the provisioner's finalizer may linger
/// (the policy is Retain, so the provisioner has nothing to delete).
pub open spec fn unblocked(pv: Seq<char>) -> EffectView {
    EffectView::EditFinalizers(Kind::PersistentVolume, pv, FinalizerEdit::DropPvBlockers)
}

/// The Swapping phase. While the old PV is there it is deleted, checked right
/// up against the delete; once it is gone, its replacement is created from the
/// stored manifest; once that is bound to the PVC, the original reclaim policy
/// is restored and the source can go.
pub open spec fn swapping_next(
    evac: ZFSEvacuation,
    seen: Seen,
    st: StatusView,
    cfg: Config,
) -> (StatusView, StepView) {
    let pv_name = evac.spec.pv_name@;
    if st.source is None {
        (st, StepView::Fault(error_text(Error::NoSource)))
    } else if st.pvc_ref is None {
        (st, StepView::Fault(error_text(Error::NoPvcRef)))
    } else {
        let source = st.source->0;
        let pvc_ref = st.pvc_ref->0;
        match seen.pv {
            Lookup::Unread => (st, StepView::Read(NeedView::Pv)),
            Lookup::Absent => match st.new_pv_manifest {
                None => (st, StepView::Fault(error_text(Error::NoNewManifest))),
                Some(m) => paused(st, seq![EffectView::CreatePv(m)], 2),
            },
            Lookup::Found(pv) => if opt(pv.metadata.uid) == Some(source.pv_uid) {
                if pv.metadata.deletion_timestamp is Some {
                    paused(st, seq![unblocked(pv_name)], 2)
                } else if seen.pods is None {
                    (st, StepView::Read(NeedView::Pods(pvc_ref.namespace, pvc_ref.name)))
                } else {
                    match blocking(evac, seen, st, cfg, seen.pods->0@) {
                        BlockingView::Read(n) => (st, StepView::Read(n)),
                        BlockingView::By(msg) => waiting(st, Seq::empty(), msg, 10),
                        BlockingView::Clear => paused(
                            st,
                            seq![
                                EffectView::Delete(Kind::PersistentVolume, pv_name),
                                unblocked(pv_name),
                            ],
                            2,
                        ),
                    }
                }
            } else if bound_to(pv, pvc_ref.uid) {
                advanced(
                    st,
                    match st.original_reclaim_policy {
                        Some(p) => seq![EffectView::SetReclaimPolicy(pv_name, p)],
                        None => Seq::empty(),
                    },
                    Phase::CleaningUp,
                )
            } else {
                paused(st, Seq::empty(), 3)
            },
        }
    }
}

/// Is a PV bound to the PVC with this UID?
pub open spec fn bound_to(pv: PersistentVolume, uid: Seq<char>) -> bool {
    &&& pv.status is Some
    &&& opt(pv.status->0.phase) == Some("Bound"@)
    &&& uid == match pv.claim() {
        Some(c) => text_or_empty(c.uid),
        None => Seq::empty(),
    }
}

fn is_bound_to(pv: &PersistentVolume, uid: &str) -> (r: bool)
    ensures
        r == bound_to(*pv, uid@),
{
    let bound = match &pv.status {
        Some(s) => crate::text::opt_is(&s.phase, "Bound"),
        None => false,
    };
    let claimed = match &pv.spec {
        Some(s) => match &s.claim_ref {
            Some(c) => match &c.uid {
                Some(u) => crate::text::same(u.as_str(), uid),
                None => uid.is_empty(),
            },
            None => uid.is_empty(),
        },
        None => uid.is_empty(),
    };
    assert(uid@.len() == 0 ==> uid@ =~= Seq::<char>::empty());
    bound && claimed
}

/// The Swapping phase.
pub fn swapping(
    evac: &ZFSEvacuation,
    seen: &Seen,
    st: &mut ZFSEvacuationStatus,
    cfg: &Config,
) -> (r: Step)
    ensures
        (final(st)@, r@) == swapping_next(*evac, *seen, old(st)@, *cfg),
{
    let source = match &st.source {
        Some(s) => s.clone(),
        None => return Step::Fault(Error::NoSource),
    };
    let pvc_ref = match &st.pvc_ref {
        Some(p) => p.clone(),
        None => return Step::Fault(Error::NoPvcRef),
    };
    let mut plan = no_effects();
    match &seen.pv {
        Lookup::Unread => Step::Read(Need::Pv),
        Lookup::Absent => match &st.new_pv_manifest {
            None => Step::Fault(Error::NoNewManifest),
            Some(m) => {
                plan.push(Effect::CreatePv { manifest: m.clone() });
                assert(plan@.effects =~= seq![EffectView::CreatePv(m@)]);
                pause(plan, 2)
            },
        },
        Lookup::Found(pv) => {
            if uid_is(&pv.metadata.uid, source.pv_uid.as_str()) {
                let going = pv.metadata.deleting();
                if !going {
                    let pods = match &seen.pods {
                        Some(p) => p,
                        None => return Step::Read(
                            Need::Pods { namespace: pvc_ref.namespace, name: pvc_ref.name },
                        ),
                    };
                    match blocking_reason(evac, seen, st, cfg, pods) {
                        Blocking::Read(n) => return Step::Read(n),
                        Blocking::By(msg) => return wait(st, no_effects(), msg, 10),
                        Blocking::Clear => {},
                    }
                    plan.push(
                        Effect::Delete {
                            kind: Kind::PersistentVolume,
                            name: evac.spec.pv_name.clone(),
                        },
                    );
                }
                plan.push(
                    Effect::EditFinalizers {
                        kind: Kind::PersistentVolume,
                        name: evac.spec.pv_name.clone(),
                        edit: FinalizerEdit::DropPvBlockers,
                    },
                );
                proof {
                    let n = evac.spec.pv_name@;
                    if going {
                        assert(plan@.effects =~= seq![unblocked(n)]);
                    } else {
                        assert(plan@.effects =~= seq![
                            EffectView::Delete(Kind::PersistentVolume, n),
                            unblocked(n),
                        ]);
                    }
                }
                pause(plan, 2)
            } else if is_bound_to(pv, pvc_ref.uid.as_str()) {
                if let Some(p) = &st.original_reclaim_policy {
                    plan.push(
                        Effect::SetReclaimPolicy {
                            pv: evac.spec.pv_name.clone(),
                            policy: p.clone(),
                        },
                    );
                    assert(plan@.effects =~= seq![
                        EffectView::SetReclaimPolicy(evac.spec.pv_name@, p@),
                    ]);
                }
                advance(st, plan, Phase::CleaningUp)
            } else {
                pause(plan, 3)
            }
        },
    }
}

// ------------------------------------------------------------------ what holds of a replacement

/// A replacement keeps what binds the PVC to it and what is not about its place,
/// and comes up retained, on the target's node only, and without our trigger.
pub proof fn replacements_keep_the_binding(
    old_meta: MetaView,
    old_spec: PvSpecView,
    pvc: PvcView,
    target: TargetView,
)
    requires
        old_spec.csi is Some,
    ensures
        ({
            let pv = replacement(old_meta, old_spec, pvc, target);
            let spec = pv.spec->0;
            &&& pv.metadata.name == old_meta.name
            &&& pv.metadata.labels == old_meta.labels
            &&& pv.metadata.annotations matches Some(a) ==> !a.contains_key(EVACUATE_ANNOTATION@)
            &&& forall|k: Seq<char>|
                k != EVACUATE_ANNOTATION@ && old_meta.annotations is Some
                    && #[trigger] old_meta.annotations->0.contains_key(k)
                    ==> pv.metadata.annotations->0.contains_key(k)
                    && pv.metadata.annotations->0[k] == old_meta.annotations->0[k]
            &&& spec.claim_ref->0.uid == Some(pvc.uid)
            &&& spec.persistent_volume_reclaim_policy == Some("Retain"@)
            &&& spec.storage_class_name == old_spec.storage_class_name
            &&& spec.extra == old_spec.extra
            &&& spec.csi->0.driver == old_spec.csi->0.driver
            &&& spec.csi->0.volume_handle == target.new_volume_handle
        }),
{
}

/// The replacement's node affinity admits a node exactly if it carries the
/// target's identity as its label.
pub proof fn replacements_stay_on_the_target(id: Seq<char>, node: crate::cluster::Node)
    ensures
        (exists|i: int|
            0 <= i < only_node(id).len() && crate::controller::placement::term_admits(
                #[trigger] only_node(id)[i],
                node,
            )) == (crate::cluster::lookup(node.metadata.labels, NODE_ID_TOPOLOGY_KEY@) == Some(id)),
{
    let term = only_node(id)[0];
    let req = term.expressions[0];
    assert(only_node(id).len() == 1);
    assert(term.expressions.len() == 1);
    let value = crate::cluster::lookup(node.metadata.labels, NODE_ID_TOPOLOGY_KEY@);
    assert(req.values =~= seq![id]);
    assert(req.values[0] == id);
    assert(crate::controller::placement::label_meets(req, node) == (value == Some(id))) by {
        if value is Some && req.values.contains(value->0) {
            let k = choose|k: int| 0 <= k < req.values.len() && req.values[k] == value->0;
            assert(k == 0);
        }
    }
    assert(crate::controller::placement::term_admits(term, node) == (value == Some(id)));
}

} // verus!
