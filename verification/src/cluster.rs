//! The parts of the cluster's own objects that an evacuation reads or writes.
use std::collections::BTreeMap;

use serde_json::Value;
use vstd::prelude::*;

use crate::string_map::StringMap;
use crate::text::{opt, text_or_empty, views};

verus! {

/// A JSON value as `serde_json` holds it: carried along, never looked into.
#[verifier::external_type_specification]
#[verifier::external_body]
pub struct ExValue(serde_json::Value);

/// The metadata of an object.
#[derive(Clone, Debug, Default)]
pub struct ObjectMeta {
    pub name: Option<String>,
    pub generate_name: Option<String>,
    pub uid: Option<String>,
    pub resource_version: Option<String>,
    pub labels: Option<StringMap>,
    pub annotations: Option<StringMap>,
    pub finalizers: Option<Vec<String>>,
    pub deletion_timestamp: Option<String>,
}

/// The entries of an optional map, none when it is absent.
pub open spec fn map_or_empty(m: Option<StringMap>) -> Map<Seq<char>, Seq<char>> {
    match m {
        Some(m) => m@,
        None => Map::empty(),
    }
}

/// The value of a key in an optional map.
pub open spec fn lookup(m: Option<StringMap>, key: Seq<char>) -> Option<Seq<char>> {
    if map_or_empty(m).contains_key(key) {
        Some(map_or_empty(m)[key])
    } else {
        None
    }
}

/// The items of an optional list, none when it is absent.
pub open spec fn list_or_empty<T>(v: Option<Vec<T>>) -> Seq<T> {
    match v {
        Some(v) => v@,
        None => Seq::empty(),
    }
}

/// What an object's metadata says.
#[verifier::ext_equal]
pub struct MetaView {
    pub name: Option<Seq<char>>,
    pub generate_name: Option<Seq<char>>,
    pub uid: Option<Seq<char>>,
    pub resource_version: Option<Seq<char>>,
    pub labels: Option<Map<Seq<char>, Seq<char>>>,
    pub annotations: Option<Map<Seq<char>, Seq<char>>>,
    pub finalizers: Option<Seq<Seq<char>>>,
    pub deletion_timestamp: Option<Seq<char>>,
}

/// The entries of an optional map.
pub open spec fn entries(m: Option<StringMap>) -> Option<Map<Seq<char>, Seq<char>>> {
    match m {
        Some(m) => Some(m@),
        None => None,
    }
}

/// The items of an optional list of texts.
pub open spec fn texts(v: Option<Vec<String>>) -> Option<Seq<Seq<char>>> {
    match v {
        Some(v) => Some(views(v@)),
        None => None,
    }
}

impl View for ObjectMeta {
    type V = MetaView;

    open spec fn view(&self) -> MetaView {
        MetaView {
            name: opt(self.name),
            generate_name: opt(self.generate_name),
            uid: opt(self.uid),
            resource_version: opt(self.resource_version),
            labels: entries(self.labels),
            annotations: entries(self.annotations),
            finalizers: texts(self.finalizers),
            deletion_timestamp: opt(self.deletion_timestamp),
        }
    }
}

/// The metadata of a new object: a name, and labels if it needs any.
pub open spec fn fresh(name: Option<Seq<char>>, labels: Option<Map<Seq<char>, Seq<char>>>) -> MetaView {
    MetaView {
        name,
        generate_name: None,
        uid: None,
        resource_version: None,
        labels,
        annotations: None,
        finalizers: None,
        deletion_timestamp: None,
    }
}

impl ObjectMeta {
    /// The name, else the name prefix, else nothing.
    pub open spec fn any_name(self) -> Seq<char> {
        match self.name {
            Some(n) => n@,
            None => text_or_empty(self.generate_name),
        }
    }

    /// The name, else the name prefix, else nothing.
    pub fn name_any(&self) -> (r: String)
        ensures
            r@ == self.any_name(),
    {
        match &self.name {
            Some(n) => n.clone(),
            None => match &self.generate_name {
                Some(n) => n.clone(),
                None => String::new(),
            },
        }
    }

    /// The value of a label.
    pub fn label(&self, key: &str) -> (r: Option<&String>)
        ensures
            r is Some == lookup(self.labels, key@) is Some,
            r matches Some(v) ==> Some(v@) == lookup(self.labels, key@),
    {
        match &self.labels {
            Some(m) => m.get(key),
            None => None,
        }
    }

    /// The value of an annotation.
    pub fn annotation(&self, key: &str) -> (r: Option<&String>)
        ensures
            r is Some == lookup(self.annotations, key@) is Some,
            r matches Some(v) ==> Some(v@) == lookup(self.annotations, key@),
    {
        match &self.annotations {
            Some(m) => m.get(key),
            None => None,
        }
    }

    /// The finalizers, none when there is no list.
    pub open spec fn held_by(self) -> Seq<Seq<char>> {
        views(list_or_empty(self.finalizers))
    }

    /// Is this among the finalizers?
    pub fn has_finalizer(&self, finalizer: &str) -> (r: bool)
        ensures
            r == self.held_by().contains(finalizer@),
    {
        match &self.finalizers {
            Some(v) => crate::text::is_among(v, finalizer),
            None => false,
        }
    }

    /// Has deletion been requested?
    pub fn deleting(&self) -> (r: bool)
        ensures
            r == (self.deletion_timestamp is Some),
    {
        self.deletion_timestamp.is_some()
    }
}

/// Does the optional uid hold exactly these characters?
pub fn uid_is(uid: &Option<String>, expected: &str) -> (r: bool)
    ensures
        r == (opt(*uid) == Some(expected@)),
{
    crate::text::opt_is(uid, expected)
}

// ------------------------------------------------------------------ nodes

#[derive(Clone, Debug)]
pub struct Taint {
    pub key: String,
    pub value: Option<String>,
    pub effect: String,
}

#[derive(Clone, Debug, Default)]
pub struct NodeSpec {
    pub unschedulable: Option<bool>,
    pub taints: Option<Vec<Taint>>,
    pub pod_cidr: Option<String>,
    pub pod_cidrs: Option<Vec<String>>,
}

#[derive(Clone, Debug)]
pub struct NodeCondition {
    pub type_: String,
    pub status: String,
}

#[derive(Clone, Debug)]
pub struct NodeAddress {
    pub type_: String,
    pub address: String,
}

#[derive(Clone, Debug, Default)]
pub struct NodeStatus {
    pub conditions: Option<Vec<NodeCondition>>,
    pub addresses: Option<Vec<NodeAddress>>,
}

#[derive(Clone, Debug, Default)]
pub struct Node {
    pub metadata: ObjectMeta,
    pub spec: Option<NodeSpec>,
    pub status: Option<NodeStatus>,
}

impl Node {
    /// The node's taints.
    pub open spec fn taints(self) -> Seq<Taint> {
        match self.spec {
            Some(s) => list_or_empty(s.taints),
            None => Seq::empty(),
        }
    }

    /// Is the node cordoned?
    pub open spec fn cordoned(self) -> bool {
        self.spec is Some && self.spec->0.unschedulable == Some(true)
    }

    /// The node's conditions.
    pub open spec fn conditions(self) -> Seq<NodeCondition> {
        match self.status {
            Some(s) => list_or_empty(s.conditions),
            None => Seq::empty(),
        }
    }

    /// The node's addresses.
    pub open spec fn addresses(self) -> Seq<NodeAddress> {
        match self.status {
            Some(s) => list_or_empty(s.addresses),
            None => Seq::empty(),
        }
    }
}

// ------------------------------------------------------------------ pods

#[derive(Clone, Debug)]
pub struct PersistentVolumeClaimVolumeSource {
    pub claim_name: String,
}

/// One volume of a pod: a claim, a generic ephemeral volume, or something that
/// needs no PVC.
#[derive(Clone, Debug)]
pub struct Volume {
    pub name: String,
    pub persistent_volume_claim: Option<PersistentVolumeClaimVolumeSource>,
    pub ephemeral: bool,
}

#[derive(Debug)]
pub struct NodeSelectorRequirement {
    pub key: String,
    pub operator: String,
    pub values: Option<Vec<String>>,
}

/// What a requirement demands.
#[verifier::ext_equal]
pub struct RequirementView {
    pub key: Seq<char>,
    pub operator: Seq<char>,
    pub values: Seq<Seq<char>>,
}

impl View for NodeSelectorRequirement {
    type V = RequirementView;

    open spec fn view(&self) -> RequirementView {
        RequirementView {
            key: self.key@,
            operator: self.operator@,
            values: views(list_or_empty(self.values)),
        }
    }
}

impl Clone for NodeSelectorRequirement {
    fn clone(&self) -> (r: NodeSelectorRequirement)
        ensures
            r@ == self@,
    {
        NodeSelectorRequirement {
            key: self.key.clone(),
            operator: self.operator.clone(),
            values: match &self.values {
                Some(v) => Some(v.clone()),
                None => None,
            },
        }
    }
}

#[derive(Debug, Default)]
pub struct NodeSelectorTerm {
    pub match_expressions: Option<Vec<NodeSelectorRequirement>>,
    pub match_fields: Option<Vec<NodeSelectorRequirement>>,
}

/// What requirements demand, in their order.
pub open spec fn requirements(v: Option<Vec<NodeSelectorRequirement>>) -> Seq<RequirementView> {
    list_or_empty(v).map_values(|r: NodeSelectorRequirement| r@)
}

/// What a term demands: of a node's labels, and of its fields.
#[verifier::ext_equal]
pub struct TermView {
    pub expressions: Seq<RequirementView>,
    pub fields: Seq<RequirementView>,
}

impl View for NodeSelectorTerm {
    type V = TermView;

    open spec fn view(&self) -> TermView {
        TermView {
            expressions: requirements(self.match_expressions),
            fields: requirements(self.match_fields),
        }
    }
}

fn copied_requirements(v: &Option<Vec<NodeSelectorRequirement>>) -> (r: Option<
    Vec<NodeSelectorRequirement>,
>)
    ensures
        requirements(r) == requirements(*v),
{
    match v {
        None => None,
        Some(v) => {
            let mut out: Vec<NodeSelectorRequirement> = Vec::new();
            for i in 0..v.len()
                invariant
                    out@.len() == i,
                    forall|j: int| 0 <= j < i ==> (#[trigger] out@[j])@ == v@[j]@,
            {
                out.push(v[i].clone());
            }
            assert(requirements(Some(out)) =~= requirements(Some(*v)));
            Some(out)
        },
    }
}

impl Clone for NodeSelectorTerm {
    fn clone(&self) -> (r: NodeSelectorTerm)
        ensures
            r@ == self@,
    {
        NodeSelectorTerm {
            match_expressions: copied_requirements(&self.match_expressions),
            match_fields: copied_requirements(&self.match_fields),
        }
    }
}

#[derive(Clone, Debug, Default)]
pub struct NodeSelector {
    pub node_selector_terms: Vec<NodeSelectorTerm>,
}

/// What the terms of a selector demand, in their order.
pub open spec fn terms(v: Seq<NodeSelectorTerm>) -> Seq<TermView> {
    v.map_values(|t: NodeSelectorTerm| t@)
}

/// A copy of a selector's terms.
pub fn copied_terms(v: &Vec<NodeSelectorTerm>) -> (r: Vec<NodeSelectorTerm>)
    ensures
        terms(r@) == terms(v@),
{
    let mut out: Vec<NodeSelectorTerm> = Vec::new();
    for i in 0..v.len()
        invariant
            out@.len() == i,
            forall|j: int| 0 <= j < i ==> (#[trigger] out@[j])@ == v@[j]@,
    {
        out.push(v[i].clone());
    }
    assert(terms(out@) =~= terms(v@));
    out
}

#[derive(Clone, Debug, Default)]
pub struct PreferredSchedulingTerm {
    pub weight: i32,
    pub preference: NodeSelectorTerm,
}

#[derive(Clone, Debug, Default)]
pub struct NodeAffinity {
    pub required_during_scheduling_ignored_during_execution: Option<NodeSelector>,
    pub preferred_during_scheduling_ignored_during_execution: Option<Vec<PreferredSchedulingTerm>>,
}

#[derive(Clone, Debug, Default)]
pub struct Affinity {
    pub node_affinity: Option<NodeAffinity>,
}

#[derive(Debug, Default)]
pub struct Toleration {
    pub key: Option<String>,
    pub operator: Option<String>,
    pub value: Option<String>,
    pub effect: Option<String>,
}

impl Clone for Toleration {
    fn clone(&self) -> (r: Toleration)
        ensures
            r == *self,
    {
        Toleration {
            key: self.key.clone(),
            operator: self.operator.clone(),
            value: self.value.clone(),
            effect: self.effect.clone(),
        }
    }
}

#[derive(Clone, Debug, Default)]
pub struct PodSpec {
    pub node_name: Option<String>,
    pub volumes: Option<Vec<Volume>>,
    pub node_selector: Option<StringMap>,
    pub affinity: Option<Affinity>,
    pub tolerations: Option<Vec<Toleration>>,
}

#[derive(Clone, Debug, Default)]
pub struct Pod {
    pub metadata: ObjectMeta,
    pub spec: Option<PodSpec>,
}

impl Pod {
    /// The pod's volumes.
    pub open spec fn volumes(self) -> Seq<Volume> {
        match self.spec {
            Some(s) => list_or_empty(s.volumes),
            None => Seq::empty(),
        }
    }

    /// Is the pod bound to a node?
    pub open spec fn scheduled(self) -> bool {
        self.spec is Some && self.spec->0.node_name is Some && self.spec->0.node_name->0@.len() > 0
    }
}

// ------------------------------------------------------------------ volumes

#[derive(Clone, Debug, Default)]
pub struct ObjectReference {
    pub api_version: Option<String>,
    pub kind: Option<String>,
    pub namespace: Option<String>,
    pub name: Option<String>,
    pub uid: Option<String>,
    pub resource_version: Option<String>,
    pub field_path: Option<String>,
}

/// What a reference to an object says.
#[verifier::ext_equal]
pub struct ReferenceView {
    pub api_version: Option<Seq<char>>,
    pub kind: Option<Seq<char>>,
    pub namespace: Option<Seq<char>>,
    pub name: Option<Seq<char>>,
    pub uid: Option<Seq<char>>,
    pub resource_version: Option<Seq<char>>,
    pub field_path: Option<Seq<char>>,
}

impl View for ObjectReference {
    type V = ReferenceView;

    open spec fn view(&self) -> ReferenceView {
        ReferenceView {
            api_version: opt(self.api_version),
            kind: opt(self.kind),
            namespace: opt(self.namespace),
            name: opt(self.name),
            uid: opt(self.uid),
            resource_version: opt(self.resource_version),
            field_path: opt(self.field_path),
        }
    }
}

/// The CSI source of a PV. What is not modelled rides in `extra`.
#[derive(Clone, Debug, Default)]
pub struct CsiVolumeSource {
    pub driver: String,
    pub volume_handle: String,
    pub volume_attributes: Option<StringMap>,
    pub extra: BTreeMap<String, Value>,
}

/// What a PV's CSI source says.
#[verifier::ext_equal]
pub struct CsiView {
    pub driver: Seq<char>,
    pub volume_handle: Seq<char>,
    pub volume_attributes: Option<Map<Seq<char>, Seq<char>>>,
    pub extra: Map<String, Value>,
}

impl View for CsiVolumeSource {
    type V = CsiView;

    open spec fn view(&self) -> CsiView {
        CsiView {
            driver: self.driver@,
            volume_handle: self.volume_handle@,
            volume_attributes: entries(self.volume_attributes),
            extra: self.extra@,
        }
    }
}

#[derive(Clone, Debug, Default)]
pub struct VolumeNodeAffinity {
    pub required: Option<NodeSelector>,
}

/// What a PV's node affinity demands: the terms of its selector, if it has one.
pub open spec fn affinity_terms(a: Option<VolumeNodeAffinity>) -> Option<Option<Seq<TermView>>> {
    match a {
        Some(a) => Some(
            match a.required {
                Some(s) => Some(terms(s.node_selector_terms@)),
                None => None,
            },
        ),
        None => None,
    }
}

/// The spec of a PV. What is not modelled rides in `extra`.
#[derive(Clone, Debug, Default)]
pub struct PersistentVolumeSpec {
    pub claim_ref: Option<ObjectReference>,
    pub csi: Option<CsiVolumeSource>,
    pub node_affinity: Option<VolumeNodeAffinity>,
    pub persistent_volume_reclaim_policy: Option<String>,
    pub storage_class_name: Option<String>,
    pub extra: BTreeMap<String, Value>,
}

/// What a PV's spec says.
#[verifier::ext_equal]
pub struct PvSpecView {
    pub claim_ref: Option<ReferenceView>,
    pub csi: Option<CsiView>,
    pub node_affinity: Option<Option<Seq<TermView>>>,
    pub persistent_volume_reclaim_policy: Option<Seq<char>>,
    pub storage_class_name: Option<Seq<char>>,
    pub extra: Map<String, Value>,
}

impl View for PersistentVolumeSpec {
    type V = PvSpecView;

    open spec fn view(&self) -> PvSpecView {
        PvSpecView {
            claim_ref: match self.claim_ref {
                Some(r) => Some(r@),
                None => None,
            },
            csi: match self.csi {
                Some(c) => Some(c@),
                None => None,
            },
            node_affinity: affinity_terms(self.node_affinity),
            persistent_volume_reclaim_policy: opt(self.persistent_volume_reclaim_policy),
            storage_class_name: opt(self.storage_class_name),
            extra: self.extra@,
        }
    }
}

#[derive(Clone, Debug, Default)]
pub struct PersistentVolumeStatus {
    pub phase: Option<String>,
}

#[derive(Clone, Debug, Default)]
pub struct PersistentVolume {
    pub metadata: ObjectMeta,
    pub spec: Option<PersistentVolumeSpec>,
    pub status: Option<PersistentVolumeStatus>,
}

/// What a PV says.
#[verifier::ext_equal]
pub struct PvView {
    pub metadata: MetaView,
    pub spec: Option<PvSpecView>,
    pub status: Option<Option<Seq<char>>>,
}

impl View for PersistentVolume {
    type V = PvView;

    open spec fn view(&self) -> PvView {
        PvView {
            metadata: self.metadata@,
            spec: match self.spec {
                Some(s) => Some(s@),
                None => None,
            },
            status: match self.status {
                Some(s) => Some(opt(s.phase)),
                None => None,
            },
        }
    }
}

impl PersistentVolume {
    /// The PV's CSI source.
    pub open spec fn csi(self) -> Option<CsiVolumeSource> {
        match self.spec {
            Some(s) => s.csi,
            None => None,
        }
    }

    /// The claim the PV is bound to.
    pub open spec fn claim(self) -> Option<ObjectReference> {
        match self.spec {
            Some(s) => s.claim_ref,
            None => None,
        }
    }

    /// The PV's CSI source.
    pub fn csi_source(&self) -> (r: Option<&CsiVolumeSource>)
        ensures
            r is Some == self.csi() is Some,
            r matches Some(c) ==> Some(*c) == self.csi(),
    {
        match &self.spec {
            Some(s) => match &s.csi {
                Some(c) => Some(c),
                None => None,
            },
            None => None,
        }
    }
}

#[derive(Clone, Debug)]
pub struct PersistentVolumeClaimCondition {
    pub type_: String,
    pub status: String,
}

#[derive(Clone, Debug, Default)]
pub struct PersistentVolumeClaim {
    pub metadata: ObjectMeta,
    pub volume_name: Option<String>,
    pub conditions: Vec<PersistentVolumeClaimCondition>,
}

// ------------------------------------------------------------------ storage classes

#[derive(Clone, Debug)]
pub struct TopologySelectorLabelRequirement {
    pub key: String,
    pub values: Vec<String>,
}

#[derive(Clone, Debug, Default)]
pub struct TopologySelectorTerm {
    pub match_label_expressions: Option<Vec<TopologySelectorLabelRequirement>>,
}

#[derive(Clone, Debug, Default)]
pub struct StorageClass {
    pub parameters: Option<StringMap>,
    pub allowed_topologies: Option<Vec<TopologySelectorTerm>>,
}

// ------------------------------------------------------------------ reads

/// What is known of an object that may or may not exist.
#[derive(Clone, Debug)]
pub enum Lookup<T> {
    /// Not read yet.
    Unread,
    /// Read: there is no such object.
    Absent,
    /// Read: this is the object.
    Found(T),
}

/// An object goes by its name, or by what its name will be generated from.
pub proof fn objects_go_by_their_names(meta: ObjectMeta)
    ensures
        meta.name is Some ==> meta.any_name() == meta.name->0@,
        meta.name is None && meta.generate_name is Some ==> meta.any_name()
            == meta.generate_name->0@,
        meta.name is None && meta.generate_name is None ==> meta.any_name().len() == 0,
{
}

/// What is read of an object's metadata is what it says, each under its own name.
pub proof fn metadata_says_what_it_holds(meta: ObjectMeta)
    ensures
        meta.name is Some <==> meta@.name is Some,
        meta.name is Some ==> meta@.name->0 == meta.name->0@,
        meta.uid is Some <==> meta@.uid is Some,
        meta.uid is Some ==> meta@.uid->0 == meta.uid->0@,
        meta.labels is Some <==> meta@.labels is Some,
        meta.labels is Some ==> meta@.labels->0 == meta.labels->0@,
        meta.annotations is Some <==> meta@.annotations is Some,
        meta.annotations is Some ==> meta@.annotations->0 == meta.annotations->0@,
        meta.finalizers is Some <==> meta@.finalizers is Some,
        meta.deletion_timestamp is Some <==> meta@.deletion_timestamp is Some,
{
}

/// A key is found in an optional map exactly if there is a map that has it.
pub proof fn keys_are_found_where_they_are(m: Option<StringMap>, key: Seq<char>)
    ensures
        lookup(m, key) is Some <==> m is Some && m->0@.contains_key(key),
        lookup(m, key) is Some ==> lookup(m, key)->0 == m->0@[key],
{
}

/// What is said of a reference is what it holds, each under its own name.
pub proof fn references_say_what_they_hold(r: ObjectReference)
    ensures
        r.namespace is Some ==> r@.namespace == Some(r.namespace->0@),
        r.name is Some ==> r@.name == Some(r.name->0@),
        r.uid is Some ==> r@.uid == Some(r.uid->0@),
        r.kind is Some ==> r@.kind == Some(r.kind->0@),
        r.api_version is Some ==> r@.api_version == Some(r.api_version->0@),
        r.namespace is None <==> r@.namespace is None,
        r.name is None <==> r@.name is None,
        r.uid is None <==> r@.uid is None,
{
}

/// What is said of a PV's spec is what it holds.
pub proof fn pv_specs_say_what_they_hold(s: PersistentVolumeSpec, c: CsiVolumeSource)
    ensures
        s.claim_ref is Some ==> s@.claim_ref == Some(s.claim_ref->0@),
        s.claim_ref is None <==> s@.claim_ref is None,
        s.csi is Some ==> s@.csi == Some(s.csi->0@),
        s.persistent_volume_reclaim_policy is Some ==> s@.persistent_volume_reclaim_policy == Some(
            s.persistent_volume_reclaim_policy->0@,
        ),
        s.storage_class_name is Some ==> s@.storage_class_name == Some(s.storage_class_name->0@),
        s@.extra == s.extra@,
        c@.driver == c.driver@,
        c@.volume_handle == c.volume_handle@,
        c.volume_attributes is Some ==> c@.volume_attributes == Some(c.volume_attributes->0@),
        c.volume_attributes is None <==> c@.volume_attributes is None,
        c@.extra == c.extra@,
{
}

/// What is said of a term is what it asks of labels and of fields, requirement by
/// requirement.
pub proof fn terms_say_what_they_ask(t: NodeSelectorTerm, r: NodeSelectorRequirement, i: int)
    ensures
        t.match_expressions is Some ==> t@.expressions.len() == t.match_expressions->0@.len(),
        t.match_expressions is None ==> t@.expressions.len() == 0,
        t.match_fields is Some ==> t@.fields.len() == t.match_fields->0@.len(),
        t.match_fields is None ==> t@.fields.len() == 0,
        t.match_expressions is Some && 0 <= i < t.match_expressions->0@.len() ==> t@.expressions[i]
            == t.match_expressions->0@[i]@,
        t.match_fields is Some && 0 <= i < t.match_fields->0@.len() ==> t@.fields[i]
            == t.match_fields->0@[i]@,
        r@.key == r.key@,
        r@.operator == r.operator@,
        r.values is Some ==> r@.values == views(r.values->0@),
        r.values is None ==> r@.values.len() == 0,
{
}

} // verus!
