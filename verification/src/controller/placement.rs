//! The part of pod placement a target selection can honour without the
//! scheduler: nodeSelector, *required* node affinity, and tolerations against
//! hard taints. Resource fit is deliberately not modelled: a pod left Pending
//! on a Ready target for lack of CPU is visible and fixable, its data no worse
//! off than before the move.
use vstd::prelude::*;

use crate::cluster::{
    copied_terms, list_or_empty, lookup, map_or_empty, requirements, terms, Node,
    NodeSelectorRequirement, NodeSelectorTerm, Pod, RequirementView, Taint, TermView, Toleration,
};
use crate::controller::{hard_effect, is_hard};
use crate::string_map::StringMap;
use crate::text::{is_among, opt, opt_is, parse_i64, same, signed_value, text_or_empty};

verus! {

/// The node constraints of a pod.
#[derive(Clone, Debug, Default)]
pub struct Placement {
    pub node_selector: StringMap,
    /// requiredDuringSchedulingIgnoredDuringExecution terms (OR-ed).
    pub terms: Vec<NodeSelectorTerm>,
    pub tolerations: Vec<Toleration>,
}

/// The labels a pod demands of its node.
pub open spec fn wanted_labels(pod: Pod) -> Map<Seq<char>, Seq<char>> {
    match pod.spec {
        Some(s) => map_or_empty(s.node_selector),
        None => Map::empty(),
    }
}

/// The terms of a pod's required node affinity.
pub open spec fn required_terms(pod: Pod) -> Seq<NodeSelectorTerm> {
    match pod.spec {
        Some(s) => match s.affinity {
            Some(a) => match a.node_affinity {
                Some(na) => match na.required_during_scheduling_ignored_during_execution {
                    Some(sel) => sel.node_selector_terms@,
                    None => Seq::empty(),
                },
                None => Seq::empty(),
            },
            None => Seq::empty(),
        },
        None => Seq::empty(),
    }
}

/// A pod's tolerations.
pub open spec fn tolerations_of(pod: Pod) -> Seq<Toleration> {
    match pod.spec {
        Some(s) => list_or_empty(s.tolerations),
        None => Seq::empty(),
    }
}

/// Does a value, if there is one, meet a requirement? An operator that is not
/// known excludes nothing.
pub open spec fn meets(req: RequirementView, value: Option<Seq<char>>) -> bool {
    let listed = value is Some && req.values.contains(value->0);
    if req.operator == "In"@ {
        listed
    } else if req.operator == "NotIn"@ {
        !listed
    } else if req.operator == "Exists"@ {
        value is Some
    } else if req.operator == "DoesNotExist"@ {
        value is None
    } else if req.operator == "Gt"@ || req.operator == "Lt"@ {
        value is Some && req.values.len() > 0 && match (
            signed_value(value->0),
            signed_value(req.values[0]),
        ) {
            (Some(v), Some(bound)) => if req.operator == "Gt"@ {
                v > bound
            } else {
                v < bound
            },
            _ => false,
        }
    } else {
        true
    }
}

/// Does a node's label meet a requirement?
pub open spec fn label_meets(req: RequirementView, node: Node) -> bool {
    meets(req, lookup(node.metadata.labels, req.key))
}

/// The value of a node's field: its name is the only one there is.
pub open spec fn field_value(key: Seq<char>, node: Node) -> Option<Seq<char>> {
    if key == "metadata.name"@ {
        Some(node.metadata.any_name())
    } else {
        None
    }
}

/// Does a node's field meet a requirement?
pub open spec fn field_meets(req: RequirementView, node: Node) -> bool {
    meets(req, field_value(req.key, node))
}

/// A term matches when every one of its requirements is met; an empty term
/// matches nothing.
pub open spec fn term_admits(term: TermView, node: Node) -> bool {
    &&& term.expressions.len() > 0 || term.fields.len() > 0
    &&& forall|i: int|
        0 <= i < term.expressions.len() ==> label_meets(#[trigger] term.expressions[i], node)
    &&& forall|i: int| 0 <= i < term.fields.len() ==> field_meets(#[trigger] term.fields[i], node)
}

/// Does a toleration cover a taint? No key (with Exists) covers every taint,
/// no effect every effect; any operator but Exists compares the values.
pub open spec fn covers(tol: Toleration, taint: Taint) -> bool {
    let exists_operator = opt(tol.operator) == Some("Exists"@);
    &&& if text_or_empty(tol.key).len() == 0 {
        exists_operator
    } else {
        text_or_empty(tol.key) == taint.key@
    }
    &&& text_or_empty(tol.effect).len() == 0 || text_or_empty(tol.effect) == taint.effect@
    &&& exists_operator || text_or_empty(tol.value) == text_or_empty(taint.value)
}

/// Does one of the tolerations cover a taint?
pub open spec fn covered(tolerations: Seq<Toleration>, taint: Taint) -> bool {
    exists|j: int| 0 <= j < tolerations.len() && covers(#[trigger] tolerations[j], taint)
}

/// The node constraints of a pod.
#[verifier::ext_equal]
pub struct PlacementView {
    pub node_selector: Map<Seq<char>, Seq<char>>,
    pub terms: Seq<TermView>,
    pub tolerations: Seq<Toleration>,
}

impl View for Placement {
    type V = PlacementView;

    open spec fn view(&self) -> PlacementView {
        PlacementView {
            node_selector: self.node_selector@,
            terms: terms(self.terms@),
            tolerations: self.tolerations@,
        }
    }
}

impl PlacementView {
    /// Would the scheduler consider this node for the pod, as far as labels,
    /// fields and taints go?
    pub open spec fn allows(self, node: Node) -> bool {
        &&& self.node_selector.submap_of(map_or_empty(node.metadata.labels))
        &&& self.terms.len() == 0 || exists|i: int|
            0 <= i < self.terms.len() && term_admits(#[trigger] self.terms[i], node)
        &&& forall|i: int|
            0 <= i < node.taints().len() && is_hard((#[trigger] node.taints()[i]).effect@)
                ==> covered(self.tolerations, node.taints()[i])
    }
}

/// The node constraints of a pod.
pub open spec fn placement_of(pod: Pod) -> PlacementView {
    PlacementView {
        node_selector: wanted_labels(pod),
        terms: terms(required_terms(pod)),
        tolerations: tolerations_of(pod),
    }
}

impl Placement {
    /// The node constraints of a pod.
    pub fn from_pod(pod: &Pod) -> (r: Placement)
        ensures
            r@ == placement_of(*pod),
    {
        let mut node_selector = StringMap::new();
        let mut required: Vec<NodeSelectorTerm> = Vec::new();
        let mut tolerations: Vec<Toleration> = Vec::new();
        if let Some(s) = &pod.spec {
            if let Some(m) = &s.node_selector {
                node_selector = m.clone();
            }
            if let Some(a) = &s.affinity {
                if let Some(na) = &a.node_affinity {
                    if let Some(sel) = &na.required_during_scheduling_ignored_during_execution {
                        required = copied_terms(&sel.node_selector_terms);
                    }
                }
            }
            if let Some(t) = &s.tolerations {
                for i in 0..t.len()
                    invariant
                        tolerations@ == t@.take(i as int),
                {
                    tolerations.push(t[i].clone());
                }
                assert(t@.take(t@.len() as int) == t@);
            }
        }
        assert(terms(required@) =~= terms(required_terms(*pod)));
        Placement { node_selector, terms: required, tolerations }
    }

    /// Would the scheduler consider this node for the pod, as far as labels,
    /// fields and taints go?
    pub fn admits(&self, node: &Node) -> (r: bool)
        ensures
            r == self@.allows(*node),
    {
        let within = match &node.metadata.labels {
            Some(labels) => self.node_selector.is_within(labels),
            None => self.node_selector.is_within(&StringMap::new()),
        };
        if !within {
            return false;
        }
        if self.terms.len() > 0 {
            let mut found = false;
            for i in 0..self.terms.len()
                invariant
                    found == exists|j: int|
                        0 <= j < i && term_admits(#[trigger] self@.terms[j], *node),
            {
                assert(self@.terms[i as int] == self.terms@[i as int]@);
                if term_matches(&self.terms[i], node) {
                    found = true;
                }
            }
            if !found {
                return false;
            }
        }
        let taints = match &node.spec {
            Some(s) => match &s.taints {
                Some(t) => t,
                None => return true,
            },
            None => return true,
        };
        for i in 0..taints.len()
            invariant
                taints@ == node.taints(),
                forall|j: int|
                    0 <= j < i && is_hard((#[trigger] taints@[j]).effect@) ==> covered(
                        self.tolerations@,
                        taints@[j],
                    ),
        {
            if hard_effect(taints[i].effect.as_str()) && !any_covers(&self.tolerations, &taints[i]) {
                assert(is_hard(node.taints()[i as int].effect@));
                return false;
            }
        }
        true
    }
}

fn any_covers(tolerations: &Vec<Toleration>, taint: &Taint) -> (r: bool)
    ensures
        r == covered(tolerations@, *taint),
{
    for j in 0..tolerations.len()
        invariant
            forall|k: int| 0 <= k < j ==> !covers(#[trigger] tolerations@[k], *taint),
    {
        if tolerates(&tolerations[j], taint) {
            assert(covers(tolerations@[j as int], *taint));
            return true;
        }
    }
    false
}

/// A term matches when every one of its expressions does (an empty term
/// matches nothing, as in the scheduler).
fn term_matches(term: &NodeSelectorTerm, node: &Node) -> (r: bool)
    ensures
        r == term_admits(term@, *node),
{
    let mut any = false;
    if let Some(exprs) = &term.match_expressions {
        any = exprs.len() > 0;
        for i in 0..exprs.len()
            invariant
                term@.expressions == exprs@.map_values(|r: NodeSelectorRequirement| r@),
                forall|j: int|
                    0 <= j < i ==> label_meets(#[trigger] term@.expressions[j], *node),
        {
            assert(term@.expressions[i as int] == exprs@[i as int]@);
            let value = match node.metadata.label(exprs[i].key.as_str()) {
                Some(v) => Some(v.as_str()),
                None => None,
            };
            if !requirement_matches(&exprs[i], value) {
                assert(!label_meets(term@.expressions[i as int], *node));
                return false;
            }
        }
    }
    if let Some(fields) = &term.match_fields {
        any = any || fields.len() > 0;
        for i in 0..fields.len()
            invariant
                term@.fields == fields@.map_values(|r: NodeSelectorRequirement| r@),
                forall|j: int| 0 <= j < i ==> field_meets(#[trigger] term@.fields[j], *node),
        {
            assert(term@.fields[i as int] == fields@[i as int]@);
            let name = node.metadata.name_any();
            let value = if same(fields[i].key.as_str(), "metadata.name") {
                Some(name.as_str())
            } else {
                None
            };
            if !requirement_matches(&fields[i], value) {
                assert(!field_meets(term@.fields[i as int], *node));
                return false;
            }
        }
    }
    any
}

fn requirement_matches(req: &NodeSelectorRequirement, value: Option<&str>) -> (r: bool)
    ensures
        r == meets(
            req@,
            match value {
                Some(v) => Some(v@),
                None => None,
            },
        ),
{
    let listed = match (value, &req.values) {
        (Some(v), Some(values)) => is_among(values, v),
        _ => false,
    };
    let op = req.operator.as_str();
    if same(op, "In") {
        listed
    } else if same(op, "NotIn") {
        !listed
    } else if same(op, "Exists") {
        value.is_some()
    } else if same(op, "DoesNotExist") {
        value.is_none()
    } else if same(op, "Gt") || same(op, "Lt") {
        let actual: Option<i64> = match value {
            Some(v) => parse_i64(v),
            None => None,
        };
        let bound: Option<i64> = match &req.values {
            Some(values) => if values.len() > 0 {
                assert(req@.values[0] == values@[0]@);
                parse_i64(values[0].as_str())
            } else {
                None
            },
            None => None,
        };
        match (actual, bound) {
            (Some(v), Some(b)) => if same(op, "Gt") {
                v > b
            } else {
                v < b
            },
            _ => false,
        }
    } else {
        true
    }
}

/// The text, empty when it is absent.
fn or_empty(s: &Option<String>) -> (r: &str)
    ensures
        r@ == text_or_empty(*s),
{
    match s {
        Some(t) => t.as_str(),
        None => {
            let empty = "";
            proof {
                reveal_strlit("");
                assert(empty@ =~= Seq::<char>::empty());
            }
            empty
        },
    }
}

/// The scheduler's toleration semantics: empty key (with Exists) tolerates
/// every taint, empty effect every effect; Equal compares values.
pub fn tolerates(tol: &Toleration, taint: &Taint) -> (r: bool)
    ensures
        r == covers(*tol, *taint),
{
    let exists_operator = opt_is(&tol.operator, "Exists");
    let key = or_empty(&tol.key);
    let key_ok = if key.is_empty() {
        exists_operator
    } else {
        same(key, taint.key.as_str())
    };
    let effect = or_empty(&tol.effect);
    let effect_ok = effect.is_empty() || same(effect, taint.effect.as_str());
    let value_ok = exists_operator || same(or_empty(&tol.value), or_empty(&taint.value));
    key_ok && effect_ok && value_ok
}

/// Of a node only its labels, its name and its taints decide whether a pod may
/// be placed there.
pub proof fn placement_reads_labels_and_taints(p: PlacementView, node: Node, other: Node)
    requires
        node.metadata == other.metadata,
        node.taints() == other.taints(),
    ensures
        p.allows(node) == p.allows(other),
{
    assert forall|t: TermView| term_admits(t, node) == term_admits(t, other) by {
        assert forall|r: RequirementView| #[trigger] label_meets(r, node) == label_meets(
            r,
            other,
        ) by {}
        assert forall|r: RequirementView| #[trigger] field_meets(r, node) == field_meets(
            r,
            other,
        ) by {}
    }
}

} // verus!
