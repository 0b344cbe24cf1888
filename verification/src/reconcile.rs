//! Reconciliation of one object against one rule.
//!
//! An object is up to date when its shard label already carries the value
//! that its identity and the rule's shard count call for. Otherwise one
//! patch is planned: a JSON Patch `replace` of that label, addressed by a
//! JSON Pointer into the object's metadata.

use crate::api::{ShardingRuleSpec, ShardingRuleSpecView, SHARD_LABEL};
use crate::object::{optional_text, TargetObject, TargetObjectView};
use crate::pointer::{
    escape, lemma_escape_concat, lemma_escape_one, lemma_escape_plain, lemma_escape_round_trip,
    unescape, Rfc6901Encode,
};
use crate::shard::{expected_label, shard_label};
use vstd::prelude::*;
use vstd::string::StringExecFns;

verus! {

broadcast use vstd::string::group_string_axioms;

/// JSON Pointer to the map of labels in an object's metadata, with the
/// separator that a label's token follows.
pub const LABELS_POINTER: &'static str = "/metadata/labels/";

/// The JSON Pointer to the label `key`.
pub open spec fn label_path(key: Seq<char>) -> Seq<char> {
    LABELS_POINTER@ + escape(key)
}

/// The label that a JSON Pointer addresses, if it points at one.
pub open spec fn addressed_label(path: Seq<char>) -> Option<Seq<char>> {
    if LABELS_POINTER@.is_prefix_of(path) {
        unescape(path.skip(LABELS_POINTER@.len() as int))
    } else {
        None
    }
}

/// A planned `replace` of one label of one object.
#[derive(Debug, Clone)]
pub struct LabelPatch {
    /// Namespace of the object to patch, absent for a cluster-scoped one.
    pub namespace: Option<String>,
    /// Name of the object to patch.
    pub name: String,
    /// JSON Pointer to the label within the object.
    pub path: String,
    /// The value the label is to have.
    pub value: String,
}

/// A patch as contracts see it.
pub struct LabelPatchView {
    pub namespace: Option<Seq<char>>,
    pub name: Seq<char>,
    pub path: Seq<char>,
    pub value: Seq<char>,
}

impl View for LabelPatch {
    type V = LabelPatchView;

    open spec fn view(&self) -> LabelPatchView {
        LabelPatchView {
            namespace: optional_text(self.namespace),
            name: self.name@,
            path: self.path@,
            value: self.value@,
        }
    }
}

/// The view of a patch that may not have been planned.
pub open spec fn planned_view(patch: Option<LabelPatch>) -> Option<LabelPatchView> {
    match patch {
        Some(planned) => Some(planned@),
        None => None,
    }
}

/// The label value that `object` must carry under `rule`.
pub open spec fn expected_label_for(rule: ShardingRuleSpecView, object: TargetObjectView) -> Seq<
    char,
> {
    expected_label(object.namespace, object.name, rule.sharding_count)
}

/// What reconciling `object` against `rule` calls for: nothing where the
/// shard label already has the expected value, and otherwise one patch that
/// sets it.
pub open spec fn planned_patch(rule: ShardingRuleSpecView, object: TargetObjectView) -> Option<
    LabelPatchView,
> {
    let expected = expected_label_for(rule, object);
    if object.label(SHARD_LABEL@) == Some(expected) {
        None
    } else {
        Some(
            LabelPatchView {
                namespace: object.namespace,
                name: object.name,
                path: label_path(SHARD_LABEL@),
                value: expected,
            },
        )
    }
}

/// The object once a patch has been carried out on it.
pub open spec fn patched(object: TargetObjectView, patch: LabelPatchView) -> TargetObjectView {
    match addressed_label(patch.path) {
        Some(key) => object.with_label(key, patch.value),
        None => object,
    }
}

/// The pointer to a label addresses that label and no other.
pub proof fn lemma_label_path_addresses(key: Seq<char>)
    ensures
        addressed_label(label_path(key)) == Some(key),
{
    let path = label_path(key);
    assert(LABELS_POINTER@.is_prefix_of(path));
    assert(path.skip(LABELS_POINTER@.len() as int) =~= escape(key));
    lemma_escape_round_trip(key);
}

/// The pointer to the shard label, written out: the `/` of the key is the
/// one character that escaping changes.
pub proof fn lemma_shard_label_path()
    ensures
        label_path(SHARD_LABEL@) == "/metadata/labels/shardlabel.sof3.github.io~1object-shard"@,
{
    let domain = "shardlabel.sof3.github.io"@;
    let name = "object-shard"@;
    reveal_strlit("shardlabel.sof3.github.io/object-shard");
    reveal_strlit("shardlabel.sof3.github.io");
    reveal_strlit("object-shard");
    reveal_strlit("/metadata/labels/");
    reveal_strlit("/metadata/labels/shardlabel.sof3.github.io~1object-shard");
    assert(SHARD_LABEL@ =~= domain + seq!['/'] + name);
    lemma_escape_concat(domain + seq!['/'], name);
    lemma_escape_concat(domain, seq!['/']);
    lemma_escape_one('/');
    lemma_escape_plain(domain);
    lemma_escape_plain(name);
    assert(label_path(SHARD_LABEL@) =~= "/metadata/labels/shardlabel.sof3.github.io~1object-shard"@);
}

/// An object whose shard label already has the expected value is left
/// alone: no patch is planned for it.
pub proof fn lemma_up_to_date_needs_no_patch(rule: ShardingRuleSpecView, object: TargetObjectView)
    requires
        rule.wf(),
        object.label(SHARD_LABEL@) == Some(expected_label_for(rule, object)),
    ensures
        planned_patch(rule, object) is None,
{
}

/// An object whose shard label is missing or has another value gets one
/// patch: it names the object, addresses the shard label, and carries the
/// expected value.
pub proof fn lemma_stale_label_gets_patch(rule: ShardingRuleSpecView, object: TargetObjectView)
    requires
        rule.wf(),
        object.label(SHARD_LABEL@) != Some(expected_label_for(rule, object)),
    ensures
        planned_patch(rule, object) matches Some(patch) && {
            &&& patch.namespace == object.namespace
            &&& patch.name == object.name
            &&& patch.path == label_path(SHARD_LABEL@)
            &&& addressed_label(patch.path) == Some(SHARD_LABEL@)
            &&& patch.value == expected_label_for(rule, object)
        },
{
    lemma_label_path_addresses(SHARD_LABEL@);
}

/// Reconciliation settles: once a planned patch has been carried out, the
/// same rule plans nothing more for the object.
pub proof fn lemma_reconcile_settles(rule: ShardingRuleSpecView, object: TargetObjectView)
    requires
        rule.wf(),
    ensures
        planned_patch(rule, object) matches Some(patch) ==> planned_patch(
            rule,
            patched(object, patch),
        ) is None,
{
    lemma_label_path_addresses(SHARD_LABEL@);
}

/// Decides what to do about one object under one rule.
pub fn reconcile(rule: &ShardingRuleSpec, object: &TargetObject) -> (patch: Option<LabelPatch>)
    requires
        rule.wf(),
    ensures
        planned_view(patch) == planned_patch(rule@, object@),
{
    let namespace: Option<&str> = match &object.namespace {
        Some(text) => Some(text.as_str()),
        None => None,
    };
    let expected = shard_label(namespace, object.name.as_str(), rule.sharding_count);
    let up_to_date = match object.label(SHARD_LABEL) {
        Some(current) => *current == expected,
        None => false,
    };
    if up_to_date {
        None
    } else {
        let mut path = String::from_str(LABELS_POINTER);
        let token = Rfc6901Encode(SHARD_LABEL).to_string();
        path.append(token.as_str());
        Some(
            LabelPatch {
                namespace: object.namespace.clone(),
                name: object.name.clone(),
                path,
                value: expected,
            },
        )
    }
}

} // verus!
