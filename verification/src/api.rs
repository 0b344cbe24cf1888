//! The sharding rule: what an operator declares, and what is reported back.

use vstd::prelude::*;
use vstd::std_specs::cmp::PartialEqSpec;

verus! {

/// Key of the label that carries an object's shard.
pub const SHARD_LABEL: &'static str = "shardlabel.sof3.github.io/object-shard";

/// What a rule asks for: the resource type to shard, and into how many
/// shards.
#[derive(Debug, Clone)]
pub struct ShardingRuleSpec {
    /// The group of the resource type to match this sharding rule against.
    pub group: String,
    /// The kind of the resource type to match this sharding rule against.
    pub kind: String,
    /// Number of shards to partition this resource type into.
    pub sharding_count: i32,
}

/// A rule as contracts see it.
pub struct ShardingRuleSpecView {
    pub group: Seq<char>,
    pub kind: Seq<char>,
    pub sharding_count: int,
}

impl View for ShardingRuleSpec {
    type V = ShardingRuleSpecView;

    open spec fn view(&self) -> ShardingRuleSpecView {
        ShardingRuleSpecView {
            group: self.group@,
            kind: self.kind@,
            sharding_count: self.sharding_count as int,
        }
    }
}

impl ShardingRuleSpecView {
    /// A rule partitions into at least one shard.
    pub open spec fn wf(self) -> bool {
        self.sharding_count >= 1
    }
}

impl ShardingRuleSpec {
    /// A rule partitions into at least one shard.
    pub open spec fn wf(&self) -> bool {
        self@.wf()
    }

    /// Tests whether two rules ask for the same thing.
    pub fn same_as(&self, other: &ShardingRuleSpec) -> (same: bool)
        ensures
            same == (self@ == other@),
    {
        self.group == other.group && self.kind == other.kind && self.sharding_count
            == other.sharding_count
    }

    /// Tests whether the rule partitions into at least one shard.
    pub fn is_well_formed(&self) -> (ok: bool)
        ensures
            ok == self.wf(),
    {
        self.sharding_count >= 1
    }
}

/// A point in time: seconds since the Unix epoch, UTC, and the nanoseconds
/// into that second.
#[derive(Debug, Clone, Copy, PartialEq, Eq, Structural)]
pub struct Timestamp {
    pub seconds: i64,
    pub nanos: u32,
}

/// Condition types a rule can report.
#[derive(Debug, Clone, Copy, PartialEq, Eq, Structural)]
pub enum RuleConditionType {
    /// Whether the rule is actively applied.
    Active,
}

/// Truth value of a rule condition.
#[derive(Debug, Clone, Copy, PartialEq, Eq, Structural)]
pub enum RuleConditionStatus {
    True,
    False,
}

/// One observation about a rule.
#[derive(Debug, Clone)]
pub struct RuleCondition {
    /// Type of the condition.
    pub ty: RuleConditionType,
    /// True or False describing the condition.
    pub status: RuleConditionStatus,
    /// Unique, one-word, CamelCase reason for the condition's last transition.
    pub reason: Option<String>,
    /// Human-readable message indicating details about last transition.
    pub message: Option<String>,
    /// Last time the condition transitioned from one status to another.
    pub last_transition_time: Option<Timestamp>,
}

/// What is reported about a rule.
#[derive(Debug, Clone)]
pub struct ShardingRuleStatus {
    /// Conditions of the rule, at most one of each type.
    pub conditions: Vec<RuleCondition>,
    /// Generation of the rule that the status is updated for.
    pub observed_generation: i64,
    /// The time when the status is last updated.
    pub observed_time: Timestamp,
    /// Number of objects converted to this shard size.
    pub converted_objects: i64,
    /// Number of objects not yet converted to the sharding label for this size.
    pub unconverted_objects: i64,
}

/// Position of the condition of type `ty`, if the list has one.
pub open spec fn condition_position(conditions: Seq<RuleCondition>, ty: RuleConditionType) -> Option<
    int,
> {
    if exists|i: int| 0 <= i < conditions.len() && conditions[i].ty == ty {
        Some(choose|i: int| 0 <= i < conditions.len() && conditions[i].ty == ty)
    } else {
        None
    }
}

/// No two conditions of the list have the same type.
pub open spec fn distinct_condition_types(conditions: Seq<RuleCondition>) -> bool {
    forall|i: int, j: int|
        0 <= i < j < conditions.len() ==> conditions[i].ty != conditions[j].ty
}

impl ShardingRuleStatus {
    /// The list holds at most one condition of each type.
    pub open spec fn wf(&self) -> bool {
        distinct_condition_types(self.conditions@)
    }

    /// Records a condition: it takes the place of the condition of its type
    /// where the list has one, and joins the end of the list where not.
    pub fn set_condition(&mut self, condition: RuleCondition)
        requires
            old(self).wf(),
        ensures
            final(self).wf(),
            final(self).conditions@ == match condition_position(
                old(self).conditions@,
                condition.ty,
            ) {
                Some(at) => old(self).conditions@.update(at, condition),
                None => old(self).conditions@.push(condition),
            },
            final(self).observed_generation == old(self).observed_generation,
            final(self).observed_time == old(self).observed_time,
            final(self).converted_objects == old(self).converted_objects,
            final(self).unconverted_objects == old(self).unconverted_objects,
    {
        let mut i: usize = 0;
        while i < self.conditions.len()
            invariant
                i <= self.conditions.len(),
                *self == *old(self),
                distinct_condition_types(self.conditions@),
                forall|k: int| 0 <= k < i ==> self.conditions@[k].ty != condition.ty,
            decreases self.conditions.len() - i,
        {
            if self.conditions[i].ty == condition.ty {
                assert(self.conditions@[i as int].ty == condition.ty);
                assert(condition_position(self.conditions@, condition.ty) == Some(i as int));
                self.conditions.set(i, condition);
                return ;
            }
            i += 1;
        }
        self.conditions.push(condition);
    }
}

/// Whether `t` equals the default value of its type.
///
/// The answer is stated against whatever `T::default` hands out, for every
/// type whose `==` follows its equality specification.
pub fn is_default<T: Default + Eq>(t: &T) -> (r: bool)
    ensures
        exists|d: T| #[trigger]
            call_ensures(T::default, (), d) && (T::obeys_eq_spec() ==> r == t.eq_spec(&d)),
{
    let d = T::default();
    *t == d
}

} // verus!
