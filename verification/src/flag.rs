//! Flag definitions: prerequisites, individual-user targets, rules made of
//! clauses, and fixed or percentage-rollout outcomes, together with the
//! mathematical models the evaluation contracts are stated over.

use vstd::prelude::*;
use vstd::pervasive::cloned;
use crate::value::{Val, ValS, vals_view};

verus! {

/// A dependency on another flag landing on a required variation index.
pub struct Prerequisite {
    pub key: String,
    pub variation: u32,
}

/// The model of a prerequisite.
#[verifier::ext_equal]
pub struct PrereqS {
    pub key: Seq<char>,
    pub variation: int,
}

impl View for Prerequisite {
    type V = PrereqS;

    open spec fn view(&self) -> PrereqS {
        PrereqS { key: self.key@, variation: self.variation as int }
    }
}

impl Clone for Prerequisite {
    fn clone(&self) -> (r: Self)
        ensures
            r@ == self@,
    {
        Prerequisite { key: self.key.clone(), variation: self.variation }
    }
}

/// An explicit per-user override: any listed key gets this variation.
pub struct Target {
    pub values: Vec<String>,
    pub variation: u32,
}

/// The model of a target.
#[verifier::ext_equal]
pub struct TargetS {
    pub values: Seq<Seq<char>>,
    pub variation: int,
}

/// The model of a sequence of strings, elementwise.
pub open spec fn strs_view(v: Seq<String>) -> Seq<Seq<char>> {
    Seq::new(v.len(), |i: int| v[i]@)
}

impl View for Target {
    type V = TargetS;

    open spec fn view(&self) -> TargetS {
        TargetS { values: strs_view(self.values@), variation: self.variation as int }
    }
}

impl Clone for Target {
    fn clone(&self) -> (r: Self)
        ensures
            r@ == self@,
    {
        let values = self.values.clone();
        proof {
            assert(strs_view(values@) =~= strs_view(self.values@));
        }
        Target { values, variation: self.variation }
    }
}

/// One comparison: a user attribute, an operator tag, operand values and
/// an optional negation.
pub struct Clause {
    pub attribute: String,
    pub op: String,
    pub values: Vec<Val>,
    pub negate: bool,
}

/// The model of a clause.
#[verifier::ext_equal]
pub struct ClauseS {
    pub attribute: Seq<char>,
    pub op: Seq<char>,
    pub values: Seq<ValS>,
    pub negate: bool,
}

impl View for Clause {
    type V = ClauseS;

    open spec fn view(&self) -> ClauseS {
        ClauseS {
            attribute: self.attribute@,
            op: self.op@,
            values: vals_view(self.values@),
            negate: self.negate,
        }
    }
}

impl Clone for Clause {
    fn clone(&self) -> (r: Self)
        ensures
            r@ == self@,
    {
        let mut values: Vec<Val> = Vec::new();
        let mut i: usize = 0;
        while i < self.values.len()
            invariant
                i <= self.values.len(),
                values.len() == i,
                forall|j: int| 0 <= j < i ==> values[j]@ == self.values[j]@,
            decreases self.values.len() - i,
        {
            values.push(self.values[i].duplicate());
            i += 1;
        }
        proof {
            crate::value::lemma_vals_view(values@);
            crate::value::lemma_vals_view(self.values@);
            assert(vals_view(values@) =~= vals_view(self.values@));
        }
        Clause {
            attribute: self.attribute.clone(),
            op: self.op.clone(),
            values,
            negate: self.negate,
        }
    }
}

/// One weighted slice of a percentage rollout.
#[derive(Clone, Copy)]
pub struct WeightedVariation {
    pub variation: u32,
    pub weight: u32,
}

/// The model of a weighted slice.
#[verifier::ext_equal]
pub struct WeightedVariationS {
    pub variation: int,
    pub weight: int,
}

impl View for WeightedVariation {
    type V = WeightedVariationS;

    open spec fn view(&self) -> WeightedVariationS {
        WeightedVariationS { variation: self.variation as int, weight: self.weight as int }
    }
}

/// A percentage rollout: weighted slices walked in order, bucketed by an
/// attribute (the user key unless said otherwise).
#[allow(non_snake_case)]
pub struct Rollout {
    pub variations: Vec<WeightedVariation>,
    pub bucketBy: Option<String>,
}

/// The model of a rollout.
#[verifier::ext_equal]
pub struct RolloutS {
    pub variations: Seq<WeightedVariationS>,
    pub bucket_by: Option<Seq<char>>,
}

/// The model of a sequence of weighted slices, elementwise.
pub open spec fn wvars_view(v: Seq<WeightedVariation>) -> Seq<WeightedVariationS> {
    Seq::new(v.len(), |i: int| v[i]@)
}

/// The model of an optional string.
pub open spec fn opt_string_view(o: Option<String>) -> Option<Seq<char>> {
    match o {
        Some(s) => Some(s@),
        None => None,
    }
}

/// The model of an optional index.
pub open spec fn opt_u32_view(o: Option<u32>) -> Option<int> {
    match o {
        Some(n) => Some(n as int),
        None => None,
    }
}

impl View for Rollout {
    type V = RolloutS;

    open spec fn view(&self) -> RolloutS {
        RolloutS {
            variations: wvars_view(self.variations@),
            bucket_by: opt_string_view(self.bucketBy),
        }
    }
}

impl Clone for Rollout {
    fn clone(&self) -> (r: Self)
        ensures
            r@ == self@,
    {
        let variations = self.variations.clone();
        let bucket_by = match &self.bucketBy {
            Some(s) => Some(s.clone()),
            None => None,
        };
        proof {
            assert(wvars_view(variations@) =~= wvars_view(self.variations@));
        }
        Rollout { variations, bucketBy: bucket_by }
    }
}

/// The model of an optional rollout.
pub open spec fn opt_rollout_view(o: Option<Rollout>) -> Option<RolloutS> {
    match o {
        Some(r) => Some(r@),
        None => None,
    }
}

/// Clones an optional rollout.
fn clone_opt_rollout(o: &Option<Rollout>) -> (r: Option<Rollout>)
    ensures
        opt_rollout_view(r) == opt_rollout_view(*o),
{
    match o {
        Some(roll) => Some(roll.clone()),
        None => None,
    }
}

/// A targeting rule: every clause must match, then the rule's fixed
/// variation or rollout decides.
pub struct Rule {
    pub clauses: Vec<Clause>,
    pub variation: Option<u32>,
    pub rollout: Option<Rollout>,
}

/// The model of a rule.
#[verifier::ext_equal]
pub struct RuleS {
    pub clauses: Seq<ClauseS>,
    pub variation: Option<int>,
    pub rollout: Option<RolloutS>,
}

/// The model of a sequence of clauses, elementwise.
pub open spec fn clauses_view(v: Seq<Clause>) -> Seq<ClauseS> {
    Seq::new(v.len(), |i: int| v[i]@)
}

impl View for Rule {
    type V = RuleS;

    open spec fn view(&self) -> RuleS {
        RuleS {
            clauses: clauses_view(self.clauses@),
            variation: opt_u32_view(self.variation),
            rollout: opt_rollout_view(self.rollout),
        }
    }
}

impl Clone for Rule {
    fn clone(&self) -> (r: Self)
        ensures
            r@ == self@,
    {
        let mut clauses: Vec<Clause> = Vec::new();
        let mut i: usize = 0;
        while i < self.clauses.len()
            invariant
                i <= self.clauses.len(),
                clauses.len() == i,
                forall|j: int| 0 <= j < i ==> clauses[j]@ == self.clauses[j]@,
            decreases self.clauses.len() - i,
        {
            clauses.push(self.clauses[i].clone());
            i += 1;
        }
        proof {
            assert(clauses_view(clauses@) =~= clauses_view(self.clauses@));
        }
        Rule { clauses, variation: self.variation, rollout: clone_opt_rollout(&self.rollout) }
    }
}

/// Either a fixed variation index or a rollout.
pub struct VariationOrRollout {
    pub variation: Option<u32>,
    pub rollout: Option<Rollout>,
}

/// The model of a variation-or-rollout.
#[verifier::ext_equal]
pub struct VorS {
    pub variation: Option<int>,
    pub rollout: Option<RolloutS>,
}

impl View for VariationOrRollout {
    type V = VorS;

    open spec fn view(&self) -> VorS {
        VorS { variation: opt_u32_view(self.variation), rollout: opt_rollout_view(self.rollout) }
    }
}

impl Clone for VariationOrRollout {
    fn clone(&self) -> (r: Self)
        ensures
            r@ == self@,
    {
        VariationOrRollout {
            variation: self.variation,
            rollout: clone_opt_rollout(&self.rollout),
        }
    }
}

/// A feature flag: the unit of evaluation.
#[allow(non_snake_case)]
pub struct FeatureFlag {
    pub key: String,
    pub version: u32,
    pub on: bool,
    pub prerequisites: Vec<Prerequisite>,
    pub salt: String,
    pub targets: Vec<Target>,
    pub rules: Vec<Rule>,
    pub fallthrough: VariationOrRollout,
    pub offVariation: Option<u32>,
    pub variations: Vec<Val>,
    pub deleted: bool,
}

/// The model of a flag.
#[verifier::ext_equal]
pub struct FlagS {
    pub key: Seq<char>,
    pub version: int,
    pub on: bool,
    pub prerequisites: Seq<PrereqS>,
    pub salt: Seq<char>,
    pub targets: Seq<TargetS>,
    pub rules: Seq<RuleS>,
    pub fallthrough: VorS,
    pub off_variation: Option<int>,
    pub variations: Seq<ValS>,
    pub deleted: bool,
}

/// The model of a sequence of prerequisites, elementwise.
pub open spec fn prereqs_view(v: Seq<Prerequisite>) -> Seq<PrereqS> {
    Seq::new(v.len(), |i: int| v[i]@)
}

/// The model of a sequence of targets, elementwise.
pub open spec fn targets_view(v: Seq<Target>) -> Seq<TargetS> {
    Seq::new(v.len(), |i: int| v[i]@)
}

/// The model of a sequence of rules, elementwise.
pub open spec fn rules_view(v: Seq<Rule>) -> Seq<RuleS> {
    Seq::new(v.len(), |i: int| v[i]@)
}

impl View for FeatureFlag {
    type V = FlagS;

    open spec fn view(&self) -> FlagS {
        FlagS {
            key: self.key@,
            version: self.version as int,
            on: self.on,
            prerequisites: prereqs_view(self.prerequisites@),
            salt: self.salt@,
            targets: targets_view(self.targets@),
            rules: rules_view(self.rules@),
            fallthrough: self.fallthrough@,
            off_variation: opt_u32_view(self.offVariation),
            variations: vals_view(self.variations@),
            deleted: self.deleted,
        }
    }
}

impl Clone for FeatureFlag {
    fn clone(&self) -> (r: Self)
        ensures
            r@ == self@,
    {
        let prerequisites = self.prerequisites.clone();
        let targets = self.targets.clone();
        let rules = self.rules.clone();
        let mut variations: Vec<Val> = Vec::new();
        let mut i: usize = 0;
        while i < self.variations.len()
            invariant
                i <= self.variations.len(),
                variations.len() == i,
                forall|j: int| 0 <= j < i ==> variations[j]@ == self.variations[j]@,
            decreases self.variations.len() - i,
        {
            variations.push(self.variations[i].duplicate());
            i += 1;
        }
        proof {
            assert(prereqs_view(prerequisites@) =~= prereqs_view(self.prerequisites@));
            assert(targets_view(targets@) =~= targets_view(self.targets@));
            assert(rules_view(rules@) =~= rules_view(self.rules@));
            crate::value::lemma_vals_view(variations@);
            crate::value::lemma_vals_view(self.variations@);
            assert(vals_view(variations@) =~= vals_view(self.variations@));
        }
        FeatureFlag {
            key: self.key.clone(),
            version: self.version,
            on: self.on,
            prerequisites,
            salt: self.salt.clone(),
            targets,
            rules,
            fallthrough: self.fallthrough.clone(),
            offVariation: self.offVariation,
            variations,
            deleted: self.deleted,
        }
    }
}

} // verus!
