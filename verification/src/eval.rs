//! The evaluation engine: targets first, then rules, then the fallthrough;
//! prerequisites resolved recursively against the store with a depth bound
//! that makes cyclic prerequisite graphs a defined outcome instead of
//! unbounded recursion.

use vstd::prelude::*;
use crate::value::{Val, ValS, val_view, vals_view, lemma_vals_view};
use crate::user::{LDUser, UserS, attr_model};
use crate::flag::{
    FeatureFlag, FlagS, Rule, RuleS, Clause, ClauseS, Rollout, RolloutS, VariationOrRollout,
    VorS, WeightedVariationS, opt_u32_view, opt_rollout_view,
};
use crate::feature_store::{FeatureStore, store_lookup};
use crate::ops::{apply_op_model, apply_op};
use crate::bucket::{user_bucket, bucket_user, LONG_SCALE};
use crate::event::FeatureRequestEvent;

verus! {

/// Flips a match result when the clause is negated.
pub open spec fn maybe_negate_model(negate: bool, r: bool) -> bool {
    if negate {
        !r
    } else {
        r
    }
}

/// A single user value matches when the operator accepts it against any
/// operand of the clause.
pub open spec fn clause_match_scalar(c: ClauseS, uv: ValS) -> bool {
    exists|i: int| 0 <= i < c.values.len() && apply_op_model(c.op, uv, #[trigger] c.values[i])
}

/// Some element of a sequence-valued attribute matches the clause.
pub open spec fn list_any_match(c: ClauseS, elems: Seq<ValS>) -> bool {
    exists|j: int| 0 <= j < elems.len() && clause_match_scalar(c, #[trigger] elems[j])
}

/// Whether a clause matches a user: an absent attribute never matches,
/// a sequence matches through any element, and `negate` flips the result
/// (but never the absence rule).
pub open spec fn clause_matches_model(c: ClauseS, u: UserS) -> bool {
    match attr_model(u, c.attribute) {
        ValS::Null => false,
        ValS::List(elems) => maybe_negate_model(c.negate, list_any_match(c, elems)),
        v => maybe_negate_model(c.negate, clause_match_scalar(c, v)),
    }
}

/// A rule matches when every one of its clauses matches.
pub open spec fn rule_matches_model(r: RuleS, u: UserS) -> bool {
    forall|i: int| 0 <= i < r.clauses.len() ==> clause_matches_model(#[trigger] r.clauses[i], u)
}

/// The summed weight of a prefix of rollout slices.
pub open spec fn weights_sum(s: Seq<WeightedVariationS>) -> int
    decreases s.len(),
{
    if s.len() == 0 {
        0
    } else {
        weights_sum(s.drop_last()) + s.last().weight
    }
}

/// Walks rollout slices in order with the running weight `cum`; the first
/// slice whose cumulative weight fraction exceeds the bucket fraction
/// `h / LONG_SCALE` wins, and an under-summed rollout yields nothing.
pub open spec fn rollout_pick(vars: Seq<WeightedVariationS>, h: int, cum: int) -> Option<int>
    decreases vars.len(),
{
    if vars.len() == 0 {
        None
    } else {
        let c2 = cum + vars[0].weight;
        if h * 100000 < c2 * (LONG_SCALE as int) {
            Some(vars[0].variation)
        } else {
            rollout_pick(vars.drop_first(), h, c2)
        }
    }
}

/// The variation index a rollout assigns a user.
pub open spec fn rollout_index_model(roll: RolloutS, u: UserS, key: Seq<char>, salt: Seq<char>) -> Option<int> {
    let bb = match roll.bucket_by {
        Some(b) => b,
        None => "key"@,
    };
    rollout_pick(roll.variations, user_bucket(u, key, bb, salt), 0)
}

/// A fixed variation index when one is set, else the rollout's pick, else
/// nothing.
pub open spec fn vor_index_model(v: VorS, u: UserS, key: Seq<char>, salt: Seq<char>) -> Option<int> {
    match v.variation {
        Some(n) => Some(n),
        None => match v.rollout {
            Some(roll) => rollout_index_model(roll, u, key, salt),
            None => None,
        },
    }
}

/// A rule's outcome, seen as a variation-or-rollout.
pub open spec fn rule_vor(r: RuleS) -> VorS {
    VorS { variation: r.variation, rollout: r.rollout }
}

/// The variation of the first target listing the key, scanned in order.
pub open spec fn first_target_index(targets: Seq<crate::flag::TargetS>, key: Seq<char>) -> Option<int>
    decreases targets.len(),
{
    if targets.len() == 0 {
        None
    } else if targets[0].values.contains(key) {
        Some(targets[0].variation)
    } else {
        first_target_index(targets.drop_first(), key)
    }
}

/// The first rule that matches the user, scanned in order.
pub open spec fn first_matching_rule(rules: Seq<RuleS>, u: UserS) -> Option<RuleS>
    decreases rules.len(),
{
    if rules.len() == 0 {
        None
    } else if rule_matches_model(rules[0], u) {
        Some(rules[0])
    } else {
        first_matching_rule(rules.drop_first(), u)
    }
}

/// The evaluation index of a flag for a user: targets take precedence
/// over rules, the first matching rule over later ones, and the
/// fallthrough decides when nothing else does.
pub open spec fn eval_index_model(f: FlagS, u: UserS) -> Option<int> {
    match first_target_index(f.targets, u.key) {
        Some(v) => Some(v),
        None => match first_matching_rule(f.rules, u) {
            Some(r) => vor_index_model(rule_vor(r), u, f.key, f.salt),
            None => vor_index_model(f.fallthrough, u, f.key, f.salt),
        },
    }
}

/// The value at a variation index; an absent or out-of-range index yields
/// nothing.
pub open spec fn variation_model(f: FlagS, idx: Option<int>) -> Option<ValS> {
    match idx {
        Some(i) => if 0 <= i < f.variations.len() {
            Some(f.variations[i])
        } else {
            None
        },
        None => None,
    }
}

/// The off-variation value of a flag: null when no off variation is set
/// or its index is out of range.
pub open spec fn off_value_model(f: FlagS) -> ValS {
    match f.off_variation {
        Some(n) => match variation_model(f, Some(n)) {
            Some(v) => v,
            None => ValS::Null,
        },
        None => ValS::Null,
    }
}

/// Whether every prerequisite holds: each referenced flag must exist, be
/// on, and its own recursive evaluation (within the remaining depth) must
/// land on exactly the required variation index.
pub open spec fn prereqs_ok(
    ps: Seq<crate::flag::PrereqS>,
    u: UserS,
    store: Seq<(Seq<char>, FlagS)>,
    depth: nat,
) -> bool
    decreases depth, ps.len(), 0nat,
{
    if ps.len() == 0 {
        true
    } else {
        let ok0 = match store_lookup(store, ps[0].key) {
            Some(pf) => pf.on && depth > 0 && eval_internal_model(
                pf,
                u,
                store,
                (depth - 1) as nat,
            ) == Some(ps[0].variation),
            None => false,
        };
        ok0 && prereqs_ok(ps.drop_first(), u, store, depth)
    }
}

/// The index a flag's inner evaluation lands on: nothing when a
/// prerequisite fails, else the evaluation index.
pub open spec fn eval_internal_model(
    f: FlagS,
    u: UserS,
    store: Seq<(Seq<char>, FlagS)>,
    depth: nat,
) -> Option<int>
    decreases depth, f.prerequisites.len(), 1nat,
{
    if prereqs_ok(f.prerequisites, u, store, depth) {
        eval_index_model(f, u)
    } else {
        None
    }
}

/// The value a flag evaluates to for a user: the off-variation value when
/// the flag is off or a prerequisite fails; otherwise the value at the
/// evaluation index, or null when that index is absent or out of range
/// (the explicit no-value outcome). The recursion depth starts at the
/// store size, enough for any acyclic prerequisite chain.
pub open spec fn evaluate_model(f: FlagS, u: UserS, store: Seq<(Seq<char>, FlagS)>) -> ValS {
    if !f.on {
        off_value_model(f)
    } else if !prereqs_ok(f.prerequisites, u, store, store.len()) {
        off_value_model(f)
    } else {
        match variation_model(f, eval_index_model(f, u)) {
            Some(v) => v,
            None => ValS::Null,
        }
    }
}

/// The model of an optional value.
pub open spec fn opt_val_view(r: Option<Val>) -> Option<ValS> {
    match r {
        Some(v) => Some(val_view(v)),
        None => None,
    }
}

impl Clause {
    /// Flips a match result when this clause is negated.
    fn maybe_negate(&self, result: bool) -> (r: bool)
        ensures
            r == maybe_negate_model(self.negate, result),
    {
        if self.negate {
            !result
        } else {
            result
        }
    }

    /// Whether any operand of this clause accepts the single user value.
    fn match_any(&self, user_value: &Val) -> (r: bool)
        ensures
            r == clause_match_scalar(self@, user_value@),
    {
        let mut i: usize = 0;
        while i < self.values.len()
            invariant
                i <= self.values.len(),
                forall|j: int|
                    0 <= j < i ==> !apply_op_model(
                        self@.op,
                        user_value@,
                        #[trigger] self@.values[j],
                    ),
            decreases self.values.len() - i,
        {
            proof {
                lemma_vals_view(self.values@);
            }
            if apply_op(self.op.as_str(), user_value, &self.values[i]) {
                proof {
                    assert(apply_op_model(self@.op, user_value@, self@.values[i as int]));
                }
                return true;
            }
            i += 1;
        }
        proof {
            lemma_vals_view(self.values@);
        }
        false
    }

    /// Whether any element of a sequence-valued user attribute matches.
    fn match_any_of_any(&self, user_values: &Vec<Val>) -> (r: bool)
        ensures
            r == list_any_match(self@, vals_view(user_values@)),
    {
        let mut i: usize = 0;
        while i < user_values.len()
            invariant
                i <= user_values.len(),
                forall|j: int|
                    0 <= j < i ==> !clause_match_scalar(
                        self@,
                        #[trigger] vals_view(user_values@)[j],
                    ),
            decreases user_values.len() - i,
        {
            proof {
                lemma_vals_view(user_values@);
            }
            if self.match_any(&user_values[i]) {
                proof {
                    assert(clause_match_scalar(self@, vals_view(user_values@)[i as int]));
                }
                return true;
            }
            i += 1;
        }
        proof {
            lemma_vals_view(user_values@);
        }
        false
    }

    /// Whether this clause matches the user.
    fn matches_user(&self, user: &LDUser) -> (r: bool)
        ensures
            r == clause_matches_model(self@, user@),
    {
        let user_value = user.get_value_for_evaluation(&self.attribute);
        match user_value {
            Val::Null => false,
            Val::List(values) => {
                let m = self.match_any_of_any(&values);
                self.maybe_negate(m)
            },
            other => {
                let m = self.match_any(&other);
                self.maybe_negate(m)
            },
        }
    }
}

impl Rule {
    /// Whether every clause of this rule matches the user.
    pub fn matches_user(&self, user: &LDUser) -> (r: bool)
        ensures
            r == rule_matches_model(self@, user@),
    {
        let mut i: usize = 0;
        while i < self.clauses.len()
            invariant
                i <= self.clauses.len(),
                forall|j: int|
                    0 <= j < i ==> clause_matches_model(#[trigger] self@.clauses[j], user@),
            decreases self.clauses.len() - i,
        {
            if !self.clauses[i].matches_user(user) {
                proof {
                    assert(!clause_matches_model(self@.clauses[i as int], user@));
                }
                return false;
            }
            i += 1;
        }
        true
    }

    /// The variation index this rule assigns the user.
    pub fn variation_index_for_user(&self, user: &LDUser, key: &String, salt: &String) -> (r:
        Option<u32>)
        ensures
            opt_u32_view(r) == vor_index_model(rule_vor(self@), user@, key@, salt@),
    {
        variation_index(&self.variation, &self.rollout, user, key, salt)
    }
}

impl VariationOrRollout {
    /// The variation index this outcome assigns the user.
    pub fn variation_index_for_user(&self, user: &LDUser, key: &String, salt: &String) -> (r:
        Option<u32>)
        ensures
            opt_u32_view(r) == vor_index_model(self@, user@, key@, salt@),
    {
        variation_index(&self.variation, &self.rollout, user, key, salt)
    }
}

/// A fixed index when one is set, else the rollout's pick.
fn variation_index(
    variation: &Option<u32>,
    rollout: &Option<Rollout>,
    user: &LDUser,
    key: &String,
    salt: &String,
) -> (r: Option<u32>)
    ensures
        opt_u32_view(r) == vor_index_model(
            VorS { variation: opt_u32_view(*variation), rollout: opt_rollout_view(*rollout) },
            user@,
            key@,
            salt@,
        ),
{
    match variation {
        Some(n) => Some(*n),
        None => match rollout {
            Some(roll) => rollout_variation(roll, user, key, salt),
            None => None,
        },
    }
}

/// Walks a rollout's weighted slices against the user's bucket.
fn rollout_variation(roll: &Rollout, user: &LDUser, key: &String, salt: &String) -> (r: Option<
    u32>)
    ensures
        opt_u32_view(r) == rollout_index_model(roll@, user@, key@, salt@),
{
    let h: u64 = match &roll.bucketBy {
        Some(b) => bucket_user(user, key, b, salt),
        None => {
            let bb = String::from_str("key");
            bucket_user(user, key, &bb, salt)
        },
    };
    let ghost hs: int = h as int;
    let ghost vars = roll@.variations;
    proof {
        assert(vars.subrange(0, vars.len() as int) =~= vars);
        assert(weights_sum(vars.subrange(0, 0)) == 0);
    }
    let mut i: usize = 0;
    let mut cum: u64 = 0;
    while i < roll.variations.len()
        invariant
            i <= roll.variations.len(),
            h <= LONG_SCALE,
            hs == h as int,
            vars == roll@.variations,
            vars == crate::flag::wvars_view(roll.variations@),
            vars.len() == roll.variations@.len(),
            rollout_pick(vars, hs, 0) == rollout_index_model(roll@, user@, key@, salt@),
            forall|j: int| 0 <= j < vars.len() ==> (#[trigger] vars[j]).weight >= 0,
            cum <= 100001,
            (cum as int) == (if weights_sum(vars.subrange(0, i as int)) <= 100001 {
                weights_sum(vars.subrange(0, i as int))
            } else {
                100001
            }),
            rollout_pick(vars, hs, 0) == rollout_pick(
                vars.subrange(i as int, vars.len() as int),
                hs,
                weights_sum(vars.subrange(0, i as int)),
            ),
        decreases roll.variations.len() - i,
    {
        let w = roll.variations[i].weight;
        let cnew: u64 = cum + (w as u64);
        let cum2: u64 = if cnew > 100001 {
            100001
        } else {
            cnew
        };
        let ghost cum_old: int = weights_sum(vars.subrange(0, i as int));
        let ghost c2: int = cum_old + vars[i as int].weight;
        proof {
            let pre = vars.subrange(0, i + 1);
            assert(pre.drop_last() =~= vars.subrange(0, i as int));
            assert(pre.last() == vars[i as int]);
            assert(weights_sum(pre) == c2);
            let rest = vars.subrange(i as int, vars.len() as int);
            assert(rest[0] == vars[i as int]);
            assert(rest.drop_first() =~= vars.subrange(i + 1, vars.len() as int));
            assert(vars[i as int].weight == w as int);
        }
        cum = cum2;
        proof {
            // the saturated running weight decides the comparison exactly as
            // the true running weight does, because the bucket never exceeds
            // the scale
            if c2 > 100001 {
                assert(cum as int == 100001);
                assert(hs * 100000 <= (LONG_SCALE as int) * 100000);
                assert((LONG_SCALE as int) * 100000 < 100001 * (LONG_SCALE as int));
                assert(100001 * (LONG_SCALE as int) <= c2 * (LONG_SCALE as int)) by (
                nonlinear_arith)
                    requires
                        c2 >= 100001,
                ;
                assert(hs * 100000 < (cum as int) * (LONG_SCALE as int));
                assert(hs * 100000 < c2 * (LONG_SCALE as int));
            } else {
                assert(cum as int == c2);
            }
        }
        if (h as u128) * 100000 < (cum as u128) * (LONG_SCALE as u128) {
            proof {
                assert(hs * 100000 < c2 * (LONG_SCALE as int));
                let rest = vars.subrange(i as int, vars.len() as int);
                assert(rollout_pick(rest, hs, cum_old) == Some(vars[i as int].variation));
            }
            return Some(roll.variations[i].variation);
        }
        proof {
            assert(!(hs * 100000 < c2 * (LONG_SCALE as int)));
            let rest = vars.subrange(i as int, vars.len() as int);
            assert(rollout_pick(rest, hs, cum_old) == rollout_pick(
                rest.drop_first(),
                hs,
                c2,
            ));
        }
        i += 1;
    }
    proof {
        assert(vars.subrange(vars.len() as int, vars.len() as int) =~= Seq::empty());
    }
    None
}

/// Whether a target's value list names the key.
fn target_has_key(t: &crate::flag::Target, key: &String) -> (r: bool)
    ensures
        r == t@.values.contains(key@),
{
    let mut k: usize = 0;
    while k < t.values.len()
        invariant
            k <= t.values.len(),
            forall|j: int| 0 <= j < k ==> t@.values[j] != key@,
        decreases t.values.len() - k,
    {
        if crate::ops::str_eq(t.values[k].as_str(), key.as_str()) {
            proof {
                assert(t@.values[k as int] == key@);
            }
            return true;
        }
        k += 1;
    }
    proof {
        if t@.values.contains(key@) {
            let j = choose|j: int| 0 <= j < t@.values.len() && t@.values[j] == key@;
            assert(t@.values[j] == key@);
            assert(false);
        }
    }
    false
}

impl FeatureFlag {
    /// The value at a variation index, or nothing when the index is
    /// absent or out of range.
    fn get_variation(&self, index: Option<u32>) -> (r: Option<Val>)
        ensures
            opt_val_view(r) == variation_model(self@, opt_u32_view(index)),
    {
        proof {
            lemma_vals_view(self.variations@);
        }
        match index {
            Some(i) => {
                if (i as usize) < self.variations.len() {
                    Some(self.variations[i as usize].duplicate())
                } else {
                    None
                }
            },
            None => None,
        }
    }

    /// The off-variation value: the value at the off index, or null when
    /// none is set or the index is out of range.
    fn get_off_variation_value(&self) -> (r: Val)
        ensures
            r@ == off_value_model(self@),
    {
        match self.offVariation {
            Some(n) => match self.get_variation(Some(n)) {
                Some(v) => v,
                None => Val::Null,
            },
            None => Val::Null,
        }
    }

    /// The evaluation index for a user: targets, then rules, then the
    /// fallthrough.
    fn evaluate_index(&self, user: &LDUser) -> (r: Option<u32>)
        ensures
            opt_u32_view(r) == eval_index_model(self@, user@),
    {
        let ghost targets = self@.targets;
        let ghost ukey = user@.key;
        proof {
            assert(targets.subrange(0, targets.len() as int) =~= targets);
        }
        let mut i: usize = 0;
        while i < self.targets.len()
            invariant
                i <= self.targets.len(),
                targets == self@.targets,
                targets.len() == self.targets@.len(),
                ukey == user@.key,
                first_target_index(targets, ukey) == first_target_index(
                    targets.subrange(i as int, targets.len() as int),
                    ukey,
                ),
            decreases self.targets.len() - i,
        {
            proof {
                let rest = targets.subrange(i as int, targets.len() as int);
                assert(rest[0] == targets[i as int]);
                assert(rest.drop_first() =~= targets.subrange(i + 1, targets.len() as int));
            }
            if target_has_key(&self.targets[i], &user.key) {
                return Some(self.targets[i].variation);
            }
            i += 1;
        }
        proof {
            assert(targets.subrange(targets.len() as int, targets.len() as int)
                =~= Seq::<crate::flag::TargetS>::empty());
            assert(first_target_index(self@.targets, user@.key) is None);
        }
        let ghost rules = self@.rules;
        proof {
            assert(rules.subrange(0, rules.len() as int) =~= rules);
        }
        let mut rix: usize = 0;
        while rix < self.rules.len()
            invariant
                rix <= self.rules.len(),
                rules == self@.rules,
                rules.len() == self.rules@.len(),
                first_target_index(self@.targets, user@.key) is None,
                first_matching_rule(rules, user@) == first_matching_rule(
                    rules.subrange(rix as int, rules.len() as int),
                    user@,
                ),
            decreases self.rules.len() - rix,
        {
            proof {
                let rest = rules.subrange(rix as int, rules.len() as int);
                assert(rest[0] == rules[rix as int]);
                assert(rest.drop_first() =~= rules.subrange(rix + 1, rules.len() as int));
            }
            if self.rules[rix].matches_user(user) {
                return self.rules[rix].variation_index_for_user(user, &self.key, &self.salt);
            }
            rix += 1;
        }
        proof {
            assert(rules.subrange(rules.len() as int, rules.len() as int)
                =~= Seq::<RuleS>::empty());
            assert(first_matching_rule(self@.rules, user@) is None);
        }
        self.fallthrough.variation_index_for_user(user, &self.key, &self.salt)
    }

    /// Whether every prerequisite of this flag holds: each referenced
    /// flag must exist, be on, and its recursive evaluation must land on
    /// exactly the required variation index. The depth bounds the
    /// recursion.
    fn prerequisites_hold(
        &self,
        user: &LDUser,
        store: &FeatureStore,
        depth: usize,
        prereq_events: &mut Vec<FeatureRequestEvent>,
    ) -> (r: bool)
        ensures
            r == prereqs_ok(self@.prerequisites, user@, store@, depth as nat),
            final(prereq_events)@ == old(prereq_events)@,
        decreases depth, 0int,
    {
        let ghost ps = self@.prerequisites;
        proof {
            assert(ps.subrange(0, ps.len() as int) =~= ps);
        }
        let mut i: usize = 0;
        while i < self.prerequisites.len()
            invariant
                i <= self.prerequisites.len(),
                ps == self@.prerequisites,
                ps.len() == self.prerequisites@.len(),
                prereq_events@ == old(prereq_events)@,
                prereqs_ok(ps, user@, store@, depth as nat) == prereqs_ok(
                    ps.subrange(i as int, ps.len() as int),
                    user@,
                    store@,
                    depth as nat,
                ),
            decreases self.prerequisites.len() - i,
        {
            proof {
                let rest = ps.subrange(i as int, ps.len() as int);
                assert(rest[0] == ps[i as int]);
                assert(rest.drop_first() =~= ps.subrange(i + 1, ps.len() as int));
            }
            let prereq_key = &self.prerequisites[i].key;
            match store.get(prereq_key) {
                Some(prereq_flag) => {
                    if prereq_flag.on {
                        if depth == 0 {
                            return false;
                        }
                        let landed = prereq_flag.evaluate_internal(
                            user,
                            store,
                            depth - 1,
                            prereq_events,
                        );
                        let satisfied = match landed {
                            Some(n) => n == self.prerequisites[i].variation,
                            None => false,
                        };
                        if !satisfied {
                            return false;
                        }
                    } else {
                        return false;
                    }
                },
                None => {
                    return false;
                },
            }
            i += 1;
        }
        proof {
            assert(ps.subrange(ps.len() as int, ps.len() as int)
                =~= Seq::<crate::flag::PrereqS>::empty());
        }
        true
    }

    /// The index this flag's inner evaluation lands on: nothing when a
    /// prerequisite fails, else the evaluation index.
    fn evaluate_internal(
        &self,
        user: &LDUser,
        store: &FeatureStore,
        depth: usize,
        prereq_events: &mut Vec<FeatureRequestEvent>,
    ) -> (r: Option<u32>)
        ensures
            opt_u32_view(r) == eval_internal_model(self@, user@, store@, depth as nat),
            final(prereq_events)@ == old(prereq_events)@,
        decreases depth, 1int,
    {
        if self.prerequisites_hold(user, store, depth, prereq_events) {
            self.evaluate_index(user)
        } else {
            None
        }
    }

    /// Evaluates this flag for a user against the store: the off-variation
    /// value when the flag is off or a prerequisite fails; otherwise the
    /// value at the evaluation index, or null when that index resolves to
    /// nothing. The second component carries prerequisite evaluation
    /// events; the analytics pipeline being a no-op collaborator, it
    /// stays empty.
    pub fn evaluate(&self, user: &LDUser, store: &FeatureStore) -> (r: (Val, Vec<
        FeatureRequestEvent>))
        ensures
            r.0@ == evaluate_model(self@, user@, store@),
            r.1@.len() == 0,
    {
        let mut prereq_events: Vec<FeatureRequestEvent> = Vec::new();
        if !self.on {
            let off_variation = self.get_off_variation_value();
            return (off_variation, prereq_events);
        }
        let depth = store.len();
        if !self.prerequisites_hold(user, store, depth, &mut prereq_events) {
            let off_variation = self.get_off_variation_value();
            return (off_variation, prereq_events);
        }
        let idx = self.evaluate_index(user);
        match self.get_variation(idx) {
            Some(value) => (value, prereq_events),
            None => (Val::Null, prereq_events),
        }
    }
}

} // verus!
