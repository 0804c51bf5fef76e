//! Laws the evaluation engine obeys, stated over the models and proved
//! once for all inputs.

use vstd::prelude::*;
use crate::value::ValS;
use crate::user::{UserS, attr_model};
use crate::flag::{FlagS, TargetS, WeightedVariationS};
use crate::feature_store::{store_lookup, live_entries};
use crate::bucket::{user_bucket, LONG_SCALE};
use crate::eval::{
    evaluate_model, eval_internal_model, eval_index_model, off_value_model, variation_model,
    prereqs_ok, first_target_index, first_matching_rule, rule_matches_model, rule_vor,
    vor_index_model, rollout_pick,
};

verus! {

/// A flag that is off evaluates to its off-variation value, whatever the
/// user, the rules or the store hold.
pub proof fn off_flag_gets_off_value(f: FlagS, u: UserS, s: Seq<(Seq<char>, FlagS)>)
    requires
        !f.on,
    ensures
        evaluate_model(f, u, s) == off_value_model(f),
{
}

proof fn lemma_first_target_some(targets: Seq<TargetS>, key: Seq<char>)
    requires
        exists|i: int| 0 <= i < targets.len() && (#[trigger] targets[i]).values.contains(key),
    ensures
        first_target_index(targets, key) is Some,
    decreases targets.len(),
{
    if !targets[0].values.contains(key) {
        let w = choose|i: int|
            0 <= i < targets.len() && (#[trigger] targets[i]).values.contains(key);
        assert(targets.drop_first()[w - 1] == targets[w]);
        lemma_first_target_some(targets.drop_first(), key);
    }
}

/// A target listing the user's key decides the evaluation index before
/// any rule is looked at.
pub proof fn targets_take_precedence(f: FlagS, u: UserS)
    requires
        exists|i: int| 0 <= i < f.targets.len() && (#[trigger] f.targets[i]).values.contains(
            u.key,
        ),
    ensures
        first_target_index(f.targets, u.key) is Some,
        eval_index_model(f, u) == first_target_index(f.targets, u.key),
{
    lemma_first_target_some(f.targets, u.key);
}

proof fn lemma_no_target_none(targets: Seq<TargetS>, key: Seq<char>)
    requires
        forall|i: int| 0 <= i < targets.len() ==> !(#[trigger] targets[i]).values.contains(key),
    ensures
        first_target_index(targets, key) is None,
    decreases targets.len(),
{
    if targets.len() > 0 {
        assert(forall|i: int|
            0 <= i < targets.drop_first().len() ==> targets.drop_first()[i] == targets[i + 1]);
        lemma_no_target_none(targets.drop_first(), key);
    }
}

/// Rule order matters: when no target lists the user's key and the first
/// rule matches, the first rule's outcome decides, whatever later rules
/// would have said.
pub proof fn first_rule_wins(f: FlagS, u: UserS)
    requires
        forall|i: int|
            0 <= i < f.targets.len() ==> !(#[trigger] f.targets[i]).values.contains(u.key),
        f.rules.len() >= 1,
        rule_matches_model(f.rules[0], u),
    ensures
        eval_index_model(f, u) == vor_index_model(rule_vor(f.rules[0]), u, f.key, f.salt),
{
    lemma_no_target_none(f.targets, u.key);
    assert(first_matching_rule(f.rules, u) == Some(f.rules[0]));
}

/// Bucketing is deterministic: it depends only on the flag key, the salt,
/// the bucket-by attribute's value and the secondary key, so two users
/// agreeing on those land in the same bucket, for every salt.
pub proof fn bucketing_deterministic(
    u1: UserS,
    u2: UserS,
    key: Seq<char>,
    bucket_by: Seq<char>,
    salt: Seq<char>,
)
    requires
        attr_model(u1, bucket_by) == attr_model(u2, bucket_by),
        u1.secondary == u2.secondary,
    ensures
        user_bucket(u1, key, bucket_by, salt) == user_bucket(u2, key, bucket_by, salt),
{
}

/// With two slices weighted 50000/50000, a bucket at or past the midpoint
/// is assigned the second slice: the comparison against the cumulative
/// weight is strict.
pub proof fn half_rollout_boundary(vars: Seq<WeightedVariationS>, h: int)
    requires
        vars.len() == 2,
        vars[0].weight == 50000,
        vars[1].weight == 50000,
        0 <= h,
        h < LONG_SCALE as int,
        50000 * (LONG_SCALE as int) <= h * 100000,
    ensures
        rollout_pick(vars, h, 0) == Some(vars[1].variation),
{
    assert(vars.drop_first()[0] == vars[1]);
    assert(vars.drop_first().len() == 1);
    assert(rollout_pick(vars, h, 0) == rollout_pick(vars.drop_first(), h, 50000));
    assert(h * 100000 < 100000 * (LONG_SCALE as int)) by (nonlinear_arith)
        requires
            h < LONG_SCALE as int,
    ;
    assert(rollout_pick(vars.drop_first(), h, 50000) == Some(vars[1].variation));
}

/// A flag whose single prerequisite is off falls back to its own
/// off-variation value, even when its own rules would match.
pub proof fn off_prerequisite_forces_off_value(
    f: FlagS,
    u: UserS,
    s: Seq<(Seq<char>, FlagS)>,
    pf: FlagS,
)
    requires
        f.on,
        f.prerequisites.len() == 1,
        store_lookup(s, f.prerequisites[0].key) == Some(pf),
        !pf.on,
    ensures
        evaluate_model(f, u, s) == off_value_model(f),
{
    assert(!prereqs_ok(f.prerequisites, u, s, s.len()));
}

/// An on flag whose prerequisites all hold but whose evaluation index
/// resolves to nothing, or out of range, yields the explicit no-value
/// outcome (null), never the off-variation value.
pub proof fn no_value_outcome_is_null(f: FlagS, u: UserS, s: Seq<(Seq<char>, FlagS)>)
    requires
        f.on,
        prereqs_ok(f.prerequisites, u, s, s.len()),
        variation_model(f, eval_index_model(f, u)) is None,
    ensures
        evaluate_model(f, u, s) == ValS::Null,
{
}

/// Prerequisites compare landing indices, not values: when the
/// prerequisite flag's own evaluation lands on anything but exactly the
/// required variation index, the whole flag falls back to its
/// off-variation value, even if the two indices were to hold equal
/// variation values.
pub proof fn prerequisite_index_decides(
    f: FlagS,
    u: UserS,
    s: Seq<(Seq<char>, FlagS)>,
    pf: FlagS,
)
    requires
        f.on,
        f.prerequisites.len() == 1,
        store_lookup(s, f.prerequisites[0].key) == Some(pf),
        eval_internal_model(pf, u, s, (s.len() - 1) as nat) != Some(
            f.prerequisites[0].variation,
        ),
    ensures
        evaluate_model(f, u, s) == off_value_model(f),
{
    assert(s.len() > 0);
    assert(!prereqs_ok(f.prerequisites, u, s, s.len()));
}

proof fn lemma_cycle_none(a: FlagS, b: FlagS, s: Seq<(Seq<char>, FlagS)>, u: UserS, d: nat)
    requires
        a.on,
        b.on,
        a.prerequisites.len() == 1,
        b.prerequisites.len() == 1,
        store_lookup(s, a.prerequisites[0].key) == Some(b),
        store_lookup(s, b.prerequisites[0].key) == Some(a),
    ensures
        !prereqs_ok(a.prerequisites, u, s, d),
        !prereqs_ok(b.prerequisites, u, s, d),
    decreases d,
{
    if d > 0 {
        lemma_cycle_none(a, b, s, u, (d - 1) as nat);
        assert(eval_internal_model(b, u, s, (d - 1) as nat) is None);
        assert(eval_internal_model(a, u, s, (d - 1) as nat) is None);
    }
}

/// A cyclic prerequisite graph (two flags each requiring the other)
/// terminates in a defined outcome: the depth bound runs out, the
/// prerequisite fails, and each flag falls back to its own off-variation
/// value.
pub proof fn cyclic_prerequisites_fall_back(
    a: FlagS,
    b: FlagS,
    s: Seq<(Seq<char>, FlagS)>,
    u: UserS,
)
    requires
        a.on,
        b.on,
        a.prerequisites.len() == 1,
        b.prerequisites.len() == 1,
        store_lookup(s, a.prerequisites[0].key) == Some(b),
        store_lookup(s, b.prerequisites[0].key) == Some(a),
    ensures
        evaluate_model(a, u, s) == off_value_model(a),
        evaluate_model(b, u, s) == off_value_model(b),
{
    lemma_cycle_none(a, b, s, u, s.len());
}

/// A key whose entries are all tombstoned resolves to nothing.
pub proof fn tombstones_invisible_to_get(s: Seq<(Seq<char>, FlagS)>, key: Seq<char>)
    requires
        forall|i: int| 0 <= i < s.len() && (#[trigger] s[i]).0 == key ==> s[i].1.deleted,
    ensures
        store_lookup(s, key) is None,
    decreases s.len(),
{
    if s.len() > 0 {
        assert(forall|i: int|
            0 <= i < s.drop_first().len() ==> s.drop_first()[i] == s[i + 1]);
        tombstones_invisible_to_get(s.drop_first(), key);
    }
}

/// A snapshot carries no tombstoned entry.
pub proof fn tombstones_invisible_to_snapshot(s: Seq<(Seq<char>, FlagS)>)
    ensures
        forall|i: int|
            0 <= i < live_entries(s).len() ==> !(#[trigger] live_entries(s)[i]).1.deleted,
    decreases s.len(),
{
    if s.len() > 0 {
        tombstones_invisible_to_snapshot(s.drop_last());
    }
}

/// Round trip, presence: a live entry whose key no earlier entry carries
/// reads back exactly the flag that was stored.
pub proof fn round_trip_get(s: Seq<(Seq<char>, FlagS)>, i: int)
    requires
        0 <= i < s.len(),
        forall|j: int| 0 <= j < i ==> (#[trigger] s[j]).0 != s[i].0,
        !s[i].1.deleted,
    ensures
        store_lookup(s, s[i].0) == Some(s[i].1),
    decreases i,
{
    if i > 0 {
        assert(forall|j: int| 0 <= j < s.drop_first().len() ==> s.drop_first()[j] == s[j + 1]);
        round_trip_get(s.drop_first(), i - 1);
    }
}

/// Round trip, absence: a key no entry carries reads back nothing, so a
/// replacement omitting a key makes it absent.
pub proof fn absent_key_get(s: Seq<(Seq<char>, FlagS)>, key: Seq<char>)
    requires
        forall|i: int| 0 <= i < s.len() ==> (#[trigger] s[i]).0 != key,
    ensures
        store_lookup(s, key) is None,
    decreases s.len(),
{
    if s.len() > 0 {
        assert(forall|i: int|
            0 <= i < s.drop_first().len() ==> s.drop_first()[i] == s[i + 1]);
        absent_key_get(s.drop_first(), key);
    }
}

} // verus!
