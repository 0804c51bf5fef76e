use ldclient::Val;
use ldclient::client::{all_flags, variation};
use ldclient::feature_store::FeatureStore;
use ldclient::flag::{
    Clause, FeatureFlag, Prerequisite, Rollout, Rule, Target, VariationOrRollout,
    WeightedVariation,
};
use ldclient::user::LDUser;

fn s(x: &str) -> String {
    x.to_string()
}

fn two_valued_flag(key: &str, on: bool) -> FeatureFlag {
    FeatureFlag {
        key: s(key),
        version: 1,
        on,
        prerequisites: vec![],
        salt: s("abc"),
        targets: vec![],
        rules: vec![],
        fallthrough: VariationOrRollout { variation: Some(0), rollout: None },
        offVariation: Some(1),
        variations: vec![Val::Str(s("fall")), Val::Str(s("off"))],
        deleted: false,
    }
}

fn clause(attr: &str, op: &str, values: Vec<Val>) -> Clause {
    Clause { attribute: s(attr), op: s(op), values, negate: false }
}

fn rule_matching_everyone(variation: u32) -> Rule {
    Rule {
        clauses: vec![clause("key", "in", vec![Val::Str(s("bozo"))])],
        variation: Some(variation),
        rollout: None,
    }
}

fn store_with(flags: Vec<FeatureFlag>) -> FeatureStore {
    let mut store = FeatureStore::new();
    let entries: Vec<(String, FeatureFlag)> =
        flags.into_iter().map(|f| (f.key.clone(), f)).collect();
    store.init(&entries);
    store
}

#[test]
fn off_flag_returns_off_variation() {
    let mut flag = two_valued_flag("f", false);
    flag.rules = vec![rule_matching_everyone(0)];
    let user = LDUser::new(s("bozo"));
    let store = FeatureStore::new();
    let (value, events) = flag.evaluate(&user, &store);
    assert!(value.deep_eq(&Val::Str(s("off"))));
    assert!(events.is_empty());
}

#[test]
fn off_flag_without_off_variation_is_null() {
    let mut flag = two_valued_flag("f", false);
    flag.offVariation = None;
    let user = LDUser::new(s("bozo"));
    let store = FeatureStore::new();
    let (value, _) = flag.evaluate(&user, &store);
    assert!(value.deep_eq(&Val::Null));
}

#[test]
fn off_variation_out_of_range_is_null() {
    let mut flag = two_valued_flag("f", false);
    flag.offVariation = Some(9);
    let user = LDUser::new(s("bozo"));
    let store = FeatureStore::new();
    let (value, _) = flag.evaluate(&user, &store);
    assert!(value.deep_eq(&Val::Null));
}

#[test]
fn target_takes_precedence_over_matching_rule() {
    let mut flag = FeatureFlag {
        variations: vec![
            Val::Str(s("fall")),
            Val::Str(s("off")),
            Val::Str(s("targeted")),
            Val::Str(s("ruled")),
        ],
        ..two_valued_flag("f", true)
    };
    flag.targets = vec![Target { values: vec![s("other"), s("bozo")], variation: 2 }];
    flag.rules = vec![rule_matching_everyone(3)];
    let user = LDUser::new(s("bozo"));
    let store = FeatureStore::new();
    let (value, _) = flag.evaluate(&user, &store);
    assert!(value.deep_eq(&Val::Str(s("targeted"))));
}

#[test]
fn first_matching_rule_wins() {
    let mut flag = FeatureFlag {
        variations: vec![
            Val::Str(s("fall")),
            Val::Str(s("off")),
            Val::Str(s("first")),
            Val::Str(s("second")),
        ],
        ..two_valued_flag("f", true)
    };
    flag.rules = vec![rule_matching_everyone(2), rule_matching_everyone(3)];
    let user = LDUser::new(s("bozo"));
    let store = FeatureStore::new();
    let (value, _) = flag.evaluate(&user, &store);
    assert!(value.deep_eq(&Val::Str(s("first"))));
}

#[test]
fn fallthrough_used_when_nothing_matches() {
    let mut flag = two_valued_flag("f", true);
    flag.targets = vec![Target { values: vec![s("somebody-else")], variation: 1 }];
    let user = LDUser::new(s("bozo"));
    let store = FeatureStore::new();
    let (value, _) = flag.evaluate(&user, &store);
    assert!(value.deep_eq(&Val::Str(s("fall"))));
}

#[test]
fn fallthrough_rollout_picks_by_hash() {
    // sha1("feature.abc.eve") starts the user at about 5.1% of the scale,
    // sha1("feature.abc.userKeyA") at about 62.7%.
    let mut flag = FeatureFlag { key: s("feature"), ..two_valued_flag("feature", true) };
    flag.variations = vec![Val::Str(s("low")), Val::Str(s("high"))];
    flag.offVariation = None;
    flag.fallthrough = VariationOrRollout {
        variation: None,
        rollout: Some(Rollout {
            variations: vec![
                WeightedVariation { variation: 0, weight: 50000 },
                WeightedVariation { variation: 1, weight: 50000 },
            ],
            bucketBy: None,
        }),
    };
    let store = FeatureStore::new();
    let (low, _) = flag.evaluate(&LDUser::new(s("eve")), &store);
    assert!(low.deep_eq(&Val::Str(s("low"))));
    let (high, _) = flag.evaluate(&LDUser::new(s("userKeyA")), &store);
    assert!(high.deep_eq(&Val::Str(s("high"))));
}

#[test]
fn rollout_boundary_comparison_is_strict() {
    // sha1("feature.abc.eve") buckets at about 0.0508, just past a 5%
    // first slice, so the strict comparison sends the user to the second.
    let mut flag = FeatureFlag { key: s("feature"), ..two_valued_flag("feature", true) };
    flag.variations = vec![Val::Str(s("low")), Val::Str(s("high"))];
    flag.fallthrough = VariationOrRollout {
        variation: None,
        rollout: Some(Rollout {
            variations: vec![
                WeightedVariation { variation: 0, weight: 5000 },
                WeightedVariation { variation: 1, weight: 95000 },
            ],
            bucketBy: None,
        }),
    };
    let store = FeatureStore::new();
    let (value, _) = flag.evaluate(&LDUser::new(s("eve")), &store);
    assert!(value.deep_eq(&Val::Str(s("high"))));
}

#[test]
fn under_summed_rollout_yields_no_value() {
    // sha1("rollflag.salty.bozo") buckets at about 0.829, past the summed
    // 70% of the slices, so the rollout yields no variation: an explicit
    // no-value outcome (null), not the off-variation value.
    let mut flag = FeatureFlag {
        key: s("rollflag"),
        salt: s("salty"),
        ..two_valued_flag("rollflag", true)
    };
    flag.fallthrough = VariationOrRollout {
        variation: None,
        rollout: Some(Rollout {
            variations: vec![
                WeightedVariation { variation: 0, weight: 30000 },
                WeightedVariation { variation: 1, weight: 40000 },
            ],
            bucketBy: None,
        }),
    };
    let store = FeatureStore::new();
    let (value, _) = flag.evaluate(&LDUser::new(s("bozo")), &store);
    assert!(value.deep_eq(&Val::Null));
}

#[test]
fn out_of_range_fallthrough_yields_no_value() {
    // an on flag whose resolved index misses the variations list gives
    // the explicit no-value outcome, not the off-variation value
    let mut flag = two_valued_flag("f", true);
    flag.fallthrough = VariationOrRollout { variation: Some(5), rollout: None };
    let store = FeatureStore::new();
    let (value, _) = flag.evaluate(&LDUser::new(s("bozo")), &store);
    assert!(value.deep_eq(&Val::Null));
}

#[test]
fn prerequisite_compares_indices_not_values() {
    // the prerequisite flag lands on index 1; index 0 is required; the
    // two indices hold equal values, but the comparison is by index, so
    // the prerequisite fails and the flag falls back to its off value
    let mut flag = two_valued_flag("f", true);
    flag.prerequisites = vec![Prerequisite { key: s("dep"), variation: 0 }];
    let mut dep = two_valued_flag("dep", true);
    dep.variations = vec![Val::Str(s("same")), Val::Str(s("same"))];
    dep.fallthrough = VariationOrRollout { variation: Some(1), rollout: None };
    let store = store_with(vec![dep]);
    let (value, _) = flag.evaluate(&LDUser::new(s("bozo")), &store);
    assert!(value.deep_eq(&Val::Str(s("off"))));
}

#[test]
fn object_values_round_trip_through_evaluation() {
    let object = Val::Obj(vec![
        (s("colour"), Val::Str(s("teal"))),
        (s("size"), Val::Int(3)),
    ]);
    let mut flag = two_valued_flag("f", true);
    flag.variations = vec![object.duplicate(), Val::Str(s("off"))];
    let store = FeatureStore::new();
    let (value, _) = flag.evaluate(&LDUser::new(s("bozo")), &store);
    assert!(value.deep_eq(&object));
}

#[test]
fn off_prerequisite_falls_back_to_off_variation() {
    let mut flag = two_valued_flag("f", true);
    flag.prerequisites = vec![Prerequisite { key: s("dep"), variation: 0 }];
    flag.rules = vec![rule_matching_everyone(0)];
    let dep = two_valued_flag("dep", false);
    let store = store_with(vec![dep]);
    let user = LDUser::new(s("bozo"));
    let (value, _) = flag.evaluate(&user, &store);
    assert!(value.deep_eq(&Val::Str(s("off"))));
}

#[test]
fn missing_prerequisite_falls_back_to_off_variation() {
    let mut flag = two_valued_flag("f", true);
    flag.prerequisites = vec![Prerequisite { key: s("nowhere"), variation: 0 }];
    let store = FeatureStore::new();
    let (value, _) = flag.evaluate(&LDUser::new(s("bozo")), &store);
    assert!(value.deep_eq(&Val::Str(s("off"))));
}

#[test]
fn wrong_prerequisite_variation_falls_back() {
    let mut flag = two_valued_flag("f", true);
    flag.prerequisites = vec![Prerequisite { key: s("dep"), variation: 1 }];
    let dep = two_valued_flag("dep", true);  // evaluates to variation 0
    let store = store_with(vec![dep]);
    let (value, _) = flag.evaluate(&LDUser::new(s("bozo")), &store);
    assert!(value.deep_eq(&Val::Str(s("off"))));
}

#[test]
fn satisfied_prerequisite_lets_flag_evaluate() {
    let mut flag = two_valued_flag("f", true);
    flag.prerequisites = vec![Prerequisite { key: s("dep"), variation: 0 }];
    let dep = two_valued_flag("dep", true);  // evaluates to variation 0
    let store = store_with(vec![dep]);
    let (value, _) = flag.evaluate(&LDUser::new(s("bozo")), &store);
    assert!(value.deep_eq(&Val::Str(s("fall"))));
}

#[test]
fn cyclic_prerequisites_terminate_with_off_variation() {
    let mut a = two_valued_flag("a", true);
    a.prerequisites = vec![Prerequisite { key: s("b"), variation: 0 }];
    let mut b = two_valued_flag("b", true);
    b.prerequisites = vec![Prerequisite { key: s("a"), variation: 0 }];
    let store = store_with(vec![a.clone(), b]);
    let (value, _) = a.evaluate(&LDUser::new(s("bozo")), &store);
    assert!(value.deep_eq(&Val::Str(s("off"))));
}

#[test]
fn all_flags_evaluates_mixed_set() {
    let off = FeatureFlag { key: s("offone"), ..two_valued_flag("offone", false) };
    let mut targeted = FeatureFlag {
        key: s("targeted"),
        variations: vec![Val::Str(s("fall")), Val::Str(s("off")), Val::Str(s("hit"))],
        ..two_valued_flag("targeted", true)
    };
    targeted.targets = vec![Target { values: vec![s("bozo")], variation: 2 }];
    let mut rolled = FeatureFlag {
        key: s("rollflag"),
        salt: s("salty"),
        variations: vec![Val::Str(s("first")), Val::Str(s("second"))],
        ..two_valued_flag("rollflag", true)
    };
    // sha1("rollflag.salty.bozo") buckets at about 0.829, inside a 90% slice.
    rolled.fallthrough = VariationOrRollout {
        variation: None,
        rollout: Some(Rollout {
            variations: vec![
                WeightedVariation { variation: 0, weight: 90000 },
                WeightedVariation { variation: 1, weight: 10000 },
            ],
            bucketBy: None,
        }),
    };
    let store = store_with(vec![off, targeted, rolled]);
    let user = LDUser::new(s("bozo"));
    let result = all_flags(&store, &user);
    assert_eq!(result.len(), 3);
    let find = |key: &str| -> &Val {
        &result.iter().find(|p| p.0 == key).expect("key missing").1
    };
    assert!(find("offone").deep_eq(&Val::Str(s("off"))));
    assert!(find("targeted").deep_eq(&Val::Str(s("hit"))));
    assert!(find("rollflag").deep_eq(&Val::Str(s("first"))));
}

#[test]
fn variation_returns_default_only_for_missing_flag() {
    let flag = two_valued_flag("present", false);
    let store = store_with(vec![flag]);
    let user = LDUser::new(s("bozo"));
    let present = variation(&store, &s("present"), &user, Val::Str(s("default")));
    assert!(present.deep_eq(&Val::Str(s("off"))));
    let missing = variation(&store, &s("absent"), &user, Val::Str(s("default")));
    assert!(missing.deep_eq(&Val::Str(s("default"))));
}

#[test]
fn deep_eq_compares_nested_values() {
    let a = Val::List(vec![Val::Int(1), Val::List(vec![Val::Str(s("x")), Val::Bool(true)])]);
    let b = Val::List(vec![Val::Int(1), Val::List(vec![Val::Str(s("x")), Val::Bool(true)])]);
    let c = Val::List(vec![Val::Int(1), Val::List(vec![Val::Str(s("y")), Val::Bool(true)])]);
    assert!(a.deep_eq(&b));
    assert!(!a.deep_eq(&c));
    assert!(!a.deep_eq(&Val::Int(1)));
    assert!(a.duplicate().deep_eq(&a));
}

#[test]
fn deep_eq_compares_objects() {
    let a = Val::Obj(vec![(s("k"), Val::Int(1)), (s("nested"), Val::Obj(vec![(s("x"), Val::Null)]))]);
    let b = Val::Obj(vec![(s("k"), Val::Int(1)), (s("nested"), Val::Obj(vec![(s("x"), Val::Null)]))]);
    let c = Val::Obj(vec![(s("k"), Val::Int(2)), (s("nested"), Val::Obj(vec![(s("x"), Val::Null)]))]);
    let d = Val::Obj(vec![(s("other"), Val::Int(1)), (s("nested"), Val::Obj(vec![(s("x"), Val::Null)]))]);
    assert!(a.deep_eq(&b));
    assert!(!a.deep_eq(&c));
    assert!(!a.deep_eq(&d));
    assert!(!a.deep_eq(&Val::Null));
    assert!(a.duplicate().deep_eq(&a));
}
