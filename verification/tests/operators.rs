use ldclient::Val;
use ldclient::flag::{Clause, Rollout, Rule, VariationOrRollout, WeightedVariation};
use ldclient::user::LDUser;

fn s(x: &str) -> String {
    x.to_string()
}

fn user_with_custom(attr: &str, value: Val) -> LDUser {
    let mut user = LDUser::new(s("bozo"));
    user.custom = Some(vec![(s(attr), value)]);
    user
}

fn rule_on(attr: &str, op: &str, values: Vec<Val>) -> Rule {
    Rule {
        clauses: vec![Clause { attribute: s(attr), op: s(op), values, negate: false }],
        variation: Some(0),
        rollout: None,
    }
}

fn matches(user: &LDUser, attr: &str, op: &str, values: Vec<Val>) -> bool {
    rule_on(attr, op, values).matches_user(user)
}

#[test]
fn op_in_is_structural_equality() {
    let user = user_with_custom("n", Val::Int(7));
    assert!(matches(&user, "n", "in", vec![Val::Int(7)]));
    assert!(!matches(&user, "n", "in", vec![Val::Int(8)]));
    assert!(!matches(&user, "n", "in", vec![Val::Str(s("7"))]));
    let named = LDUser::new(s("bozo")).with_name(Some(s("Bo")));
    assert!(matches(&named, "name", "in", vec![Val::Str(s("Bo"))]));
}

#[test]
fn op_starts_with_tests_prefix() {
    let user = user_with_custom("w", Val::Str(s("alphabet")));
    assert!(matches(&user, "w", "startsWith", vec![Val::Str(s("alpha"))]));
    assert!(!matches(&user, "w", "startsWith", vec![Val::Str(s("bet"))]));
}

#[test]
fn op_ends_with_tests_suffix() {
    let user = user_with_custom("w", Val::Str(s("alphabet")));
    assert!(matches(&user, "w", "endsWith", vec![Val::Str(s("bet"))]));
    assert!(!matches(&user, "w", "endsWith", vec![Val::Str(s("alpha"))]));
}

#[test]
fn op_contains_tests_substring() {
    let user = user_with_custom("w", Val::Str(s("alphabet")));
    assert!(matches(&user, "w", "contains", vec![Val::Str(s("phab"))]));
    assert!(matches(&user, "w", "contains", vec![Val::Str(s(""))]));
    assert!(!matches(&user, "w", "contains", vec![Val::Str(s("beta"))]));
}

#[test]
fn op_matches_runs_the_regex() {
    let user = user_with_custom("w", Val::Str(s("aaab")));
    assert!(matches(&user, "w", "matches", vec![Val::Str(s("^a+b$"))]));
    assert!(!matches(&user, "w", "matches", vec![Val::Str(s("^b+a$"))]));
    // an operand that does not compile as a regex matches nothing
    assert!(!matches(&user, "w", "matches", vec![Val::Str(s("("))]));
}

#[test]
fn numeric_comparisons() {
    let user = user_with_custom("n", Val::Int(5));
    assert!(matches(&user, "n", "lessThan", vec![Val::Int(6)]));
    assert!(!matches(&user, "n", "lessThan", vec![Val::Int(5)]));
    assert!(matches(&user, "n", "lessThanOrEqual", vec![Val::Int(5)]));
    assert!(matches(&user, "n", "greaterThan", vec![Val::Int(4)]));
    assert!(!matches(&user, "n", "greaterThan", vec![Val::Int(5)]));
    assert!(matches(&user, "n", "greaterThanOrEqual", vec![Val::Int(5)]));
    assert!(!matches(&user, "n", "greaterThanOrEqual", vec![Val::Int(6)]));
}

#[test]
fn chronological_comparisons_parse_both_forms() {
    let user = user_with_custom("t", Val::Str(s("2023-06-15T12:00:00Z")));
    assert!(matches(&user, "t", "before", vec![Val::Str(s("2024-01-01T00:00:00Z"))]));
    assert!(!matches(&user, "t", "before", vec![Val::Str(s("2022-01-01T00:00:00Z"))]));
    assert!(matches(&user, "t", "after", vec![Val::Str(s("2022-01-01T00:00:00Z"))]));
    // epoch milliseconds on either side
    let early = user_with_custom("t", Val::Int(1_000_000));
    assert!(matches(&early, "t", "before", vec![Val::Int(2_000_000)]));
    assert!(!matches(&early, "t", "after", vec![Val::Int(2_000_000)]));
    // 2023-06-15T12:00:00Z is 1686830400000 ms since the epoch
    assert!(matches(&user, "t", "after", vec![Val::Int(1_686_830_399_000)]));
    assert!(matches(&user, "t", "before", vec![Val::Int(1_686_830_401_000)]));
    // an unparsable date string matches nothing
    assert!(!matches(&user, "t", "before", vec![Val::Str(s("not a date"))]));
}

#[test]
fn semantic_version_comparisons_are_numeric() {
    let user = user_with_custom("v", Val::Str(s("1.2.3")));
    assert!(matches(&user, "v", "semVerEqual", vec![Val::Str(s("1.2.3"))]));
    // 1.10.0 comes after 1.2.3 numerically, though not lexicographically
    assert!(matches(&user, "v", "semVerLessThan", vec![Val::Str(s("1.10.0"))]));
    assert!(!matches(&user, "v", "semVerGreaterThan", vec![Val::Str(s("1.10.0"))]));
    assert!(matches(&user, "v", "semVerGreaterThan", vec![Val::Str(s("1.2.2"))]));
    // an unparsable version matches nothing
    assert!(!matches(&user, "v", "semVerEqual", vec![Val::Str(s("not.a.version"))]));
}

#[test]
fn unrecognized_operator_never_matches() {
    let user = user_with_custom("n", Val::Int(5));
    assert!(!matches(&user, "n", "sounds_like", vec![Val::Int(5)]));
}

#[test]
fn type_mismatch_is_a_non_match() {
    let user = user_with_custom("n", Val::Int(5));
    assert!(!matches(&user, "n", "startsWith", vec![Val::Str(s("5"))]));
    assert!(!matches(&user, "n", "lessThan", vec![Val::Str(s("6"))]));
    let w = user_with_custom("w", Val::Str(s("5")));
    assert!(!matches(&w, "w", "lessThan", vec![Val::Int(6)]));
}

#[test]
fn negate_inverts_matches_but_not_absence() {
    let user = user_with_custom("n", Val::Int(5));
    let mut rule = rule_on("n", "in", vec![Val::Int(5)]);
    rule.clauses[0].negate = true;
    assert!(!rule.matches_user(&user));
    let mut other = rule_on("n", "in", vec![Val::Int(6)]);
    other.clauses[0].negate = true;
    assert!(other.matches_user(&user));
    // an absent attribute never matches, negated or not
    let mut absent = rule_on("missing", "in", vec![Val::Int(5)]);
    absent.clauses[0].negate = true;
    assert!(!absent.matches_user(&user));
}

#[test]
fn sequence_attribute_matches_through_any_element() {
    let user = user_with_custom("groups", Val::List(vec![Val::Str(s("a")), Val::Str(s("b"))]));
    assert!(matches(&user, "groups", "in", vec![Val::Str(s("b"))]));
    assert!(!matches(&user, "groups", "in", vec![Val::Str(s("c"))]));
}

#[test]
fn object_attribute_matches_by_structural_equality() {
    let object = Val::Obj(vec![(s("plan"), Val::Str(s("pro"))), (s("seats"), Val::Int(4))]);
    let user = user_with_custom("account", object.duplicate());
    assert!(matches(&user, "account", "in", vec![object.duplicate()]));
    let other = Val::Obj(vec![(s("plan"), Val::Str(s("basic"))), (s("seats"), Val::Int(4))]);
    assert!(!matches(&user, "account", "in", vec![other]));
    // objects are opaque to every other operator
    assert!(!matches(&user, "account", "contains", vec![Val::Str(s("pro"))]));
}

#[test]
fn all_clauses_of_a_rule_must_match() {
    let mut user = LDUser::new(s("bozo"));
    user.custom = Some(vec![(s("a"), Val::Int(1)), (s("b"), Val::Int(2))]);
    let both = Rule {
        clauses: vec![
            Clause { attribute: s("a"), op: s("in"), values: vec![Val::Int(1)], negate: false },
            Clause { attribute: s("b"), op: s("in"), values: vec![Val::Int(2)], negate: false },
        ],
        variation: Some(0),
        rollout: None,
    };
    assert!(both.matches_user(&user));
    let one_wrong = Rule {
        clauses: vec![
            Clause { attribute: s("a"), op: s("in"), values: vec![Val::Int(1)], negate: false },
            Clause { attribute: s("b"), op: s("in"), values: vec![Val::Int(3)], negate: false },
        ],
        variation: Some(0),
        rollout: None,
    };
    assert!(!one_wrong.matches_user(&user));
}

#[test]
fn variation_index_prefers_fixed_over_rollout() {
    let user = LDUser::new(s("bozo"));
    let fixed = VariationOrRollout { variation: Some(3), rollout: None };
    assert_eq!(fixed.variation_index_for_user(&user, &s("f"), &s("salt")), Some(3));
    let rolled = VariationOrRollout {
        variation: None,
        rollout: Some(Rollout {
            variations: vec![WeightedVariation { variation: 7, weight: 100000 }],
            bucketBy: None,
        }),
    };
    assert_eq!(rolled.variation_index_for_user(&user, &s("f"), &s("salt")), Some(7));
    let nothing = VariationOrRollout { variation: None, rollout: None };
    assert_eq!(nothing.variation_index_for_user(&user, &s("f"), &s("salt")), None);
    let rule = rule_on("key", "in", vec![Val::Str(s("bozo"))]);
    assert_eq!(rule.variation_index_for_user(&user, &s("f"), &s("salt")), Some(0));
}
