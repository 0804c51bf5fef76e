use ldclient::Val;
use ldclient::bucket::bucket_user;
use ldclient::client::all_flags;
use ldclient::feature_store::FeatureStore;
use ldclient::flag::{FeatureFlag, Rollout, VariationOrRollout, WeightedVariation};
use ldclient::polling::poll_step;
use ldclient::user::LDUser;

fn s(x: &str) -> String {
    x.to_string()
}

fn plain_flag(key: &str, on: bool, deleted: bool) -> FeatureFlag {
    FeatureFlag {
        key: s(key),
        version: 3,
        on,
        prerequisites: vec![],
        salt: s("abc"),
        targets: vec![],
        rules: vec![],
        fallthrough: VariationOrRollout { variation: Some(0), rollout: None },
        offVariation: Some(1),
        variations: vec![Val::Str(s("fall")), Val::Str(s("off"))],
        deleted,
    }
}

fn entries(flags: Vec<FeatureFlag>) -> Vec<(String, FeatureFlag)> {
    flags.into_iter().map(|f| (f.key.clone(), f)).collect()
}

#[test]
fn round_trip_replace_and_get() {
    let mut store = FeatureStore::new();
    store.init(&entries(vec![plain_flag("one", true, false), plain_flag("two", false, false)]));
    let got = store.get(&s("one")).expect("stored flag should be present");
    assert_eq!(got.key, "one");
    assert_eq!(got.version, 3);
    assert!(got.on);
    assert_eq!(got.variations.len(), 2);
    assert!(got.variations[0].deep_eq(&Val::Str(s("fall"))));
    // a second replacement omitting a key makes it absent
    store.init(&entries(vec![plain_flag("two", false, false)]));
    assert!(store.get(&s("one")).is_none());
    assert!(store.get(&s("two")).is_some());
}

#[test]
fn tombstoned_flag_invisible_to_get_and_all() {
    let mut store = FeatureStore::new();
    store.init(&entries(vec![plain_flag("live", true, false), plain_flag("gone", true, true)]));
    assert!(store.get(&s("gone")).is_none());
    assert!(store.get(&s("live")).is_some());
    let snapshot = store.all();
    assert_eq!(snapshot.len(), 1);
    assert_eq!(snapshot[0].0, "live");
    let evaluated = all_flags(&store, &LDUser::new(s("bozo")));
    assert_eq!(evaluated.len(), 1);
    assert_eq!(evaluated[0].0, "live");
}

#[test]
fn empty_store_has_nothing() {
    let store = FeatureStore::new();
    assert_eq!(store.len(), 0);
    assert!(store.get(&s("anything")).is_none());
    assert!(store.all().is_empty());
}

#[test]
fn user_builders_derive_new_values() {
    let user = LDUser::new(s("bozo"));
    assert!(user.email.is_none());
    let with_mail = user.with_email(Some(s("test@example.com")));
    assert!(user.email.is_none());
    assert_eq!(with_mail.email.as_deref(), Some("test@example.com"));
    assert_eq!(with_mail.key, "bozo");
    let renamed = with_mail.with_name(Some(s("Bozo T. Clown")));
    assert_eq!(renamed.email.as_deref(), Some("test@example.com"));
    assert_eq!(renamed.name.as_deref(), Some("Bozo T. Clown"));
}

#[test]
fn attribute_lookup_covers_builtins_custom_and_absent() {
    let mut user = LDUser::new(s("bozo"));
    user.anonymous = Some(true);
    user.country = Some(s("FR"));
    user.custom = Some(vec![(s("plan"), Val::Str(s("pro"))), (s("seats"), Val::Int(4))]);
    assert!(user.get_value_for_evaluation(&s("key")).deep_eq(&Val::Str(s("bozo"))));
    assert!(user.get_value_for_evaluation(&s("anonymous")).deep_eq(&Val::Bool(true)));
    assert!(user.get_value_for_evaluation(&s("country")).deep_eq(&Val::Str(s("FR"))));
    assert!(user.get_value_for_evaluation(&s("email")).deep_eq(&Val::Null));
    assert!(user.get_value_for_evaluation(&s("plan")).deep_eq(&Val::Str(s("pro"))));
    assert!(user.get_value_for_evaluation(&s("seats")).deep_eq(&Val::Int(4)));
    assert!(user.get_value_for_evaluation(&s("nope")).deep_eq(&Val::Null));
}

#[test]
fn bucketing_is_deterministic() {
    let user = LDUser::new(s("userKeyA"));
    let a = bucket_user(&user, &s("feature"), &s("key"), &s("abc"));
    let b = bucket_user(&user, &s("feature"), &s("key"), &s("abc"));
    assert_eq!(a, b);
    let other_salt = bucket_user(&user, &s("feature"), &s("key"), &s("zzz"));
    let other_salt_again = bucket_user(&user, &s("feature"), &s("key"), &s("zzz"));
    assert_eq!(other_salt, other_salt_again);
    assert_ne!(a, other_salt);
}

#[test]
fn bucket_matches_known_digest() {
    // sha1("feature.abc.userKeyA") = a09d836053d8e47a35..., whose first
    // fifteen hex digits are 0xa09d836053d8e47.
    let user = LDUser::new(s("userKeyA"));
    let h = bucket_user(&user, &s("feature"), &s("key"), &s("abc"));
    assert_eq!(h, 0xa09d836053d8e47);
}

#[test]
fn secondary_key_changes_the_bucket() {
    let plain = LDUser::new(s("userKeyA"));
    let mut with_secondary = LDUser::new(s("userKeyA"));
    with_secondary.secondary = Some(s("mysecondary"));
    let a = bucket_user(&plain, &s("feature"), &s("key"), &s("abc"));
    let b = bucket_user(&with_secondary, &s("feature"), &s("key"), &s("abc"));
    assert_ne!(a, b);
}

#[test]
fn numeric_attribute_buckets_like_its_decimal_string() {
    let mut number = LDUser::new(s("u1"));
    number.custom = Some(vec![(s("group"), Val::Int(42))]);
    let mut text = LDUser::new(s("u2"));
    text.custom = Some(vec![(s("group"), Val::Str(s("42")))]);
    let a = bucket_user(&number, &s("f"), &s("group"), &s("s"));
    let b = bucket_user(&text, &s("f"), &s("group"), &s("s"));
    assert_eq!(a, b);
    assert_ne!(a, 0);
    let mut negative = LDUser::new(s("u3"));
    negative.custom = Some(vec![(s("group"), Val::Int(-70))]);
    let mut negative_text = LDUser::new(s("u4"));
    negative_text.custom = Some(vec![(s("group"), Val::Str(s("-70")))]);
    let c = bucket_user(&negative, &s("f"), &s("group"), &s("s"));
    let d = bucket_user(&negative_text, &s("f"), &s("group"), &s("s"));
    assert_eq!(c, d);
    assert_ne!(c, 0);
}

#[test]
fn unbucketable_attribute_lands_at_zero() {
    let mut user = LDUser::new(s("u1"));
    user.custom = Some(vec![(s("flag"), Val::Bool(true))]);
    assert_eq!(bucket_user(&user, &s("f"), &s("flag"), &s("s")), 0);
    assert_eq!(bucket_user(&user, &s("f"), &s("missing"), &s("s")), 0);
}

#[test]
fn custom_bucket_by_drives_the_rollout() {
    let mut flag = plain_flag("f", true, false);
    flag.variations = vec![Val::Str(s("first")), Val::Str(s("second"))];
    flag.fallthrough = VariationOrRollout {
        variation: None,
        rollout: Some(Rollout {
            variations: vec![WeightedVariation { variation: 1, weight: 100000 }],
            bucketBy: Some(s("group")),
        }),
    };
    let mut user = LDUser::new(s("bozo"));
    user.custom = Some(vec![(s("group"), Val::Str(s("blue")))]);
    let store = FeatureStore::new();
    let (value, _) = flag.evaluate(&user, &store);
    assert!(value.deep_eq(&Val::Str(s("second"))));
}

#[test]
fn poll_step_signals_ready_exactly_once() {
    let failed = poll_step(false, false);
    assert!(!failed.install && !failed.signal_ready && !failed.ready_after);
    let first_success = poll_step(failed.ready_after, true);
    assert!(first_success.install && first_success.signal_ready && first_success.ready_after);
    let second_success = poll_step(first_success.ready_after, true);
    assert!(second_success.install && !second_success.signal_ready && second_success.ready_after);
    let later_failure = poll_step(second_success.ready_after, false);
    assert!(!later_failure.install && !later_failure.signal_ready && later_failure.ready_after);
}
