//! The pure half of the client facade: single-flag lookup-and-evaluate
//! and bulk evaluation over a snapshot. Locking and the background
//! refresh task live with the host application; these functions do the
//! deciding.

use vstd::prelude::*;
use crate::value::{Val, ValS, val_view};
use crate::user::{LDUser, UserS, pairs_view};
use crate::flag::FlagS;
use crate::feature_store::{FeatureStore, store_lookup, live_entries, entries_view};
use crate::eval::evaluate_model;

verus! {

/// The value `variation` hands back: the evaluated flag, or the caller's
/// default only when the key is absent (a "no value" outcome during
/// evaluation is the flag's own off value, never the default).
pub open spec fn variation_model(
    s: Seq<(Seq<char>, FlagS)>,
    key: Seq<char>,
    u: UserS,
    default: ValS,
) -> ValS {
    match store_lookup(s, key) {
        Some(f) => evaluate_model(f, u, s),
        None => default,
    }
}

/// Looks a flag up and evaluates it for the user, handing back the
/// supplied default only when the flag is absent.
pub fn variation(store: &FeatureStore, flag_key: &String, user: &LDUser, default: Val) -> (r: Val)
    ensures
        r@ == variation_model(store@, flag_key@, user@, default@),
{
    match store.get(flag_key) {
        Some(flag) => {
            let eval_result = flag.evaluate(user, store);
            eval_result.0
        },
        None => default,
    }
}

/// The mapping `all_flags` hands back: every live flag key, paired with
/// its evaluation against the same store.
pub open spec fn all_flags_model(s: Seq<(Seq<char>, FlagS)>, u: UserS) -> Seq<
    (Seq<char>, ValS),
> {
    Seq::new(
        live_entries(s).len(),
        |i: int| (live_entries(s)[i].0, evaluate_model(live_entries(s)[i].1, u, s)),
    )
}

/// Evaluates every live flag in the store for one user.
pub fn all_flags(store: &FeatureStore, user: &LDUser) -> (r: Vec<(String, Val)>)
    ensures
        pairs_view(r@) == all_flags_model(store@, user@),
{
    let flags = store.all();
    let mut ret: Vec<(String, Val)> = Vec::new();
    let mut i: usize = 0;
    while i < flags.len()
        invariant
            i <= flags.len(),
            entries_view(flags@) == live_entries(store@),
            flags@.len() == live_entries(store@).len(),
            ret.len() == i,
            forall|j: int|
                0 <= j < i ==> ret[j].0@ == live_entries(store@)[j].0 && val_view(ret[j].1)
                    == evaluate_model(live_entries(store@)[j].1, user@, store@),
        decreases flags.len() - i,
    {
        proof {
            assert(entries_view(flags@)[i as int] == live_entries(store@)[i as int]);
        }
        let value = flags[i].1.evaluate(user, store).0;
        ret.push((flags[i].0.clone(), value));
        i += 1;
    }
    proof {
        assert(pairs_view(ret@) =~= all_flags_model(store@, user@));
    }
    ret
}

} // verus!
