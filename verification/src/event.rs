//! Analytics events. The evaluation engine carries a list of these for
//! prerequisite evaluations; the pipeline that would consume them is a
//! no-op collaborator, so the list stays empty.

use vstd::prelude::*;
use crate::user::LDUser;
use crate::value::Val;

verus! {

/// One record of a flag having been evaluated for a user.
#[allow(non_snake_case)]
pub struct FeatureRequestEvent {
    pub creationDate: u64,
    pub key: String,
    pub kind: String,
    pub user: LDUser,
    pub value: Val,
    pub default: Option<Val>,
    pub version: Option<u32>,
    pub prereqOf: String,
}

} // verus!
