//! The in-memory flag repository: bulk replacement, single-key lookup with
//! tombstone filtering, and a full snapshot of the live flags.

use vstd::prelude::*;
use crate::flag::{FeatureFlag, FlagS};
use crate::ops::str_eq;

verus! {

/// The model of the store's entries.
pub open spec fn entries_view(v: Seq<(String, FeatureFlag)>) -> Seq<(Seq<char>, FlagS)> {
    Seq::new(v.len(), |i: int| (v[i].0@, v[i].1@))
}

/// The flag a key names: the first entry carrying the key decides, and a
/// tombstoned flag is absent.
pub open spec fn store_lookup(s: Seq<(Seq<char>, FlagS)>, key: Seq<char>) -> Option<FlagS>
    decreases s.len(),
{
    if s.len() == 0 {
        None
    } else if s[0].0 == key {
        if s[0].1.deleted {
            None
        } else {
            Some(s[0].1)
        }
    } else {
        store_lookup(s.drop_first(), key)
    }
}

/// The entries that a snapshot keeps: everything not tombstoned, in order.
pub open spec fn live_entries(s: Seq<(Seq<char>, FlagS)>) -> Seq<(Seq<char>, FlagS)>
    decreases s.len(),
{
    if s.len() == 0 {
        Seq::empty()
    } else if s.last().1.deleted {
        live_entries(s.drop_last())
    } else {
        live_entries(s.drop_last()).push(s.last())
    }
}

/// The flag cache: an association list from flag key to definition, fully
/// replaced on each refresh.
pub struct FeatureStore {
    items: Vec<(String, FeatureFlag)>,
}

impl View for FeatureStore {
    type V = Seq<(Seq<char>, FlagS)>;

    closed spec fn view(&self) -> Seq<(Seq<char>, FlagS)> {
        entries_view(self.items@)
    }
}

impl FeatureStore {
    /// An empty store.
    pub fn new() -> (r: FeatureStore)
        ensures
            r@ == Seq::<(Seq<char>, FlagS)>::empty(),
    {
        let r = FeatureStore { items: Vec::new() };
        proof {
            assert(r@ =~= Seq::<(Seq<char>, FlagS)>::empty());
        }
        r
    }

    /// How many entries the store holds, tombstoned ones counted.
    pub fn len(&self) -> (n: usize)
        ensures
            n == self@.len(),
    {
        self.items.len()
    }

    /// The flag stored under `key`, absent when the key is unknown or the
    /// flag is tombstoned.
    pub fn get(&self, key: &String) -> (r: Option<FeatureFlag>)
        ensures
            (match r {
                Some(f) => store_lookup(self@, key@) == Some(f@),
                None => store_lookup(self@, key@) is None,
            }),
    {
        let mut i: usize = 0;
        proof {
            assert(self@.subrange(0, self@.len() as int) =~= self@);
        }
        while i < self.items.len()
            invariant
                i <= self.items.len(),
                self@ == entries_view(self.items@),
                store_lookup(self@, key@) == store_lookup(
                    self@.subrange(i as int, self@.len() as int),
                    key@,
                ),
            decreases self.items.len() - i,
        {
            proof {
                let rest = self@.subrange(i as int, self@.len() as int);
                assert(rest[0] == self@[i as int]);
                assert(rest.drop_first() =~= self@.subrange(i + 1, self@.len() as int));
            }
            if str_eq(self.items[i].0.as_str(), key.as_str()) {
                if self.items[i].1.deleted {
                    return None;
                }
                return Some(self.items[i].1.clone());
            }
            i += 1;
        }
        None
    }

    /// A snapshot of every live (non-tombstoned) entry, each one an
    /// independent copy.
    pub fn all(&self) -> (r: Vec<(String, FeatureFlag)>)
        ensures
            entries_view(r@) == live_entries(self@),
    {
        let mut out: Vec<(String, FeatureFlag)> = Vec::new();
        let mut i: usize = 0;
        proof {
            assert(entries_view(out@) =~= live_entries(self@.subrange(0, 0)));
        }
        while i < self.items.len()
            invariant
                i <= self.items.len(),
                self@ == entries_view(self.items@),
                entries_view(out@) == live_entries(self@.subrange(0, i as int)),
            decreases self.items.len() - i,
        {
            proof {
                let pre = self@.subrange(0, i + 1);
                assert(pre.drop_last() =~= self@.subrange(0, i as int));
                assert(pre.last() == self@[i as int]);
            }
            if !self.items[i].1.deleted {
                let ghost old_out = out@;
                out.push((self.items[i].0.clone(), self.items[i].1.clone()));
                proof {
                    assert(entries_view(out@) =~= entries_view(old_out).push(
                        (self.items@[i as int].0@, self.items@[i as int].1@),
                    ));
                }
            }
            i += 1;
        }
        proof {
            assert(self@.subrange(0, self@.len() as int) =~= self@);
        }
        out
    }

    /// Replaces the whole contents with copies of the given entries.
    pub fn init(&mut self, flags: &Vec<(String, FeatureFlag)>)
        ensures
            final(self)@ == entries_view(flags@),
    {
        let mut items: Vec<(String, FeatureFlag)> = Vec::new();
        let mut i: usize = 0;
        while i < flags.len()
            invariant
                i <= flags.len(),
                items.len() == i,
                forall|j: int|
                    0 <= j < i ==> items[j].0@ == flags[j].0@ && items[j].1@ == flags[j].1@,
            decreases flags.len() - i,
        {
            items.push((flags[i].0.clone(), flags[i].1.clone()));
            i += 1;
        }
        self.items = items;
        proof {
            assert(entries_view(self.items@) =~= entries_view(flags@));
        }
    }
}

} // verus!
