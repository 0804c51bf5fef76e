//! The user a flag is evaluated for: a required key, a fixed set of
//! well-known optional attributes, and an open custom-attribute mapping.
//! Users are immutable; the `with_` builders derive new values.

use vstd::prelude::*;
use crate::value::{Val, ValS, val_view};
use crate::ops::str_eq;

verus! {

/// A user context. `key` identifies the user for targeting and bucketing;
/// `secondary` extends the bucketing input; `custom` holds free-form
/// attributes looked up by name after the well-known ones.
#[allow(non_snake_case)]
pub struct LDUser {
    pub key: String,
    pub secondary: Option<String>,
    pub ip: Option<String>,
    pub email: Option<String>,
    pub name: Option<String>,
    pub avatar: Option<String>,
    pub firstName: Option<String>,
    pub lastName: Option<String>,
    pub anonymous: Option<bool>,
    pub country: Option<String>,
    pub custom: Option<Vec<(String, Val)>>,
}

/// The mathematical model of a user.
#[verifier::ext_equal]
pub struct UserS {
    pub key: Seq<char>,
    pub secondary: Option<Seq<char>>,
    pub ip: Option<Seq<char>>,
    pub email: Option<Seq<char>>,
    pub name: Option<Seq<char>>,
    pub avatar: Option<Seq<char>>,
    pub first_name: Option<Seq<char>>,
    pub last_name: Option<Seq<char>>,
    pub anonymous: Option<bool>,
    pub country: Option<Seq<char>>,
    pub custom: Option<Seq<(Seq<char>, ValS)>>,
}

/// The model of an optional string.
pub open spec fn opt_str_view(o: Option<String>) -> Option<Seq<char>> {
    match o {
        Some(s) => Some(s@),
        None => None,
    }
}

/// The model of a custom-attribute entry list.
pub open spec fn pairs_view(v: Seq<(String, Val)>) -> Seq<(Seq<char>, ValS)> {
    Seq::new(v.len(), |i: int| (v[i].0@, val_view(v[i].1)))
}

impl View for LDUser {
    type V = UserS;

    open spec fn view(&self) -> UserS {
        UserS {
            key: self.key@,
            secondary: opt_str_view(self.secondary),
            ip: opt_str_view(self.ip),
            email: opt_str_view(self.email),
            name: opt_str_view(self.name),
            avatar: opt_str_view(self.avatar),
            first_name: opt_str_view(self.firstName),
            last_name: opt_str_view(self.lastName),
            anonymous: self.anonymous,
            country: opt_str_view(self.country),
            custom: match self.custom {
                Some(v) => Some(pairs_view(v@)),
                None => None,
            },
        }
    }
}

/// An optional string attribute as a value: absent means null.
pub open spec fn opt_attr(o: Option<Seq<char>>) -> ValS {
    match o {
        Some(s) => ValS::Str(s),
        None => ValS::Null,
    }
}

/// The first entry with the asked-for name decides a custom attribute;
/// an absent name is null.
pub open spec fn custom_lookup(entries: Seq<(Seq<char>, ValS)>, attr: Seq<char>) -> ValS
    decreases entries.len(),
{
    if entries.len() == 0 {
        ValS::Null
    } else if entries[0].0 == attr {
        entries[0].1
    } else {
        custom_lookup(entries.drop_first(), attr)
    }
}

/// The value a user carries for an attribute name: the well-known names
/// first, then the custom mapping, then null.
pub open spec fn attr_model(u: UserS, attr: Seq<char>) -> ValS {
    if attr == "key"@ {
        ValS::Str(u.key)
    } else if attr == "secondary"@ {
        opt_attr(u.secondary)
    } else if attr == "ip"@ {
        opt_attr(u.ip)
    } else if attr == "email"@ {
        opt_attr(u.email)
    } else if attr == "name"@ {
        opt_attr(u.name)
    } else if attr == "avatar"@ {
        opt_attr(u.avatar)
    } else if attr == "firstName"@ {
        opt_attr(u.first_name)
    } else if attr == "lastName"@ {
        opt_attr(u.last_name)
    } else if attr == "anonymous"@ {
        match u.anonymous {
            Some(b) => ValS::Bool(b),
            None => ValS::Null,
        }
    } else if attr == "country"@ {
        opt_attr(u.country)
    } else {
        match u.custom {
            Some(entries) => custom_lookup(entries, attr),
            None => ValS::Null,
        }
    }
}

/// Clones an optional string.
fn clone_opt_string(o: &Option<String>) -> (r: Option<String>)
    ensures
        r == *o,
{
    match o {
        Some(s) => Some(s.clone()),
        None => None,
    }
}

/// Clones the custom-attribute entries; the copy models the same mapping.
fn clone_custom(o: &Option<Vec<(String, Val)>>) -> (r: Option<Vec<(String, Val)>>)
    ensures
        (match r {
            Some(v) => match o {
                Some(w) => pairs_view(v@) == pairs_view(w@),
                None => false,
            },
            None => o is None,
        }),
{
    match o {
        Some(entries) => {
            let mut out: Vec<(String, Val)> = Vec::new();
            let mut i: usize = 0;
            while i < entries.len()
                invariant
                    i <= entries.len(),
                    out.len() == i,
                    forall|j: int|
                        0 <= j < i ==> out[j].0@ == entries[j].0@ && val_view(out[j].1)
                            == val_view(entries[j].1),
                decreases entries.len() - i,
            {
                let name = entries[i].0.clone();
                let value = entries[i].1.duplicate();
                out.push((name, value));
                i += 1;
            }
            proof {
                assert(pairs_view(out@) =~= pairs_view(entries@));
            }
            Some(out)
        },
        None => None,
    }
}

impl LDUser {
    /// A user with the given key and nothing else set.
    pub fn new(key: String) -> (r: LDUser)
        ensures
            r@ == (UserS {
                key: key@,
                secondary: None,
                ip: None,
                email: None,
                name: None,
                avatar: None,
                first_name: None,
                last_name: None,
                anonymous: None,
                country: None,
                custom: None,
            }),
    {
        LDUser {
            key,
            secondary: None,
            ip: None,
            email: None,
            name: None,
            avatar: None,
            firstName: None,
            lastName: None,
            anonymous: None,
            country: None,
            custom: None,
        }
    }

    /// The same user with the email attribute replaced.
    pub fn with_email(&self, value: Option<String>) -> (r: LDUser)
        ensures
            r@ == (UserS { email: opt_str_view(value), ..self@ }),
    {
        let r = LDUser {
            key: self.key.clone(),
            secondary: clone_opt_string(&self.secondary),
            ip: clone_opt_string(&self.ip),
            email: value,
            name: clone_opt_string(&self.name),
            avatar: clone_opt_string(&self.avatar),
            firstName: clone_opt_string(&self.firstName),
            lastName: clone_opt_string(&self.lastName),
            anonymous: self.anonymous,
            country: clone_opt_string(&self.country),
            custom: clone_custom(&self.custom),
        };
        proof {
            assert(r@ =~= (UserS { email: opt_str_view(value), ..self@ }));
        }
        r
    }

    /// The same user with the name attribute replaced.
    pub fn with_name(&self, value: Option<String>) -> (r: LDUser)
        ensures
            r@ == (UserS { name: opt_str_view(value), ..self@ }),
    {
        let r = LDUser {
            key: self.key.clone(),
            secondary: clone_opt_string(&self.secondary),
            ip: clone_opt_string(&self.ip),
            email: clone_opt_string(&self.email),
            name: value,
            avatar: clone_opt_string(&self.avatar),
            firstName: clone_opt_string(&self.firstName),
            lastName: clone_opt_string(&self.lastName),
            anonymous: self.anonymous,
            country: clone_opt_string(&self.country),
            custom: clone_custom(&self.custom),
        };
        proof {
            assert(r@ =~= (UserS { name: opt_str_view(value), ..self@ }));
        }
        r
    }

    /// The value this user carries for an attribute name, the way clause
    /// matching and bucketing read it.
    pub fn get_value_for_evaluation(&self, attr: &String) -> (r: Val)
        ensures
            r@ == attr_model(self@, attr@),
    {
        let a = attr.as_str();
        if str_eq(a, "key") {
            Val::Str(self.key.clone())
        } else if str_eq(a, "secondary") {
            opt_string_val(&self.secondary)
        } else if str_eq(a, "ip") {
            opt_string_val(&self.ip)
        } else if str_eq(a, "email") {
            opt_string_val(&self.email)
        } else if str_eq(a, "name") {
            opt_string_val(&self.name)
        } else if str_eq(a, "avatar") {
            opt_string_val(&self.avatar)
        } else if str_eq(a, "firstName") {
            opt_string_val(&self.firstName)
        } else if str_eq(a, "lastName") {
            opt_string_val(&self.lastName)
        } else if str_eq(a, "anonymous") {
            match self.anonymous {
                Some(b) => Val::Bool(b),
                None => Val::Null,
            }
        } else if str_eq(a, "country") {
            opt_string_val(&self.country)
        } else {
            match &self.custom {
                Some(entries) => {
                    let mut i: usize = 0;
                    proof {
                        assert(pairs_view(entries@).subrange(0, entries@.len() as int)
                            =~= pairs_view(entries@));
                    }
                    while i < entries.len()
                        invariant
                            i <= entries.len(),
                            a@ == attr@,
                            attr_model(self@, attr@) == custom_lookup(
                                pairs_view(entries@),
                                attr@,
                            ),
                            custom_lookup(pairs_view(entries@), attr@) == custom_lookup(
                                pairs_view(entries@).subrange(i as int, entries@.len() as int),
                                attr@,
                            ),
                        decreases entries.len() - i,
                    {
                        if str_eq(entries[i].0.as_str(), a) {
                            proof {
                                let rest = pairs_view(entries@).subrange(
                                    i as int,
                                    entries@.len() as int,
                                );
                                assert(rest[0] == pairs_view(entries@)[i as int]);
                                assert(custom_lookup(rest, attr@) == rest[0].1);
                            }
                            return entries[i].1.duplicate();
                        }
                        proof {
                            let rest = pairs_view(entries@).subrange(
                                i as int,
                                entries@.len() as int,
                            );
                            assert(rest[0] == pairs_view(entries@)[i as int]);
                            assert(rest.drop_first() =~= pairs_view(entries@).subrange(
                                i + 1,
                                entries@.len() as int,
                            ));
                            assert(custom_lookup(rest, attr@) == custom_lookup(
                                rest.drop_first(),
                                attr@,
                            ));
                        }
                        i += 1;
                    }
                    Val::Null
                },
                None => Val::Null,
            }
        }
    }
}

/// An optional string attribute as a value.
fn opt_string_val(o: &Option<String>) -> (r: Val)
    ensures
        r@ == opt_attr(opt_str_view(*o)),
{
    match o {
        Some(s) => Val::Str(s.clone()),
        None => Val::Null,
    }
}

} // verus!
