//! The JSON-like value type that flags hand back to callers: variation
//! values, user attribute values and clause operands are all `Val`s.

use vstd::prelude::*;

verus! {

broadcast use vstd::std_specs::vec::axiom_vec_index_decreases, vstd::std_specs::vec::axiom_vec_decreases_to_view, vstd::seq::axiom_seq_index_decreases, vstd::seq::axiom_seq_subrange_decreases;

/// A JSON-like value. Numbers are held as 64-bit integers: every place the
/// evaluation engine reads a number (bucketing, timestamps, numeric
/// comparison) reads it through an integer. An object is a list of
/// key-value pairs in the order the source gave them; equality on objects
/// is pairwise, which agrees with JSON equality for objects arriving in a
/// canonical key order.
pub enum Val {
    Null,
    Bool(bool),
    Int(i64),
    Str(String),
    List(Vec<Val>),
    Obj(Vec<(String, Val)>),
}

/// The mathematical model of a `Val`: strings become character sequences,
/// machine integers become unbounded integers.
#[verifier::ext_equal]
pub enum ValS {
    Null,
    Bool(bool),
    Int(int),
    Str(Seq<char>),
    List(Seq<ValS>),
    Obj(Seq<(Seq<char>, ValS)>),
}

/// The model of one value.
pub open spec fn val_view(v: Val) -> ValS
    decreases v,
{
    match v {
        Val::Null => ValS::Null,
        Val::Bool(b) => ValS::Bool(b),
        Val::Int(n) => ValS::Int(n as int),
        Val::Str(s) => ValS::Str(s@),
        Val::List(l) => ValS::List(vals_view(l@)),
        Val::Obj(l) => ValS::Obj(vmap_view(l@)),
    }
}

/// The model of a sequence of values, elementwise.
pub open spec fn vals_view(s: Seq<Val>) -> Seq<ValS>
    decreases s,
{
    if s.len() == 0 {
        Seq::empty()
    } else {
        vals_view(s.drop_last()).push(val_view(s.last()))
    }
}

/// The model of a sequence of key-value pairs, elementwise.
pub open spec fn vmap_view(s: Seq<(String, Val)>) -> Seq<(Seq<char>, ValS)>
    decreases s,
{
    if s.len() == 0 {
        Seq::empty()
    } else {
        vmap_view(s.drop_last()).push((s.last().0@, val_view(s.last().1)))
    }
}

/// `vals_view` maps `val_view` over the sequence, element by element.
pub broadcast proof fn lemma_vals_view(s: Seq<Val>)
    ensures
        (#[trigger] vals_view(s)).len() == s.len(),
        forall|i: int| 0 <= i < s.len() ==> vals_view(s)[i] == val_view(s[i]),
    decreases s.len(),
{
    if s.len() > 0 {
        lemma_vals_view(s.drop_last());
        assert(forall|i: int| 0 <= i < s.len() - 1 ==> s.drop_last()[i] == s[i]);
    }
}

/// `vmap_view` maps the pair model over the sequence, pair by pair.
pub broadcast proof fn lemma_vmap_view(s: Seq<(String, Val)>)
    ensures
        (#[trigger] vmap_view(s)).len() == s.len(),
        forall|i: int|
            0 <= i < s.len() ==> vmap_view(s)[i] == (s[i].0@, val_view(s[i].1)),
    decreases s.len(),
{
    if s.len() > 0 {
        lemma_vmap_view(s.drop_last());
        assert(forall|i: int| 0 <= i < s.len() - 1 ==> s.drop_last()[i] == s[i]);
    }
}

impl View for Val {
    type V = ValS;

    open spec fn view(&self) -> ValS {
        val_view(*self)
    }
}

/// A structural size measure, used to prove that recursion over nested
/// values terminates.
pub open spec fn val_size(v: Val) -> nat
    decreases v,
{
    match v {
        Val::List(l) => 1 + vals_size(l@),
        Val::Obj(l) => 1 + vmap_size(l@),
        _ => 1,
    }
}

/// The summed size of a sequence of values.
pub open spec fn vals_size(s: Seq<Val>) -> nat
    decreases s,
{
    if s.len() == 0 {
        0
    } else {
        vals_size(s.drop_last()) + val_size(s.last())
    }
}

/// The summed size of a sequence of key-value pairs.
pub open spec fn vmap_size(s: Seq<(String, Val)>) -> nat
    decreases s,
{
    if s.len() == 0 {
        0
    } else {
        vmap_size(s.drop_last()) + val_size(s.last().1)
    }
}

/// Each element of a sequence weighs no more than the whole sequence.
proof fn lemma_vals_size(s: Seq<Val>)
    ensures
        forall|i: int| 0 <= i < s.len() ==> val_size(s[i]) <= vals_size(s),
    decreases s.len(),
{
    if s.len() > 0 {
        lemma_vals_size(s.drop_last());
        assert(forall|i: int| 0 <= i < s.len() - 1 ==> s.drop_last()[i] == s[i]);
    }
}

/// Each pair's value weighs no more than the whole pair sequence.
proof fn lemma_vmap_size(s: Seq<(String, Val)>)
    ensures
        forall|i: int| 0 <= i < s.len() ==> val_size(s[i].1) <= vmap_size(s),
    decreases s.len(),
{
    if s.len() > 0 {
        lemma_vmap_size(s.drop_last());
        assert(forall|i: int| 0 <= i < s.len() - 1 ==> s.drop_last()[i] == s[i]);
    }
}

impl Clone for Val {
    fn clone(&self) -> (r: Self)
        ensures
            r@ == self@,
    {
        self.duplicate()
    }
}

impl Val {
    /// Structural equality on values, the meaning of the `in` operator.
    pub fn deep_eq(&self, other: &Val) -> (r: bool)
        ensures
            r == (self@ == other@),
        decreases val_size(*self),
    {
        broadcast use lemma_vals_view, lemma_vmap_view;

        match self {
            Val::Null => match other {
                Val::Null => true,
                _ => false,
            },
            Val::Bool(a) => match other {
                Val::Bool(b) => *a == *b,
                _ => false,
            },
            Val::Int(a) => match other {
                Val::Int(b) => *a == *b,
                _ => false,
            },
            Val::Str(a) => match other {
                Val::Str(b) => *a == *b,
                _ => false,
            },
            Val::List(a) => match other {
                Val::List(b) => {
                    if a.len() != b.len() {
                        assert(vals_view(a@).len() != vals_view(b@).len());
                        false
                    } else {
                        let mut i: usize = 0;
                        let mut same = true;
                        proof {
                            lemma_vals_size(a@);
                        }
                        while i < a.len()
                            invariant
                                i <= a.len(),
                                a.len() == b.len(),
                                *self == Val::List(*a),
                                forall|j: int|
                                    0 <= j < a.len() ==> val_size(a@[j]) <= vals_size(a@),
                                same <==> (forall|j: int| 0 <= j < i ==> a[j]@ == b[j]@),
                            decreases a.len() - i,
                        {
                            if !a[i].deep_eq(&b[i]) {
                                same = false;
                            }
                            i += 1;
                        }
                        proof {
                            if same {
                                assert(vals_view(a@) =~= vals_view(b@));
                            } else {
                                let j = choose|j: int| 0 <= j < a.len() && a[j]@ != b[j]@;
                                assert(vals_view(a@)[j] != vals_view(b@)[j]);
                            }
                        }
                        same
                    }
                },
                _ => false,
            },
            Val::Obj(a) => match other {
                Val::Obj(b) => {
                    if a.len() != b.len() {
                        assert(vmap_view(a@).len() != vmap_view(b@).len());
                        false
                    } else {
                        let mut i: usize = 0;
                        let mut same = true;
                        proof {
                            lemma_vmap_size(a@);
                        }
                        while i < a.len()
                            invariant
                                i <= a.len(),
                                a.len() == b.len(),
                                *self == Val::Obj(*a),
                                forall|j: int|
                                    0 <= j < a.len() ==> val_size(a@[j].1) <= vmap_size(a@),
                                same <==> (forall|j: int|
                                    0 <= j < i ==> a[j].0@ == b[j].0@ && a[j].1@ == b[j].1@),
                            decreases a.len() - i,
                        {
                            if !(a[i].0 == b[i].0) || !a[i].1.deep_eq(&b[i].1) {
                                same = false;
                            }
                            i += 1;
                        }
                        proof {
                            if same {
                                assert(vmap_view(a@) =~= vmap_view(b@));
                            } else {
                                let j = choose|j: int|
                                    0 <= j < a.len() && !(a@[j].0@ == b@[j].0@ && a@[j].1@
                                        == b@[j].1@);
                                assert(vmap_view(a@)[j] != vmap_view(b@)[j]);
                            }
                        }
                        same
                    }
                },
                _ => false,
            },
        }
    }

    /// Clones the value; the copy models the same mathematical value.
    pub fn duplicate(&self) -> (r: Val)
        ensures
            r@ == self@,
        decreases val_size(*self),
    {
        broadcast use lemma_vals_view, lemma_vmap_view;

        match self {
            Val::Null => Val::Null,
            Val::Bool(b) => Val::Bool(*b),
            Val::Int(n) => Val::Int(*n),
            Val::Str(s) => Val::Str(s.clone()),
            Val::List(l) => {
                let mut out: Vec<Val> = Vec::new();
                let mut i: usize = 0;
                proof {
                    lemma_vals_size(l@);
                }
                while i < l.len()
                    invariant
                        i <= l.len(),
                        out.len() == i,
                        *self == Val::List(*l),
                        forall|j: int|
                            0 <= j < l.len() ==> val_size(l@[j]) <= vals_size(l@),
                        forall|j: int| 0 <= j < i ==> out[j]@ == l[j]@,
                    decreases l.len() - i,
                {
                    out.push(l[i].duplicate());
                    i += 1;
                }
                proof {
                    assert(vals_view(out@) =~= vals_view(l@));
                }
                Val::List(out)
            },
            Val::Obj(l) => {
                let mut out: Vec<(String, Val)> = Vec::new();
                let mut i: usize = 0;
                proof {
                    lemma_vmap_size(l@);
                }
                while i < l.len()
                    invariant
                        i <= l.len(),
                        out.len() == i,
                        *self == Val::Obj(*l),
                        forall|j: int|
                            0 <= j < l.len() ==> val_size(l@[j].1) <= vmap_size(l@),
                        forall|j: int|
                            0 <= j < i ==> out[j].0@ == l[j].0@ && out[j].1@ == l[j].1@,
                    decreases l.len() - i,
                {
                    let key = l[i].0.clone();
                    let value = l[i].1.duplicate();
                    out.push((key, value));
                    i += 1;
                }
                proof {
                    assert(vmap_view(out@) =~= vmap_view(l@));
                }
                Val::Obj(out)
            },
        }
    }
}

} // verus!
