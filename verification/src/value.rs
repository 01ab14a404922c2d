//! The generic tree value that the textual codec produces and consumes, its
//! mathematical model, and the small algebra of ordered-key mappings (lookup,
//! and the split of a mapping into schema-known fields and leftover extras)
//! on which every document node's decoder is built.
use vstd::prelude::*;

verus! {

/// One node of the textual tree: null, boolean, number, string, sequence, or
/// ordered-key mapping. A number is held as its decimal literal so that no
/// precision is lost in transit.
#[derive(Debug, PartialEq)]
pub enum Any {
    Null,
    Bool(bool),
    Num(String),
    Str(String),
    Arr(Vec<Any>),
    Obj(Vec<(String, Any)>),
}

/// The mathematical model of a [`Any`]: the same tree over `Seq<char>` and
/// `Seq`, which contracts and proofs speak of.
#[verifier::ext_equal]
pub ghost enum Val {
    Null,
    Bool(bool),
    Num(Seq<char>),
    Str(Seq<char>),
    Arr(Seq<Val>),
    Obj(Seq<(Seq<char>, Val)>),
}

/// The models of a sequence of values, elementwise.
pub open spec fn seq_view(s: Seq<Any>) -> Seq<Val>
    decreases s,
{
    if s.len() == 0 {
        Seq::empty()
    } else {
        seq![s[0]@] + seq_view(s.drop_first())
    }
}

/// The models of a mapping's entries, elementwise.
pub open spec fn entries_view(s: Seq<(String, Any)>) -> Seq<(Seq<char>, Val)>
    decreases s,
{
    if s.len() == 0 {
        Seq::empty()
    } else {
        seq![(s[0].0@, s[0].1@)] + entries_view(s.drop_first())
    }
}

impl View for Any {
    type V = Val;

    open spec fn view(&self) -> Val
        decreases self,
    {
        match self {
            Any::Null => Val::Null,
            Any::Bool(b) => Val::Bool(*b),
            Any::Num(s) => Val::Num(s@),
            Any::Str(s) => Val::Str(s@),
            Any::Arr(a) => Val::Arr(seq_view(a@)),
            Any::Obj(o) => Val::Obj(entries_view(o@)),
        }
    }
}

pub broadcast proof fn lemma_seq_view(s: Seq<Any>)
    ensures
        #[trigger] seq_view(s).len() == s.len(),
        forall|i: int| 0 <= i < s.len() ==> seq_view(s)[i] == s[i]@,
    decreases s,
{
    if s.len() > 0 {
        lemma_seq_view(s.drop_first());
        assert(seq_view(s) == seq![s[0]@] + seq_view(s.drop_first()));
        assert forall|i: int| 0 <= i < s.len() implies seq_view(s)[i] == s[i]@ by {
            if i > 0 {
                assert(seq_view(s)[i] == seq_view(s.drop_first())[i - 1]);
                assert(s.drop_first()[i - 1] == s[i]);
            }
        }
    }
}

pub broadcast proof fn lemma_entries_view(s: Seq<(String, Any)>)
    ensures
        #[trigger] entries_view(s).len() == s.len(),
        forall|i: int|
            0 <= i < s.len() ==> entries_view(s)[i] == (s[i].0@, s[i].1@),
    decreases s,
{
    if s.len() > 0 {
        lemma_entries_view(s.drop_first());
        assert(entries_view(s) == seq![(s[0].0@, s[0].1@)] + entries_view(s.drop_first()));
        assert forall|i: int|
            0 <= i < s.len() implies entries_view(s)[i] == (s[i].0@, s[i].1@) by {
            if i > 0 {
                assert(entries_view(s)[i] == entries_view(s.drop_first())[i - 1]);
                assert(s.drop_first()[i - 1] == s[i]);
            }
        }
    }
}

/// The value under the first entry named `k`, if any: later entries under the
/// same name never shadow an earlier one.
pub open spec fn lookup(o: Seq<(Seq<char>, Val)>, k: Seq<char>) -> Option<Val>
    decreases o.len(),
{
    if o.len() == 0 {
        None
    } else if o[0].0 == k {
        Some(o[0].1)
    } else {
        lookup(o.drop_first(), k)
    }
}

pub proof fn lemma_lookup_push(o: Seq<(Seq<char>, Val)>, x: (Seq<char>, Val), k: Seq<char>)
    ensures
        lookup(o.push(x), k) == (if lookup(o, k) is Some {
            lookup(o, k)
        } else if x.0 == k {
            Some(x.1)
        } else {
            None::<Val>
        }),
    decreases o.len(),
{
    if o.len() == 0 {
        assert(o.push(x)[0] == x);
    } else {
        assert(o.push(x).drop_first() =~= o.drop_first().push(x));
        lemma_lookup_push(o.drop_first(), x, k);
    }
}

/// The entries whose names fall outside the known set, in their original
/// order: what an extensible record keeps as its extras.
pub open spec fn sift(o: Seq<(Seq<char>, Val)>, known: Seq<Seq<char>>) -> Seq<(Seq<char>, Val)>
    decreases o.len(),
{
    if o.len() == 0 {
        Seq::empty()
    } else if known.contains(o.last().0) {
        sift(o.drop_last(), known)
    } else {
        sift(o.drop_last(), known).push(o.last())
    }
}

pub proof fn lemma_sift_push(o: Seq<(Seq<char>, Val)>, known: Seq<Seq<char>>, x: (Seq<char>, Val))
    ensures
        sift(o.push(x), known) == (if known.contains(x.0) {
            sift(o, known)
        } else {
            sift(o, known).push(x)
        }),
{
    assert(o.push(x).drop_last() =~= o);
    assert(o.push(x).last() == x);
}

/// Every kept entry comes from the mapping, bears an unknown name, and every
/// entry with an unknown name is kept.
pub proof fn lemma_sift_members(o: Seq<(Seq<char>, Val)>, known: Seq<Seq<char>>)
    ensures
        forall|i: int|
            0 <= i < sift(o, known).len() ==> !known.contains(#[trigger] sift(o, known)[i].0)
                && o.contains(sift(o, known)[i]),
        forall|i: int|
            0 <= i < o.len() && !known.contains(#[trigger] o[i].0) ==> sift(o, known).contains(
                o[i],
            ),
    decreases o.len(),
{
    if o.len() > 0 {
        lemma_sift_members(o.drop_last(), known);
        assert forall|i: int|
            0 <= i < sift(o, known).len() implies !known.contains(
            #[trigger] sift(o, known)[i].0,
        ) && o.contains(sift(o, known)[i]) by {
            let s = sift(o, known);
            let sd = sift(o.drop_last(), known);
            if i < sd.len() {
                assert(s[i] == sd[i]);
                let j = choose|j: int| 0 <= j < o.drop_last().len() && o.drop_last()[j] == sd[i];
                assert(o[j] == sd[i]);
            } else {
                assert(s[i] == o.last());
                assert(o[o.len() - 1] == o.last());
            }
        }
        assert forall|i: int|
            0 <= i < o.len() && !known.contains(#[trigger] o[i].0) implies sift(
            o,
            known,
        ).contains(o[i]) by {
            let sd = sift(o.drop_last(), known);
            if i < o.len() - 1 {
                assert(o.drop_last()[i] == o[i]);
                assert(sd.contains(o[i]));
                let j = choose|j: int| 0 <= j < sd.len() && sd[j] == o[i];
                if known.contains(o.last().0) {
                    assert(sift(o, known)[j] == o[i]);
                } else {
                    assert(sift(o, known)[j] == o[i]);
                }
            } else {
                assert(o[i] == o.last());
                assert(sift(o, known).last() == o.last());
            }
        }
    }
}

pub proof fn lemma_lookup_single(x: (Seq<char>, Val), k: Seq<char>)
    ensures
        lookup(seq![x], k) == (if x.0 == k {
            Some(x.1)
        } else {
            None::<Val>
        }),
{
    reveal_with_fuel(lookup, 2);
    assert(seq![x][0] == x);
    assert(seq![x].drop_first() =~= Seq::<(Seq<char>, Val)>::empty());
}

pub proof fn lemma_lookup_concat(a: Seq<(Seq<char>, Val)>, b: Seq<(Seq<char>, Val)>, k: Seq<char>)
    ensures
        lookup(a + b, k) == (if lookup(a, k) is Some {
            lookup(a, k)
        } else {
            lookup(b, k)
        }),
    decreases a.len(),
{
    if a.len() == 0 {
        assert(a + b =~= b);
    } else {
        assert((a + b)[0] == a[0]);
        assert((a + b).drop_first() =~= a.drop_first() + b);
        lemma_lookup_concat(a.drop_first(), b, k);
    }
}

pub proof fn lemma_sift_concat(
    a: Seq<(Seq<char>, Val)>,
    b: Seq<(Seq<char>, Val)>,
    ks: Seq<Seq<char>>,
)
    ensures
        sift(a + b, ks) == sift(a, ks) + sift(b, ks),
    decreases b.len(),
{
    if b.len() == 0 {
        assert(a + b =~= a);
        assert(sift(a, ks) + sift(b, ks) =~= sift(a, ks));
    } else {
        assert((a + b).drop_last() =~= a + b.drop_last());
        assert((a + b).last() == b.last());
        lemma_sift_concat(a, b.drop_last(), ks);
        if !ks.contains(b.last().0) {
            assert(sift(a, ks) + sift(b.drop_last(), ks).push(b.last()) =~= (sift(a, ks) + sift(
                b.drop_last(),
                ks,
            )).push(b.last()));
        }
    }
}

/// A mapping all of whose names are known leaves no extras.
pub proof fn lemma_sift_all_known(o: Seq<(Seq<char>, Val)>, ks: Seq<Seq<char>>)
    requires
        forall|i: int| 0 <= i < o.len() ==> ks.contains(#[trigger] o[i].0),
    ensures
        sift(o, ks) == Seq::<(Seq<char>, Val)>::empty(),
    decreases o.len(),
{
    if o.len() > 0 {
        assert(o[o.len() - 1] == o.last());
        assert forall|i: int| 0 <= i < o.drop_last().len() implies ks.contains(
            #[trigger] o.drop_last()[i].0,
        ) by {
            assert(o.drop_last()[i] == o[i]);
        }
        lemma_sift_all_known(o.drop_last(), ks);
    }
}

/// A mapping none of whose names are known is kept whole as extras.
pub proof fn lemma_sift_none_known(o: Seq<(Seq<char>, Val)>, ks: Seq<Seq<char>>)
    requires
        forall|i: int| 0 <= i < o.len() ==> !ks.contains(#[trigger] o[i].0),
    ensures
        sift(o, ks) == o,
    decreases o.len(),
{
    if o.len() > 0 {
        assert(o[o.len() - 1] == o.last());
        assert forall|i: int| 0 <= i < o.drop_last().len() implies !ks.contains(
            #[trigger] o.drop_last()[i].0,
        ) by {
            assert(o.drop_last()[i] == o[i]);
        }
        lemma_sift_none_known(o.drop_last(), ks);
        assert(sift(o.drop_last(), ks).push(o.last()) =~= o);
    }
}

/// Sifting away known names leaves every unknown name's first match where
/// it was.
pub proof fn lemma_lookup_sift(o: Seq<(Seq<char>, Val)>, ks: Seq<Seq<char>>, k: Seq<char>)
    requires
        !ks.contains(k),
    ensures
        lookup(sift(o, ks), k) == lookup(o, k),
    decreases o.len(),
{
    if o.len() > 0 {
        let o2 = o.drop_last();
        let x = o.last();
        assert(o =~= o2.push(x));
        lemma_lookup_sift(o2, ks, k);
        lemma_lookup_push(o2, x, k);
        if !ks.contains(x.0) {
            lemma_lookup_push(sift(o2, ks), x, k);
        }
    }
}

/// A name that no entry bears is not found.
pub proof fn lemma_lookup_absent(o: Seq<(Seq<char>, Val)>, k: Seq<char>)
    requires
        forall|i: int| 0 <= i < o.len() ==> (#[trigger] o[i].0) != k,
    ensures
        lookup(o, k) is None,
    decreases o.len(),
{
    if o.len() > 0 {
        assert forall|i: int| 0 <= i < o.drop_first().len() implies (#[trigger] o.drop_first()[i].0)
            != k by {
            assert(o.drop_first()[i] == o[i + 1]);
        }
        lemma_lookup_absent(o.drop_first(), k);
    }
}

impl Any {
    /// An equal, independently owned copy of this value.
    #[verifier::loop_isolation(false)]
    pub fn duplicate(&self) -> (r: Any)
        ensures
            r@ == self@,
        decreases self,
    {
        match self {
            Any::Null => Any::Null,
            Any::Bool(b) => Any::Bool(*b),
            Any::Num(s) => Any::Num(s.clone()),
            Any::Str(s) => Any::Str(s.clone()),
            Any::Arr(a) => {
                let n = a.len();
                let mut out: Vec<Any> = Vec::new();
                let mut i: usize = 0;
                while i < n
                    invariant
                        0 <= i <= n,
                        n == a.len(),
                        out.len() == i,
                        forall|t: int| 0 <= t < i ==> #[trigger] out[t]@ == a[t]@,
                    decreases n - i,
                {
                    out.push(a[i].duplicate());
                    i = i + 1;
                }
                proof {
                    lemma_seq_view(out@);
                    lemma_seq_view(a@);
                    assert(seq_view(out@) =~= seq_view(a@));
                }
                Any::Arr(out)
            },
            Any::Obj(o) => {
                let n = o.len();
                let mut out: Vec<(String, Any)> = Vec::new();
                let mut i: usize = 0;
                while i < n
                    invariant
                        0 <= i <= n,
                        n == o.len(),
                        out.len() == i,
                        forall|t: int|
                            0 <= t < i ==> #[trigger] out[t].0@ == o[t].0@ && out[t].1@ == o[t].1@,
                    decreases n - i,
                {
                    let k = o[i].0.clone();
                    let v = o[i].1.duplicate();
                    out.push((k, v));
                    i = i + 1;
                }
                proof {
                    lemma_entries_view(out@);
                    lemma_entries_view(o@);
                    assert(entries_view(out@) =~= entries_view(o@));
                }
                Any::Obj(out)
            },
        }
    }
}

/// An equal, independently owned copy of a mapping's entries.
pub fn duplicate_entries(e: &Vec<(String, Any)>) -> (r: Vec<(String, Any)>)
    ensures
        entries_view(r@) == entries_view(e@),
{
    let n = e.len();
    let mut out: Vec<(String, Any)> = Vec::new();
    let mut i: usize = 0;
    while i < n
        invariant
            0 <= i <= n,
            n == e.len(),
            out.len() == i,
            forall|t: int| 0 <= t < i ==> #[trigger] out[t].0@ == e[t].0@ && out[t].1@ == e[t].1@,
        decreases n - i,
    {
        let k = e[i].0.clone();
        let v = e[i].1.duplicate();
        out.push((k, v));
        i = i + 1;
    }
    proof {
        lemma_entries_view(out@);
        lemma_entries_view(e@);
        assert(entries_view(out@) =~= entries_view(e@));
    }
    out
}

/// Character-for-character comparison of two text slices.
pub fn str_eq(a: &str, b: &str) -> (r: bool)
    ensures
        r == (a@ == b@),
{
    let sa: String = a.to_owned();
    let sb: String = b.to_owned();
    sa == sb
}

} // verus!
