//! The extensible-record mechanism: every document node is a fixed set of
//! named, typed fields plus a catch-all map for any name outside that set.
//! Decode drains the known names from the mapping in a single pass and
//! captures the remainder as extras, so the two key sets are disjoint by
//! construction; encode re-emits both.
use vstd::prelude::*;

use crate::error::{DecodeError, ErrV};
use crate::value::{Any, Val, entries_view, lemma_entries_view, lookup, sift, str_eq};
use crate::value::{lemma_lookup_push, lemma_sift_push};

verus! {

/// The model of a field slot: the value found under a known name, if any.
pub open spec fn opt_view(o: Option<Any>) -> Option<Val> {
    match o {
        Some(v) => Some(v@),
        None => None,
    }
}

/// The models of a list of known field names.
pub open spec fn names_view(ks: Seq<&str>) -> Seq<Seq<char>> {
    ks.map_values(|s: &str| s@)
}

/// A record's extras never sit under a known field name: decode drains the
/// known names first, so the two key sets are disjoint by construction.
pub open spec fn extras_wf(e: Seq<(String, Any)>, ks: Seq<Seq<char>>) -> bool {
    forall|i: int| 0 <= i < e.len() ==> !ks.contains((#[trigger] e[i]).0@)
}

/// What `split_fields` leaves as extras is well formed.
pub proof fn lemma_split_extras_wf(
    e: Seq<(String, Any)>,
    o: Seq<(Seq<char>, Val)>,
    ks: Seq<Seq<char>>,
)
    requires
        entries_view(e) == sift(o, ks),
    ensures
        extras_wf(e, ks),
{
    crate::value::lemma_sift_members(o, ks);
    lemma_entries_view(e);
    assert forall|i: int| 0 <= i < e.len() implies !ks.contains((#[trigger] e[i]).0@) by {
        assert(entries_view(e)[i] == (e[i].0@, e[i].1@));
        assert(sift(o, ks)[i].0 == e[i].0@);
    }
}

/// The first position in the known-name list that matches `k`, if any.
fn find_key(known: &Vec<&str>, k: &str) -> (r: Option<usize>)
    ensures
        match r {
            Some(j) => 0 <= j < known@.len() && known@[j as int]@ == k@ && forall|i: int|
                0 <= i < j ==> known@[i]@ != k@,
            None => forall|i: int| 0 <= i < known@.len() ==> known@[i]@ != k@,
        },
{
    let n = known.len();
    let mut j: usize = 0;
    while j < n
        invariant
            n == known.len(),
            0 <= j <= n,
            forall|i: int| 0 <= i < j ==> known@[i]@ != k@,
        decreases n - j,
    {
        if str_eq(known[j], k) {
            return Some(j);
        }
        j = j + 1;
    }
    None
}

/// Splits a mapping's entries into one slot per known field name and the
/// extras: the first entry under each known name fills its slot, every entry
/// under an unknown name is kept, in order, as an extra.
pub fn split_fields(entries: Vec<(String, Any)>, known: &Vec<&str>) -> (r: (
    Vec<Option<Any>>,
    Vec<(String, Any)>,
))
    requires
        forall|i: int, j: int| 0 <= i < j < known@.len() ==> known@[i]@ != known@[j]@,
    ensures
        r.0.len() == known@.len(),
        forall|j: int|
            0 <= j < known@.len() ==> opt_view(#[trigger] r.0[j]) == lookup(
                entries_view(entries@),
                names_view(known@)[j],
            ),
        entries_view(r.1@) == sift(entries_view(entries@), names_view(known@)),
{
    let ghost orig = entries@;
    let ghost o = entries_view(orig);
    let ghost names = names_view(known@);
    proof {
        lemma_entries_view(orig);
    }
    let nk = known.len();
    let mut slots: Vec<Option<Any>> = Vec::new();
    let mut j: usize = 0;
    while j < nk
        invariant
            0 <= j <= nk,
            slots.len() == j,
            forall|i: int| 0 <= i < j ==> slots[i] is None,
        decreases nk - j,
    {
        slots.push(None);
        j = j + 1;
    }
    let mut extras: Vec<(String, Any)> = Vec::new();
    let mut rest = entries;
    let mut i: usize = 0;
    let n = rest.len();
    while i < n
        invariant
            0 <= i <= n,
            n == orig.len(),
            nk == known.len(),
            names == names_view(known@),
            forall|a: int, b: int| 0 <= a < b < known@.len() ==> known@[a]@ != known@[b]@,
            o == entries_view(orig),
            o.len() == n,
            forall|t: int| 0 <= t < n ==> o[t] == (orig[t].0@, orig[t].1@),
            rest@ == orig.skip(i as int),
            slots.len() == nk,
            forall|t: int|
                0 <= t < nk ==> opt_view(#[trigger] slots[t]) == lookup(o.take(i as int), names[t]),
            entries_view(extras@) == sift(o.take(i as int), names),
        decreases n - i,
    {
        let (k, v) = rest.remove(0);
        proof {
            assert(orig.skip(i as int)[0] == orig[i as int]);
            assert(orig.skip(i as int).drop_first() =~= orig.skip(i as int + 1));
            assert(o.take(i as int + 1) =~= o.take(i as int).push(o[i as int]));
            assert(o[i as int] == (k@, v@));
        }
        let idx = find_key(known, k.as_str());
        let ghost pre_extras = extras@;
        match idx {
            Some(jj) => {
                proof {
                    assert(names[jj as int] == k@);
                }
                if slots[jj].is_none() {
                    slots.set(jj, Some(v));
                } else {
                    // A later entry under an already-filled known name never
                    // shadows the first: it is dropped, as first-match lookup
                    // demands.
                }
                proof {
                    assert(names.contains(k@)) by {
                        assert(names[jj as int] == k@);
                    }
                    lemma_sift_push(o.take(i as int), names, o[i as int]);
                    assert forall|t: int| 0 <= t < nk implies opt_view(#[trigger] slots[t])
                        == lookup(o.take(i as int + 1), names[t]) by {
                        lemma_lookup_push(o.take(i as int), o[i as int], names[t]);
                        assert(names[t] == known@[t]@);
                        if t < jj as int {
                            assert(known@[t]@ != k@);
                        } else if t > jj as int {
                            assert(known@[jj as int]@ != known@[t]@);
                            assert(known@[t]@ != k@);
                        }
                    }
                }
            },
            None => {
                extras.push((k, v));
                proof {
                    assert(!names.contains(k@)) by {
                        if names.contains(k@) {
                            let t = choose|t: int| 0 <= t < names.len() && names[t] == k@;
                            assert(known@[t]@ == k@);
                        }
                    }
                    lemma_sift_push(o.take(i as int), names, o[i as int]);
                    assert(entries_view(extras@) =~= entries_view(pre_extras).push(
                        (k@, v@),
                    )) by {
                        lemma_entries_view(extras@);
                        lemma_entries_view(pre_extras);
                        assert(extras@.len() == pre_extras.len() + 1);
                    }
                    assert forall|t: int| 0 <= t < nk implies opt_view(#[trigger] slots[t])
                        == lookup(o.take(i as int + 1), names[t]) by {
                        lemma_lookup_push(o.take(i as int), o[i as int], names[t]);
                    }
                }
            },
        }
        i = i + 1;
    }
    proof {
        assert(o.take(n as int) =~= o);
        assert forall|t: int| 0 <= t < nk implies opt_view(#[trigger] slots[t]) == lookup(
            o,
            names[t],
        ) by {
        }
    }
    (slots, extras)
}

/// Emits an optional boolean field under its document name.
pub fn push_opt_bool(out: &mut Vec<(String, Any)>, name: &str, v: &Option<bool>)
    ensures
        entries_view(final(out)@) == entries_view(old(out)@) + (match *v {
            Some(b) => seq![(name@, Val::Bool(b))],
            None => Seq::empty(),
        }),
{
    let ghost before = out@;
    match v {
        Some(b) => {
            out.push((name.to_owned(), Any::Bool(*b)));
            proof {
                lemma_entries_view(out@);
                lemma_entries_view(before);
                assert(entries_view(out@) =~= entries_view(before) + seq![
                    (name@, Val::Bool((*v)->0)),
                ]);
            }
        },
        None => {
            proof {
                assert(entries_view(before) + Seq::<(Seq<char>, Val)>::empty() =~= entries_view(
                    before,
                ));
            }
        },
    }
}

/// Emits an optional text field under its document name.
pub fn push_opt_string(out: &mut Vec<(String, Any)>, name: &str, v: &Option<String>)
    ensures
        entries_view(final(out)@) == entries_view(old(out)@) + (match *v {
            Some(t) => seq![(name@, Val::Str(t@))],
            None => Seq::empty(),
        }),
{
    let ghost before = out@;
    match v {
        Some(t) => {
            out.push((name.to_owned(), Any::Str(t.clone())));
            proof {
                lemma_entries_view(out@);
                lemma_entries_view(before);
                assert(entries_view(out@) =~= entries_view(before) + seq![(name@, Val::Str(t@))]);
            }
        },
        None => {
            proof {
                assert(entries_view(before) + Seq::<(Seq<char>, Val)>::empty() =~= entries_view(
                    before,
                ));
            }
        },
    }
}

/// Emits one field under its document name.
pub fn push_field(out: &mut Vec<(String, Any)>, name: &str, v: Any)
    ensures
        entries_view(final(out)@) == entries_view(old(out)@) + seq![(name@, v@)],
{
    let ghost before = out@;
    out.push((name.to_owned(), v));
    proof {
        lemma_entries_view(out@);
        lemma_entries_view(before);
        assert(entries_view(out@) =~= entries_view(before) + seq![
            (name@, out@[out@.len() - 1].1@),
        ]);
    }
}

/// Emits every extra entry unchanged, after the known fields.
pub fn push_extras(out: &mut Vec<(String, Any)>, extras: &Vec<(String, Any)>)
    ensures
        entries_view(final(out)@) == entries_view(old(out)@) + entries_view(extras@),
{
    let mut ex = crate::value::duplicate_entries(extras);
    let ghost before = out@;
    let ghost gex = ex@;
    out.append(&mut ex);
    proof {
        lemma_entries_view(out@);
        lemma_entries_view(before);
        lemma_entries_view(gex);
        lemma_entries_view(extras@);
        assert forall|t: int|
            0 <= t < gex.len() implies (gex[t].0@, gex[t].1@) == entries_view(extras@)[t] by {
            assert(entries_view(gex)[t] == (gex[t].0@, gex[t].1@));
        }
        assert(entries_view(out@) =~= entries_view(before) + entries_view(extras@));
    }
}

/// Takes a required text field out of its slot.
pub fn take_req_string(slot: Option<Any>, name: &str) -> (r: Result<String, DecodeError>)
    ensures
        match r {
            Ok(s) => opt_view(slot) == Some(Val::Str(s@)),
            Err(e) => {
                ||| (slot is None && e@ == ErrV::Missing(seq![name@]))
                ||| (slot matches Some(v) && !(v@ is Str) && e@ == ErrV::Mismatch(
                    seq![name@],
                    "string"@,
                ))
            },
        },
{
    match slot {
        None => Err(DecodeError::missing_here(name)),
        Some(Any::Str(s)) => Ok(s),
        Some(_) => Err(DecodeError::mismatch_here(name, "string")),
    }
}

/// Takes an optional text field out of its slot.
pub fn take_opt_string(slot: Option<Any>, name: &str) -> (r: Result<
    Option<String>,
    DecodeError,
>)
    ensures
        match r {
            Ok(s) => match s {
                Some(t) => opt_view(slot) == Some(Val::Str(t@)),
                None => slot is None,
            },
            Err(e) => slot matches Some(v) && !(v@ is Str) && e@ == ErrV::Mismatch(
                seq![name@],
                "string"@,
            ),
        },
{
    match slot {
        None => Ok(None),
        Some(Any::Str(s)) => Ok(Some(s)),
        Some(_) => Err(DecodeError::mismatch_here(name, "string")),
    }
}

/// Takes an optional boolean field out of its slot.
pub fn take_opt_bool(slot: Option<Any>, name: &str) -> (r: Result<Option<bool>, DecodeError>)
    ensures
        match r {
            Ok(s) => match s {
                Some(b) => opt_view(slot) == Some(Val::Bool(b)),
                None => slot is None,
            },
            Err(e) => slot matches Some(v) && !(v@ is Bool) && e@ == ErrV::Mismatch(
                seq![name@],
                "boolean"@,
            ),
        },
{
    match slot {
        None => Ok(None),
        Some(Any::Bool(b)) => Ok(Some(b)),
        Some(_) => Err(DecodeError::mismatch_here(name, "boolean")),
    }
}

} // verus!
