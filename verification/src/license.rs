//! License information for the exposed API.
use vstd::prelude::*;

use crate::error::{DecodeError, ErrV};
use crate::record::{extras_wf, lemma_split_extras_wf, opt_view, split_fields, take_req_string};
use crate::shared::{LenV, Parseable, lenient_text, lenient_url_spec, take_opt_url, url_lenv_wf};
use crate::value::{Any, Val, entries_view, lemma_entries_view, lemma_lookup_absent,
    lemma_lookup_concat, lemma_lookup_single, lemma_sift_all_known, lemma_sift_concat,
    lemma_sift_none_known, lookup, sift};

verus! {

/// License information for the exposed API.
#[derive(Debug, PartialEq)]
pub struct License {
    /// The license name used for the API.
    pub name: String,
    /// A URL to the license. Kept raw when it is not a valid URL.
    pub url: Option<Parseable<String>>,
    /// Every field of the source mapping outside this record's schema,
    /// retained verbatim.
    pub extras: Vec<(String, Any)>,
}

pub open spec fn license_keys() -> Seq<Seq<char>> {
    seq!["name"@, "url"@]
}

pub open spec fn license_ok(v: Val) -> bool {
    &&& v matches Val::Obj(o)
    &&& lookup(o, "name"@) matches Some(Val::Str(_))
    &&& match lookup(o, "url"@) {
        None => true,
        Some(u) => u is Str,
    }
}

pub open spec fn license_matches(v: Val, x: License) -> bool {
    &&& v matches Val::Obj(o)
    &&& lookup(o, "name"@) == Some(Val::Str(x.name@))
    &&& match lookup(o, "url"@) {
        None => x.url is None,
        Some(u) => u matches Val::Str(t) && x.url matches Some(p) && p@ == lenient_url_spec(t),
    }
    &&& entries_view(x.extras@) == sift(o, license_keys())
}

pub open spec fn license_fail(v: Val) -> ErrV {
    match v {
        Val::Obj(o) => {
            if lookup(o, "name"@) is None {
                ErrV::Missing(seq!["name"@])
            } else if !(lookup(o, "name"@) matches Some(Val::Str(_))) {
                ErrV::Mismatch(seq!["name"@], "string"@)
            } else {
                ErrV::Mismatch(seq!["url"@], "string"@)
            }
        },
        _ => ErrV::Mismatch(Seq::empty(), "object"@),
    }
}

impl License {
    pub open spec fn wf(self) -> bool {
        &&& match self.url {
            None => true,
            Some(p) => url_lenv_wf(p@),
        }
        &&& extras_wf(self.extras@, license_keys())
    }

    /// Decodes a license from a tree value.
    pub fn from_value(v: Any) -> (r: Result<License, DecodeError>)
        ensures
            match r {
                Ok(x) => license_ok(v@) && license_matches(v@, x) && x.wf(),
                Err(e) => !license_ok(v@) && e@ == license_fail(v@),
            },
    {
        let entries: Vec<(String, Any)> = match v {
            Any::Obj(o) => o,
            _ => {
                return Err(DecodeError::mismatch_node("object"));
            },
        };
        let mut known: Vec<&str> = Vec::new();
        known.push("name");
        known.push("url");
        proof {
            reveal_strlit("name");
            reveal_strlit("url");
            assert("name"@.len() == 4);
            assert("url"@.len() == 3);
            assert(known@[0]@ == "name"@);
            assert(known@[1]@ == "url"@);
            assert(crate::record::names_view(known@) =~= license_keys());
        }
        let (mut slots, extras) = split_fields(entries, &known);
        proof {
            lemma_split_extras_wf(extras@, entries_view(entries@), license_keys());
        }
        let s_name = slots.remove(0);
        let s_url = slots.remove(0);
        let name = match take_req_string(s_name, "name") {
            Ok(t) => t,
            Err(e) => {
                return Err(e);
            },
        };
        let url = match take_opt_url(s_url, "url") {
            Ok(u) => u,
            Err(e) => {
                return Err(e);
            },
        };
        Ok(License { name, url, extras })
    }

    /// The model of this record's encoding.
    pub open spec fn enc(self) -> Val {
        Val::Obj(
            seq![("name"@, Val::Str(self.name@))] + (match self.url {
                Some(p) => seq![("url"@, Val::Str(lenient_text(p@)))],
                None => Seq::empty(),
            }) + entries_view(self.extras@),
        )
    }

    /// Encodes this record back to a tree value.
    pub fn to_value(&self) -> (r: Any)
        ensures
            r@ == self.enc(),
    {
        let mut out: Vec<(String, Any)> = Vec::new();
        out.push(("name".to_owned(), Any::Str(self.name.clone())));
        match &self.url {
            Some(p) => {
                out.push(("url".to_owned(), Any::Str(crate::shared::lenient_to_text(p))));
            },
            None => {},
        }
        let mut ex = crate::value::duplicate_entries(&self.extras);
        let ghost gex = ex@;
        out.append(&mut ex);
        proof {
            lemma_entries_view(out@);
            lemma_entries_view(gex);
            lemma_entries_view(self.extras@);
            assert forall|t: int|
                0 <= t < gex.len() implies (gex[t].0@, gex[t].1@) == entries_view(
                self.extras@,
            )[t] by {
                assert(entries_view(gex)[t] == (gex[t].0@, gex[t].1@));
            }
            assert(entries_view(out@) =~= (match self.enc() {
                Val::Obj(o) => o,
                _ => Seq::empty(),
            }));
        }
        Any::Obj(out)
    }
}

pub open spec fn license_eqv(a: License, b: License) -> bool {
    &&& a.name@ == b.name@
    &&& match (a.url, b.url) {
        (None, None) => true,
        (Some(x), Some(y)) => x@ == y@,
        _ => false,
    }
    &&& entries_view(a.extras@) == entries_view(b.extras@)
}

/// A well-formed license's encoding decodes, and its fields look up to
/// exactly what was encoded.
pub proof fn lemma_license_enc_ok(x: License)
    requires
        x.wf(),
    ensures
        license_ok(x.enc()),
        license_matches(x.enc(), x),
{
    reveal_strlit("name");
    reveal_strlit("url");
    assert("name"@.len() == 4);
    assert("url"@.len() == 3);
    let ks = license_keys();
    let f1: Seq<(Seq<char>, Val)> = seq![("name"@, Val::Str(x.name@))];
    let f2: Seq<(Seq<char>, Val)> = match x.url {
        Some(p) => seq![("url"@, Val::Str(lenient_text(p@)))],
        None => Seq::empty(),
    };
    let ex = entries_view(x.extras@);
    let o = f1 + f2 + ex;
    lemma_entries_view(x.extras@);
    assert(ks.contains("name"@)) by {
        assert(ks[0] == "name"@);
    }
    assert(ks.contains("url"@)) by {
        assert(ks[1] == "url"@);
    }
    assert forall|i: int| 0 <= i < ex.len() implies !ks.contains((#[trigger] ex[i]).0) by {
        assert(ex[i] == (x.extras@[i].0@, x.extras@[i].1@));
    }
    lemma_lookup_absent(ex, "name"@);
    lemma_lookup_absent(ex, "url"@);
    lemma_lookup_single(("name"@, Val::Str(x.name@)), "name"@);
    lemma_lookup_single(("name"@, Val::Str(x.name@)), "url"@);
    match x.url {
        Some(p) => {
            lemma_lookup_single(("url"@, Val::Str(lenient_text(p@))), "name"@);
            lemma_lookup_single(("url"@, Val::Str(lenient_text(p@))), "url"@);
            crate::shared::lemma_lenient_url_round_trip(p@);
        },
        None => {
            assert(f2.len() == 0);
        },
    }
    lemma_lookup_concat(f1 + f2, ex, "name"@);
    lemma_lookup_concat(f1 + f2, ex, "url"@);
    lemma_lookup_concat(f1, f2, "name"@);
    lemma_lookup_concat(f1, f2, "url"@);
    lemma_sift_concat(f1 + f2, ex, ks);
    lemma_sift_concat(f1, f2, ks);
    assert forall|i: int| 0 <= i < f2.len() implies ks.contains(#[trigger] f2[i].0) by {
        assert(f2[i] == f2[0]);
    }
    lemma_sift_all_known(f1, ks);
    lemma_sift_all_known(f2, ks);
    lemma_sift_none_known(ex, ks);
    assert(sift(o, ks) =~= ex);
}

/// Extras fidelity: an unknown name's first match in the source mapping is
/// kept in the decoded record's extras with its value unchanged, and the
/// encoded output answers for that name exactly as the source did.
pub proof fn lemma_license_extras_fidelity(v: Val, x: License, k: Seq<char>)
    requires
        license_matches(v, x),
        !license_keys().contains(k),
    ensures
        v matches Val::Obj(o) ==> lookup(entries_view(x.extras@), k) == lookup(o, k),
        v matches Val::Obj(o) ==> (x.enc() matches Val::Obj(eo) && lookup(eo, k) == lookup(o, k)),
{
    match v {
        Val::Obj(o) => {
            let ks = license_keys();
            crate::value::lemma_lookup_sift(o, ks, k);
            assert(ks[0] == "name"@);
            assert(ks[1] == "url"@);
            assert(k != "name"@) by {
                if k == "name"@ {
                    assert(ks.contains(k));
                }
            }
            assert(k != "url"@) by {
                if k == "url"@ {
                    assert(ks.contains(k));
                }
            }
            let f1: Seq<(Seq<char>, Val)> = seq![("name"@, Val::Str(x.name@))];
            let f2: Seq<(Seq<char>, Val)> = match x.url {
                Some(p) => seq![("url"@, Val::Str(lenient_text(p@)))],
                None => Seq::empty(),
            };
            let ex = entries_view(x.extras@);
            lemma_lookup_single(("name"@, Val::Str(x.name@)), k);
            match x.url {
                Some(p) => {
                    lemma_lookup_single(("url"@, Val::Str(lenient_text(p@))), k);
                },
                None => {
                    assert(f2.len() == 0);
                },
            }
            lemma_lookup_concat(f1 + f2, ex, k);
            lemma_lookup_concat(f1, f2, k);
        },
        _ => {},
    }
}

/// Encode reproduces exactly the source's key set: a name answers in the
/// encoded output if and only if it answered in the source mapping, whether
/// it is a known field or an extra, so no key is lost and none is invented.
pub proof fn lemma_license_key_set(v: Val, x: License, k: Seq<char>)
    requires
        license_matches(v, x),
    ensures
        v matches Val::Obj(o) ==> (x.enc() matches Val::Obj(eo) && (lookup(eo, k) is Some
            <==> lookup(o, k) is Some)),
{
    match v {
        Val::Obj(o) => {
            let ks = license_keys();
            reveal_strlit("name");
            reveal_strlit("url");
            assert("name"@.len() == 4);
            assert("url"@.len() == 3);
            assert(ks[0] == "name"@);
            assert(ks[1] == "url"@);
            if ks.contains(k) {
                crate::record::lemma_split_extras_wf(x.extras@, o, ks);
                let f1: Seq<(Seq<char>, Val)> = seq![("name"@, Val::Str(x.name@))];
                let f2: Seq<(Seq<char>, Val)> = match x.url {
                    Some(p) => seq![("url"@, Val::Str(lenient_text(p@)))],
                    None => Seq::empty(),
                };
                let ex = entries_view(x.extras@);
                lemma_entries_view(x.extras@);
                assert forall|i: int|
                    0 <= i < ex.len() implies !ks.contains((#[trigger] ex[i]).0) by {
                    assert(ex[i] == (x.extras@[i].0@, x.extras@[i].1@));
                }
                lemma_lookup_absent(ex, k);
                lemma_lookup_single(("name"@, Val::Str(x.name@)), k);
                match x.url {
                    Some(p) => {
                        lemma_lookup_single(("url"@, Val::Str(lenient_text(p@))), k);
                    },
                    None => {
                        assert(f2.len() == 0);
                    },
                }
                lemma_lookup_concat(f1 + f2, ex, k);
                lemma_lookup_concat(f1, f2, k);
                assert(k == "name"@ || k == "url"@) by {
                    let i = choose|i: int| 0 <= i < ks.len() && ks[i] == k;
                }
            } else {
                lemma_license_extras_fidelity(v, x, k);
            }
        },
        _ => {},
    }
}

/// Decoding what a well-formed license encodes to reproduces the record.
pub proof fn lemma_license_round_trip(x: License, y: License)
    requires
        x.wf(),
        license_matches(x.enc(), y),
    ensures
        license_eqv(y, x),
{
    lemma_license_enc_ok(x);
}

} // verus!
