//! Metadata about the API.
use vstd::prelude::*;

use crate::contact::{Contact, contact_fail, contact_matches, contact_ok, contact_eqv,
    lemma_contact_enc_ok, lemma_contact_round_trip};
use crate::error::{DecodeError, ErrV, prefixed};
use crate::license::{License, license_fail, license_matches, license_ok, license_eqv,
    lemma_license_enc_ok, lemma_license_round_trip};
use crate::record::{extras_wf, lemma_split_extras_wf, opt_view, split_fields, take_opt_string,
    take_req_string};
use crate::value::{Any, Val, entries_view, lemma_entries_view, lemma_lookup_absent,
    lemma_lookup_concat, lemma_lookup_single, lemma_sift_all_known, lemma_sift_concat,
    lemma_sift_none_known, lookup, sift};

verus! {

/// The object provides metadata about the API.
#[derive(Debug, PartialEq)]
pub struct Info {
    /// The title of the API.
    pub title: String,
    /// A short description of the API.
    pub description: Option<String>,
    /// A URL to the terms of service; exposed in the document under its
    /// `termsOfService` name.
    pub terms_of_service: Option<String>,
    /// The contact information for the exposed API.
    pub contact: Option<Contact>,
    /// The license information for the exposed API.
    pub license: Option<License>,
    /// The version of the described document.
    pub version: String,
    /// Every field of the source mapping outside this record's schema,
    /// retained verbatim.
    pub extras: Vec<(String, Any)>,
}

pub open spec fn info_keys() -> Seq<Seq<char>> {
    seq!["title"@, "description"@, "termsOfService"@, "contact"@, "license"@, "version"@]
}

pub open spec fn info_ok(v: Val) -> bool {
    &&& v matches Val::Obj(o)
    &&& lookup(o, "title"@) matches Some(Val::Str(_))
    &&& match lookup(o, "description"@) {
        None => true,
        Some(d) => d is Str,
    }
    &&& match lookup(o, "termsOfService"@) {
        None => true,
        Some(d) => d is Str,
    }
    &&& match lookup(o, "contact"@) {
        None => true,
        Some(c) => contact_ok(c),
    }
    &&& match lookup(o, "license"@) {
        None => true,
        Some(l) => license_ok(l),
    }
    &&& lookup(o, "version"@) matches Some(Val::Str(_))
}

pub open spec fn info_matches(v: Val, x: Info) -> bool {
    &&& v matches Val::Obj(o)
    &&& lookup(o, "title"@) == Some(Val::Str(x.title@))
    &&& match lookup(o, "description"@) {
        None => x.description is None,
        Some(d) => x.description matches Some(t) && d == Val::Str(t@),
    }
    &&& match lookup(o, "termsOfService"@) {
        None => x.terms_of_service is None,
        Some(d) => x.terms_of_service matches Some(t) && d == Val::Str(t@),
    }
    &&& match lookup(o, "contact"@) {
        None => x.contact is None,
        Some(c) => x.contact matches Some(ct) && contact_matches(c, ct),
    }
    &&& match lookup(o, "license"@) {
        None => x.license is None,
        Some(l) => x.license matches Some(lc) && license_matches(l, lc),
    }
    &&& lookup(o, "version"@) == Some(Val::Str(x.version@))
    &&& entries_view(x.extras@) == sift(o, info_keys())
}

pub open spec fn info_fail(v: Val) -> ErrV {
    match v {
        Val::Obj(o) => {
            if lookup(o, "title"@) is None {
                ErrV::Missing(seq!["title"@])
            } else if !(lookup(o, "title"@) matches Some(Val::Str(_))) {
                ErrV::Mismatch(seq!["title"@], "string"@)
            } else if !(match lookup(o, "description"@) {
                None => true,
                Some(d) => d is Str,
            }) {
                ErrV::Mismatch(seq!["description"@], "string"@)
            } else if !(match lookup(o, "termsOfService"@) {
                None => true,
                Some(d) => d is Str,
            }) {
                ErrV::Mismatch(seq!["termsOfService"@], "string"@)
            } else if !(match lookup(o, "contact"@) {
                None => true,
                Some(c) => contact_ok(c),
            }) {
                prefixed("contact"@, contact_fail(lookup(o, "contact"@)->Some_0))
            } else if !(match lookup(o, "license"@) {
                None => true,
                Some(l) => license_ok(l),
            }) {
                prefixed("license"@, license_fail(lookup(o, "license"@)->Some_0))
            } else if lookup(o, "version"@) is None {
                ErrV::Missing(seq!["version"@])
            } else {
                ErrV::Mismatch(seq!["version"@], "string"@)
            }
        },
        _ => ErrV::Mismatch(Seq::empty(), "object"@),
    }
}

impl Info {
    pub open spec fn wf(self) -> bool {
        &&& match self.contact {
            None => true,
            Some(c) => c.wf(),
        }
        &&& match self.license {
            None => true,
            Some(l) => l.wf(),
        }
        &&& extras_wf(self.extras@, info_keys())
    }

    /// Decodes the metadata record from a tree value.
    pub fn from_value(v: Any) -> (r: Result<Info, DecodeError>)
        ensures
            match r {
                Ok(x) => info_ok(v@) && info_matches(v@, x) && x.wf(),
                Err(e) => !info_ok(v@) && e@ == info_fail(v@),
            },
    {
        let entries: Vec<(String, Any)> = match v {
            Any::Obj(o) => o,
            _ => {
                return Err(DecodeError::mismatch_node("object"));
            },
        };
        let mut known: Vec<&str> = Vec::new();
        known.push("title");
        known.push("description");
        known.push("termsOfService");
        known.push("contact");
        known.push("license");
        known.push("version");
        proof {
            reveal_strlit("title");
            reveal_strlit("description");
            reveal_strlit("termsOfService");
            reveal_strlit("contact");
            reveal_strlit("license");
            reveal_strlit("version");
            assert("title"@.len() == 5);
            assert("description"@.len() == 11);
            assert("termsOfService"@.len() == 14);
            assert("contact"@.len() == 7);
            assert("license"@.len() == 7);
            assert("version"@.len() == 7);
            assert("contact"@[0] == 'c');
            assert("license"@[0] == 'l');
            assert("version"@[0] == 'v');
            assert(known@[0]@ == "title"@);
            assert(known@[1]@ == "description"@);
            assert(known@[2]@ == "termsOfService"@);
            assert(known@[3]@ == "contact"@);
            assert(known@[4]@ == "license"@);
            assert(known@[5]@ == "version"@);
            assert(crate::record::names_view(known@) =~= info_keys());
        }
        let (mut slots, extras) = split_fields(entries, &known);
        proof {
            lemma_split_extras_wf(extras@, entries_view(entries@), info_keys());
        }
        let s_title = slots.remove(0);
        let s_desc = slots.remove(0);
        let s_terms = slots.remove(0);
        let s_contact = slots.remove(0);
        let s_license = slots.remove(0);
        let s_version = slots.remove(0);
        let title = match take_req_string(s_title, "title") {
            Ok(t) => t,
            Err(e) => {
                return Err(e);
            },
        };
        let description = match take_opt_string(s_desc, "description") {
            Ok(d) => d,
            Err(e) => {
                return Err(e);
            },
        };
        let terms_of_service = match take_opt_string(s_terms, "termsOfService") {
            Ok(d) => d,
            Err(e) => {
                return Err(e);
            },
        };
        let contact = match s_contact {
            None => None,
            Some(cv) => match Contact::from_value(cv) {
                Ok(c) => Some(c),
                Err(e) => {
                    return Err(e.under("contact"));
                },
            },
        };
        let license = match s_license {
            None => None,
            Some(lv) => match License::from_value(lv) {
                Ok(l) => Some(l),
                Err(e) => {
                    return Err(e.under("license"));
                },
            },
        };
        let version = match take_req_string(s_version, "version") {
            Ok(t) => t,
            Err(e) => {
                return Err(e);
            },
        };
        Ok(Info { title, description, terms_of_service, contact, license, version, extras })
    }

    /// The model of this record's encoding.
    pub open spec fn enc(self) -> Val {
        Val::Obj(
            seq![("title"@, Val::Str(self.title@))] + (match self.description {
                Some(d) => seq![("description"@, Val::Str(d@))],
                None => Seq::empty(),
            }) + (match self.terms_of_service {
                Some(d) => seq![("termsOfService"@, Val::Str(d@))],
                None => Seq::empty(),
            }) + (match self.contact {
                Some(c) => seq![("contact"@, c.enc())],
                None => Seq::empty(),
            }) + (match self.license {
                Some(l) => seq![("license"@, l.enc())],
                None => Seq::empty(),
            }) + seq![("version"@, Val::Str(self.version@))] + entries_view(self.extras@),
        )
    }

    /// Encodes this record back to a tree value.
    pub fn to_value(&self) -> (r: Any)
        ensures
            r@ == self.enc(),
    {
        let mut out: Vec<(String, Any)> = Vec::new();
        out.push(("title".to_owned(), Any::Str(self.title.clone())));
        match &self.description {
            Some(d) => {
                out.push(("description".to_owned(), Any::Str(d.clone())));
            },
            None => {},
        }
        match &self.terms_of_service {
            Some(d) => {
                out.push(("termsOfService".to_owned(), Any::Str(d.clone())));
            },
            None => {},
        }
        match &self.contact {
            Some(c) => {
                out.push(("contact".to_owned(), c.to_value()));
            },
            None => {},
        }
        match &self.license {
            Some(l) => {
                out.push(("license".to_owned(), l.to_value()));
            },
            None => {},
        }
        out.push(("version".to_owned(), Any::Str(self.version.clone())));
        let mut ex = crate::value::duplicate_entries(&self.extras);
        let ghost gex = ex@;
        out.append(&mut ex);
        proof {
            lemma_entries_view(out@);
            lemma_entries_view(gex);
            lemma_entries_view(self.extras@);
            assert forall|t: int|
                0 <= t < gex.len() implies (gex[t].0@, gex[t].1@) == entries_view(
                self.extras@,
            )[t] by {
                assert(entries_view(gex)[t] == (gex[t].0@, gex[t].1@));
            }
            assert(entries_view(out@) =~= (match self.enc() {
                Val::Obj(o) => o,
                _ => Seq::empty(),
            }));
        }
        Any::Obj(out)
    }
}

pub open spec fn info_eqv(a: Info, b: Info) -> bool {
    &&& a.title@ == b.title@
    &&& match (a.description, b.description) {
        (None, None) => true,
        (Some(x), Some(y)) => x@ == y@,
        _ => false,
    }
    &&& match (a.terms_of_service, b.terms_of_service) {
        (None, None) => true,
        (Some(x), Some(y)) => x@ == y@,
        _ => false,
    }
    &&& match (a.contact, b.contact) {
        (None, None) => true,
        (Some(x), Some(y)) => contact_eqv(x, y),
        _ => false,
    }
    &&& match (a.license, b.license) {
        (None, None) => true,
        (Some(x), Some(y)) => license_eqv(x, y),
        _ => false,
    }
    &&& a.version@ == b.version@
    &&& entries_view(a.extras@) == entries_view(b.extras@)
}

/// A well-formed metadata record's encoding decodes, and its fields look up
/// to exactly what was encoded.
pub proof fn lemma_info_enc_ok(x: Info)
    requires
        x.wf(),
    ensures
        info_ok(x.enc()),
        info_matches(x.enc(), x),
        x.contact matches Some(c) ==> (x.enc() matches Val::Obj(o) && lookup(o, "contact"@)
            == Some(c.enc())),
        x.license matches Some(l) ==> (x.enc() matches Val::Obj(o) && lookup(o, "license"@)
            == Some(l.enc())),
{
    reveal_strlit("title");
    reveal_strlit("description");
    reveal_strlit("termsOfService");
    reveal_strlit("contact");
    reveal_strlit("license");
    reveal_strlit("version");
    assert("title"@.len() == 5);
    assert("description"@.len() == 11);
    assert("termsOfService"@.len() == 14);
    assert("contact"@.len() == 7);
    assert("license"@.len() == 7);
    assert("version"@.len() == 7);
    assert("contact"@[0] == 'c');
    assert("license"@[0] == 'l');
    assert("version"@[0] == 'v');
    let ks = info_keys();
    let f1: Seq<(Seq<char>, Val)> = seq![("title"@, Val::Str(x.title@))];
    let f2: Seq<(Seq<char>, Val)> = match x.description {
        Some(d) => seq![("description"@, Val::Str(d@))],
        None => Seq::empty(),
    };
    let f3: Seq<(Seq<char>, Val)> = match x.terms_of_service {
        Some(d) => seq![("termsOfService"@, Val::Str(d@))],
        None => Seq::empty(),
    };
    let f4: Seq<(Seq<char>, Val)> = match x.contact {
        Some(c) => seq![("contact"@, c.enc())],
        None => Seq::empty(),
    };
    let f5: Seq<(Seq<char>, Val)> = match x.license {
        Some(l) => seq![("license"@, l.enc())],
        None => Seq::empty(),
    };
    let f6: Seq<(Seq<char>, Val)> = seq![("version"@, Val::Str(x.version@))];
    let ex = entries_view(x.extras@);
    let o = f1 + f2 + f3 + f4 + f5 + f6 + ex;
    lemma_entries_view(x.extras@);
    assert(ks.contains("title"@)) by {
        assert(ks[0] == "title"@);
    }
    assert(ks.contains("description"@)) by {
        assert(ks[1] == "description"@);
    }
    assert(ks.contains("termsOfService"@)) by {
        assert(ks[2] == "termsOfService"@);
    }
    assert(ks.contains("contact"@)) by {
        assert(ks[3] == "contact"@);
    }
    assert(ks.contains("license"@)) by {
        assert(ks[4] == "license"@);
    }
    assert(ks.contains("version"@)) by {
        assert(ks[5] == "version"@);
    }
    assert forall|i: int| 0 <= i < ex.len() implies !ks.contains((#[trigger] ex[i]).0) by {
        assert(ex[i] == (x.extras@[i].0@, x.extras@[i].1@));
    }
    lemma_lookup_absent(ex, "title"@);
    lemma_lookup_absent(ex, "description"@);
    lemma_lookup_absent(ex, "termsOfService"@);
    lemma_lookup_absent(ex, "contact"@);
    lemma_lookup_absent(ex, "license"@);
    lemma_lookup_absent(ex, "version"@);
    proof_singles(f1, ("title"@, Val::Str(x.title@)));
    match x.description {
        Some(d) => {
            proof_singles(f2, ("description"@, Val::Str(d@)));
        },
        None => {
            assert(f2.len() == 0);
        },
    }
    match x.terms_of_service {
        Some(d) => {
            proof_singles(f3, ("termsOfService"@, Val::Str(d@)));
        },
        None => {
            assert(f3.len() == 0);
        },
    }
    match x.contact {
        Some(c) => {
            proof_singles(f4, ("contact"@, c.enc()));
            lemma_contact_enc_ok(c);
        },
        None => {
            assert(f4.len() == 0);
        },
    }
    match x.license {
        Some(l) => {
            proof_singles(f5, ("license"@, l.enc()));
            lemma_license_enc_ok(l);
        },
        None => {
            assert(f5.len() == 0);
        },
    }
    proof_singles(f6, ("version"@, Val::Str(x.version@)));
    proof_peel6(f1, f2, f3, f4, f5, f6, ex, "title"@);
    proof_peel6(f1, f2, f3, f4, f5, f6, ex, "description"@);
    proof_peel6(f1, f2, f3, f4, f5, f6, ex, "termsOfService"@);
    proof_peel6(f1, f2, f3, f4, f5, f6, ex, "contact"@);
    proof_peel6(f1, f2, f3, f4, f5, f6, ex, "license"@);
    proof_peel6(f1, f2, f3, f4, f5, f6, ex, "version"@);
    lemma_sift_concat(f1 + f2 + f3 + f4 + f5 + f6, ex, ks);
    lemma_sift_concat(f1 + f2 + f3 + f4 + f5, f6, ks);
    lemma_sift_concat(f1 + f2 + f3 + f4, f5, ks);
    lemma_sift_concat(f1 + f2 + f3, f4, ks);
    lemma_sift_concat(f1 + f2, f3, ks);
    lemma_sift_concat(f1, f2, ks);
    assert forall|i: int| 0 <= i < f2.len() implies ks.contains(#[trigger] f2[i].0) by {
        assert(f2[i] == f2[0]);
    }
    assert forall|i: int| 0 <= i < f3.len() implies ks.contains(#[trigger] f3[i].0) by {
        assert(f3[i] == f3[0]);
    }
    assert forall|i: int| 0 <= i < f4.len() implies ks.contains(#[trigger] f4[i].0) by {
        assert(f4[i] == f4[0]);
    }
    assert forall|i: int| 0 <= i < f5.len() implies ks.contains(#[trigger] f5[i].0) by {
        assert(f5[i] == f5[0]);
    }
    lemma_sift_all_known(f1, ks);
    lemma_sift_all_known(f2, ks);
    lemma_sift_all_known(f3, ks);
    lemma_sift_all_known(f4, ks);
    lemma_sift_all_known(f5, ks);
    lemma_sift_all_known(f6, ks);
    lemma_sift_none_known(ex, ks);
    assert(sift(o, ks) =~= ex);
}

/// The lookups a singleton field group resolves to, for every key of the
/// metadata schema.
proof fn proof_singles(f: Seq<(Seq<char>, Val)>, e: (Seq<char>, Val))
    requires
        f == seq![e],
    ensures
        lookup(f, "title"@) == (if e.0 == "title"@ {
            Some(e.1)
        } else {
            None::<Val>
        }),
        lookup(f, "description"@) == (if e.0 == "description"@ {
            Some(e.1)
        } else {
            None::<Val>
        }),
        lookup(f, "termsOfService"@) == (if e.0 == "termsOfService"@ {
            Some(e.1)
        } else {
            None::<Val>
        }),
        lookup(f, "contact"@) == (if e.0 == "contact"@ {
            Some(e.1)
        } else {
            None::<Val>
        }),
        lookup(f, "license"@) == (if e.0 == "license"@ {
            Some(e.1)
        } else {
            None::<Val>
        }),
        lookup(f, "version"@) == (if e.0 == "version"@ {
            Some(e.1)
        } else {
            None::<Val>
        }),
{
    lemma_lookup_single(e, "title"@);
    lemma_lookup_single(e, "description"@);
    lemma_lookup_single(e, "termsOfService"@);
    lemma_lookup_single(e, "contact"@);
    lemma_lookup_single(e, "license"@);
    lemma_lookup_single(e, "version"@);
}

/// Resolves a key's first match across the six field groups of a metadata
/// encoding.
proof fn proof_peel6(
    f1: Seq<(Seq<char>, Val)>,
    f2: Seq<(Seq<char>, Val)>,
    f3: Seq<(Seq<char>, Val)>,
    f4: Seq<(Seq<char>, Val)>,
    f5: Seq<(Seq<char>, Val)>,
    f6: Seq<(Seq<char>, Val)>,
    ex: Seq<(Seq<char>, Val)>,
    k: Seq<char>,
)
    ensures
        lookup(f1 + f2 + f3 + f4 + f5 + f6 + ex, k) == (if lookup(f1, k) is Some {
            lookup(f1, k)
        } else if lookup(f2, k) is Some {
            lookup(f2, k)
        } else if lookup(f3, k) is Some {
            lookup(f3, k)
        } else if lookup(f4, k) is Some {
            lookup(f4, k)
        } else if lookup(f5, k) is Some {
            lookup(f5, k)
        } else if lookup(f6, k) is Some {
            lookup(f6, k)
        } else {
            lookup(ex, k)
        }),
{
    lemma_lookup_concat(f1 + f2 + f3 + f4 + f5 + f6, ex, k);
    lemma_lookup_concat(f1 + f2 + f3 + f4 + f5, f6, k);
    lemma_lookup_concat(f1 + f2 + f3 + f4, f5, k);
    lemma_lookup_concat(f1 + f2 + f3, f4, k);
    lemma_lookup_concat(f1 + f2, f3, k);
    lemma_lookup_concat(f1, f2, k);
}

/// Decoding what a well-formed metadata record encodes to reproduces the
/// record.
pub proof fn lemma_info_round_trip(x: Info, y: Info)
    requires
        x.wf(),
        info_matches(x.enc(), y),
    ensures
        info_eqv(y, x),
{
    lemma_info_enc_ok(x);
    match (x.contact, y.contact) {
        (Some(a), Some(b)) => {
            assert(contact_matches(a.enc(), b));
            lemma_contact_round_trip(a, b);
        },
        _ => {},
    }
    match (x.license, y.license) {
        (Some(a), Some(b)) => {
            assert(license_matches(a.enc(), b));
            lemma_license_round_trip(a, b);
        },
        _ => {},
    }
}

} // verus!
