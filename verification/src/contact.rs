//! Contact information for the exposed API.
use vstd::prelude::*;

use crate::error::{DecodeError, ErrV};
use crate::record::{extras_wf, lemma_split_extras_wf, opt_view, split_fields, take_opt_string};
use crate::shared::{LenV, Parseable, email_lenv_wf, lenient_email_spec, lenient_text,
    lenient_url_spec, take_opt_email, take_opt_url, url_lenv_wf};
use crate::value::{Any, Val, entries_view, lemma_entries_view, lemma_lookup_absent,
    lemma_lookup_concat, lemma_lookup_single, lemma_sift_all_known, lemma_sift_concat,
    lemma_sift_none_known, lookup, sift};

verus! {

/// Contact information for the exposed API.
#[derive(Debug, PartialEq)]
pub struct Contact {
    /// The identifying name of the contact person or organization.
    pub name: Option<String>,
    /// A URL pointing to the contact information. Kept raw when invalid.
    pub url: Option<Parseable<String>>,
    /// The contact email address. Kept raw when invalid.
    pub email: Option<Parseable<String>>,
    /// Every field of the source mapping outside this record's schema,
    /// retained verbatim.
    pub extras: Vec<(String, Any)>,
}

pub open spec fn contact_keys() -> Seq<Seq<char>> {
    seq!["name"@, "url"@, "email"@]
}

pub open spec fn contact_ok(v: Val) -> bool {
    &&& v matches Val::Obj(o)
    &&& match lookup(o, "name"@) {
        None => true,
        Some(n) => n is Str,
    }
    &&& match lookup(o, "url"@) {
        None => true,
        Some(u) => u is Str,
    }
    &&& match lookup(o, "email"@) {
        None => true,
        Some(m) => m is Str,
    }
}

pub open spec fn contact_matches(v: Val, x: Contact) -> bool {
    &&& v matches Val::Obj(o)
    &&& match lookup(o, "name"@) {
        None => x.name is None,
        Some(n) => x.name matches Some(t) && n == Val::Str(t@),
    }
    &&& match lookup(o, "url"@) {
        None => x.url is None,
        Some(u) => u matches Val::Str(t) && x.url matches Some(p) && p@ == lenient_url_spec(t),
    }
    &&& match lookup(o, "email"@) {
        None => x.email is None,
        Some(m) => m matches Val::Str(t) && x.email matches Some(p) && p@ == lenient_email_spec(
            t,
        ),
    }
    &&& entries_view(x.extras@) == sift(o, contact_keys())
}

pub open spec fn contact_fail(v: Val) -> ErrV {
    match v {
        Val::Obj(o) => {
            if !(match lookup(o, "name"@) {
                None => true,
                Some(n) => n is Str,
            }) {
                ErrV::Mismatch(seq!["name"@], "string"@)
            } else if !(match lookup(o, "url"@) {
                None => true,
                Some(u) => u is Str,
            }) {
                ErrV::Mismatch(seq!["url"@], "string"@)
            } else {
                ErrV::Mismatch(seq!["email"@], "string"@)
            }
        },
        _ => ErrV::Mismatch(Seq::empty(), "object"@),
    }
}

impl Contact {
    pub open spec fn wf(self) -> bool {
        &&& match self.url {
            None => true,
            Some(p) => url_lenv_wf(p@),
        }
        &&& match self.email {
            None => true,
            Some(p) => email_lenv_wf(p@),
        }
        &&& extras_wf(self.extras@, contact_keys())
    }

    /// Decodes a contact from a tree value.
    pub fn from_value(v: Any) -> (r: Result<Contact, DecodeError>)
        ensures
            match r {
                Ok(x) => contact_ok(v@) && contact_matches(v@, x) && x.wf(),
                Err(e) => !contact_ok(v@) && e@ == contact_fail(v@),
            },
    {
        let entries: Vec<(String, Any)> = match v {
            Any::Obj(o) => o,
            _ => {
                return Err(DecodeError::mismatch_node("object"));
            },
        };
        let mut known: Vec<&str> = Vec::new();
        known.push("name");
        known.push("url");
        known.push("email");
        proof {
            reveal_strlit("name");
            reveal_strlit("url");
            reveal_strlit("email");
            assert("name"@.len() == 4);
            assert("url"@.len() == 3);
            assert("email"@.len() == 5);
            assert(known@[0]@ == "name"@);
            assert(known@[1]@ == "url"@);
            assert(known@[2]@ == "email"@);
            assert(crate::record::names_view(known@) =~= contact_keys());
        }
        let (mut slots, extras) = split_fields(entries, &known);
        proof {
            lemma_split_extras_wf(extras@, entries_view(entries@), contact_keys());
        }
        let s_name = slots.remove(0);
        let s_url = slots.remove(0);
        let s_email = slots.remove(0);
        let name = match take_opt_string(s_name, "name") {
            Ok(t) => t,
            Err(e) => {
                return Err(e);
            },
        };
        let url = match take_opt_url(s_url, "url") {
            Ok(u) => u,
            Err(e) => {
                return Err(e);
            },
        };
        let email = match take_opt_email(s_email, "email") {
            Ok(m) => m,
            Err(e) => {
                return Err(e);
            },
        };
        Ok(Contact { name, url, email, extras })
    }

    /// The model of this record's encoding.
    pub open spec fn enc(self) -> Val {
        Val::Obj(
            (match self.name {
                Some(n) => seq![("name"@, Val::Str(n@))],
                None => Seq::empty(),
            }) + (match self.url {
                Some(p) => seq![("url"@, Val::Str(lenient_text(p@)))],
                None => Seq::empty(),
            }) + (match self.email {
                Some(p) => seq![("email"@, Val::Str(lenient_text(p@)))],
                None => Seq::empty(),
            }) + entries_view(self.extras@),
        )
    }

    /// Encodes this record back to a tree value.
    pub fn to_value(&self) -> (r: Any)
        ensures
            r@ == self.enc(),
    {
        let mut out: Vec<(String, Any)> = Vec::new();
        match &self.name {
            Some(n) => {
                out.push(("name".to_owned(), Any::Str(n.clone())));
            },
            None => {},
        }
        match &self.url {
            Some(p) => {
                out.push(("url".to_owned(), Any::Str(crate::shared::lenient_to_text(p))));
            },
            None => {},
        }
        match &self.email {
            Some(p) => {
                out.push(("email".to_owned(), Any::Str(crate::shared::lenient_to_text(p))));
            },
            None => {},
        }
        let mut ex = crate::value::duplicate_entries(&self.extras);
        let ghost gex = ex@;
        out.append(&mut ex);
        proof {
            lemma_entries_view(out@);
            lemma_entries_view(gex);
            lemma_entries_view(self.extras@);
            assert forall|t: int|
                0 <= t < gex.len() implies (gex[t].0@, gex[t].1@) == entries_view(
                self.extras@,
            )[t] by {
                assert(entries_view(gex)[t] == (gex[t].0@, gex[t].1@));
            }
            assert(entries_view(out@) =~= (match self.enc() {
                Val::Obj(o) => o,
                _ => Seq::empty(),
            }));
        }
        Any::Obj(out)
    }
}

pub open spec fn contact_eqv(a: Contact, b: Contact) -> bool {
    &&& match (a.name, b.name) {
        (None, None) => true,
        (Some(x), Some(y)) => x@ == y@,
        _ => false,
    }
    &&& match (a.url, b.url) {
        (None, None) => true,
        (Some(x), Some(y)) => x@ == y@,
        _ => false,
    }
    &&& match (a.email, b.email) {
        (None, None) => true,
        (Some(x), Some(y)) => x@ == y@,
        _ => false,
    }
    &&& entries_view(a.extras@) == entries_view(b.extras@)
}

/// A well-formed contact's encoding decodes, and its fields look up to
/// exactly what was encoded.
pub proof fn lemma_contact_enc_ok(x: Contact)
    requires
        x.wf(),
    ensures
        contact_ok(x.enc()),
        contact_matches(x.enc(), x),
{
    reveal_strlit("name");
    reveal_strlit("url");
    reveal_strlit("email");
    assert("name"@.len() == 4);
    assert("url"@.len() == 3);
    assert("email"@.len() == 5);
    let ks = contact_keys();
    let f1: Seq<(Seq<char>, Val)> = match x.name {
        Some(n) => seq![("name"@, Val::Str(n@))],
        None => Seq::empty(),
    };
    let f2: Seq<(Seq<char>, Val)> = match x.url {
        Some(p) => seq![("url"@, Val::Str(lenient_text(p@)))],
        None => Seq::empty(),
    };
    let f3: Seq<(Seq<char>, Val)> = match x.email {
        Some(p) => seq![("email"@, Val::Str(lenient_text(p@)))],
        None => Seq::empty(),
    };
    let ex = entries_view(x.extras@);
    let o = f1 + f2 + f3 + ex;
    lemma_entries_view(x.extras@);
    assert(ks.contains("name"@)) by {
        assert(ks[0] == "name"@);
    }
    assert(ks.contains("url"@)) by {
        assert(ks[1] == "url"@);
    }
    assert(ks.contains("email"@)) by {
        assert(ks[2] == "email"@);
    }
    assert forall|i: int| 0 <= i < ex.len() implies !ks.contains((#[trigger] ex[i]).0) by {
        assert(ex[i] == (x.extras@[i].0@, x.extras@[i].1@));
    }
    lemma_lookup_absent(ex, "name"@);
    lemma_lookup_absent(ex, "url"@);
    lemma_lookup_absent(ex, "email"@);
    match x.name {
        Some(n) => {
            lemma_lookup_single(("name"@, Val::Str(n@)), "name"@);
            lemma_lookup_single(("name"@, Val::Str(n@)), "url"@);
            lemma_lookup_single(("name"@, Val::Str(n@)), "email"@);
        },
        None => {
            assert(f1.len() == 0);
        },
    }
    match x.url {
        Some(p) => {
            lemma_lookup_single(("url"@, Val::Str(lenient_text(p@))), "name"@);
            lemma_lookup_single(("url"@, Val::Str(lenient_text(p@))), "url"@);
            lemma_lookup_single(("url"@, Val::Str(lenient_text(p@))), "email"@);
            crate::shared::lemma_lenient_url_round_trip(p@);
        },
        None => {
            assert(f2.len() == 0);
        },
    }
    match x.email {
        Some(p) => {
            lemma_lookup_single(("email"@, Val::Str(lenient_text(p@))), "name"@);
            lemma_lookup_single(("email"@, Val::Str(lenient_text(p@))), "url"@);
            lemma_lookup_single(("email"@, Val::Str(lenient_text(p@))), "email"@);
            crate::shared::lemma_lenient_email_round_trip(p@);
        },
        None => {
            assert(f3.len() == 0);
        },
    }
    lemma_lookup_concat(f1 + f2 + f3, ex, "name"@);
    lemma_lookup_concat(f1 + f2 + f3, ex, "url"@);
    lemma_lookup_concat(f1 + f2 + f3, ex, "email"@);
    lemma_lookup_concat(f1 + f2, f3, "name"@);
    lemma_lookup_concat(f1 + f2, f3, "url"@);
    lemma_lookup_concat(f1 + f2, f3, "email"@);
    lemma_lookup_concat(f1, f2, "name"@);
    lemma_lookup_concat(f1, f2, "url"@);
    lemma_lookup_concat(f1, f2, "email"@);
    lemma_sift_concat(f1 + f2 + f3, ex, ks);
    lemma_sift_concat(f1 + f2, f3, ks);
    lemma_sift_concat(f1, f2, ks);
    assert forall|i: int| 0 <= i < f1.len() implies ks.contains(#[trigger] f1[i].0) by {
        assert(f1[i] == f1[0]);
    }
    assert forall|i: int| 0 <= i < f2.len() implies ks.contains(#[trigger] f2[i].0) by {
        assert(f2[i] == f2[0]);
    }
    assert forall|i: int| 0 <= i < f3.len() implies ks.contains(#[trigger] f3[i].0) by {
        assert(f3[i] == f3[0]);
    }
    lemma_sift_all_known(f1, ks);
    lemma_sift_all_known(f2, ks);
    lemma_sift_all_known(f3, ks);
    lemma_sift_none_known(ex, ks);
    assert(sift(o, ks) =~= ex);
}

/// Decoding what a well-formed contact encodes to reproduces the record.
pub proof fn lemma_contact_round_trip(x: Contact, y: Contact)
    requires
        x.wf(),
        contact_matches(x.enc(), y),
    ensures
        contact_eqv(y, x),
{
    lemma_contact_enc_ok(x);
}

} // verus!
