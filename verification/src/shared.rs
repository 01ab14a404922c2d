//! The shared fidelity mechanisms: lenient scalars that degrade to raw text
//! instead of failing, slots that hold either inline data or a `$ref` token,
//! and open enumerations that keep unknown literals verbatim.
use vstd::prelude::*;

use crate::value::{Any, Val, entries_view, lemma_entries_view, lookup, str_eq};

verus! {

/// A value that stands for a more specific type than the text it arrived as,
/// but whose parsing might fail. A key example is a URL: if its text is a
/// valid URL the value decodes as `Valid` holding the parsed form's
/// serialization, and otherwise it decodes as `Invalid` holding the text
/// unchanged, never as a decode failure.
#[derive(Debug, PartialEq)]
pub enum Parseable<V> {
    Valid(V),
    Invalid(String),
}

impl<V> Parseable<V> {
    pub fn is_valid(&self) -> (r: bool)
        ensures
            r == (self is Valid),
    {
        match self {
            Parseable::Valid(_) => true,
            Parseable::Invalid(_) => false,
        }
    }
}

/// The mathematical model of a lenient text scalar.
#[verifier::ext_equal]
pub ghost enum LenV {
    Valid(Seq<char>),
    Invalid(Seq<char>),
}

impl View for Parseable<String> {
    type V = LenV;

    open spec fn view(&self) -> LenV {
        match self {
            Parseable::Valid(s) => LenV::Valid(s@),
            Parseable::Invalid(s) => LenV::Invalid(s@),
        }
    }
}

/// The text a lenient scalar is encoded as: a valid value's canonical form,
/// an invalid one's original text.
pub open spec fn lenient_text(p: LenV) -> Seq<char> {
    match p {
        LenV::Valid(c) => c,
        LenV::Invalid(s) => s,
    }
}

/// The serialization of the URL a string parses as, or nothing where the
/// string is not a valid URL.
pub uninterp spec fn url_norm(s: Seq<char>) -> Option<Seq<char>>;

/// Relies on url::Url::parse and Url::as_str: whether a string parses, and
/// the parsed URL's serialization, depend on the string's characters alone,
/// and parsing a serialization reproduces it.
#[verifier::external_body]
fn parse_url(s: &str) -> (r: Option<String>)
    ensures
        r is Some <==> url_norm(s@) is Some,
        r matches Some(c) ==> url_norm(s@) == Some(c@) && url_norm(c@) == Some(c@),
{
    match url::Url::parse(s) {
        Ok(u) => Some(u.as_str().to_owned()),
        Err(_) => None,
    }
}

/// The canonical form of the semantic version a string parses as, or nothing
/// where the string is not a valid version.
pub uninterp spec fn semver_norm(s: Seq<char>) -> Option<Seq<char>>;

/// Relies on semver::Version::parse and its Display form: both depend on the
/// string's characters alone, and parsing a displayed version reproduces it.
#[verifier::external_body]
fn parse_semver(s: &str) -> (r: Option<String>)
    ensures
        r is Some <==> semver_norm(s@) is Some,
        r matches Some(c) ==> semver_norm(s@) == Some(c@) && semver_norm(c@) == Some(c@),
{
    match s.parse::<semver::Version>() {
        Ok(v) => Some(v.to_string()),
        Err(_) => None,
    }
}

/// Whether a string is a valid email address.
pub uninterp spec fn email_ok(s: Seq<char>) -> bool;

/// Relies on email_address::EmailAddress::is_valid: validity depends on the
/// string's characters alone. A valid address is carried verbatim, so no
/// canonical form is needed.
#[verifier::external_body]
fn check_email(s: &str) -> (r: bool)
    ensures
        r == email_ok(s@),
{
    email_address::EmailAddress::is_valid(s)
}

/// What decoding a URL-typed lenient scalar from its text yields.
pub open spec fn lenient_url_spec(t: Seq<char>) -> LenV {
    match url_norm(t) {
        Some(c) => LenV::Valid(c),
        None => LenV::Invalid(t),
    }
}

/// What decoding a version-typed lenient scalar from its text yields.
pub open spec fn lenient_semver_spec(t: Seq<char>) -> LenV {
    match semver_norm(t) {
        Some(c) => LenV::Valid(c),
        None => LenV::Invalid(t),
    }
}

/// What decoding an email-typed lenient scalar from its text yields.
pub open spec fn lenient_email_spec(t: Seq<char>) -> LenV {
    if email_ok(t) {
        LenV::Valid(t)
    } else {
        LenV::Invalid(t)
    }
}

/// Decodes a URL field's text. Never fails: invalid text is kept raw.
pub fn lenient_url(text: String) -> (r: Parseable<String>)
    ensures
        r@ == lenient_url_spec(text@),
        url_lenv_wf(r@),
{
    match parse_url(text.as_str()) {
        Some(c) => Parseable::Valid(c),
        None => Parseable::Invalid(text),
    }
}

/// Decodes a version field's text. Never fails: invalid text is kept raw.
pub fn lenient_semver(text: String) -> (r: Parseable<String>)
    ensures
        r@ == lenient_semver_spec(text@),
        semver_lenv_wf(r@),
{
    match parse_semver(text.as_str()) {
        Some(c) => Parseable::Valid(c),
        None => Parseable::Invalid(text),
    }
}

/// Decodes an email field's text. Never fails: invalid text is kept raw.
pub fn lenient_email(text: String) -> (r: Parseable<String>)
    ensures
        r@ == lenient_email_spec(text@),
        email_lenv_wf(r@),
{
    if check_email(text.as_str()) {
        Parseable::Valid(text)
    } else {
        Parseable::Invalid(text)
    }
}

/// A decoded URL scalar as it sits in a record: a valid one holds a
/// serialization that reparses to itself, an invalid one holds text that does
/// not parse.
pub open spec fn url_lenv_wf(p: LenV) -> bool {
    match p {
        LenV::Valid(c) => url_norm(c) == Some(c),
        LenV::Invalid(s) => url_norm(s) is None,
    }
}

pub open spec fn semver_lenv_wf(p: LenV) -> bool {
    match p {
        LenV::Valid(c) => semver_norm(c) == Some(c),
        LenV::Invalid(s) => semver_norm(s) is None,
    }
}

pub open spec fn email_lenv_wf(p: LenV) -> bool {
    match p {
        LenV::Valid(c) => email_ok(c),
        LenV::Invalid(s) => !email_ok(s),
    }
}

/// Lenient fallback: semantically invalid text decodes to a raw value, never
/// to a failure.
pub proof fn lemma_lenient_fallback(t: Seq<char>)
    ensures
        url_norm(t) is None ==> lenient_url_spec(t) == LenV::Invalid(t),
        semver_norm(t) is None ==> lenient_semver_spec(t) == LenV::Invalid(t),
        !email_ok(t) ==> lenient_email_spec(t) == LenV::Invalid(t),
{
}

/// Re-decoding the text a decoded scalar encodes as reproduces the scalar:
/// a lenient field is stable under one more encode/decode round.
pub proof fn lemma_lenient_url_round_trip(p: LenV)
    requires
        url_lenv_wf(p),
    ensures
        lenient_url_spec(lenient_text(p)) == p,
{
}

pub proof fn lemma_lenient_semver_round_trip(p: LenV)
    requires
        semver_lenv_wf(p),
    ensures
        lenient_semver_spec(lenient_text(p)) == p,
{
}

pub proof fn lemma_lenient_email_round_trip(p: LenV)
    requires
        email_lenv_wf(p),
    ensures
        lenient_email_spec(lenient_text(p)) == p,
{
}

/// Takes an optional URL-typed lenient field out of its slot: string text is
/// always accepted, parsed where valid and kept raw where not.
pub fn take_opt_url(slot: Option<Any>, name: &str) -> (r: Result<
    Option<Parseable<String>>,
    crate::error::DecodeError,
>)
    ensures
        match r {
            Ok(p) => match p {
                Some(pp) => crate::record::opt_view(slot) matches Some(Val::Str(t)) && pp@
                    == lenient_url_spec(t) && url_lenv_wf(pp@),
                None => slot is None,
            },
            Err(e) => slot matches Some(v) && !(v@ is Str) && e@ == crate::error::ErrV::Mismatch(
                seq![name@],
                "string"@,
            ),
        },
{
    match slot {
        None => Ok(None),
        Some(Any::Str(s)) => Ok(Some(lenient_url(s))),
        Some(_) => Err(crate::error::DecodeError::mismatch_here(name, "string")),
    }
}

/// Takes a required URL-typed lenient field out of its slot.
pub fn take_req_url(slot: Option<Any>, name: &str) -> (r: Result<
    Parseable<String>,
    crate::error::DecodeError,
>)
    ensures
        match r {
            Ok(pp) => crate::record::opt_view(slot) matches Some(Val::Str(t)) && pp@
                == lenient_url_spec(t) && url_lenv_wf(pp@),
            Err(e) => {
                ||| (slot is None && e@ == crate::error::ErrV::Missing(seq![name@]))
                ||| (slot matches Some(v) && !(v@ is Str) && e@ == crate::error::ErrV::Mismatch(
                    seq![name@],
                    "string"@,
                ))
            },
        },
{
    match slot {
        None => Err(crate::error::DecodeError::missing_here(name)),
        Some(Any::Str(s)) => Ok(lenient_url(s)),
        Some(_) => Err(crate::error::DecodeError::mismatch_here(name, "string")),
    }
}

/// Takes an optional email-typed lenient field out of its slot.
pub fn take_opt_email(slot: Option<Any>, name: &str) -> (r: Result<
    Option<Parseable<String>>,
    crate::error::DecodeError,
>)
    ensures
        match r {
            Ok(p) => match p {
                Some(pp) => crate::record::opt_view(slot) matches Some(Val::Str(t)) && pp@
                    == lenient_email_spec(t) && email_lenv_wf(pp@),
                None => slot is None,
            },
            Err(e) => slot matches Some(v) && !(v@ is Str) && e@ == crate::error::ErrV::Mismatch(
                seq![name@],
                "string"@,
            ),
        },
{
    match slot {
        None => Ok(None),
        Some(Any::Str(s)) => Ok(Some(lenient_email(s))),
        Some(_) => Err(crate::error::DecodeError::mismatch_here(name, "string")),
    }
}

/// Takes a required version-typed lenient field out of its slot.
pub fn take_req_semver(slot: Option<Any>, name: &str) -> (r: Result<
    Parseable<String>,
    crate::error::DecodeError,
>)
    ensures
        match r {
            Ok(pp) => crate::record::opt_view(slot) matches Some(Val::Str(t)) && pp@
                == lenient_semver_spec(t) && semver_lenv_wf(pp@),
            Err(e) => {
                ||| (slot is None && e@ == crate::error::ErrV::Missing(seq![name@]))
                ||| (slot matches Some(v) && !(v@ is Str) && e@ == crate::error::ErrV::Mismatch(
                    seq![name@],
                    "string"@,
                ))
            },
        },
{
    match slot {
        None => Err(crate::error::DecodeError::missing_here(name)),
        Some(Any::Str(s)) => Ok(lenient_semver(s)),
        Some(_) => Err(crate::error::DecodeError::mismatch_here(name, "string")),
    }
}

/// The text a lenient scalar encodes as, as an owned string.
pub fn lenient_to_text(p: &Parseable<String>) -> (r: String)
    ensures
        r@ == lenient_text(p@),
{
    match p {
        Parseable::Valid(c) => c.clone(),
        Parseable::Invalid(s) => s.clone(),
    }
}

/// A simple object that references another component of the document: in the
/// textual form, a mapping holding the reference token under the `$ref` key.
#[derive(Debug, PartialEq)]
pub struct Reference {
    /// The reference string, exposed in the document under its `$ref` name.
    pub _ref: String,
}

impl View for Reference {
    type V = Seq<char>;

    open spec fn view(&self) -> Seq<char> {
        self._ref@
    }
}

/// A slot that holds either inline data of a node type or a reference to
/// data defined elsewhere.
#[derive(Debug, PartialEq)]
pub enum Referenceable<T> {
    Data(T),
    Reference(Reference),
}

impl<T> Referenceable<T> {
    pub fn is_reference(&self) -> (r: bool)
        ensures
            r == (self is Reference),
    {
        match self {
            Referenceable::Data(_) => false,
            Referenceable::Reference(_) => true,
        }
    }
}

/// The token a node carries under its `$ref` key, where that key is present
/// with string shape. Such a node always decodes as a reference, whatever
/// else it holds: the marker key takes unconditional precedence over any
/// inline interpretation. A reference token is a string, so a non-string
/// value under the marker key is no marker at all: the node then decodes
/// inline, and that entry rides along verbatim in the record's extras.
pub open spec fn ref_token_of(v: Val) -> Option<Seq<char>> {
    match v {
        Val::Obj(o) => match lookup(o, "$ref"@) {
            Some(Val::Str(t)) => Some(t),
            _ => None,
        },
        _ => None,
    }
}

/// Scans a mapping's entries for a string-shaped `$ref` marker.
pub fn find_ref_token(entries: &Vec<(String, Any)>) -> (r: Option<String>)
    ensures
        match r {
            Some(t) => ref_token_of(Val::Obj(entries_view(entries@))) == Some(t@),
            None => ref_token_of(Val::Obj(entries_view(entries@))) is None,
        },
{
    let ghost o = entries_view(entries@);
    proof {
        lemma_entries_view(entries@);
    }
    let n = entries.len();
    let mut i: usize = 0;
    while i < n
        invariant
            n == entries.len(),
            0 <= i <= n,
            o == entries_view(entries@),
            o.len() == n,
            forall|j: int| 0 <= j < n ==> o[j] == (entries@[j].0@, entries@[j].1@),
            lookup(o.take(i as int), "$ref"@) is None,
        decreases n - i,
    {
        let k: &String = &entries[i].0;
        proof {
            lemma_lookup_take_one(o, i as int, "$ref"@);
        }
        if str_eq(k.as_str(), "$ref") {
            match &entries[i].1 {
                Any::Str(t) => {
                    let tok = t.clone();
                    return Some(tok);
                },
                _ => {
                    return None;
                },
            }
        }
        i = i + 1;
    }
    proof {
        assert(o.take(n as int) =~= o);
    }
    None
}

/// Extends a first-match lookup over a prefix by one entry.
pub proof fn lemma_lookup_take_one(o: Seq<(Seq<char>, Val)>, i: int, k: Seq<char>)
    requires
        0 <= i < o.len(),
        lookup(o.take(i), k) is None,
    ensures
        o[i].0 == k ==> lookup(o, k) == Some(o[i].1),
        o[i].0 != k ==> (lookup(o.take(i + 1), k) is None),
    decreases i,
{
    if i == 0 {
        if o[0].0 != k {
            assert(o.take(1).drop_first() =~= Seq::<(Seq<char>, Val)>::empty());
        }
    } else {
        assert(o.take(i)[0] == o[0]);
        if o[0].0 == k {
            assert(lookup(o.take(i), k) == Some(o[0].1));
        } else {
            assert(o.take(i).drop_first() =~= o.drop_first().take(i - 1));
            assert(o.take(i + 1).drop_first() =~= o.drop_first().take(i));
            assert(o.drop_first()[i - 1] == o[i]);
            lemma_lookup_take_one(o.drop_first(), i - 1, k);
        }
    }
}

/// Allows referencing an external resource for extended documentation.
#[derive(Debug, PartialEq)]
pub struct ExternalDocumentation {
    /// A short description of the target documentation.
    pub description: Option<String>,
    /// The URL for the target documentation. Kept raw when invalid.
    pub url: Parseable<String>,
    /// Every field of the source mapping outside this record's schema,
    /// retained verbatim.
    pub extras: Vec<(String, Any)>,
}

pub open spec fn extdoc_keys() -> Seq<Seq<char>> {
    seq!["description"@, "url"@]
}

pub open spec fn extdoc_ok(v: Val) -> bool {
    &&& v matches Val::Obj(o)
    &&& match lookup(o, "description"@) {
        None => true,
        Some(d) => d is Str,
    }
    &&& lookup(o, "url"@) matches Some(Val::Str(_))
}

pub open spec fn extdoc_matches(v: Val, x: ExternalDocumentation) -> bool {
    &&& v matches Val::Obj(o)
    &&& match lookup(o, "description"@) {
        None => x.description is None,
        Some(d) => x.description matches Some(t) && d == Val::Str(t@),
    }
    &&& lookup(o, "url"@) matches Some(Val::Str(t)) && x.url@ == lenient_url_spec(t)
    &&& crate::value::entries_view(x.extras@) == crate::value::sift(o, extdoc_keys())
}

pub open spec fn extdoc_fail(v: Val) -> crate::error::ErrV {
    match v {
        Val::Obj(o) => {
            if !(match lookup(o, "description"@) {
                None => true,
                Some(d) => d is Str,
            }) {
                crate::error::ErrV::Mismatch(seq!["description"@], "string"@)
            } else if lookup(o, "url"@) is None {
                crate::error::ErrV::Missing(seq!["url"@])
            } else {
                crate::error::ErrV::Mismatch(seq!["url"@], "string"@)
            }
        },
        _ => crate::error::ErrV::Mismatch(Seq::empty(), "object"@),
    }
}

impl ExternalDocumentation {
    pub open spec fn wf(self) -> bool {
        &&& url_lenv_wf(self.url@)
        &&& crate::record::extras_wf(self.extras@, extdoc_keys())
    }

    /// Decodes an external-documentation record from a tree value.
    pub fn from_value(v: Any) -> (r: Result<ExternalDocumentation, crate::error::DecodeError>)
        ensures
            match r {
                Ok(x) => extdoc_ok(v@) && extdoc_matches(v@, x) && x.wf(),
                Err(e) => !extdoc_ok(v@) && e@ == extdoc_fail(v@),
            },
    {
        let entries: Vec<(String, Any)> = match v {
            Any::Obj(o) => o,
            _ => {
                return Err(crate::error::DecodeError::mismatch_node("object"));
            },
        };
        let mut known: Vec<&str> = Vec::new();
        known.push("description");
        known.push("url");
        proof {
            reveal_strlit("description");
            reveal_strlit("url");
            assert("description"@.len() == 11);
            assert("url"@.len() == 3);
            assert(known@[0]@ == "description"@);
            assert(known@[1]@ == "url"@);
            assert(crate::record::names_view(known@) =~= extdoc_keys());
        }
        let (mut slots, extras) = crate::record::split_fields(entries, &known);
        proof {
            crate::record::lemma_split_extras_wf(
                extras@,
                crate::value::entries_view(entries@),
                extdoc_keys(),
            );
        }
        let s_desc = slots.remove(0);
        let s_url = slots.remove(0);
        let description = match crate::record::take_opt_string(s_desc, "description") {
            Ok(d) => d,
            Err(e) => {
                return Err(e);
            },
        };
        let url = match take_req_url(s_url, "url") {
            Ok(u) => u,
            Err(e) => {
                return Err(e);
            },
        };
        Ok(ExternalDocumentation { description, url, extras })
    }

    /// The model of this record's encoding.
    pub open spec fn enc(self) -> Val {
        Val::Obj(
            (match self.description {
                Some(d) => seq![("description"@, Val::Str(d@))],
                None => Seq::empty(),
            }) + seq![("url"@, Val::Str(lenient_text(self.url@)))]
                + crate::value::entries_view(self.extras@),
        )
    }

    /// Encodes this record back to a tree value.
    pub fn to_value(&self) -> (r: Any)
        ensures
            r@ == self.enc(),
    {
        let mut out: Vec<(String, Any)> = Vec::new();
        match &self.description {
            Some(d) => {
                out.push(("description".to_owned(), Any::Str(d.clone())));
            },
            None => {},
        }
        out.push(("url".to_owned(), Any::Str(lenient_to_text(&self.url))));
        let mut ex = crate::value::duplicate_entries(&self.extras);
        let ghost gex = ex@;
        out.append(&mut ex);
        proof {
            crate::value::lemma_entries_view(out@);
            crate::value::lemma_entries_view(gex);
            crate::value::lemma_entries_view(self.extras@);
            assert forall|t: int|
                0 <= t < gex.len() implies (gex[t].0@, gex[t].1@) == crate::value::entries_view(
                self.extras@,
            )[t] by {
                assert(crate::value::entries_view(gex)[t] == (gex[t].0@, gex[t].1@));
            }
            assert(crate::value::entries_view(out@) =~= (match self.enc() {
                Val::Obj(o) => o,
                _ => Seq::empty(),
            }));
        }
        Any::Obj(out)
    }
}

pub open spec fn extdoc_eqv(a: ExternalDocumentation, b: ExternalDocumentation) -> bool {
    &&& match (a.description, b.description) {
        (None, None) => true,
        (Some(x), Some(y)) => x@ == y@,
        _ => false,
    }
    &&& a.url@ == b.url@
    &&& crate::value::entries_view(a.extras@) == crate::value::entries_view(b.extras@)
}

/// A well-formed external-documentation record's encoding decodes, and its
/// fields look up to exactly what was encoded.
pub proof fn lemma_extdoc_enc_ok(x: ExternalDocumentation)
    requires
        x.wf(),
    ensures
        extdoc_ok(x.enc()),
        extdoc_matches(x.enc(), x),
{
    reveal_strlit("description");
    reveal_strlit("url");
    assert("description"@.len() == 11);
    assert("url"@.len() == 3);
    let ks = extdoc_keys();
    let f1: Seq<(Seq<char>, Val)> = match x.description {
        Some(d) => seq![("description"@, Val::Str(d@))],
        None => Seq::empty(),
    };
    let f2: Seq<(Seq<char>, Val)> = seq![("url"@, Val::Str(lenient_text(x.url@)))];
    let ex = crate::value::entries_view(x.extras@);
    let o = f1 + f2 + ex;
    crate::value::lemma_entries_view(x.extras@);
    assert(ks.contains("description"@)) by {
        assert(ks[0] == "description"@);
    }
    assert(ks.contains("url"@)) by {
        assert(ks[1] == "url"@);
    }
    assert forall|i: int| 0 <= i < ex.len() implies !ks.contains((#[trigger] ex[i]).0) by {
        assert(ex[i] == (x.extras@[i].0@, x.extras@[i].1@));
    }
    crate::value::lemma_lookup_absent(ex, "description"@);
    crate::value::lemma_lookup_absent(ex, "url"@);
    match x.description {
        Some(d) => {
            crate::value::lemma_lookup_single(("description"@, Val::Str(d@)), "description"@);
            crate::value::lemma_lookup_single(("description"@, Val::Str(d@)), "url"@);
        },
        None => {
            assert(f1.len() == 0);
        },
    }
    crate::value::lemma_lookup_single(("url"@, Val::Str(lenient_text(x.url@))), "description"@);
    crate::value::lemma_lookup_single(("url"@, Val::Str(lenient_text(x.url@))), "url"@);
    lemma_lenient_url_round_trip(x.url@);
    crate::value::lemma_lookup_concat(f1 + f2, ex, "description"@);
    crate::value::lemma_lookup_concat(f1 + f2, ex, "url"@);
    crate::value::lemma_lookup_concat(f1, f2, "description"@);
    crate::value::lemma_lookup_concat(f1, f2, "url"@);
    crate::value::lemma_sift_concat(f1 + f2, ex, ks);
    crate::value::lemma_sift_concat(f1, f2, ks);
    assert forall|i: int| 0 <= i < f1.len() implies ks.contains(#[trigger] f1[i].0) by {
        assert(f1[i] == f1[0]);
    }
    crate::value::lemma_sift_all_known(f1, ks);
    crate::value::lemma_sift_all_known(f2, ks);
    crate::value::lemma_sift_none_known(ex, ks);
    assert(crate::value::sift(o, ks) =~= ex);
}

/// Decoding what a well-formed external-documentation record encodes to
/// reproduces the record.
pub proof fn lemma_extdoc_round_trip(x: ExternalDocumentation, y: ExternalDocumentation)
    requires
        x.wf(),
        extdoc_matches(x.enc(), y),
    ensures
        extdoc_eqv(y, x),
{
    lemma_extdoc_enc_ok(x);
}

/// Equivalent external-documentation records share one encoding.
pub proof fn lemma_extdoc_eqv_enc(a: ExternalDocumentation, b: ExternalDocumentation)
    requires
        extdoc_eqv(b, a),
    ensures
        a.enc() == b.enc(),
{
    assert(a.enc() =~~= b.enc());
}

/// Adds metadata to a single tag used by an operation.
#[derive(Debug, PartialEq)]
pub struct Tag {
    /// The name of the tag.
    pub name: String,
    /// A short description for the tag.
    pub description: Option<String>,
    /// Additional external documentation for this tag; exposed in the
    /// document under its `externalDocs` name.
    pub external_docs: Option<ExternalDocumentation>,
    /// Every field of the source mapping outside this record's schema,
    /// retained verbatim.
    pub extras: Vec<(String, Any)>,
}

pub open spec fn tag_keys() -> Seq<Seq<char>> {
    seq!["name"@, "description"@, "externalDocs"@]
}

pub open spec fn tag_ok(v: Val) -> bool {
    &&& v matches Val::Obj(o)
    &&& lookup(o, "name"@) matches Some(Val::Str(_))
    &&& match lookup(o, "description"@) {
        None => true,
        Some(d) => d is Str,
    }
    &&& match lookup(o, "externalDocs"@) {
        None => true,
        Some(d) => extdoc_ok(d),
    }
}

pub open spec fn tag_matches(v: Val, x: Tag) -> bool {
    &&& v matches Val::Obj(o)
    &&& lookup(o, "name"@) == Some(Val::Str(x.name@))
    &&& match lookup(o, "description"@) {
        None => x.description is None,
        Some(d) => x.description matches Some(t) && d == Val::Str(t@),
    }
    &&& match lookup(o, "externalDocs"@) {
        None => x.external_docs is None,
        Some(d) => x.external_docs matches Some(ed) && extdoc_matches(d, ed),
    }
    &&& crate::value::entries_view(x.extras@) == crate::value::sift(o, tag_keys())
}

pub open spec fn tag_fail(v: Val) -> crate::error::ErrV {
    match v {
        Val::Obj(o) => {
            if lookup(o, "name"@) is None {
                crate::error::ErrV::Missing(seq!["name"@])
            } else if !(lookup(o, "name"@) matches Some(Val::Str(_))) {
                crate::error::ErrV::Mismatch(seq!["name"@], "string"@)
            } else if !(match lookup(o, "description"@) {
                None => true,
                Some(d) => d is Str,
            }) {
                crate::error::ErrV::Mismatch(seq!["description"@], "string"@)
            } else {
                match lookup(o, "externalDocs"@) {
                    Some(d) => crate::error::prefixed("externalDocs"@, extdoc_fail(d)),
                    None => arbitrary(),
                }
            }
        },
        _ => crate::error::ErrV::Mismatch(Seq::empty(), "object"@),
    }
}

impl Tag {
    pub open spec fn wf(self) -> bool {
        &&& match self.external_docs {
            None => true,
            Some(ed) => ed.wf(),
        }
        &&& crate::record::extras_wf(self.extras@, tag_keys())
    }

    /// A tag with the given name and description and nothing else.
    pub fn new(name: String, description: Option<String>) -> (r: Tag)
        ensures
            r.name == name,
            r.description == description,
            r.external_docs is None,
            r.extras@.len() == 0,
            r.wf(),
    {
        Tag { name, description, external_docs: None, extras: Vec::new() }
    }

    /// Decodes a tag from a tree value.
    pub fn from_value(v: Any) -> (r: Result<Tag, crate::error::DecodeError>)
        ensures
            match r {
                Ok(x) => tag_ok(v@) && tag_matches(v@, x) && x.wf(),
                Err(e) => !tag_ok(v@) && e@ == tag_fail(v@),
            },
    {
        let entries: Vec<(String, Any)> = match v {
            Any::Obj(o) => o,
            _ => {
                return Err(crate::error::DecodeError::mismatch_node("object"));
            },
        };
        let mut known: Vec<&str> = Vec::new();
        known.push("name");
        known.push("description");
        known.push("externalDocs");
        proof {
            reveal_strlit("name");
            reveal_strlit("description");
            reveal_strlit("externalDocs");
            assert("name"@.len() == 4);
            assert("description"@.len() == 11);
            assert("externalDocs"@.len() == 12);
            assert(known@[0]@ == "name"@);
            assert(known@[1]@ == "description"@);
            assert(known@[2]@ == "externalDocs"@);
            assert(crate::record::names_view(known@) =~= tag_keys());
        }
        let (mut slots, extras) = crate::record::split_fields(entries, &known);
        proof {
            crate::record::lemma_split_extras_wf(
                extras@,
                crate::value::entries_view(entries@),
                tag_keys(),
            );
        }
        let s_name = slots.remove(0);
        let s_desc = slots.remove(0);
        let s_docs = slots.remove(0);
        let name = match crate::record::take_req_string(s_name, "name") {
            Ok(t) => t,
            Err(e) => {
                return Err(e);
            },
        };
        let description = match crate::record::take_opt_string(s_desc, "description") {
            Ok(d) => d,
            Err(e) => {
                return Err(e);
            },
        };
        let external_docs = match s_docs {
            None => None,
            Some(dv) => match ExternalDocumentation::from_value(dv) {
                Ok(ed) => Some(ed),
                Err(e) => {
                    return Err(e.under("externalDocs"));
                },
            },
        };
        Ok(Tag { name, description, external_docs, extras })
    }

    /// The model of this record's encoding.
    pub open spec fn enc(self) -> Val {
        Val::Obj(
            seq![("name"@, Val::Str(self.name@))] + (match self.description {
                Some(d) => seq![("description"@, Val::Str(d@))],
                None => Seq::empty(),
            }) + (match self.external_docs {
                Some(ed) => seq![("externalDocs"@, ed.enc())],
                None => Seq::empty(),
            }) + crate::value::entries_view(self.extras@),
        )
    }

    /// Encodes this record back to a tree value.
    pub fn to_value(&self) -> (r: Any)
        ensures
            r@ == self.enc(),
    {
        let mut out: Vec<(String, Any)> = Vec::new();
        out.push(("name".to_owned(), Any::Str(self.name.clone())));
        match &self.description {
            Some(d) => {
                out.push(("description".to_owned(), Any::Str(d.clone())));
            },
            None => {},
        }
        match &self.external_docs {
            Some(ed) => {
                out.push(("externalDocs".to_owned(), ed.to_value()));
            },
            None => {},
        }
        let mut ex = crate::value::duplicate_entries(&self.extras);
        let ghost gex = ex@;
        out.append(&mut ex);
        proof {
            crate::value::lemma_entries_view(out@);
            crate::value::lemma_entries_view(gex);
            crate::value::lemma_entries_view(self.extras@);
            assert forall|t: int|
                0 <= t < gex.len() implies (gex[t].0@, gex[t].1@) == crate::value::entries_view(
                self.extras@,
            )[t] by {
                assert(crate::value::entries_view(gex)[t] == (gex[t].0@, gex[t].1@));
            }
            assert(crate::value::entries_view(out@) =~= (match self.enc() {
                Val::Obj(o) => o,
                _ => Seq::empty(),
            }));
        }
        Any::Obj(out)
    }
}

pub open spec fn tag_eqv(a: Tag, b: Tag) -> bool {
    &&& a.name@ == b.name@
    &&& match (a.description, b.description) {
        (None, None) => true,
        (Some(x), Some(y)) => x@ == y@,
        _ => false,
    }
    &&& match (a.external_docs, b.external_docs) {
        (None, None) => true,
        (Some(x), Some(y)) => extdoc_eqv(x, y),
        _ => false,
    }
    &&& crate::value::entries_view(a.extras@) == crate::value::entries_view(b.extras@)
}

/// A well-formed tag's encoding decodes, and its fields look up to exactly
/// what was encoded.
pub proof fn lemma_tag_enc_ok(x: Tag)
    requires
        x.wf(),
    ensures
        tag_ok(x.enc()),
        tag_matches(x.enc(), x),
        x.external_docs matches Some(ed) ==> (x.enc() matches Val::Obj(o) && lookup(
            o,
            "externalDocs"@,
        ) == Some(ed.enc())),
{
    reveal_strlit("name");
    reveal_strlit("description");
    reveal_strlit("externalDocs");
    assert("name"@.len() == 4);
    assert("description"@.len() == 11);
    assert("externalDocs"@.len() == 12);
    let ks = tag_keys();
    let f1: Seq<(Seq<char>, Val)> = seq![("name"@, Val::Str(x.name@))];
    let f2: Seq<(Seq<char>, Val)> = match x.description {
        Some(d) => seq![("description"@, Val::Str(d@))],
        None => Seq::empty(),
    };
    let f3: Seq<(Seq<char>, Val)> = match x.external_docs {
        Some(ed) => seq![("externalDocs"@, ed.enc())],
        None => Seq::empty(),
    };
    let ex = crate::value::entries_view(x.extras@);
    let o = f1 + f2 + f3 + ex;
    crate::value::lemma_entries_view(x.extras@);
    assert(ks.contains("name"@)) by {
        assert(ks[0] == "name"@);
    }
    assert(ks.contains("description"@)) by {
        assert(ks[1] == "description"@);
    }
    assert(ks.contains("externalDocs"@)) by {
        assert(ks[2] == "externalDocs"@);
    }
    assert forall|i: int| 0 <= i < ex.len() implies !ks.contains((#[trigger] ex[i]).0) by {
        assert(ex[i] == (x.extras@[i].0@, x.extras@[i].1@));
    }
    crate::value::lemma_lookup_absent(ex, "name"@);
    crate::value::lemma_lookup_absent(ex, "description"@);
    crate::value::lemma_lookup_absent(ex, "externalDocs"@);
    crate::value::lemma_lookup_single(("name"@, Val::Str(x.name@)), "name"@);
    crate::value::lemma_lookup_single(("name"@, Val::Str(x.name@)), "description"@);
    crate::value::lemma_lookup_single(("name"@, Val::Str(x.name@)), "externalDocs"@);
    match x.description {
        Some(d) => {
            crate::value::lemma_lookup_single(("description"@, Val::Str(d@)), "name"@);
            crate::value::lemma_lookup_single(("description"@, Val::Str(d@)), "description"@);
            crate::value::lemma_lookup_single(("description"@, Val::Str(d@)), "externalDocs"@);
        },
        None => {
            assert(f2.len() == 0);
        },
    }
    match x.external_docs {
        Some(ed) => {
            crate::value::lemma_lookup_single(("externalDocs"@, ed.enc()), "name"@);
            crate::value::lemma_lookup_single(("externalDocs"@, ed.enc()), "description"@);
            crate::value::lemma_lookup_single(("externalDocs"@, ed.enc()), "externalDocs"@);
            lemma_extdoc_enc_ok(ed);
        },
        None => {
            assert(f3.len() == 0);
        },
    }
    crate::value::lemma_lookup_concat(f1 + f2 + f3, ex, "name"@);
    crate::value::lemma_lookup_concat(f1 + f2 + f3, ex, "description"@);
    crate::value::lemma_lookup_concat(f1 + f2 + f3, ex, "externalDocs"@);
    crate::value::lemma_lookup_concat(f1 + f2, f3, "name"@);
    crate::value::lemma_lookup_concat(f1 + f2, f3, "description"@);
    crate::value::lemma_lookup_concat(f1 + f2, f3, "externalDocs"@);
    crate::value::lemma_lookup_concat(f1, f2, "name"@);
    crate::value::lemma_lookup_concat(f1, f2, "description"@);
    crate::value::lemma_lookup_concat(f1, f2, "externalDocs"@);
    crate::value::lemma_sift_concat(f1 + f2 + f3, ex, ks);
    crate::value::lemma_sift_concat(f1 + f2, f3, ks);
    crate::value::lemma_sift_concat(f1, f2, ks);
    assert forall|i: int| 0 <= i < f2.len() implies ks.contains(#[trigger] f2[i].0) by {
        assert(f2[i] == f2[0]);
    }
    assert forall|i: int| 0 <= i < f3.len() implies ks.contains(#[trigger] f3[i].0) by {
        assert(f3[i] == f3[0]);
    }
    crate::value::lemma_sift_all_known(f1, ks);
    crate::value::lemma_sift_all_known(f2, ks);
    crate::value::lemma_sift_all_known(f3, ks);
    crate::value::lemma_sift_none_known(ex, ks);
    assert(crate::value::sift(o, ks) =~= ex);
}

/// Decoding what a well-formed tag encodes to reproduces the record.
pub proof fn lemma_tag_round_trip(x: Tag, y: Tag)
    requires
        x.wf(),
        tag_matches(x.enc(), y),
    ensures
        tag_eqv(y, x),
{
    lemma_tag_enc_ok(x);
    match (x.external_docs, y.external_docs) {
        (Some(a), Some(b)) => {
            assert(extdoc_matches(a.enc(), b));
            lemma_extdoc_round_trip(a, b);
        },
        _ => {},
    }
}

/// An example of a value, with its literal payload carried verbatim.
#[derive(Debug, PartialEq)]
pub struct Example {
    /// Short description for the example.
    pub summary: Option<String>,
    /// Long description for the example.
    pub description: Option<String>,
    /// Embedded literal example, carried verbatim.
    pub value: Option<Any>,
    /// A reference to an external example; exposed in the document under its
    /// `externalValue` name.
    pub external_value: Option<String>,
    /// Every field of the source mapping outside this record's schema,
    /// retained verbatim.
    pub extras: Vec<(String, Any)>,
}

pub open spec fn example_keys() -> Seq<Seq<char>> {
    seq!["summary"@, "description"@, "value"@, "externalValue"@]
}

pub open spec fn example_ok(v: Val) -> bool {
    &&& v matches Val::Obj(o)
    &&& match lookup(o, "summary"@) {
        None => true,
        Some(d) => d is Str,
    }
    &&& match lookup(o, "description"@) {
        None => true,
        Some(d) => d is Str,
    }
    &&& match lookup(o, "externalValue"@) {
        None => true,
        Some(d) => d is Str,
    }
}

pub open spec fn example_matches(v: Val, x: Example) -> bool {
    &&& v matches Val::Obj(o)
    &&& match lookup(o, "summary"@) {
        None => x.summary is None,
        Some(d) => x.summary matches Some(t) && d == Val::Str(t@),
    }
    &&& match lookup(o, "description"@) {
        None => x.description is None,
        Some(d) => x.description matches Some(t) && d == Val::Str(t@),
    }
    &&& match lookup(o, "value"@) {
        None => x.value is None,
        Some(ev) => x.value matches Some(e) && e@ == ev,
    }
    &&& match lookup(o, "externalValue"@) {
        None => x.external_value is None,
        Some(d) => x.external_value matches Some(t) && d == Val::Str(t@),
    }
    &&& crate::value::entries_view(x.extras@) == crate::value::sift(o, example_keys())
}

pub open spec fn example_fail(v: Val) -> crate::error::ErrV {
    match v {
        Val::Obj(o) => {
            if !(match lookup(o, "summary"@) {
                None => true,
                Some(d) => d is Str,
            }) {
                crate::error::ErrV::Mismatch(seq!["summary"@], "string"@)
            } else if !(match lookup(o, "description"@) {
                None => true,
                Some(d) => d is Str,
            }) {
                crate::error::ErrV::Mismatch(seq!["description"@], "string"@)
            } else {
                crate::error::ErrV::Mismatch(seq!["externalValue"@], "string"@)
            }
        },
        _ => crate::error::ErrV::Mismatch(Seq::empty(), "object"@),
    }
}

impl Example {
    pub open spec fn wf(self) -> bool {
        crate::record::extras_wf(self.extras@, example_keys())
    }

    /// Decodes an example from a tree value. The literal payload is taken as
    /// it stands, whatever its shape.
    pub fn from_value(v: Any) -> (r: Result<Example, crate::error::DecodeError>)
        ensures
            match r {
                Ok(x) => example_ok(v@) && example_matches(v@, x) && x.wf(),
                Err(e) => !example_ok(v@) && e@ == example_fail(v@),
            },
    {
        let entries: Vec<(String, Any)> = match v {
            Any::Obj(o) => o,
            _ => {
                return Err(crate::error::DecodeError::mismatch_node("object"));
            },
        };
        let mut known: Vec<&str> = Vec::new();
        known.push("summary");
        known.push("description");
        known.push("value");
        known.push("externalValue");
        proof {
            reveal_strlit("summary");
            reveal_strlit("description");
            reveal_strlit("value");
            reveal_strlit("externalValue");
            assert("summary"@.len() == 7);
            assert("description"@.len() == 11);
            assert("value"@.len() == 5);
            assert("externalValue"@.len() == 13);
            assert(known@[0]@ == "summary"@);
            assert(known@[1]@ == "description"@);
            assert(known@[2]@ == "value"@);
            assert(known@[3]@ == "externalValue"@);
            assert(crate::record::names_view(known@) =~= example_keys());
        }
        let (mut slots, extras) = crate::record::split_fields(entries, &known);
        proof {
            crate::record::lemma_split_extras_wf(
                extras@,
                crate::value::entries_view(entries@),
                example_keys(),
            );
        }
        let s_summary = slots.remove(0);
        let s_desc = slots.remove(0);
        let s_value = slots.remove(0);
        let s_ext = slots.remove(0);
        let summary = match crate::record::take_opt_string(s_summary, "summary") {
            Ok(t) => t,
            Err(e) => {
                return Err(e);
            },
        };
        let description = match crate::record::take_opt_string(s_desc, "description") {
            Ok(t) => t,
            Err(e) => {
                return Err(e);
            },
        };
        let value = s_value;
        let external_value = match crate::record::take_opt_string(s_ext, "externalValue") {
            Ok(t) => t,
            Err(e) => {
                return Err(e);
            },
        };
        Ok(Example { summary, description, value, external_value, extras })
    }

    /// The model of this record's encoding.
    pub open spec fn enc(self) -> Val {
        Val::Obj(
            (match self.summary {
                Some(t) => seq![("summary"@, Val::Str(t@))],
                None => Seq::empty(),
            }) + (match self.description {
                Some(t) => seq![("description"@, Val::Str(t@))],
                None => Seq::empty(),
            }) + (match self.value {
                Some(e) => seq![("value"@, e@)],
                None => Seq::empty(),
            }) + (match self.external_value {
                Some(t) => seq![("externalValue"@, Val::Str(t@))],
                None => Seq::empty(),
            }) + crate::value::entries_view(self.extras@),
        )
    }

    /// Encodes this record back to a tree value.
    pub fn to_value(&self) -> (r: Any)
        ensures
            r@ == self.enc(),
    {
        let mut out: Vec<(String, Any)> = Vec::new();
        proof {
            assert(crate::value::entries_view(out@) =~= Seq::<(Seq<char>, Val)>::empty());
        }
        crate::record::push_opt_string(&mut out, "summary", &self.summary);
        proof {
            assert(Seq::<(Seq<char>, Val)>::empty() + (match self.summary {
                Some(t) => seq![("summary"@, Val::Str(t@))],
                None => Seq::<(Seq<char>, Val)>::empty(),
            }) =~= (match self.summary {
                Some(t) => seq![("summary"@, Val::Str(t@))],
                None => Seq::<(Seq<char>, Val)>::empty(),
            }));
        }
        crate::record::push_opt_string(&mut out, "description", &self.description);
        match &self.value {
            Some(e) => {
                crate::record::push_field(&mut out, "value", e.duplicate());
            },
            None => {
                proof {
                    assert(crate::value::entries_view(out@) + Seq::<(Seq<char>, Val)>::empty()
                        =~= crate::value::entries_view(out@));
                }
            },
        }
        crate::record::push_opt_string(&mut out, "externalValue", &self.external_value);
        crate::record::push_extras(&mut out, &self.extras);
        proof {
            assert(crate::value::entries_view(out@) =~= (match self.enc() {
                Val::Obj(o) => o,
                _ => Seq::empty(),
            }));
        }
        Any::Obj(out)
    }

    /// This record in textual form: the serialization of its encoding.
    pub fn to_string(&self) -> (r: String)
        ensures
            r@ == crate::codec::json_text_of(self.enc()),
    {
        crate::codec::value_to_text(&self.to_value())
    }
}

/// Tells consumers apart by the value of one named property, with an
/// optional mapping from payload values to schema names.
#[derive(Debug, PartialEq)]
pub struct Discriminator {
    /// The name of the property that holds the discriminator value; exposed
    /// in the document under its `propertyName` name.
    pub property_name: String,
    /// A mapping between payload values and schema names or references, in
    /// source order.
    pub mapping: Option<Vec<(String, String)>>,
    /// Every field of the source mapping outside this record's schema,
    /// retained verbatim.
    pub extras: Vec<(String, Any)>,
}

pub open spec fn discriminator_keys() -> Seq<Seq<char>> {
    seq!["propertyName"@, "mapping"@]
}

/// A mapping whose every value is plain text.
pub open spec fn str_map_ok(o: Seq<(Seq<char>, Val)>) -> bool {
    forall|i: int| 0 <= i < o.len() ==> ((#[trigger] o[i]).1) is Str
}

pub open spec fn str_map_matches(o: Seq<(Seq<char>, Val)>, m: Seq<(String, String)>) -> bool {
    &&& m.len() == o.len()
    &&& forall|i: int|
        0 <= i < o.len() ==> ((#[trigger] m[i]).0@, Val::Str(m[i].1@)) == o[i]
}

pub open spec fn str_map_enc(m: Seq<(String, String)>) -> Seq<(Seq<char>, Val)> {
    m.map_values(|p: (String, String)| (p.0@, Val::Str(p.1@)))
}

pub open spec fn discriminator_ok(v: Val) -> bool {
    &&& v matches Val::Obj(o)
    &&& lookup(o, "propertyName"@) matches Some(Val::Str(_))
    &&& match lookup(o, "mapping"@) {
        None => true,
        Some(Val::Obj(mo)) => str_map_ok(mo),
        Some(_) => false,
    }
}

pub open spec fn discriminator_matches(v: Val, x: Discriminator) -> bool {
    &&& v matches Val::Obj(o)
    &&& lookup(o, "propertyName"@) == Some(Val::Str(x.property_name@))
    &&& match lookup(o, "mapping"@) {
        None => x.mapping is None,
        Some(Val::Obj(mo)) => x.mapping matches Some(m) && str_map_matches(mo, m@),
        Some(_) => false,
    }
    &&& crate::value::entries_view(x.extras@) == crate::value::sift(o, discriminator_keys())
}

pub open spec fn discriminator_fail(v: Val) -> crate::error::ErrV {
    match v {
        Val::Obj(o) => {
            if lookup(o, "propertyName"@) is None {
                crate::error::ErrV::Missing(seq!["propertyName"@])
            } else if !(lookup(o, "propertyName"@) matches Some(Val::Str(_))) {
                crate::error::ErrV::Mismatch(seq!["propertyName"@], "string"@)
            } else {
                crate::error::ErrV::Mismatch(seq!["mapping"@], "mapping of strings"@)
            }
        },
        _ => crate::error::ErrV::Mismatch(Seq::empty(), "object"@),
    }
}

impl Discriminator {
    pub open spec fn wf(self) -> bool {
        crate::record::extras_wf(self.extras@, discriminator_keys())
    }

    /// Decodes a discriminator from a tree value.
    #[verifier::loop_isolation(false)]
    pub fn from_value(v: Any) -> (r: Result<Discriminator, crate::error::DecodeError>)
        ensures
            match r {
                Ok(x) => discriminator_ok(v@) && discriminator_matches(v@, x) && x.wf(),
                Err(e) => !discriminator_ok(v@) && e@ == discriminator_fail(v@),
            },
    {
        let entries: Vec<(String, Any)> = match v {
            Any::Obj(o) => o,
            _ => {
                return Err(crate::error::DecodeError::mismatch_node("object"));
            },
        };
        let mut known: Vec<&str> = Vec::new();
        known.push("propertyName");
        known.push("mapping");
        proof {
            reveal_strlit("propertyName");
            reveal_strlit("mapping");
            assert("propertyName"@.len() == 12);
            assert("mapping"@.len() == 7);
            assert(known@[0]@ == "propertyName"@);
            assert(known@[1]@ == "mapping"@);
            assert(crate::record::names_view(known@) =~= discriminator_keys());
        }
        let (mut slots, extras) = crate::record::split_fields(entries, &known);
        proof {
            crate::record::lemma_split_extras_wf(
                extras@,
                crate::value::entries_view(entries@),
                discriminator_keys(),
            );
        }
        let s_prop = slots.remove(0);
        let s_map = slots.remove(0);
        let property_name = match crate::record::take_req_string(s_prop, "propertyName") {
            Ok(t) => t,
            Err(e) => {
                return Err(e);
            },
        };
        let mapping: Option<Vec<(String, String)>> = match s_map {
            None => None,
            Some(Any::Obj(mo)) => {
                let ghost gmo = crate::value::entries_view(mo@);
                proof {
                    crate::value::lemma_entries_view(mo@);
                }
                let mut rest = mo;
                let mut out: Vec<(String, String)> = Vec::new();
                let mut i: usize = 0;
                let n = rest.len();
                while i < n
                    invariant
                        0 <= i <= n,
                        n == gmo.len(),
                        rest@.len() == n - i,
                        forall|t: int|
                            0 <= t < n - i ==> ((#[trigger] rest@[t]).0@, rest@[t].1@) == gmo[t
                                + i],
                        out.len() == i,
                        forall|t: int|
                            0 <= t < i ==> ((#[trigger] out[t]).0@, Val::Str(out[t].1@)) == gmo[t],
                    decreases n - i,
                {
                    let (k, val) = rest.remove(0);
                    proof {
                        assert((k@, val@) == gmo[i as int]);
                    }
                    match val {
                        Any::Str(t) => {
                            out.push((k, t));
                        },
                        _ => {
                            return Err(
                                crate::error::DecodeError::mismatch_here(
                                    "mapping",
                                    "mapping of strings",
                                ),
                            );
                        },
                    }
                    i = i + 1;
                }
                proof {
                    assert forall|t: int| 0 <= t < n implies ((#[trigger] gmo[t]).1) is Str by {
                        assert((out[t].0@, Val::Str(out[t].1@)) == gmo[t]);
                    }
                    assert(str_map_matches(gmo, out@));
                }
                Some(out)
            },
            Some(_) => {
                return Err(
                    crate::error::DecodeError::mismatch_here("mapping", "mapping of strings"),
                );
            },
        };
        Ok(Discriminator { property_name, mapping, extras })
    }

    /// The model of this record's encoding.
    pub open spec fn enc(self) -> Val {
        Val::Obj(
            seq![("propertyName"@, Val::Str(self.property_name@))] + (match self.mapping {
                Some(m) => seq![("mapping"@, Val::Obj(str_map_enc(m@)))],
                None => Seq::empty(),
            }) + crate::value::entries_view(self.extras@),
        )
    }

    /// Encodes this record back to a tree value.
    #[verifier::loop_isolation(false)]
    pub fn to_value(&self) -> (r: Any)
        ensures
            r@ == self.enc(),
    {
        let mut out: Vec<(String, Any)> = Vec::new();
        proof {
            assert(crate::value::entries_view(out@) =~= Seq::<(Seq<char>, Val)>::empty());
        }
        crate::record::push_field(
            &mut out,
            "propertyName",
            Any::Str(self.property_name.clone()),
        );
        proof {
            assert(Seq::<(Seq<char>, Val)>::empty() + seq![
                ("propertyName"@, Val::Str(self.property_name@)),
            ] =~= seq![("propertyName"@, Val::Str(self.property_name@))]);
        }
        match &self.mapping {
            Some(m) => {
                let n = m.len();
                let mut mout: Vec<(String, Any)> = Vec::new();
                let mut i: usize = 0;
                while i < n
                    invariant
                        0 <= i <= n,
                        n == m.len(),
                        mout.len() == i,
                        forall|t: int|
                            0 <= t < i ==> ((#[trigger] mout[t]).0@, mout[t].1@) == (
                                m[t].0@,
                                Val::Str(m[t].1@),
                            ),
                    decreases n - i,
                {
                    mout.push((m[i].0.clone(), Any::Str(m[i].1.clone())));
                    i = i + 1;
                }
                proof {
                    crate::value::lemma_entries_view(mout@);
                    assert(crate::value::entries_view(mout@) =~= str_map_enc(m@));
                }
                crate::record::push_field(&mut out, "mapping", Any::Obj(mout));
            },
            None => {
                proof {
                    assert(crate::value::entries_view(out@) + Seq::<(Seq<char>, Val)>::empty()
                        =~= crate::value::entries_view(out@));
                }
            },
        }
        crate::record::push_extras(&mut out, &self.extras);
        proof {
            assert(crate::value::entries_view(out@) =~= (match self.enc() {
                Val::Obj(o) => o,
                _ => Seq::empty(),
            }));
        }
        Any::Obj(out)
    }

    /// This record in textual form: the serialization of its encoding.
    pub fn to_string(&self) -> (r: String)
        ensures
            r@ == crate::codec::json_text_of(self.enc()),
    {
        crate::codec::value_to_text(&self.to_value())
    }
}

/// A possible design-time link for a response.
#[derive(Debug, PartialEq)]
pub struct Link {
    /// A relative or absolute URI reference to an operation; exposed in the
    /// document under its `operationRef` name.
    pub operation_ref: Option<String>,
    /// The name of an existing, resolvable operation; exposed in the
    /// document under its `operationId` name.
    pub operation_id: String,
    /// Parameters to pass to the operation, each value carried verbatim.
    pub parameters: Option<Vec<(String, Any)>>,
    /// A literal value or expression to use as a request body, carried
    /// verbatim; exposed in the document under its `requestBody` name.
    pub request_body: Option<Any>,
    /// A description of the link.
    pub description: Option<String>,
    /// A server to be used by the target operation.
    pub server: Option<crate::server::Server>,
    /// Every field of the source mapping outside this record's schema,
    /// retained verbatim.
    pub extras: Vec<(String, Any)>,
}

pub open spec fn link_keys() -> Seq<Seq<char>> {
    seq![
        "operationRef"@,
        "operationId"@,
        "parameters"@,
        "requestBody"@,
        "description"@,
        "server"@,
    ]
}

pub open spec fn link_ok(v: Val) -> bool {
    &&& v matches Val::Obj(o)
    &&& match lookup(o, "operationRef"@) {
        None => true,
        Some(d) => d is Str,
    }
    &&& lookup(o, "operationId"@) matches Some(Val::Str(_))
    &&& match lookup(o, "parameters"@) {
        None => true,
        Some(p) => p is Obj,
    }
    &&& match lookup(o, "description"@) {
        None => true,
        Some(d) => d is Str,
    }
    &&& match lookup(o, "server"@) {
        None => true,
        Some(sv) => crate::server::server_ok(sv),
    }
}

pub open spec fn link_matches(v: Val, x: Link) -> bool {
    &&& v matches Val::Obj(o)
    &&& match lookup(o, "operationRef"@) {
        None => x.operation_ref is None,
        Some(d) => x.operation_ref matches Some(t) && d == Val::Str(t@),
    }
    &&& lookup(o, "operationId"@) == Some(Val::Str(x.operation_id@))
    &&& match lookup(o, "parameters"@) {
        None => x.parameters is None,
        Some(p) => x.parameters matches Some(m) && p == Val::Obj(crate::value::entries_view(m@)),
    }
    &&& match lookup(o, "requestBody"@) {
        None => x.request_body is None,
        Some(b) => x.request_body matches Some(e) && e@ == b,
    }
    &&& match lookup(o, "description"@) {
        None => x.description is None,
        Some(d) => x.description matches Some(t) && d == Val::Str(t@),
    }
    &&& match lookup(o, "server"@) {
        None => x.server is None,
        Some(sv) => x.server matches Some(s) && crate::server::server_matches(sv, s),
    }
    &&& crate::value::entries_view(x.extras@) == crate::value::sift(o, link_keys())
}

pub open spec fn link_fail(v: Val) -> crate::error::ErrV {
    match v {
        Val::Obj(o) => {
            if !(match lookup(o, "operationRef"@) {
                None => true,
                Some(d) => d is Str,
            }) {
                crate::error::ErrV::Mismatch(seq!["operationRef"@], "string"@)
            } else if lookup(o, "operationId"@) is None {
                crate::error::ErrV::Missing(seq!["operationId"@])
            } else if !(lookup(o, "operationId"@) matches Some(Val::Str(_))) {
                crate::error::ErrV::Mismatch(seq!["operationId"@], "string"@)
            } else if !(match lookup(o, "parameters"@) {
                None => true,
                Some(p) => p is Obj,
            }) {
                crate::error::ErrV::Mismatch(seq!["parameters"@], "object"@)
            } else if !(match lookup(o, "description"@) {
                None => true,
                Some(d) => d is Str,
            }) {
                crate::error::ErrV::Mismatch(seq!["description"@], "string"@)
            } else {
                match lookup(o, "server"@) {
                    Some(sv) => crate::error::prefixed(
                        "server"@,
                        crate::server::server_fail(sv),
                    ),
                    None => arbitrary(),
                }
            }
        },
        _ => crate::error::ErrV::Mismatch(Seq::empty(), "object"@),
    }
}

impl Link {
    pub open spec fn wf(self) -> bool {
        &&& match self.server {
            None => true,
            Some(s) => s.wf(),
        }
        &&& crate::record::extras_wf(self.extras@, link_keys())
    }

    /// Decodes a link from a tree value.
    pub fn from_value(v: Any) -> (r: Result<Link, crate::error::DecodeError>)
        ensures
            match r {
                Ok(x) => link_ok(v@) && link_matches(v@, x) && x.wf(),
                Err(e) => !link_ok(v@) && e@ == link_fail(v@),
            },
    {
        let entries: Vec<(String, Any)> = match v {
            Any::Obj(o) => o,
            _ => {
                return Err(crate::error::DecodeError::mismatch_node("object"));
            },
        };
        let mut known: Vec<&str> = Vec::new();
        known.push("operationRef");
        known.push("operationId");
        known.push("parameters");
        known.push("requestBody");
        known.push("description");
        known.push("server");
        proof {
            reveal_strlit("operationRef");
            reveal_strlit("operationId");
            reveal_strlit("parameters");
            reveal_strlit("requestBody");
            reveal_strlit("description");
            reveal_strlit("server");
            assert("operationRef"@.len() == 12);
            assert("operationId"@.len() == 11);
            assert("parameters"@.len() == 10);
            assert("requestBody"@.len() == 11);
            assert("description"@.len() == 11);
            assert("server"@.len() == 6);
            assert("operationId"@[0] == 'o');
            assert("requestBody"@[0] == 'r');
            assert("description"@[0] == 'd');
            assert(known@[0]@ == "operationRef"@);
            assert(known@[1]@ == "operationId"@);
            assert(known@[2]@ == "parameters"@);
            assert(known@[3]@ == "requestBody"@);
            assert(known@[4]@ == "description"@);
            assert(known@[5]@ == "server"@);
            assert(crate::record::names_view(known@) =~= link_keys());
        }
        let (mut slots, extras) = crate::record::split_fields(entries, &known);
        proof {
            crate::record::lemma_split_extras_wf(
                extras@,
                crate::value::entries_view(entries@),
                link_keys(),
            );
        }
        let s_ref = slots.remove(0);
        let s_id = slots.remove(0);
        let s_params = slots.remove(0);
        let s_body = slots.remove(0);
        let s_desc = slots.remove(0);
        let s_server = slots.remove(0);
        let operation_ref = match crate::record::take_opt_string(s_ref, "operationRef") {
            Ok(t) => t,
            Err(e) => {
                return Err(e);
            },
        };
        let operation_id = match crate::record::take_req_string(s_id, "operationId") {
            Ok(t) => t,
            Err(e) => {
                return Err(e);
            },
        };
        let parameters: Option<Vec<(String, Any)>> = match s_params {
            None => None,
            Some(Any::Obj(m)) => Some(m),
            Some(_) => {
                return Err(crate::error::DecodeError::mismatch_here("parameters", "object"));
            },
        };
        let request_body = s_body;
        let description = match crate::record::take_opt_string(s_desc, "description") {
            Ok(t) => t,
            Err(e) => {
                return Err(e);
            },
        };
        let server = match s_server {
            None => None,
            Some(sv) => match crate::server::Server::from_value(sv) {
                Ok(s) => Some(s),
                Err(e) => {
                    return Err(e.under("server"));
                },
            },
        };
        Ok(
            Link {
                operation_ref,
                operation_id,
                parameters,
                request_body,
                description,
                server,
                extras,
            },
        )
    }

    /// The model of this record's encoding.
    pub open spec fn enc(self) -> Val {
        Val::Obj(
            (match self.operation_ref {
                Some(t) => seq![("operationRef"@, Val::Str(t@))],
                None => Seq::empty(),
            }) + seq![("operationId"@, Val::Str(self.operation_id@))] + (match self.parameters {
                Some(m) => seq![("parameters"@, Val::Obj(crate::value::entries_view(m@)))],
                None => Seq::empty(),
            }) + (match self.request_body {
                Some(e) => seq![("requestBody"@, e@)],
                None => Seq::empty(),
            }) + (match self.description {
                Some(t) => seq![("description"@, Val::Str(t@))],
                None => Seq::empty(),
            }) + (match self.server {
                Some(s) => seq![("server"@, s.enc())],
                None => Seq::empty(),
            }) + crate::value::entries_view(self.extras@),
        )
    }

    /// Encodes this record back to a tree value.
    pub fn to_value(&self) -> (r: Any)
        ensures
            r@ == self.enc(),
    {
        let mut out: Vec<(String, Any)> = Vec::new();
        proof {
            assert(crate::value::entries_view(out@) =~= Seq::<(Seq<char>, Val)>::empty());
        }
        crate::record::push_opt_string(&mut out, "operationRef", &self.operation_ref);
        proof {
            assert(Seq::<(Seq<char>, Val)>::empty() + (match self.operation_ref {
                Some(t) => seq![("operationRef"@, Val::Str(t@))],
                None => Seq::<(Seq<char>, Val)>::empty(),
            }) =~= (match self.operation_ref {
                Some(t) => seq![("operationRef"@, Val::Str(t@))],
                None => Seq::<(Seq<char>, Val)>::empty(),
            }));
        }
        crate::record::push_field(&mut out, "operationId", Any::Str(self.operation_id.clone()));
        match &self.parameters {
            Some(m) => {
                crate::record::push_field(
                    &mut out,
                    "parameters",
                    Any::Obj(crate::value::duplicate_entries(m)),
                );
            },
            None => {
                proof {
                    assert(crate::value::entries_view(out@) + Seq::<(Seq<char>, Val)>::empty()
                        =~= crate::value::entries_view(out@));
                }
            },
        }
        match &self.request_body {
            Some(e) => {
                crate::record::push_field(&mut out, "requestBody", e.duplicate());
            },
            None => {
                proof {
                    assert(crate::value::entries_view(out@) + Seq::<(Seq<char>, Val)>::empty()
                        =~= crate::value::entries_view(out@));
                }
            },
        }
        crate::record::push_opt_string(&mut out, "description", &self.description);
        match &self.server {
            Some(s) => {
                crate::record::push_field(&mut out, "server", s.to_value());
            },
            None => {
                proof {
                    assert(crate::value::entries_view(out@) + Seq::<(Seq<char>, Val)>::empty()
                        =~= crate::value::entries_view(out@));
                }
            },
        }
        crate::record::push_extras(&mut out, &self.extras);
        proof {
            assert(crate::value::entries_view(out@) =~= (match self.enc() {
                Val::Obj(o) => o,
                _ => Seq::empty(),
            }));
        }
        Any::Obj(out)
    }

    /// This record in textual form: the serialization of its encoding.
    pub fn to_string(&self) -> (r: String)
        ensures
            r@ == crate::codec::json_text_of(self.enc()),
    {
        crate::codec::value_to_text(&self.to_value())
    }
}

/// A schema's structural type: a closed set of known literals plus a
/// fallback that retains any other literal verbatim.
#[derive(Debug, PartialEq, Clone)]
pub enum Type {
    Null,
    Boolean,
    Object,
    Array,
    Integer,
    Number,
    String,
    /// Allows capturing potentially invalid values.
    Other(String),
}

impl Type {
    /// The exact literal this value encodes as.
    pub open spec fn lit(self) -> Seq<char> {
        match self {
            Type::Null => "null"@,
            Type::Boolean => "boolean"@,
            Type::Object => "object"@,
            Type::Array => "array"@,
            Type::Integer => "integer"@,
            Type::Number => "number"@,
            Type::String => "string"@,
            Type::Other(s) => s@,
        }
    }

    /// A fallback value never hides a known literal: decode puts a known
    /// literal in its own variant, so the literal alone determines the value.
    pub open spec fn wf(self) -> bool {
        self matches Type::Other(s) ==> !known_type_lit(s@)
    }
}

pub open spec fn known_type_lit(s: Seq<char>) -> bool {
    ||| s == "null"@
    ||| s == "boolean"@
    ||| s == "object"@
    ||| s == "array"@
    ||| s == "integer"@
    ||| s == "number"@
    ||| s == "string"@
}

/// What decoding a type literal yields: the matching known value, or the
/// literal kept verbatim.
pub open spec fn type_of_text(s: String) -> Type {
    if s@ == "null"@ {
        Type::Null
    } else if s@ == "boolean"@ {
        Type::Boolean
    } else if s@ == "object"@ {
        Type::Object
    } else if s@ == "array"@ {
        Type::Array
    } else if s@ == "integer"@ {
        Type::Integer
    } else if s@ == "number"@ {
        Type::Number
    } else if s@ == "string"@ {
        Type::String
    } else {
        Type::Other(s)
    }
}

impl Type {
    /// Decodes a type literal. Never fails: an unknown literal is retained.
    pub fn from_text(s: String) -> (r: Type)
        ensures
            r == type_of_text(s),
            r.wf(),
    {
        if str_eq(s.as_str(), "null") {
            Type::Null
        } else if str_eq(s.as_str(), "boolean") {
            Type::Boolean
        } else if str_eq(s.as_str(), "object") {
            Type::Object
        } else if str_eq(s.as_str(), "array") {
            Type::Array
        } else if str_eq(s.as_str(), "integer") {
            Type::Integer
        } else if str_eq(s.as_str(), "number") {
            Type::Number
        } else if str_eq(s.as_str(), "string") {
            Type::String
        } else {
            Type::Other(s)
        }
    }

    /// Encodes this value as its exact literal.
    pub fn text(&self) -> (r: String)
        ensures
            r@ == self.lit(),
    {
        match self {
            Type::Null => "null".to_owned(),
            Type::Boolean => "boolean".to_owned(),
            Type::Object => "object".to_owned(),
            Type::Array => "array".to_owned(),
            Type::Integer => "integer".to_owned(),
            Type::Number => "number".to_owned(),
            Type::String => "string".to_owned(),
            Type::Other(s) => s.clone(),
        }
    }
}

/// Open-enumeration round trip: encoding a known value reproduces its
/// defined literal and decoding that literal restores the value; an unknown
/// literal decodes to the fallback and encodes back to the identical literal.
pub proof fn lemma_type_round_trip(t: Type, s: String)
    requires
        t.wf(),
        s@ == t.lit(),
    ensures
        type_of_text(s).lit() == t.lit(),
        type_of_text(s) is Other <==> t is Other,
        type_of_text(s).wf(),
{
    reveal_strlit("null");
    reveal_strlit("boolean");
    reveal_strlit("object");
    reveal_strlit("array");
    reveal_strlit("integer");
    reveal_strlit("number");
    reveal_strlit("string");
}

/// Open enum fallback: a literal outside the known set decodes to the
/// fallback variant holding it verbatim, and encodes back to it unchanged.
pub proof fn lemma_type_fallback(s: String)
    requires
        !known_type_lit(s@),
    ensures
        type_of_text(s) == Type::Other(s),
        type_of_text(s).lit() == s@,
{
}

/// A schema's format qualifier: a closed set of known literals plus a
/// fallback that retains any other literal verbatim.
#[derive(Debug, PartialEq, Clone)]
pub enum Format {
    DateTime,
    Date,
    Time,
    Duration,
    Int32,
    Int64,
    Float,
    Double,
    Email,
    IdnEmail,
    Hostname,
    IdnHostname,
    Password,
    Ipv4,
    Ipv6,
    Uri,
    UriReference,
    Iri,
    IriReference,
    Uuid,
    UriTemplate,
    JsonPointer,
    RelativeJsonPointer,
    Regex,
    /// Allows capturing potentially invalid values.
    Other(String),
}

impl Format {
    /// The exact literal this value encodes as.
    pub open spec fn lit(self) -> Seq<char> {
        match self {
            Format::DateTime => "date-time"@,
            Format::Date => "date"@,
            Format::Time => "time"@,
            Format::Duration => "duration"@,
            Format::Int32 => "int32"@,
            Format::Int64 => "int64"@,
            Format::Float => "float"@,
            Format::Double => "double"@,
            Format::Email => "email"@,
            Format::IdnEmail => "idn-email"@,
            Format::Hostname => "hostname"@,
            Format::IdnHostname => "idn-hostname"@,
            Format::Password => "password"@,
            Format::Ipv4 => "ipv4"@,
            Format::Ipv6 => "ipv6"@,
            Format::Uri => "uri"@,
            Format::UriReference => "uri-reference"@,
            Format::Iri => "iri"@,
            Format::IriReference => "iri-reference"@,
            Format::Uuid => "uuid"@,
            Format::UriTemplate => "uri-template"@,
            Format::JsonPointer => "json-pointer"@,
            Format::RelativeJsonPointer => "relative-json-pointer"@,
            Format::Regex => "regex"@,
            Format::Other(s) => s@,
        }
    }

    /// A fallback value never hides a known literal.
    pub open spec fn wf(self) -> bool {
        self matches Format::Other(s) ==> !known_format_lit(s@)
    }
}

pub open spec fn known_format_lit(s: Seq<char>) -> bool {
    ||| s == "date-time"@
    ||| s == "date"@
    ||| s == "time"@
    ||| s == "duration"@
    ||| s == "int32"@
    ||| s == "int64"@
    ||| s == "float"@
    ||| s == "double"@
    ||| s == "email"@
    ||| s == "idn-email"@
    ||| s == "hostname"@
    ||| s == "idn-hostname"@
    ||| s == "password"@
    ||| s == "ipv4"@
    ||| s == "ipv6"@
    ||| s == "uri"@
    ||| s == "uri-reference"@
    ||| s == "iri"@
    ||| s == "iri-reference"@
    ||| s == "uuid"@
    ||| s == "uri-template"@
    ||| s == "json-pointer"@
    ||| s == "relative-json-pointer"@
    ||| s == "regex"@
}

/// What decoding a format literal yields: the matching known value, or the
/// literal kept verbatim.
pub open spec fn format_of_text(s: String) -> Format {
    if s@ == "date-time"@ {
        Format::DateTime
    } else if s@ == "date"@ {
        Format::Date
    } else if s@ == "time"@ {
        Format::Time
    } else if s@ == "duration"@ {
        Format::Duration
    } else if s@ == "int32"@ {
        Format::Int32
    } else if s@ == "int64"@ {
        Format::Int64
    } else if s@ == "float"@ {
        Format::Float
    } else if s@ == "double"@ {
        Format::Double
    } else if s@ == "email"@ {
        Format::Email
    } else if s@ == "idn-email"@ {
        Format::IdnEmail
    } else if s@ == "hostname"@ {
        Format::Hostname
    } else if s@ == "idn-hostname"@ {
        Format::IdnHostname
    } else if s@ == "password"@ {
        Format::Password
    } else if s@ == "ipv4"@ {
        Format::Ipv4
    } else if s@ == "ipv6"@ {
        Format::Ipv6
    } else if s@ == "uri"@ {
        Format::Uri
    } else if s@ == "uri-reference"@ {
        Format::UriReference
    } else if s@ == "iri"@ {
        Format::Iri
    } else if s@ == "iri-reference"@ {
        Format::IriReference
    } else if s@ == "uuid"@ {
        Format::Uuid
    } else if s@ == "uri-template"@ {
        Format::UriTemplate
    } else if s@ == "json-pointer"@ {
        Format::JsonPointer
    } else if s@ == "relative-json-pointer"@ {
        Format::RelativeJsonPointer
    } else if s@ == "regex"@ {
        Format::Regex
    } else {
        Format::Other(s)
    }
}

impl Format {
    /// Decodes a format literal. Never fails: an unknown literal is retained.
    pub fn from_text(s: String) -> (r: Format)
        ensures
            r == format_of_text(s),
            r.wf(),
    {
        if str_eq(s.as_str(), "date-time") {
            Format::DateTime
        } else if str_eq(s.as_str(), "date") {
            Format::Date
        } else if str_eq(s.as_str(), "time") {
            Format::Time
        } else if str_eq(s.as_str(), "duration") {
            Format::Duration
        } else if str_eq(s.as_str(), "int32") {
            Format::Int32
        } else if str_eq(s.as_str(), "int64") {
            Format::Int64
        } else if str_eq(s.as_str(), "float") {
            Format::Float
        } else if str_eq(s.as_str(), "double") {
            Format::Double
        } else if str_eq(s.as_str(), "email") {
            Format::Email
        } else if str_eq(s.as_str(), "idn-email") {
            Format::IdnEmail
        } else if str_eq(s.as_str(), "hostname") {
            Format::Hostname
        } else if str_eq(s.as_str(), "idn-hostname") {
            Format::IdnHostname
        } else if str_eq(s.as_str(), "password") {
            Format::Password
        } else if str_eq(s.as_str(), "ipv4") {
            Format::Ipv4
        } else if str_eq(s.as_str(), "ipv6") {
            Format::Ipv6
        } else if str_eq(s.as_str(), "uri") {
            Format::Uri
        } else if str_eq(s.as_str(), "uri-reference") {
            Format::UriReference
        } else if str_eq(s.as_str(), "iri") {
            Format::Iri
        } else if str_eq(s.as_str(), "iri-reference") {
            Format::IriReference
        } else if str_eq(s.as_str(), "uuid") {
            Format::Uuid
        } else if str_eq(s.as_str(), "uri-template") {
            Format::UriTemplate
        } else if str_eq(s.as_str(), "json-pointer") {
            Format::JsonPointer
        } else if str_eq(s.as_str(), "relative-json-pointer") {
            Format::RelativeJsonPointer
        } else if str_eq(s.as_str(), "regex") {
            Format::Regex
        } else {
            Format::Other(s)
        }
    }

    /// Encodes this value as its exact literal.
    pub fn text(&self) -> (r: String)
        ensures
            r@ == self.lit(),
    {
        match self {
            Format::DateTime => "date-time".to_owned(),
            Format::Date => "date".to_owned(),
            Format::Time => "time".to_owned(),
            Format::Duration => "duration".to_owned(),
            Format::Int32 => "int32".to_owned(),
            Format::Int64 => "int64".to_owned(),
            Format::Float => "float".to_owned(),
            Format::Double => "double".to_owned(),
            Format::Email => "email".to_owned(),
            Format::IdnEmail => "idn-email".to_owned(),
            Format::Hostname => "hostname".to_owned(),
            Format::IdnHostname => "idn-hostname".to_owned(),
            Format::Password => "password".to_owned(),
            Format::Ipv4 => "ipv4".to_owned(),
            Format::Ipv6 => "ipv6".to_owned(),
            Format::Uri => "uri".to_owned(),
            Format::UriReference => "uri-reference".to_owned(),
            Format::Iri => "iri".to_owned(),
            Format::IriReference => "iri-reference".to_owned(),
            Format::Uuid => "uuid".to_owned(),
            Format::UriTemplate => "uri-template".to_owned(),
            Format::JsonPointer => "json-pointer".to_owned(),
            Format::RelativeJsonPointer => "relative-json-pointer".to_owned(),
            Format::Regex => "regex".to_owned(),
            Format::Other(s) => s.clone(),
        }
    }
}

/// Open-enumeration round trip for format literals.
pub proof fn lemma_format_round_trip(f: Format, s: String)
    requires
        f.wf(),
        s@ == f.lit(),
    ensures
        format_of_text(s).lit() == f.lit(),
        format_of_text(s) is Other <==> f is Other,
        format_of_text(s).wf(),
{
    reveal_strlit("date-time");
    reveal_strlit("date");
    reveal_strlit("time");
    reveal_strlit("duration");
    reveal_strlit("int32");
    reveal_strlit("int64");
    reveal_strlit("float");
    reveal_strlit("double");
    reveal_strlit("email");
    reveal_strlit("idn-email");
    reveal_strlit("hostname");
    reveal_strlit("idn-hostname");
    reveal_strlit("password");
    reveal_strlit("ipv4");
    reveal_strlit("ipv6");
    reveal_strlit("uri");
    reveal_strlit("uri-reference");
    reveal_strlit("iri");
    reveal_strlit("iri-reference");
    reveal_strlit("uuid");
    reveal_strlit("uri-template");
    reveal_strlit("json-pointer");
    reveal_strlit("relative-json-pointer");
    reveal_strlit("regex");
}

/// Open enum fallback for format literals.
pub proof fn lemma_format_fallback(s: String)
    requires
        !known_format_lit(s@),
    ensures
        format_of_text(s) == Format::Other(s),
        format_of_text(s).lit() == s@,
{
}

/// Takes an optional type-tag field out of its slot: any string literal is
/// accepted, unknown ones into the fallback variant.
pub fn take_opt_type(slot: Option<Any>, name: &str) -> (r: Result<
    Option<Type>,
    crate::error::DecodeError,
>)
    ensures
        match r {
            Ok(p) => match p {
                Some(t) => crate::record::opt_view(slot) matches Some(Val::Str(s)) && t.lit() == s
                    && t.wf(),
                None => slot is None,
            },
            Err(e) => slot matches Some(v) && !(v@ is Str) && e@ == crate::error::ErrV::Mismatch(
                seq![name@],
                "string"@,
            ),
        },
{
    match slot {
        None => Ok(None),
        Some(Any::Str(s)) => {
            let ghost gs = s@;
            let t = Type::from_text(s);
            proof {
                assert(t.lit() == gs) by {
                    reveal_strlit("null");
                    reveal_strlit("boolean");
                    reveal_strlit("object");
                    reveal_strlit("array");
                    reveal_strlit("integer");
                    reveal_strlit("number");
                    reveal_strlit("string");
                }
            }
            Ok(Some(t))
        },
        Some(_) => Err(crate::error::DecodeError::mismatch_here(name, "string")),
    }
}

/// Takes an optional format-tag field out of its slot.
pub fn take_opt_format(slot: Option<Any>, name: &str) -> (r: Result<
    Option<Format>,
    crate::error::DecodeError,
>)
    ensures
        match r {
            Ok(p) => match p {
                Some(f) => crate::record::opt_view(slot) matches Some(Val::Str(s)) && f.lit() == s
                    && f.wf(),
                None => slot is None,
            },
            Err(e) => slot matches Some(v) && !(v@ is Str) && e@ == crate::error::ErrV::Mismatch(
                seq![name@],
                "string"@,
            ),
        },
{
    match slot {
        None => Ok(None),
        Some(Any::Str(s)) => Ok(Some(Format::from_text(s))),
        Some(_) => Err(crate::error::DecodeError::mismatch_here(name, "string")),
    }
}

} // verus!
