//! The server objects: a host description with a leniently parsed URL and a
//! map of named URL-template variables.
use vstd::prelude::*;

use crate::error::{DecodeError, ErrV, prefixed};
use crate::record::{extras_wf, lemma_split_extras_wf, opt_view, split_fields, take_opt_string,
    take_req_string};
use crate::shared::{LenV, Parseable, lenient_text, lenient_url, lenient_url_spec, url_lenv_wf};
use crate::value::{Any, Val, entries_view, lemma_entries_view, lemma_lookup_absent,
    lemma_lookup_concat, lemma_lookup_single, lemma_seq_view, lemma_sift_all_known,
    lemma_sift_concat, lemma_sift_none_known, lookup, seq_view, sift};

verus! {

/// An object representing a server variable for URL template substitution.
#[derive(Debug, PartialEq)]
pub struct ServerVariable {
    /// The substitution options, where they come from a limited set; exposed
    /// in the document under its `enum` name.
    pub _enum: Option<Vec<String>>,
    /// The value used for substitution when no alternate is supplied.
    pub default: String,
    /// An optional description for the server variable.
    pub description: Option<String>,
    /// Every field of the source mapping outside this record's schema,
    /// retained verbatim.
    pub extras: Vec<(String, Any)>,
}

pub open spec fn server_variable_keys() -> Seq<Seq<char>> {
    seq!["enum"@, "default"@, "description"@]
}

/// A list of plain strings, as a tree value.
pub open spec fn str_list_ok(v: Val) -> bool {
    v matches Val::Arr(a) && forall|i: int| 0 <= i < a.len() ==> (#[trigger] a[i]) is Str
}

pub open spec fn str_list_matches(v: Val, l: Seq<String>) -> bool {
    v matches Val::Arr(a) && a.len() == l.len() && forall|i: int|
        0 <= i < a.len() ==> (#[trigger] a[i]) == Val::Str(l[i]@)
}

pub open spec fn str_list_enc(l: Seq<String>) -> Seq<Val> {
    l.map_values(|s: String| Val::Str(s@))
}

/// The inputs on which a server variable decodes.
pub open spec fn server_variable_ok(v: Val) -> bool {
    &&& v matches Val::Obj(o)
    &&& match lookup(o, "enum"@) {
        None => true,
        Some(e) => str_list_ok(e),
    }
    &&& lookup(o, "default"@) matches Some(Val::Str(_))
    &&& match lookup(o, "description"@) {
        None => true,
        Some(d) => d is Str,
    }
}

/// How a decoded server variable relates to its source mapping.
pub open spec fn server_variable_matches(v: Val, sv: ServerVariable) -> bool {
    &&& v matches Val::Obj(o)
    &&& match lookup(o, "enum"@) {
        None => sv._enum is None,
        Some(e) => sv._enum matches Some(l) && str_list_matches(e, l@),
    }
    &&& lookup(o, "default"@) == Some(Val::Str(sv.default@))
    &&& match lookup(o, "description"@) {
        None => sv.description is None,
        Some(d) => sv.description matches Some(t) && d == Val::Str(t@),
    }
    &&& entries_view(sv.extras@) == sift(o, server_variable_keys())
}

/// The failure a non-decoding server variable reports: the first offense in
/// schema order.
pub open spec fn server_variable_fail(v: Val) -> ErrV {
    match v {
        Val::Obj(o) => {
            if !(match lookup(o, "enum"@) {
                None => true,
                Some(e) => str_list_ok(e),
            }) {
                ErrV::Mismatch(seq!["enum"@], "array of strings"@)
            } else if lookup(o, "default"@) is None {
                ErrV::Missing(seq!["default"@])
            } else if !(lookup(o, "default"@) matches Some(Val::Str(_))) {
                ErrV::Mismatch(seq!["default"@], "string"@)
            } else {
                ErrV::Mismatch(seq!["description"@], "string"@)
            }
        },
        _ => ErrV::Mismatch(Seq::empty(), "object"@),
    }
}

impl ServerVariable {
    /// Extras never shadow a schema field.
    pub open spec fn wf(self) -> bool {
        extras_wf(self.extras@, server_variable_keys())
    }

    /// Decodes a server variable from a tree value: known fields by their
    /// declared kinds, every other field into extras.
    #[verifier::loop_isolation(false)]
    pub fn from_value(v: Any) -> (r: Result<ServerVariable, DecodeError>)
        ensures
            match r {
                Ok(sv) => server_variable_ok(v@) && server_variable_matches(v@, sv) && sv.wf(),
                Err(e) => !server_variable_ok(v@) && e@ == server_variable_fail(v@),
            },
    {
        let entries: Vec<(String, Any)> = match v {
            Any::Obj(o) => o,
            _ => {
                return Err(DecodeError::mismatch_node("object"));
            },
        };
        let mut known: Vec<&str> = Vec::new();
        known.push("enum");
        known.push("default");
        known.push("description");
        proof {
            reveal_strlit("enum");
            reveal_strlit("default");
            reveal_strlit("description");
            assert(known@.len() == 3);
            assert(known@[0]@ == "enum"@);
            assert(known@[1]@ == "default"@);
            assert(known@[2]@ == "description"@);
            assert(crate::record::names_view(known@) =~= server_variable_keys());
        }
        let (mut slots, extras) = split_fields(entries, &known);
        let ghost o = entries_view(entries@);
        proof {
            lemma_split_extras_wf(extras@, o, server_variable_keys());
        }
        let s_enum = slots.remove(0);
        let s_default = slots.remove(0);
        let s_desc = slots.remove(0);
        let list: Option<Vec<String>> = match s_enum {
            None => None,
            Some(Any::Arr(a)) => {
                let ghost ga = a@;
                let mut items = a;
                let mut l: Vec<String> = Vec::new();
                let mut i: usize = 0;
                let n = items.len();
                while i < n
                    invariant
                        0 <= i <= n,
                        n == ga.len(),
                        items@ == ga.skip(i as int),
                        l.len() == i,
                        forall|t: int| 0 <= t < i ==> ga[t]@ == Val::Str(#[trigger] l[t]@),
                    decreases n - i,
                {
                    proof {
                        assert(ga.skip(i as int)[0] == ga[i as int]);
                        assert(ga.skip(i as int).drop_first() =~= ga.skip(i as int + 1));
                    }
                    match items.remove(0) {
                        Any::Str(s) => {
                            l.push(s);
                        },
                        _ => {
                            proof {
                                lemma_seq_view(ga);
                                assert(seq_view(ga)[i as int] == ga[i as int]@);
                            }
                            return Err(DecodeError::mismatch_here("enum", "array of strings"));
                        },
                    }
                    i = i + 1;
                }
                proof {
                    lemma_seq_view(ga);
                    assert(str_list_matches(Val::Arr(seq_view(ga)), l@));
                }
                Some(l)
            },
            Some(_) => {
                return Err(DecodeError::mismatch_here("enum", "array of strings"));
            },
        };
        let default = match take_req_string(s_default, "default") {
            Ok(s) => s,
            Err(e) => {
                return Err(e);
            },
        };
        let description = match take_opt_string(s_desc, "description") {
            Ok(d) => d,
            Err(e) => {
                return Err(e);
            },
        };
        Ok(ServerVariable { _enum: list, default, description, extras })
    }

    /// The model of this record's encoding: known fields in schema order
    /// under their document names, then every extra entry unchanged.
    pub open spec fn enc(self) -> Val {
        Val::Obj(
            (match self._enum {
                Some(l) => seq![("enum"@, Val::Arr(str_list_enc(l@)))],
                None => Seq::empty(),
            }) + seq![("default"@, Val::Str(self.default@))] + (match self.description {
                Some(d) => seq![("description"@, Val::Str(d@))],
                None => Seq::empty(),
            }) + entries_view(self.extras@),
        )
    }

    /// Encodes this record back to a tree value.
    #[verifier::loop_isolation(false)]
    pub fn to_value(&self) -> (r: Any)
        ensures
            r@ == self.enc(),
    {
        let mut out: Vec<(String, Any)> = Vec::new();
        match &self._enum {
            Some(l) => {
                let n = l.len();
                let mut arr: Vec<Any> = Vec::new();
                let mut i: usize = 0;
                while i < n
                    invariant
                        0 <= i <= n,
                        n == l.len(),
                        arr.len() == i,
                        forall|t: int| 0 <= t < i ==> #[trigger] arr[t]@ == Val::Str(l[t]@),
                    decreases n - i,
                {
                    arr.push(Any::Str(l[i].clone()));
                    i = i + 1;
                }
                proof {
                    lemma_seq_view(arr@);
                    assert(seq_view(arr@) =~= str_list_enc(l@));
                }
                out.push(("enum".to_owned(), Any::Arr(arr)));
            },
            None => {},
        }
        out.push(("default".to_owned(), Any::Str(self.default.clone())));
        match &self.description {
            Some(d) => {
                out.push(("description".to_owned(), Any::Str(d.clone())));
            },
            None => {},
        }
        let mut ex = crate::value::duplicate_entries(&self.extras);
        let ghost gex = ex@;
        let ghost before = out@;
        out.append(&mut ex);
        proof {
            lemma_entries_view(out@);
            lemma_entries_view(gex);
            lemma_entries_view(self.extras@);
            assert(out@ == before + gex);
            assert forall|t: int|
                0 <= t < gex.len() implies (gex[t].0@, gex[t].1@) == entries_view(
                self.extras@,
            )[t] by {
                assert(entries_view(gex)[t] == (gex[t].0@, gex[t].1@));
            }
            assert(entries_view(out@) =~= (match self.enc() {
                Val::Obj(o) => o,
                _ => Seq::empty(),
            }));
        }
        Any::Obj(out)
    }
}

/// Decoding what a well-formed server variable encodes to succeeds and
/// reproduces the record.
pub proof fn lemma_server_variable_round_trip(sv: ServerVariable, sv2: ServerVariable)
    requires
        sv.wf(),
        server_variable_matches(sv.enc(), sv2),
    ensures
        server_variable_eqv(sv2, sv),
{
    lemma_server_variable_enc_ok(sv);
    match (sv._enum, sv2._enum) {
        (Some(x), Some(y)) => {
            assert(str_list_enc(x@) =~= str_list_enc(y@)) by {
                let e = Val::Arr(str_list_enc(x@));
                assert(str_list_matches(e, x@));
                assert(str_list_matches(e, y@));
                assert forall|i: int| 0 <= i < y@.len() implies str_list_enc(y@)[i]
                    == str_list_enc(x@)[i] by {
                    assert(str_list_enc(x@)[i] == Val::Str(y@[i]@));
                    assert(str_list_enc(y@)[i] == Val::Str(y@[i]@));
                }
            }
        },
        _ => {},
    }
}

/// Two server variables that carry the same text, field for field.
pub open spec fn server_variable_eqv(a: ServerVariable, b: ServerVariable) -> bool {
    &&& match (a._enum, b._enum) {
        (None, None) => true,
        (Some(x), Some(y)) => str_list_enc(x@) == str_list_enc(y@),
        _ => false,
    }
    &&& a.default@ == b.default@
    &&& match (a.description, b.description) {
        (None, None) => true,
        (Some(x), Some(y)) => x@ == y@,
        _ => false,
    }
    &&& entries_view(a.extras@) == entries_view(b.extras@)
}

/// A well-formed server variable's encoding decodes, and its fields look up
/// to exactly what was encoded.
pub proof fn lemma_server_variable_enc_ok(sv: ServerVariable)
    requires
        sv.wf(),
    ensures
        server_variable_ok(sv.enc()),
        server_variable_matches(sv.enc(), sv),
{
    reveal_strlit("enum");
    reveal_strlit("default");
    reveal_strlit("description");
    assert("enum"@.len() == 4);
    assert("default"@.len() == 7);
    assert("enum"@ != "default"@);
    assert("enum"@ != "description"@);
    assert("default"@ != "description"@);
    let ks = server_variable_keys();
    let f1: Seq<(Seq<char>, Val)> = match sv._enum {
        Some(l) => seq![("enum"@, Val::Arr(str_list_enc(l@)))],
        None => Seq::empty(),
    };
    let f2: Seq<(Seq<char>, Val)> = seq![("default"@, Val::Str(sv.default@))];
    let f3: Seq<(Seq<char>, Val)> = match sv.description {
        Some(d) => seq![("description"@, Val::Str(d@))],
        None => Seq::empty(),
    };
    let ex = entries_view(sv.extras@);
    let o = f1 + f2 + f3 + ex;
    lemma_entries_view(sv.extras@);
    assert(ks.contains("enum"@)) by {
        assert(ks[0] == "enum"@);
    }
    assert(ks.contains("default"@)) by {
        assert(ks[1] == "default"@);
    }
    assert(ks.contains("description"@)) by {
        assert(ks[2] == "description"@);
    }
    assert forall|i: int| 0 <= i < ex.len() implies !ks.contains((#[trigger] ex[i]).0) by {
        assert(ex[i] == (sv.extras@[i].0@, sv.extras@[i].1@));
    }
    lemma_lookup_absent(ex, "enum"@);
    lemma_lookup_absent(ex, "default"@);
    lemma_lookup_absent(ex, "description"@);
    // Field lookups: establish what each field group holds under each key,
    // then peel the concatenation apart.
    match sv._enum {
        Some(l) => {
            lemma_lookup_single(("enum"@, Val::Arr(str_list_enc(l@))), "enum"@);
            lemma_lookup_single(("enum"@, Val::Arr(str_list_enc(l@))), "default"@);
            lemma_lookup_single(("enum"@, Val::Arr(str_list_enc(l@))), "description"@);
            assert(lookup(f1, "enum"@) == Some(Val::Arr(str_list_enc(l@))));
            assert(lookup(f1, "default"@) is None);
            assert(lookup(f1, "description"@) is None);
            assert(str_list_ok(Val::Arr(str_list_enc(l@)))) by {
                assert(forall|i: int|
                    0 <= i < l@.len() ==> str_list_enc(l@)[i] == Val::Str(#[trigger] l@[i]@));
            }
            assert(str_list_matches(Val::Arr(str_list_enc(l@)), l@));
        },
        None => {
            assert(f1.len() == 0);
        },
    }
    lemma_lookup_single(("default"@, Val::Str(sv.default@)), "enum"@);
    lemma_lookup_single(("default"@, Val::Str(sv.default@)), "default"@);
    lemma_lookup_single(("default"@, Val::Str(sv.default@)), "description"@);
    assert(lookup(f2, "default"@) == Some(Val::Str(sv.default@)));
    assert(lookup(f2, "enum"@) is None);
    assert(lookup(f2, "description"@) is None);
    match sv.description {
        Some(d) => {
            lemma_lookup_single(("description"@, Val::Str(d@)), "enum"@);
            lemma_lookup_single(("description"@, Val::Str(d@)), "default"@);
            lemma_lookup_single(("description"@, Val::Str(d@)), "description"@);
            assert(lookup(f3, "description"@) == Some(Val::Str(d@)));
            assert(lookup(f3, "enum"@) is None);
            assert(lookup(f3, "default"@) is None);
        },
        None => {
            assert(f3.len() == 0);
        },
    }
    lemma_lookup_concat(f1 + f2 + f3, ex, "enum"@);
    lemma_lookup_concat(f1 + f2 + f3, ex, "default"@);
    lemma_lookup_concat(f1 + f2 + f3, ex, "description"@);
    proof_peel(f1, f2, f3, "enum"@);
    proof_peel(f1, f2, f3, "default"@);
    proof_peel(f1, f2, f3, "description"@);
    assert(lookup(o, "default"@) == Some(Val::Str(sv.default@)));
    match sv._enum {
        Some(l) => {
            assert(lookup(o, "enum"@) == Some(Val::Arr(str_list_enc(l@))));
        },
        None => {
            assert(lookup(o, "enum"@) is None);
        },
    }
    match sv.description {
        Some(d) => {
            assert(lookup(o, "description"@) == Some(Val::Str(d@)));
        },
        None => {
            assert(lookup(o, "description"@) is None);
        },
    }
    // Extras: the known fields sift away, the extras stay whole.
    lemma_sift_concat(f1 + f2 + f3, ex, ks);
    lemma_sift_concat(f1 + f2, f3, ks);
    lemma_sift_concat(f1, f2, ks);
    assert forall|i: int| 0 <= i < f1.len() implies ks.contains(#[trigger] f1[i].0) by {
        assert(f1[i] == f1[0]);
    }
    assert forall|i: int| 0 <= i < f3.len() implies ks.contains(#[trigger] f3[i].0) by {
        assert(f3[i] == f3[0]);
    }
    lemma_sift_all_known(f1, ks);
    lemma_sift_all_known(f2, ks);
    lemma_sift_all_known(f3, ks);
    lemma_sift_none_known(ex, ks);
    assert(sift(o, ks) =~= ex);
}

/// An object representing a server: a host URL, held leniently, with
/// optional description and URL-template variables.
#[derive(Debug, PartialEq)]
pub struct Server {
    /// A URL to the target host. Kept raw when it is not a valid URL.
    pub url: Parseable<String>,
    /// An optional description of the host.
    pub description: Option<String>,
    /// A mapping from variable name to its substitution value, in source
    /// order.
    pub variables: Option<Vec<(String, ServerVariable)>>,
    /// Every field of the source mapping outside this record's schema,
    /// retained verbatim.
    pub extras: Vec<(String, Any)>,
}

pub open spec fn server_keys() -> Seq<Seq<char>> {
    seq!["url"@, "description"@, "variables"@]
}

/// Every entry of a variables mapping decodes as a server variable.
pub open spec fn vars_ok(o: Seq<(Seq<char>, Val)>) -> bool {
    forall|i: int| 0 <= i < o.len() ==> server_variable_ok((#[trigger] o[i]).1)
}

/// The failure the first non-decoding entry of a variables mapping reports,
/// under that entry's name.
pub open spec fn vars_fail(o: Seq<(Seq<char>, Val)>) -> ErrV
    decreases o.len(),
{
    if o.len() == 0 {
        arbitrary()
    } else if !server_variable_ok(o[0].1) {
        prefixed(o[0].0, server_variable_fail(o[0].1))
    } else {
        vars_fail(o.drop_first())
    }
}

pub proof fn lemma_vars_fail_at(o: Seq<(Seq<char>, Val)>, i: int)
    requires
        0 <= i < o.len(),
        forall|j: int| 0 <= j < i ==> server_variable_ok((#[trigger] o[j]).1),
        !server_variable_ok(o[i].1),
    ensures
        vars_fail(o) == prefixed(o[i].0, server_variable_fail(o[i].1)),
    decreases i,
{
    if i > 0 {
        assert forall|j: int|
            0 <= j < i - 1 implies server_variable_ok((#[trigger] o.drop_first()[j]).1) by {
            assert(o.drop_first()[j] == o[j + 1]);
        }
        assert(o.drop_first()[i - 1] == o[i]);
        lemma_vars_fail_at(o.drop_first(), i - 1);
    }
}

/// How a decoded variables mapping relates to its source: same names in the
/// same order, each value a decoded server variable.
pub open spec fn vars_match(o: Seq<(Seq<char>, Val)>, vars: Seq<(String, ServerVariable)>) -> bool {
    &&& vars.len() == o.len()
    &&& forall|i: int|
        0 <= i < o.len() ==> (#[trigger] vars[i]).0@ == o[i].0 && server_variable_matches(
            o[i].1,
            vars[i].1,
        )
}

/// The model of a variables mapping's encoding.
pub open spec fn vars_enc(vars: Seq<(String, ServerVariable)>) -> Seq<(Seq<char>, Val)> {
    vars.map_values(|p: (String, ServerVariable)| (p.0@, p.1.enc()))
}

/// The inputs on which a server decodes.
pub open spec fn server_ok(v: Val) -> bool {
    &&& v matches Val::Obj(o)
    &&& lookup(o, "url"@) matches Some(Val::Str(_))
    &&& match lookup(o, "description"@) {
        None => true,
        Some(d) => d is Str,
    }
    &&& match lookup(o, "variables"@) {
        None => true,
        Some(Val::Obj(vo)) => vars_ok(vo),
        Some(_) => false,
    }
}

/// How a decoded server relates to its source mapping.
pub open spec fn server_matches(v: Val, s: Server) -> bool {
    &&& v matches Val::Obj(o)
    &&& lookup(o, "url"@) matches Some(Val::Str(t)) && s.url@ == lenient_url_spec(t)
    &&& match lookup(o, "description"@) {
        None => s.description is None,
        Some(d) => s.description matches Some(t) && d == Val::Str(t@),
    }
    &&& match lookup(o, "variables"@) {
        None => s.variables is None,
        Some(Val::Obj(vo)) => s.variables matches Some(vars) && vars_match(vo, vars@),
        Some(_) => false,
    }
    &&& entries_view(s.extras@) == sift(o, server_keys())
}

/// The failure a non-decoding server reports: the first offense in schema
/// order.
pub open spec fn server_fail(v: Val) -> ErrV {
    match v {
        Val::Obj(o) => {
            if lookup(o, "url"@) is None {
                ErrV::Missing(seq!["url"@])
            } else if !(lookup(o, "url"@) matches Some(Val::Str(_))) {
                ErrV::Mismatch(seq!["url"@], "string"@)
            } else if !(match lookup(o, "description"@) {
                None => true,
                Some(d) => d is Str,
            }) {
                ErrV::Mismatch(seq!["description"@], "string"@)
            } else {
                match lookup(o, "variables"@) {
                    Some(Val::Obj(vo)) => prefixed("variables"@, vars_fail(vo)),
                    _ => ErrV::Mismatch(seq!["variables"@], "object"@),
                }
            }
        },
        _ => ErrV::Mismatch(Seq::empty(), "object"@),
    }
}

impl Server {
    /// The decoded URL reparses to itself, every variable is well formed,
    /// and extras never shadow a schema field.
    pub open spec fn wf(self) -> bool {
        &&& url_lenv_wf(self.url@)
        &&& match self.variables {
            None => true,
            Some(vars) => forall|i: int| 0 <= i < vars@.len() ==> (#[trigger] vars@[i]).1.wf(),
        }
        &&& extras_wf(self.extras@, server_keys())
    }

    /// Decodes a server from a tree value: the URL leniently, the variables
    /// as a mapping of server variables, every other field into extras.
    #[verifier::loop_isolation(false)]
    pub fn from_value(v: Any) -> (r: Result<Server, DecodeError>)
        ensures
            match r {
                Ok(s) => server_ok(v@) && server_matches(v@, s) && s.wf(),
                Err(e) => !server_ok(v@) && e@ == server_fail(v@),
            },
    {
        let entries: Vec<(String, Any)> = match v {
            Any::Obj(o) => o,
            _ => {
                return Err(DecodeError::mismatch_node("object"));
            },
        };
        let mut known: Vec<&str> = Vec::new();
        known.push("url");
        known.push("description");
        known.push("variables");
        proof {
            reveal_strlit("url");
            reveal_strlit("description");
            reveal_strlit("variables");
            assert("url"@.len() == 3);
            assert("description"@.len() == 11);
            assert("variables"@.len() == 9);
            assert(known@.len() == 3);
            assert(known@[0]@ == "url"@);
            assert(known@[1]@ == "description"@);
            assert(known@[2]@ == "variables"@);
            assert(crate::record::names_view(known@) =~= server_keys());
        }
        let (mut slots, extras) = split_fields(entries, &known);
        let ghost o = entries_view(entries@);
        proof {
            lemma_split_extras_wf(extras@, o, server_keys());
        }
        let s_url = slots.remove(0);
        let s_desc = slots.remove(0);
        let s_vars = slots.remove(0);
        let url_text = match take_req_string(s_url, "url") {
            Ok(t) => t,
            Err(e) => {
                return Err(e);
            },
        };
        let url = lenient_url(url_text);
        let description = match take_opt_string(s_desc, "description") {
            Ok(d) => d,
            Err(e) => {
                return Err(e);
            },
        };
        let variables: Option<Vec<(String, ServerVariable)>> = match s_vars {
            None => None,
            Some(Any::Obj(vo)) => {
                let ghost gvo = entries_view(vo@);
                proof {
                    lemma_entries_view(vo@);
                }
                let mut rest = vo;
                let mut out: Vec<(String, ServerVariable)> = Vec::new();
                let mut i: usize = 0;
                let n = rest.len();
                while i < n
                    invariant
                        0 <= i <= n,
                        n == gvo.len(),
                        rest@.len() == n - i,
                        forall|t: int|
                            0 <= t < n - i ==> (#[trigger] rest@[t].0@, rest@[t].1@) == gvo[t
                                + i],
                        out.len() == i,
                        forall|t: int|
                            0 <= t < i ==> (#[trigger] out[t]).0@ == gvo[t].0
                                && server_variable_matches(gvo[t].1, out[t].1) && out[t].1.wf()
                                && server_variable_ok(gvo[t].1),
                    decreases n - i,
                {
                    let (k, val) = rest.remove(0);
                    proof {
                        assert((k@, val@) == gvo[i as int]);
                    }
                    match ServerVariable::from_value(val) {
                        Ok(sv) => {
                            out.push((k, sv));
                        },
                        Err(e) => {
                            proof {
                                assert forall|j: int|
                                    0 <= j < i as int implies server_variable_ok(
                                    (#[trigger] gvo[j]).1,
                                ) by {
                                    assert(out[j].0@ == gvo[j].0);
                                }
                                lemma_vars_fail_at(gvo, i as int);
                            }
                            return Err(e.under(k.as_str()).under("variables"));
                        },
                    }
                    i = i + 1;
                }
                proof {
                    assert forall|t: int| 0 <= t < n implies server_variable_ok(
                        (#[trigger] gvo[t]).1,
                    ) by {
                        assert(out[t].0@ == gvo[t].0);
                    }
                    assert(vars_match(gvo, out@));
                }
                Some(out)
            },
            Some(_) => {
                return Err(DecodeError::mismatch_here("variables", "object"));
            },
        };
        Ok(Server { url, description, variables, extras })
    }

    /// The model of this record's encoding: known fields in schema order
    /// under their document names, then every extra entry unchanged.
    pub open spec fn enc(self) -> Val {
        Val::Obj(
            seq![("url"@, Val::Str(lenient_text(self.url@)))] + (match self.description {
                Some(d) => seq![("description"@, Val::Str(d@))],
                None => Seq::empty(),
            }) + (match self.variables {
                Some(vars) => seq![("variables"@, Val::Obj(vars_enc(vars@)))],
                None => Seq::empty(),
            }) + entries_view(self.extras@),
        )
    }

    /// Encodes this record back to a tree value.
    #[verifier::loop_isolation(false)]
    pub fn to_value(&self) -> (r: Any)
        ensures
            r@ == self.enc(),
    {
        let mut out: Vec<(String, Any)> = Vec::new();
        let url_text: String = match &self.url {
            Parseable::Valid(c) => c.clone(),
            Parseable::Invalid(s) => s.clone(),
        };
        out.push(("url".to_owned(), Any::Str(url_text)));
        match &self.description {
            Some(d) => {
                out.push(("description".to_owned(), Any::Str(d.clone())));
            },
            None => {},
        }
        match &self.variables {
            Some(vars) => {
                let n = vars.len();
                let mut vout: Vec<(String, Any)> = Vec::new();
                let mut i: usize = 0;
                while i < n
                    invariant
                        0 <= i <= n,
                        n == vars.len(),
                        vout.len() == i,
                        forall|t: int|
                            0 <= t < i ==> (#[trigger] vout[t]).0@ == vars[t].0@ && vout[t].1@
                                == vars[t].1.enc(),
                    decreases n - i,
                {
                    let k = vars[i].0.clone();
                    let sv = vars[i].1.to_value();
                    vout.push((k, sv));
                    i = i + 1;
                }
                proof {
                    lemma_entries_view(vout@);
                    assert(entries_view(vout@) =~= vars_enc(vars@));
                }
                out.push(("variables".to_owned(), Any::Obj(vout)));
            },
            None => {},
        }
        let mut ex = crate::value::duplicate_entries(&self.extras);
        let ghost gex = ex@;
        out.append(&mut ex);
        proof {
            lemma_entries_view(out@);
            lemma_entries_view(gex);
            lemma_entries_view(self.extras@);
            assert forall|t: int|
                0 <= t < gex.len() implies (gex[t].0@, gex[t].1@) == entries_view(
                self.extras@,
            )[t] by {
                assert(entries_view(gex)[t] == (gex[t].0@, gex[t].1@));
            }
            assert(entries_view(out@) =~= (match self.enc() {
                Val::Obj(o) => o,
                _ => Seq::empty(),
            }));
        }
        Any::Obj(out)
    }
}

/// Two servers that carry the same text, field for field.
pub open spec fn server_eqv(a: Server, b: Server) -> bool {
    &&& a.url@ == b.url@
    &&& match (a.description, b.description) {
        (None, None) => true,
        (Some(x), Some(y)) => x@ == y@,
        _ => false,
    }
    &&& match (a.variables, b.variables) {
        (None, None) => true,
        (Some(x), Some(y)) => vars_enc(x@) == vars_enc(y@),
        _ => false,
    }
    &&& entries_view(a.extras@) == entries_view(b.extras@)
}

/// A well-formed server's encoding decodes, and its fields look up to
/// exactly what was encoded.
pub proof fn lemma_server_enc_ok(s: Server)
    requires
        s.wf(),
    ensures
        server_ok(s.enc()),
        server_matches(s.enc(), s),
        s.variables matches Some(vars) ==> (s.enc() matches Val::Obj(o) && lookup(o, "variables"@)
            == Some(Val::Obj(vars_enc(vars@)))),
{
    reveal_strlit("url");
    reveal_strlit("description");
    reveal_strlit("variables");
    assert("url"@.len() == 3);
    assert("description"@.len() == 11);
    assert("variables"@.len() == 9);
    assert("url"@ != "description"@);
    assert("url"@ != "variables"@);
    assert("description"@ != "variables"@);
    let ks = server_keys();
    let f1: Seq<(Seq<char>, Val)> = seq![("url"@, Val::Str(lenient_text(s.url@)))];
    let f2: Seq<(Seq<char>, Val)> = match s.description {
        Some(d) => seq![("description"@, Val::Str(d@))],
        None => Seq::empty(),
    };
    let f3: Seq<(Seq<char>, Val)> = match s.variables {
        Some(vars) => seq![("variables"@, Val::Obj(vars_enc(vars@)))],
        None => Seq::empty(),
    };
    let ex = entries_view(s.extras@);
    let o = f1 + f2 + f3 + ex;
    lemma_entries_view(s.extras@);
    assert(ks.contains("url"@)) by {
        assert(ks[0] == "url"@);
    }
    assert(ks.contains("description"@)) by {
        assert(ks[1] == "description"@);
    }
    assert(ks.contains("variables"@)) by {
        assert(ks[2] == "variables"@);
    }
    assert forall|i: int| 0 <= i < ex.len() implies !ks.contains((#[trigger] ex[i]).0) by {
        assert(ex[i] == (s.extras@[i].0@, s.extras@[i].1@));
    }
    lemma_lookup_absent(ex, "url"@);
    lemma_lookup_absent(ex, "description"@);
    lemma_lookup_absent(ex, "variables"@);
    lemma_lookup_single(("url"@, Val::Str(lenient_text(s.url@))), "url"@);
    lemma_lookup_single(("url"@, Val::Str(lenient_text(s.url@))), "description"@);
    lemma_lookup_single(("url"@, Val::Str(lenient_text(s.url@))), "variables"@);
    match s.description {
        Some(d) => {
            lemma_lookup_single(("description"@, Val::Str(d@)), "url"@);
            lemma_lookup_single(("description"@, Val::Str(d@)), "description"@);
            lemma_lookup_single(("description"@, Val::Str(d@)), "variables"@);
        },
        None => {
            assert(f2.len() == 0);
        },
    }
    match s.variables {
        Some(vars) => {
            lemma_lookup_single(("variables"@, Val::Obj(vars_enc(vars@))), "url"@);
            lemma_lookup_single(("variables"@, Val::Obj(vars_enc(vars@))), "description"@);
            lemma_lookup_single(("variables"@, Val::Obj(vars_enc(vars@))), "variables"@);
        },
        None => {
            assert(f3.len() == 0);
        },
    }
    lemma_lookup_concat(f1 + f2 + f3, ex, "url"@);
    lemma_lookup_concat(f1 + f2 + f3, ex, "description"@);
    lemma_lookup_concat(f1 + f2 + f3, ex, "variables"@);
    proof_peel(f1, f2, f3, "url"@);
    proof_peel(f1, f2, f3, "description"@);
    proof_peel(f1, f2, f3, "variables"@);
    assert(lookup(o, "url"@) == Some(Val::Str(lenient_text(s.url@))));
    crate::shared::lemma_lenient_url_round_trip(s.url@);
    match s.variables {
        Some(vars) => {
            assert(lookup(o, "variables"@) == Some(Val::Obj(vars_enc(vars@))));
            assert forall|i: int|
                0 <= i < vars_enc(vars@).len() implies server_variable_ok(
                (#[trigger] vars_enc(vars@)[i]).1,
            ) && vars_enc(vars@)[i].0 == vars@[i].0@ && server_variable_matches(
                vars_enc(vars@)[i].1,
                vars@[i].1,
            ) by {
                assert(vars_enc(vars@)[i] == (vars@[i].0@, vars@[i].1.enc()));
                assert(vars@[i].1.wf());
                lemma_server_variable_enc_ok(vars@[i].1);
            }
            assert(vars_ok(vars_enc(vars@)));
            assert(vars_match(vars_enc(vars@), vars@));
        },
        None => {
            assert(lookup(o, "variables"@) is None);
        },
    }
    match s.description {
        Some(d) => {
            assert(lookup(o, "description"@) == Some(Val::Str(d@)));
        },
        None => {
            assert(lookup(o, "description"@) is None);
        },
    }
    lemma_sift_concat(f1 + f2 + f3, ex, ks);
    lemma_sift_concat(f1 + f2, f3, ks);
    lemma_sift_concat(f1, f2, ks);
    assert forall|i: int| 0 <= i < f2.len() implies ks.contains(#[trigger] f2[i].0) by {
        assert(f2[i] == f2[0]);
    }
    assert forall|i: int| 0 <= i < f3.len() implies ks.contains(#[trigger] f3[i].0) by {
        assert(f3[i] == f3[0]);
    }
    lemma_sift_all_known(f1, ks);
    lemma_sift_all_known(f2, ks);
    lemma_sift_all_known(f3, ks);
    lemma_sift_none_known(ex, ks);
    assert(sift(o, ks) =~= ex);
}

/// Decoding what a well-formed server encodes to succeeds and reproduces
/// the record: the round trip is stable.
pub proof fn lemma_server_round_trip(s: Server, s2: Server)
    requires
        s.wf(),
        server_matches(s.enc(), s2),
    ensures
        server_eqv(s2, s),
{
    lemma_server_enc_ok(s);
    match (s.variables, s2.variables) {
        (Some(x), Some(y)) => {
            assert(vars_enc(x@) =~= vars_enc(y@)) by {
                let vo = vars_enc(x@);
                assert(s.enc() matches Val::Obj(o) && lookup(o, "variables"@) == Some(
                    Val::Obj(vo),
                ));
                assert(vars_match(vo, x@));
                assert(vars_match(vo, y@));
                assert forall|i: int| 0 <= i < y@.len() implies vars_enc(y@)[i] == vars_enc(
                    x@,
                )[i] by {
                    assert(vars_enc(x@)[i] == (x@[i].0@, x@[i].1.enc()));
                    assert(vars_enc(y@)[i] == (y@[i].0@, y@[i].1.enc()));
                    assert(y@[i].0@ == vo[i].0);
                    assert(server_variable_matches(vo[i].1, x@[i].1));
                    assert(server_variable_matches(vo[i].1, y@[i].1));
                    assert(x@[i].1.wf());
                    lemma_server_variable_round_trip(x@[i].1, y@[i].1);
                    lemma_variable_eqv_enc(x@[i].1, y@[i].1);
                }
            }
        },
        _ => {},
    }
}

/// Equivalent server variables share one encoding.
pub proof fn lemma_variable_eqv_enc(a: ServerVariable, b: ServerVariable)
    requires
        server_variable_eqv(b, a),
    ensures
        a.enc() == b.enc(),
{
    match (a._enum, b._enum) {
        (Some(x), Some(y)) => {
            assert(str_list_enc(x@) == str_list_enc(y@));
        },
        _ => {},
    }
    assert(a.enc() =~~= b.enc());
}

/// Resolves a key's first match across the three field groups of a server
/// variable encoding.
proof fn proof_peel(
    f1: Seq<(Seq<char>, Val)>,
    f2: Seq<(Seq<char>, Val)>,
    f3: Seq<(Seq<char>, Val)>,
    k: Seq<char>,
)
    ensures
        lookup((f1 + f2 + f3), k) == (if lookup(f1, k) is Some {
            lookup(f1, k)
        } else if lookup(f2, k) is Some {
            lookup(f2, k)
        } else {
            lookup(f3, k)
        }),
{
    lemma_lookup_concat(f1 + f2, f3, k);
    lemma_lookup_concat(f1, f2, k);
}

} // verus!
