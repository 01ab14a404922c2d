//! The root document object of an OpenAPI v3 description.
use vstd::prelude::*;

use crate::error::{DecodeError, ErrV, prefixed};
use crate::info::{Info, info_fail, info_matches, info_ok, info_eqv, lemma_info_enc_ok,
    lemma_info_round_trip};
use crate::record::{extras_wf, lemma_split_extras_wf, opt_view, split_fields};
use crate::server::{Server, server_fail, server_matches, server_ok, server_eqv,
    lemma_server_enc_ok, lemma_server_round_trip, vars_enc};
use crate::shared::{ExternalDocumentation, LenV, Parseable, extdoc_fail, extdoc_matches,
    extdoc_ok, extdoc_eqv, lemma_extdoc_enc_ok, lemma_extdoc_round_trip, lenient_text,
    lenient_semver_spec, semver_lenv_wf, take_req_semver, Tag, tag_fail, tag_matches, tag_ok,
    tag_eqv, lemma_tag_enc_ok, lemma_tag_round_trip, lemma_extdoc_eqv_enc};
use crate::value::{Any, Val, entries_view, lemma_entries_view, lemma_lookup_absent,
    lemma_lookup_concat, lemma_lookup_single, lemma_seq_view, lemma_sift_all_known,
    lemma_sift_concat, lemma_sift_none_known, lookup, seq_view, sift};

verus! {

/// The root document object of an OpenAPI v3 description. Node kinds outside
/// this schema's known fields survive in extras verbatim, as any unknown
/// field does.
#[derive(Debug, PartialEq)]
pub struct OpenAPIV3 {
    /// The semantic version of the specification format the document uses.
    /// An unknown or future version is kept raw, never rejected.
    pub openapi: Parseable<String>,
    /// Metadata about the API.
    pub info: Info,
    /// The servers that provide the API.
    pub servers: Option<Vec<Server>>,
    /// The available paths and operations, each path's description carried
    /// as its verbatim subtree.
    pub paths: Vec<(String, Any)>,
    /// A list of tags with additional metadata.
    pub tags: Option<Vec<Tag>>,
    /// Additional external documentation; exposed in the document under its
    /// `externalDocs` name.
    pub external_docs: Option<ExternalDocumentation>,
    /// Every field of the source mapping outside this record's schema,
    /// retained verbatim.
    pub extras: Vec<(String, Any)>,
}

pub open spec fn root_keys() -> Seq<Seq<char>> {
    seq!["openapi"@, "info"@, "servers"@, "paths"@, "tags"@, "externalDocs"@]
}

pub open spec fn servers_list_ok(a: Seq<Val>) -> bool {
    forall|i: int| 0 <= i < a.len() ==> server_ok(#[trigger] a[i])
}

pub open spec fn servers_list_fail(a: Seq<Val>) -> ErrV
    decreases a.len(),
{
    if a.len() == 0 {
        arbitrary()
    } else if !server_ok(a[0]) {
        server_fail(a[0])
    } else {
        servers_list_fail(a.drop_first())
    }
}

pub proof fn lemma_servers_list_fail_at(a: Seq<Val>, i: int)
    requires
        0 <= i < a.len(),
        forall|j: int| 0 <= j < i ==> server_ok(#[trigger] a[j]),
        !server_ok(a[i]),
    ensures
        servers_list_fail(a) == server_fail(a[i]),
    decreases i,
{
    if i > 0 {
        assert forall|j: int| 0 <= j < i - 1 implies server_ok(#[trigger] a.drop_first()[j]) by {
            assert(a.drop_first()[j] == a[j + 1]);
        }
        assert(a.drop_first()[i - 1] == a[i]);
        lemma_servers_list_fail_at(a.drop_first(), i - 1);
    }
}

pub open spec fn servers_list_match(a: Seq<Val>, ss: Seq<Server>) -> bool {
    &&& ss.len() == a.len()
    &&& forall|i: int| 0 <= i < a.len() ==> server_matches(a[i], #[trigger] ss[i])
}

pub open spec fn servers_enc(ss: Seq<Server>) -> Seq<Val> {
    ss.map_values(|s: Server| s.enc())
}

pub open spec fn tags_list_ok(a: Seq<Val>) -> bool {
    forall|i: int| 0 <= i < a.len() ==> tag_ok(#[trigger] a[i])
}

pub open spec fn tags_list_fail(a: Seq<Val>) -> ErrV
    decreases a.len(),
{
    if a.len() == 0 {
        arbitrary()
    } else if !tag_ok(a[0]) {
        tag_fail(a[0])
    } else {
        tags_list_fail(a.drop_first())
    }
}

pub proof fn lemma_tags_list_fail_at(a: Seq<Val>, i: int)
    requires
        0 <= i < a.len(),
        forall|j: int| 0 <= j < i ==> tag_ok(#[trigger] a[j]),
        !tag_ok(a[i]),
    ensures
        tags_list_fail(a) == tag_fail(a[i]),
    decreases i,
{
    if i > 0 {
        assert forall|j: int| 0 <= j < i - 1 implies tag_ok(#[trigger] a.drop_first()[j]) by {
            assert(a.drop_first()[j] == a[j + 1]);
        }
        assert(a.drop_first()[i - 1] == a[i]);
        lemma_tags_list_fail_at(a.drop_first(), i - 1);
    }
}

pub open spec fn tags_list_match(a: Seq<Val>, ts: Seq<Tag>) -> bool {
    &&& ts.len() == a.len()
    &&& forall|i: int| 0 <= i < a.len() ==> tag_matches(a[i], #[trigger] ts[i])
}

pub open spec fn tags_enc(ts: Seq<Tag>) -> Seq<Val> {
    ts.map_values(|t: Tag| t.enc())
}

/// The inputs on which a document decodes: the format version and the paths
/// must be present and rightly shaped, and every nested record must decode.
pub open spec fn root_ok(v: Val) -> bool {
    &&& v matches Val::Obj(o)
    &&& lookup(o, "openapi"@) matches Some(Val::Str(_))
    &&& match lookup(o, "info"@) {
        Some(iv) => info_ok(iv),
        None => false,
    }
    &&& match lookup(o, "servers"@) {
        None => true,
        Some(Val::Arr(a)) => servers_list_ok(a),
        Some(_) => false,
    }
    &&& lookup(o, "paths"@) matches Some(Val::Obj(_))
    &&& match lookup(o, "tags"@) {
        None => true,
        Some(Val::Arr(a)) => tags_list_ok(a),
        Some(_) => false,
    }
    &&& match lookup(o, "externalDocs"@) {
        None => true,
        Some(d) => extdoc_ok(d),
    }
}

/// How a decoded document relates to its source mapping.
pub open spec fn root_matches(v: Val, x: OpenAPIV3) -> bool {
    &&& v matches Val::Obj(o)
    &&& lookup(o, "openapi"@) matches Some(Val::Str(t)) && x.openapi@ == lenient_semver_spec(t)
    &&& match lookup(o, "info"@) {
        Some(iv) => info_matches(iv, x.info),
        None => false,
    }
    &&& match lookup(o, "servers"@) {
        None => x.servers is None,
        Some(Val::Arr(a)) => x.servers matches Some(ss) && servers_list_match(a, ss@),
        Some(_) => false,
    }
    &&& lookup(o, "paths"@) == Some(Val::Obj(entries_view(x.paths@)))
    &&& match lookup(o, "tags"@) {
        None => x.tags is None,
        Some(Val::Arr(a)) => x.tags matches Some(ts) && tags_list_match(a, ts@),
        Some(_) => false,
    }
    &&& match lookup(o, "externalDocs"@) {
        None => x.external_docs is None,
        Some(d) => x.external_docs matches Some(ed) && extdoc_matches(d, ed),
    }
    &&& entries_view(x.extras@) == sift(o, root_keys())
}

/// The failure a non-decoding document reports: the first offense in schema
/// order, under the offending field's path.
pub open spec fn root_fail(v: Val) -> ErrV {
    match v {
        Val::Obj(o) => {
            if lookup(o, "openapi"@) is None {
                ErrV::Missing(seq!["openapi"@])
            } else if !(lookup(o, "openapi"@) matches Some(Val::Str(_))) {
                ErrV::Mismatch(seq!["openapi"@], "string"@)
            } else if lookup(o, "info"@) is None {
                ErrV::Missing(seq!["info"@])
            } else if !info_ok(lookup(o, "info"@)->Some_0) {
                prefixed("info"@, info_fail(lookup(o, "info"@)->Some_0))
            } else if !(match lookup(o, "servers"@) {
                None => true,
                Some(s) => s is Arr,
            }) {
                ErrV::Mismatch(seq!["servers"@], "array"@)
            } else if !(match lookup(o, "servers"@) {
                None => true,
                Some(Val::Arr(a)) => servers_list_ok(a),
                Some(_) => false,
            }) {
                prefixed("servers"@, servers_list_fail(lookup(o, "servers"@)->Some_0->Arr_0))
            } else if lookup(o, "paths"@) is None {
                ErrV::Missing(seq!["paths"@])
            } else if !(lookup(o, "paths"@) matches Some(Val::Obj(_))) {
                ErrV::Mismatch(seq!["paths"@], "object"@)
            } else if !(match lookup(o, "tags"@) {
                None => true,
                Some(t) => t is Arr,
            }) {
                ErrV::Mismatch(seq!["tags"@], "array"@)
            } else if !(match lookup(o, "tags"@) {
                None => true,
                Some(Val::Arr(a)) => tags_list_ok(a),
                Some(_) => false,
            }) {
                prefixed("tags"@, tags_list_fail(lookup(o, "tags"@)->Some_0->Arr_0))
            } else {
                match lookup(o, "externalDocs"@) {
                    Some(d) => prefixed("externalDocs"@, extdoc_fail(d)),
                    None => arbitrary(),
                }
            }
        },
        _ => ErrV::Mismatch(Seq::empty(), "object"@),
    }
}

impl OpenAPIV3 {
    pub open spec fn wf(self) -> bool {
        &&& semver_lenv_wf(self.openapi@)
        &&& self.info.wf()
        &&& match self.servers {
            None => true,
            Some(ss) => forall|i: int| 0 <= i < ss@.len() ==> (#[trigger] ss@[i]).wf(),
        }
        &&& match self.tags {
            None => true,
            Some(ts) => forall|i: int| 0 <= i < ts@.len() ==> (#[trigger] ts@[i]).wf(),
        }
        &&& match self.external_docs {
            None => true,
            Some(ed) => ed.wf(),
        }
        &&& extras_wf(self.extras@, root_keys())
    }

    /// Decodes a document from a tree value: the version marker leniently,
    /// each known field by its declared kind, everything else into extras.
    #[verifier::loop_isolation(false)]
    pub fn from_value(v: Any) -> (r: Result<OpenAPIV3, DecodeError>)
        ensures
            match r {
                Ok(x) => root_ok(v@) && root_matches(v@, x) && x.wf(),
                Err(e) => !root_ok(v@) && e@ == root_fail(v@),
            },
    {
        let entries: Vec<(String, Any)> = match v {
            Any::Obj(o) => o,
            _ => {
                return Err(DecodeError::mismatch_node("object"));
            },
        };
        let mut known: Vec<&str> = Vec::new();
        known.push("openapi");
        known.push("info");
        known.push("servers");
        known.push("paths");
        known.push("tags");
        known.push("externalDocs");
        proof {
            reveal_strlit("openapi");
            reveal_strlit("info");
            reveal_strlit("servers");
            reveal_strlit("paths");
            reveal_strlit("tags");
            reveal_strlit("externalDocs");
            assert("openapi"@.len() == 7);
            assert("info"@.len() == 4);
            assert("servers"@.len() == 7);
            assert("paths"@.len() == 5);
            assert("tags"@.len() == 4);
            assert("externalDocs"@.len() == 12);
            assert("openapi"@[0] == 'o');
            assert("servers"@[0] == 's');
            assert("info"@[0] == 'i');
            assert("tags"@[0] == 't');
            assert(known@[0]@ == "openapi"@);
            assert(known@[1]@ == "info"@);
            assert(known@[2]@ == "servers"@);
            assert(known@[3]@ == "paths"@);
            assert(known@[4]@ == "tags"@);
            assert(known@[5]@ == "externalDocs"@);
            assert(crate::record::names_view(known@) =~= root_keys());
        }
        let (mut slots, extras) = split_fields(entries, &known);
        proof {
            lemma_split_extras_wf(extras@, entries_view(entries@), root_keys());
        }
        let s_openapi = slots.remove(0);
        let s_info = slots.remove(0);
        let s_servers = slots.remove(0);
        let s_paths = slots.remove(0);
        let s_tags = slots.remove(0);
        let s_docs = slots.remove(0);
        let openapi = match take_req_semver(s_openapi, "openapi") {
            Ok(p) => p,
            Err(e) => {
                return Err(e);
            },
        };
        let info = match s_info {
            None => {
                return Err(DecodeError::missing_here("info"));
            },
            Some(iv) => match Info::from_value(iv) {
                Ok(i) => i,
                Err(e) => {
                    return Err(e.under("info"));
                },
            },
        };
        let servers: Option<Vec<Server>> = match s_servers {
            None => None,
            Some(Any::Arr(a)) => {
                let ghost ga = seq_view(a@);
                proof {
                    lemma_seq_view(a@);
                }
                let mut rest = a;
                let mut out: Vec<Server> = Vec::new();
                let mut i: usize = 0;
                let n = rest.len();
                while i < n
                    invariant
                        0 <= i <= n,
                        n == ga.len(),
                        rest@.len() == n - i,
                        forall|t: int| 0 <= t < n - i ==> (#[trigger] rest@[t]@) == ga[t + i],
                        out.len() == i,
                        forall|t: int|
                            0 <= t < i ==> server_matches(ga[t], #[trigger] out[t])
                                && out[t].wf() && server_ok(ga[t]),
                    decreases n - i,
                {
                    let sv = rest.remove(0);
                    proof {
                        assert(sv@ == ga[i as int]);
                    }
                    match Server::from_value(sv) {
                        Ok(s) => {
                            out.push(s);
                        },
                        Err(e) => {
                            proof {
                                assert forall|j: int| 0 <= j < i as int implies server_ok(
                                    #[trigger] ga[j],
                                ) by {
                                    assert(server_matches(ga[j], out[j]));
                                }
                                lemma_servers_list_fail_at(ga, i as int);
                            }
                            return Err(e.under("servers"));
                        },
                    }
                    i = i + 1;
                }
                proof {
                    assert forall|t: int| 0 <= t < n implies server_ok(#[trigger] ga[t]) by {
                        assert(server_matches(ga[t], out[t]));
                    }
                    assert(servers_list_match(ga, out@));
                }
                Some(out)
            },
            Some(_) => {
                return Err(DecodeError::mismatch_here("servers", "array"));
            },
        };
        let paths: Vec<(String, Any)> = match s_paths {
            None => {
                return Err(DecodeError::missing_here("paths"));
            },
            Some(Any::Obj(po)) => po,
            Some(_) => {
                return Err(DecodeError::mismatch_here("paths", "object"));
            },
        };
        let tags: Option<Vec<Tag>> = match s_tags {
            None => None,
            Some(Any::Arr(a)) => {
                let ghost ga = seq_view(a@);
                proof {
                    lemma_seq_view(a@);
                }
                let mut rest = a;
                let mut out: Vec<Tag> = Vec::new();
                let mut i: usize = 0;
                let n = rest.len();
                while i < n
                    invariant
                        0 <= i <= n,
                        n == ga.len(),
                        rest@.len() == n - i,
                        forall|t: int| 0 <= t < n - i ==> (#[trigger] rest@[t]@) == ga[t + i],
                        out.len() == i,
                        forall|t: int|
                            0 <= t < i ==> tag_matches(ga[t], #[trigger] out[t]) && out[t].wf()
                                && tag_ok(ga[t]),
                    decreases n - i,
                {
                    let tv = rest.remove(0);
                    proof {
                        assert(tv@ == ga[i as int]);
                    }
                    match Tag::from_value(tv) {
                        Ok(t) => {
                            out.push(t);
                        },
                        Err(e) => {
                            proof {
                                assert forall|j: int| 0 <= j < i as int implies tag_ok(
                                    #[trigger] ga[j],
                                ) by {
                                    assert(tag_matches(ga[j], out[j]));
                                }
                                lemma_tags_list_fail_at(ga, i as int);
                            }
                            return Err(e.under("tags"));
                        },
                    }
                    i = i + 1;
                }
                proof {
                    assert forall|t: int| 0 <= t < n implies tag_ok(#[trigger] ga[t]) by {
                        assert(tag_matches(ga[t], out[t]));
                    }
                    assert(tags_list_match(ga, out@));
                }
                Some(out)
            },
            Some(_) => {
                return Err(DecodeError::mismatch_here("tags", "array"));
            },
        };
        let external_docs = match s_docs {
            None => None,
            Some(dv) => match ExternalDocumentation::from_value(dv) {
                Ok(ed) => Some(ed),
                Err(e) => {
                    return Err(e.under("externalDocs"));
                },
            },
        };
        Ok(OpenAPIV3 { openapi, info, servers, paths, tags, external_docs, extras })
    }

    /// The model of this record's encoding.
    pub open spec fn enc(self) -> Val {
        Val::Obj(
            seq![("openapi"@, Val::Str(lenient_text(self.openapi@)))] + seq![
                ("info"@, self.info.enc()),
            ] + (match self.servers {
                Some(ss) => seq![("servers"@, Val::Arr(servers_enc(ss@)))],
                None => Seq::empty(),
            }) + seq![("paths"@, Val::Obj(entries_view(self.paths@)))] + (match self.tags {
                Some(ts) => seq![("tags"@, Val::Arr(tags_enc(ts@)))],
                None => Seq::empty(),
            }) + (match self.external_docs {
                Some(ed) => seq![("externalDocs"@, ed.enc())],
                None => Seq::empty(),
            }) + entries_view(self.extras@),
        )
    }

    /// Encodes this record back to a tree value.
    #[verifier::loop_isolation(false)]
    pub fn to_value(&self) -> (r: Any)
        ensures
            r@ == self.enc(),
    {
        let mut out: Vec<(String, Any)> = Vec::new();
        out.push(("openapi".to_owned(), Any::Str(crate::shared::lenient_to_text(&self.openapi))));
        out.push(("info".to_owned(), self.info.to_value()));
        match &self.servers {
            Some(ss) => {
                let n = ss.len();
                let mut arr: Vec<Any> = Vec::new();
                let mut i: usize = 0;
                while i < n
                    invariant
                        0 <= i <= n,
                        n == ss.len(),
                        arr.len() == i,
                        forall|t: int| 0 <= t < i ==> #[trigger] arr[t]@ == ss[t].enc(),
                    decreases n - i,
                {
                    arr.push(ss[i].to_value());
                    i = i + 1;
                }
                proof {
                    lemma_seq_view(arr@);
                    assert(seq_view(arr@) =~= servers_enc(ss@));
                }
                out.push(("servers".to_owned(), Any::Arr(arr)));
            },
            None => {},
        }
        out.push(("paths".to_owned(), Any::Obj(crate::value::duplicate_entries(&self.paths))));
        match &self.tags {
            Some(ts) => {
                let n = ts.len();
                let mut arr: Vec<Any> = Vec::new();
                let mut i: usize = 0;
                while i < n
                    invariant
                        0 <= i <= n,
                        n == ts.len(),
                        arr.len() == i,
                        forall|t: int| 0 <= t < i ==> #[trigger] arr[t]@ == ts[t].enc(),
                    decreases n - i,
                {
                    arr.push(ts[i].to_value());
                    i = i + 1;
                }
                proof {
                    lemma_seq_view(arr@);
                    assert(seq_view(arr@) =~= tags_enc(ts@));
                }
                out.push(("tags".to_owned(), Any::Arr(arr)));
            },
            None => {},
        }
        match &self.external_docs {
            Some(ed) => {
                out.push(("externalDocs".to_owned(), ed.to_value()));
            },
            None => {},
        }
        let mut ex = crate::value::duplicate_entries(&self.extras);
        let ghost gex = ex@;
        out.append(&mut ex);
        proof {
            lemma_entries_view(out@);
            lemma_entries_view(gex);
            lemma_entries_view(self.extras@);
            assert forall|t: int|
                0 <= t < gex.len() implies (gex[t].0@, gex[t].1@) == entries_view(
                self.extras@,
            )[t] by {
                assert(entries_view(gex)[t] == (gex[t].0@, gex[t].1@));
            }
            assert(entries_view(out@) =~= (match self.enc() {
                Val::Obj(o) => o,
                _ => Seq::empty(),
            }));
        }
        Any::Obj(out)
    }
}

/// Two documents that carry the same content, field for field.
pub open spec fn root_eqv(a: OpenAPIV3, b: OpenAPIV3) -> bool {
    &&& a.openapi@ == b.openapi@
    &&& info_eqv(a.info, b.info)
    &&& match (a.servers, b.servers) {
        (None, None) => true,
        (Some(x), Some(y)) => servers_enc(x@) == servers_enc(y@),
        _ => false,
    }
    &&& entries_view(a.paths@) == entries_view(b.paths@)
    &&& match (a.tags, b.tags) {
        (None, None) => true,
        (Some(x), Some(y)) => tags_enc(x@) == tags_enc(y@),
        _ => false,
    }
    &&& match (a.external_docs, b.external_docs) {
        (None, None) => true,
        (Some(x), Some(y)) => extdoc_eqv(x, y),
        _ => false,
    }
    &&& entries_view(a.extras@) == entries_view(b.extras@)
}

/// A well-formed document's encoding decodes, and its fields look up to
/// exactly what was encoded.
pub proof fn lemma_root_enc_ok(x: OpenAPIV3)
    requires
        x.wf(),
    ensures
        root_ok(x.enc()),
        root_matches(x.enc(), x),
        x.enc() matches Val::Obj(o) && lookup(o, "info"@) == Some(x.info.enc()),
        x.servers matches Some(ss) ==> (x.enc() matches Val::Obj(o) && lookup(o, "servers"@)
            == Some(Val::Arr(servers_enc(ss@)))),
        x.tags matches Some(ts) ==> (x.enc() matches Val::Obj(o) && lookup(o, "tags"@) == Some(
            Val::Arr(tags_enc(ts@)),
        )),
        x.external_docs matches Some(ed) ==> (x.enc() matches Val::Obj(o) && lookup(
            o,
            "externalDocs"@,
        ) == Some(ed.enc())),
{
    reveal_strlit("openapi");
    reveal_strlit("info");
    reveal_strlit("servers");
    reveal_strlit("paths");
    reveal_strlit("tags");
    reveal_strlit("externalDocs");
    assert("openapi"@.len() == 7);
    assert("info"@.len() == 4);
    assert("servers"@.len() == 7);
    assert("paths"@.len() == 5);
    assert("tags"@.len() == 4);
    assert("externalDocs"@.len() == 12);
    assert("openapi"@[0] == 'o');
    assert("servers"@[0] == 's');
    assert("info"@[0] == 'i');
    assert("tags"@[0] == 't');
    let ks = root_keys();
    let f1: Seq<(Seq<char>, Val)> = seq![("openapi"@, Val::Str(lenient_text(x.openapi@)))];
    let f2: Seq<(Seq<char>, Val)> = seq![("info"@, x.info.enc())];
    let f3: Seq<(Seq<char>, Val)> = match x.servers {
        Some(ss) => seq![("servers"@, Val::Arr(servers_enc(ss@)))],
        None => Seq::empty(),
    };
    let f4: Seq<(Seq<char>, Val)> = seq![("paths"@, Val::Obj(entries_view(x.paths@)))];
    let f5: Seq<(Seq<char>, Val)> = match x.tags {
        Some(ts) => seq![("tags"@, Val::Arr(tags_enc(ts@)))],
        None => Seq::empty(),
    };
    let f6: Seq<(Seq<char>, Val)> = match x.external_docs {
        Some(ed) => seq![("externalDocs"@, ed.enc())],
        None => Seq::empty(),
    };
    let ex = entries_view(x.extras@);
    let o = f1 + f2 + f3 + f4 + f5 + f6 + ex;
    lemma_entries_view(x.extras@);
    assert(ks.contains("openapi"@)) by {
        assert(ks[0] == "openapi"@);
    }
    assert(ks.contains("info"@)) by {
        assert(ks[1] == "info"@);
    }
    assert(ks.contains("servers"@)) by {
        assert(ks[2] == "servers"@);
    }
    assert(ks.contains("paths"@)) by {
        assert(ks[3] == "paths"@);
    }
    assert(ks.contains("tags"@)) by {
        assert(ks[4] == "tags"@);
    }
    assert(ks.contains("externalDocs"@)) by {
        assert(ks[5] == "externalDocs"@);
    }
    assert forall|i: int| 0 <= i < ex.len() implies !ks.contains((#[trigger] ex[i]).0) by {
        assert(ex[i] == (x.extras@[i].0@, x.extras@[i].1@));
    }
    lemma_lookup_absent(ex, "openapi"@);
    lemma_lookup_absent(ex, "info"@);
    lemma_lookup_absent(ex, "servers"@);
    lemma_lookup_absent(ex, "paths"@);
    lemma_lookup_absent(ex, "tags"@);
    lemma_lookup_absent(ex, "externalDocs"@);
    proof_root_singles(f1, ("openapi"@, Val::Str(lenient_text(x.openapi@))));
    proof_root_singles(f2, ("info"@, x.info.enc()));
    match x.servers {
        Some(ss) => {
            proof_root_singles(f3, ("servers"@, Val::Arr(servers_enc(ss@))));
            assert forall|i: int| 0 <= i < servers_enc(ss@).len() implies server_ok(
                #[trigger] servers_enc(ss@)[i],
            ) && server_matches(servers_enc(ss@)[i], ss@[i]) by {
                assert(servers_enc(ss@)[i] == ss@[i].enc());
                assert(ss@[i].wf());
                lemma_server_enc_ok(ss@[i]);
            }
            assert(servers_list_ok(servers_enc(ss@)));
            assert(servers_list_match(servers_enc(ss@), ss@));
        },
        None => {
            assert(f3.len() == 0);
        },
    }
    proof_root_singles(f4, ("paths"@, Val::Obj(entries_view(x.paths@))));
    match x.tags {
        Some(ts) => {
            proof_root_singles(f5, ("tags"@, Val::Arr(tags_enc(ts@))));
            assert forall|i: int| 0 <= i < tags_enc(ts@).len() implies tag_ok(
                #[trigger] tags_enc(ts@)[i],
            ) && tag_matches(tags_enc(ts@)[i], ts@[i]) by {
                assert(tags_enc(ts@)[i] == ts@[i].enc());
                assert(ts@[i].wf());
                lemma_tag_enc_ok(ts@[i]);
            }
            assert(tags_list_ok(tags_enc(ts@)));
            assert(tags_list_match(tags_enc(ts@), ts@));
        },
        None => {
            assert(f5.len() == 0);
        },
    }
    match x.external_docs {
        Some(ed) => {
            proof_root_singles(f6, ("externalDocs"@, ed.enc()));
            lemma_extdoc_enc_ok(ed);
        },
        None => {
            assert(f6.len() == 0);
        },
    }
    proof_root_peel(f1, f2, f3, f4, f5, f6, ex, "openapi"@);
    proof_root_peel(f1, f2, f3, f4, f5, f6, ex, "info"@);
    proof_root_peel(f1, f2, f3, f4, f5, f6, ex, "servers"@);
    proof_root_peel(f1, f2, f3, f4, f5, f6, ex, "paths"@);
    proof_root_peel(f1, f2, f3, f4, f5, f6, ex, "tags"@);
    proof_root_peel(f1, f2, f3, f4, f5, f6, ex, "externalDocs"@);
    lemma_info_enc_ok(x.info);
    crate::shared::lemma_lenient_semver_round_trip(x.openapi@);
    lemma_sift_concat(f1 + f2 + f3 + f4 + f5 + f6, ex, ks);
    lemma_sift_concat(f1 + f2 + f3 + f4 + f5, f6, ks);
    lemma_sift_concat(f1 + f2 + f3 + f4, f5, ks);
    lemma_sift_concat(f1 + f2 + f3, f4, ks);
    lemma_sift_concat(f1 + f2, f3, ks);
    lemma_sift_concat(f1, f2, ks);
    assert forall|i: int| 0 <= i < f3.len() implies ks.contains(#[trigger] f3[i].0) by {
        assert(f3[i] == f3[0]);
    }
    assert forall|i: int| 0 <= i < f5.len() implies ks.contains(#[trigger] f5[i].0) by {
        assert(f5[i] == f5[0]);
    }
    assert forall|i: int| 0 <= i < f6.len() implies ks.contains(#[trigger] f6[i].0) by {
        assert(f6[i] == f6[0]);
    }
    lemma_sift_all_known(f1, ks);
    lemma_sift_all_known(f2, ks);
    lemma_sift_all_known(f3, ks);
    lemma_sift_all_known(f4, ks);
    lemma_sift_all_known(f5, ks);
    lemma_sift_all_known(f6, ks);
    lemma_sift_none_known(ex, ks);
    assert(sift(o, ks) =~= ex);
}

/// The lookups a singleton field group resolves to, for every key of the
/// document schema.
proof fn proof_root_singles(f: Seq<(Seq<char>, Val)>, e: (Seq<char>, Val))
    requires
        f == seq![e],
    ensures
        lookup(f, "openapi"@) == (if e.0 == "openapi"@ {
            Some(e.1)
        } else {
            None::<Val>
        }),
        lookup(f, "info"@) == (if e.0 == "info"@ {
            Some(e.1)
        } else {
            None::<Val>
        }),
        lookup(f, "servers"@) == (if e.0 == "servers"@ {
            Some(e.1)
        } else {
            None::<Val>
        }),
        lookup(f, "paths"@) == (if e.0 == "paths"@ {
            Some(e.1)
        } else {
            None::<Val>
        }),
        lookup(f, "tags"@) == (if e.0 == "tags"@ {
            Some(e.1)
        } else {
            None::<Val>
        }),
        lookup(f, "externalDocs"@) == (if e.0 == "externalDocs"@ {
            Some(e.1)
        } else {
            None::<Val>
        }),
{
    lemma_lookup_single(e, "openapi"@);
    lemma_lookup_single(e, "info"@);
    lemma_lookup_single(e, "servers"@);
    lemma_lookup_single(e, "paths"@);
    lemma_lookup_single(e, "tags"@);
    lemma_lookup_single(e, "externalDocs"@);
}

/// Resolves a key's first match across the six field groups of a document
/// encoding.
proof fn proof_root_peel(
    f1: Seq<(Seq<char>, Val)>,
    f2: Seq<(Seq<char>, Val)>,
    f3: Seq<(Seq<char>, Val)>,
    f4: Seq<(Seq<char>, Val)>,
    f5: Seq<(Seq<char>, Val)>,
    f6: Seq<(Seq<char>, Val)>,
    ex: Seq<(Seq<char>, Val)>,
    k: Seq<char>,
)
    ensures
        lookup(f1 + f2 + f3 + f4 + f5 + f6 + ex, k) == (if lookup(f1, k) is Some {
            lookup(f1, k)
        } else if lookup(f2, k) is Some {
            lookup(f2, k)
        } else if lookup(f3, k) is Some {
            lookup(f3, k)
        } else if lookup(f4, k) is Some {
            lookup(f4, k)
        } else if lookup(f5, k) is Some {
            lookup(f5, k)
        } else if lookup(f6, k) is Some {
            lookup(f6, k)
        } else {
            lookup(ex, k)
        }),
{
    lemma_lookup_concat(f1 + f2 + f3 + f4 + f5 + f6, ex, k);
    lemma_lookup_concat(f1 + f2 + f3 + f4 + f5, f6, k);
    lemma_lookup_concat(f1 + f2 + f3 + f4, f5, k);
    lemma_lookup_concat(f1 + f2 + f3, f4, k);
    lemma_lookup_concat(f1 + f2, f3, k);
    lemma_lookup_concat(f1, f2, k);
}

/// Round-trip stability: decoding what a well-formed document encodes to
/// succeeds and reproduces the document, field for field, extras included.
pub proof fn lemma_root_round_trip(x: OpenAPIV3, y: OpenAPIV3)
    requires
        x.wf(),
        root_matches(x.enc(), y),
    ensures
        root_eqv(y, x),
{
    lemma_root_enc_ok(x);
    assert(info_matches(x.info.enc(), y.info));
    lemma_info_round_trip(x.info, y.info);
    match (x.servers, y.servers) {
        (Some(a), Some(b)) => {
            assert(servers_enc(a@) =~= servers_enc(b@)) by {
                let vo = servers_enc(a@);
                assert(servers_list_match(vo, a@));
                assert(servers_list_match(vo, b@));
                assert forall|i: int| 0 <= i < b@.len() implies servers_enc(b@)[i] == servers_enc(
                    a@,
                )[i] by {
                    assert(servers_enc(a@)[i] == a@[i].enc());
                    assert(servers_enc(b@)[i] == b@[i].enc());
                    assert(server_matches(vo[i], a@[i]));
                    assert(server_matches(vo[i], b@[i]));
                    assert(a@[i].wf());
                    lemma_server_round_trip(a@[i], b@[i]);
                    lemma_server_eqv_enc(a@[i], b@[i]);
                }
            }
        },
        _ => {},
    }
    match (x.tags, y.tags) {
        (Some(a), Some(b)) => {
            assert(tags_enc(a@) =~= tags_enc(b@)) by {
                let vo = tags_enc(a@);
                assert(tags_list_match(vo, a@));
                assert(tags_list_match(vo, b@));
                assert forall|i: int| 0 <= i < b@.len() implies tags_enc(b@)[i] == tags_enc(
                    a@,
                )[i] by {
                    assert(tags_enc(a@)[i] == a@[i].enc());
                    assert(tags_enc(b@)[i] == b@[i].enc());
                    assert(tag_matches(vo[i], a@[i]));
                    assert(tag_matches(vo[i], b@[i]));
                    assert(a@[i].wf());
                    lemma_tag_round_trip(a@[i], b@[i]);
                    lemma_tag_eqv_enc(a@[i], b@[i]);
                }
            }
        },
        _ => {},
    }
    match (x.external_docs, y.external_docs) {
        (Some(a), Some(b)) => {
            assert(extdoc_matches(a.enc(), b));
            lemma_extdoc_round_trip(a, b);
        },
        _ => {},
    }
}

/// Equivalent servers share one encoding.
pub proof fn lemma_server_eqv_enc(a: Server, b: Server)
    requires
        server_eqv(b, a),
    ensures
        a.enc() == b.enc(),
{
    match (a.variables, b.variables) {
        (Some(x), Some(y)) => {
            assert(vars_enc(x@) == vars_enc(y@));
        },
        _ => {},
    }
    assert(a.enc() =~~= b.enc());
}

/// Equivalent tags share one encoding.
pub proof fn lemma_tag_eqv_enc(a: Tag, b: Tag)
    requires
        tag_eqv(b, a),
    ensures
        a.enc() == b.enc(),
{
    match (a.external_docs, b.external_docs) {
        (Some(x), Some(y)) => {
            lemma_extdoc_eqv_enc(x, y);
        },
        _ => {},
    }
    assert(a.enc() =~~= b.enc());
}

} // verus!
